use discord_keep_alive::adapt::{has_presence_details, presence_summary, session_params};
use discord_keep_alive::config::defaults::product_defaults;
use discord_keep_alive::config::resolve::AccountConfig;
use discord_keep_alive::config::token::SecretString;
use discord_keep_alive::health::pipe_path;
use discord_keep_alive::logfmt::{
    default_filter, event_body, level_label, normalize_level, strip_debug_string, EventFields, LogLevel,
};
use discord_keep_alive::presence::activity::{ActivityConfig, CustomStatusConfig};
use discord_keep_alive::presence::kinds::{AccountKind, ActivityType, Device, Status};

fn account() -> AccountConfig {
    AccountConfig {
        name: "main".into(),
        token: SecretString::new("tok".into()),
        kind: AccountKind::User,
        device: Some(Device::Mobile),
        status: Some(Status::Dnd),
        custom_status: Some(CustomStatusConfig { text: Some("brb".into()), emoji: None }),
        activities: vec![
            ActivityConfig { name: Some("Rust".into()), activity_type: Some(ActivityType::Playing), ..ActivityConfig::new() },
            ActivityConfig { name: Some("Song".into()), ..ActivityConfig::new() },
        ],
    }
}

#[test]
fn session_params_pin_presence_and_pick_properties() {
    let defaults = product_defaults();
    let p = session_params(account(), &defaults, 1_800_000_000);
    assert_eq!(p.name, "main");
    assert_eq!(p.token, "tok");
    assert_eq!(p.kind, AccountKind::User);
    assert_eq!(p.properties, defaults.mobile);
    let acts = p.presence.get("activities").and_then(|a| a.as_array()).unwrap();
    assert_eq!(acts.len(), 3);
    let start = acts[1].get("timestamps").and_then(|t| t.get("start")).and_then(|s| s.as_i64());
    assert_eq!(start, Some(1_800_000_000_000));
    assert_eq!(p.presence.get("status").and_then(|s| s.as_str()), Some("dnd"));
}

#[test]
fn presence_summary_lists_status_custom_and_activities() {
    assert_eq!(presence_summary(&account()), "presence config: dnd (user/mobile), custom brb, PLAYING Rust, unknown Song");
    let bare = AccountConfig { status: None, device: None, custom_status: None, activities: vec![], ..account() };
    assert_eq!(presence_summary(&bare), "presence config: - (user/-)");
}

#[test]
fn presence_details_only_for_custom_text_or_named_activity() {
    assert!(has_presence_details(&account()));
    let bare = AccountConfig { custom_status: None, activities: vec![], ..account() };
    assert!(!has_presence_details(&bare));
    let empty_text = AccountConfig {
        custom_status: Some(CustomStatusConfig { text: Some(String::new()), emoji: Some("e".into()) }),
        activities: vec![ActivityConfig { name: Some(String::new()), ..ActivityConfig::new() }],
        ..account()
    };
    assert!(!has_presence_details(&empty_text));
    let named = AccountConfig { custom_status: None, ..account() };
    assert!(has_presence_details(&named));
}

#[test]
fn log_level_filter_and_labels() {
    assert_eq!(normalize_level("DEBUG"), "debug");
    assert_eq!(normalize_level("verbose"), "info");
    assert_eq!(
        default_filter("Warn"),
        "discord_keep_alive=warn,dka_gateway=warn,dka_runtime=warn,tokio=warn,tokio_tungstenite=warn,tungstenite=warn,rustls=warn"
    );
    assert_eq!(strip_debug_string("\"quoted\"".into()), "quoted");
    assert_eq!(strip_debug_string("\"".into()), "\"");
    assert_eq!(strip_debug_string("plain".into()), "plain");
    assert_eq!(level_label(LogLevel::Warn, false), " WARN");
    assert_eq!(level_label(LogLevel::Error, true), "\x1b[31mERROR\x1b[0m");
}

#[test]
fn event_fields_and_body() {
    let mut f = EventFields::new();
    f.record("message", "hello".into());
    f.record("account", "main".into());
    f.record("code", "4004".into());
    f.record("reason", "auth".into());
    assert_eq!(event_body(f.account.as_deref(), &f.message, &f.fields), "main: hello code=4004 reason=auth");
    assert_eq!(event_body(None, "x", &Vec::new()), "x");
}

#[test]
fn pipe_paths() {
    assert_eq!(pipe_path(" dka "), r"\\.\pipe\dka");
    assert_eq!(pipe_path(r"\\.\pipe\dka"), r"\\.\pipe\dka");
    assert_eq!(pipe_path("//./pipe/dka"), "//./pipe/dka");
}
