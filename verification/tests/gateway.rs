use discord_keep_alive::gateway::payload::{invalid_session_resumable, ReadyInfo};
use discord_keep_alive::gateway::properties::{identify_properties, identify_properties_with, ClientProperties, Defaults};
use discord_keep_alive::gateway::reconnect::{
    backoff_base_ms, backoff_delay_ms, backoff_with_jitter, gateway_query, resume_ws_url, GATEWAY_HOST,
};
use discord_keep_alive::gateway::heartbeat::{first_heartbeat_delay, heartbeat_tick, HeartbeatCmd};
use discord_keep_alive::gateway::payload::{OP_IDENTIFY, OP_RESUME};
use discord_keep_alive::gateway::session::{handshake, identify_d, identify_d_with, SessionEnd, SessionParams, SessionState};
use discord_keep_alive::json::Json;
use discord_keep_alive::presence::kinds::{AccountKind, Device};

fn text<'a>(j: &'a Json, key: &str) -> Option<&'a str> {
    j.get(key).and_then(|v| v.as_str())
}

fn num(j: &Json, key: &str) -> Option<i64> {
    j.get(key).and_then(|v| v.as_i64())
}

fn flag(j: &Json, key: &str) -> Option<bool> {
    j.get(key).and_then(|v| v.as_bool())
}

#[test]
fn ready_extracts_fields_ignoring_junk() {
    let info = ReadyInfo::from_ready_fields(
        "abc".into(),
        Some("wss://resume.example".into()),
        "snip".into(),
        Some("1234".into()),
    );
    assert_eq!(info.username, "snip");
    assert_eq!(info.discriminator.as_deref(), Some("1234"));
    assert_eq!(info.session_id, "abc");
    assert_eq!(info.resume_gateway_url, "wss://resume.example");
}

#[test]
fn invalid_session_bool() {
    for (label, d, expected) in [("true", "true", true), ("false", "false", false)] {
        assert_eq!(invalid_session_resumable(Some(d)), expected, "{label}");
    }
    assert!(!invalid_session_resumable(None));
    assert!(invalid_session_resumable(Some(" true\n")));
    assert!(!invalid_session_resumable(Some("\"true\"")));
}

#[test]
fn ready_missing_resume_url_falls_back() {
    let info = ReadyInfo::from_ready_fields("sid".into(), None, "u".into(), None);
    assert_eq!(info.resume_gateway_url, GATEWAY_HOST);
}

#[test]
fn display_name_discriminator() {
    for (label, disc, expected) in [("zero", Some("0"), "user"), ("num", Some("1234"), "user#1234")] {
        let info = ReadyInfo {
            username: "user".into(),
            discriminator: disc.map(str::to_string),
            session_id: "s".into(),
            resume_gateway_url: GATEWAY_HOST.into(),
        };
        assert_eq!(info.display_name(), expected, "{label}");
    }
}

#[test]
fn backoff_escalates_then_caps() {
    let a1 = backoff_with_jitter(1);
    let a4 = backoff_with_jitter(4);
    let a20 = backoff_with_jitter(20);
    assert!((1000..=1250).contains(&a1));
    assert!((8000..=10_000).contains(&a4));
    assert!((90_000..=112_500).contains(&a20));
}

#[test]
fn early_backoff_retains_subsecond_jitter() {
    let mut saw_fractional = false;
    for _ in 0..64 {
        let ms = backoff_with_jitter(1);
        assert!((1000..=1250).contains(&ms));
        if ms > 1000 {
            saw_fractional = true;
            break;
        }
    }
    assert!(saw_fractional, "expected at least one attempt-1 delay with non-zero sub-second jitter");
}

#[test]
fn backoff_base_and_delay_exact() {
    assert_eq!(backoff_base_ms(0), 1000);
    assert_eq!(backoff_base_ms(1), 1000);
    assert_eq!(backoff_base_ms(2), 2000);
    assert_eq!(backoff_base_ms(4), 8000);
    assert_eq!(backoff_base_ms(7), 64_000);
    assert_eq!(backoff_base_ms(8), 90_000);
    assert_eq!(backoff_base_ms(20), 90_000);
    assert_eq!(backoff_delay_ms(1, 0), 1000);
    assert_eq!(backoff_delay_ms(1, 137), 1137);
    assert_eq!(backoff_delay_ms(4, 2000), 10_000);
}

#[test]
fn resume_url_appends_query() {
    let query = gateway_query();
    assert_eq!(
        resume_ws_url("wss://gateway-us-east1-b.discord.gg"),
        format!("wss://gateway-us-east1-b.discord.gg/?{query}")
    );
    assert_eq!(resume_ws_url("wss://gateway.discord.gg/?v=9"), format!("wss://gateway.discord.gg/?v=9&{query}"));
}

fn state(healthy: bool, session: bool) -> SessionState {
    let mut state = SessionState::new();
    if session {
        state.session_id = Some("abc".into());
        state.seq = Some(7);
    }
    state.session_healthy = healthy;
    state
}

#[test]
fn error_resumes_only_once_session_is_established() {
    assert!(state(true, true).can_resume_after_error());
    assert!(!state(false, true).can_resume_after_error());
    assert!(!state(true, false).can_resume_after_error());
}

#[test]
fn only_reconnect_closes_and_keeps_session_resumable() {
    let frame = SessionEnd::reconnect(true, "reconnect").close_frame().expect("reconnect sends a close frame");
    assert!(!matches!(frame.0, 1000 | 1001));
    assert!(frame.0 >= 3000 && frame.0 <= 4999);
    assert!(SessionEnd::Shutdown.close_frame().is_none());
    assert!(SessionEnd::Fatal { code: 4004, reason: "auth".into() }.close_frame().is_none());
}

fn sample_defaults() -> Defaults {
    Defaults {
        bot: ClientProperties {
            os: "FreeBSD".into(),
            browser: Some("lib".into()),
            device: "lib".into(),
            user_agent: Some("bot-ua".into()),
            ..Default::default()
        },
        web: ClientProperties {
            os: "Windows".into(),
            browser: Some("Firefox".into()),
            device: String::new(),
            user_agent: Some("web-ua".into()),
            ..Default::default()
        },
        desktop: ClientProperties {
            os: "Windows".into(),
            browser: Some("Discord Client".into()),
            device: "Discord Client".into(),
            user_agent: Some("desktop-ua".into()),
            ..Default::default()
        },
        mobile: ClientProperties {
            os: "iOS".into(),
            browser: Some("Discord iOS".into()),
            device: "iPhone".into(),
            user_agent: None,
            ..Default::default()
        },
    }
}

fn assert_uuid_v4(s: &str) {
    assert_eq!(s.len(), 36);
    let b = s.as_bytes();
    assert_eq!(&s[8..9], "-");
    assert_eq!(&s[13..14], "-");
    assert_eq!(&s[18..19], "-");
    assert_eq!(&s[23..24], "-");
    assert_eq!(b[14], b'4');
    assert!(matches!(b[19], b'8' | b'9' | b'a' | b'b'));
    for (i, c) in s.chars().enumerate() {
        if matches!(i, 8 | 13 | 18 | 23) {
            continue;
        }
        assert!(c.is_ascii_hexdigit() && !c.is_ascii_uppercase(), "{i} {c}");
    }
}

fn assert_rich_common(props: &Json, ua: Option<&str>) {
    assert_eq!(flag(props, "has_client_mods"), Some(false));
    assert!(props.get("client_event_source").map(|v| v.is_null()).unwrap_or(false));
    assert_uuid_v4(text(props, "client_launch_id").expect("client_launch_id"));
    assert!(props.get("launch_signature").is_none());
    match ua {
        Some(ua) => assert_eq!(text(props, "browser_user_agent"), Some(ua)),
        None => assert!(props.get("browser_user_agent").is_none()),
    }
}

#[test]
fn client_property_templates() {
    let defaults = sample_defaults();
    let cases = [
        ("bot", AccountKind::Bot, Some(Device::Desktop), "FreeBSD", Some("lib"), "lib", Some("bot-ua")),
        ("web", AccountKind::User, Some(Device::Web), "Windows", Some("Firefox"), "", Some("web-ua")),
        ("desktop", AccountKind::User, Some(Device::Desktop), "Windows", Some("Discord Client"), "Discord Client", Some("desktop-ua")),
        ("mobile", AccountKind::User, Some(Device::Mobile), "iOS", Some("Discord iOS"), "iPhone", None),
    ];
    for (label, kind, device, os, browser, device_name, ua) in cases {
        let raw = defaults.client_properties(kind, device);
        let props = identify_properties(raw, kind);
        assert_eq!(text(&props, "os"), Some(os), "{label}");
        assert_eq!(text(&props, "browser"), Some(browser.unwrap()), "{label}");
        assert_eq!(text(&props, "device"), Some(device_name), "{label}");
        assert_eq!(raw.user_agent.as_deref(), ua, "{label}");
        assert!(props.get("has_client_mods").is_none(), "{label}");
    }
}

#[test]
fn properties_web_omits_browser_when_cleared() {
    let mut defaults = sample_defaults();
    defaults.web.browser = None;
    let props = identify_properties(defaults.client_properties(AccountKind::User, None), AccountKind::User);
    assert!(props.get("browser").is_none());
}

#[test]
fn identify_properties_rich_desktop() {
    let props = identify_properties(
        &ClientProperties {
            os: "Windows".into(),
            browser: Some("Discord Client".into()),
            device: "Discord Client".into(),
            user_agent: Some("desktop-ua".into()),
            client_version: Some("1.0.9000".into()),
            os_version: Some("10.0.26100".into()),
            os_arch: Some("x64".into()),
            app_arch: Some("x64".into()),
            system_locale: Some("en-US".into()),
            release_channel: Some("stable".into()),
            browser_version: Some("40.0.0".into()),
            os_sdk_version: Some("26100".into()),
            client_build_number: Some("500000".into()),
            native_build_number: Some("80000".into()),
        },
        AccountKind::User,
    );
    assert_eq!(text(&props, "os"), Some("Windows"));
    assert_eq!(text(&props, "browser"), Some("Discord Client"));
    assert_eq!(text(&props, "device"), Some("Discord Client"));
    assert_eq!(text(&props, "client_version"), Some("1.0.9000"));
    assert_eq!(text(&props, "os_version"), Some("10.0.26100"));
    assert_eq!(text(&props, "os_arch"), Some("x64"));
    assert_eq!(text(&props, "app_arch"), Some("x64"));
    assert_eq!(text(&props, "system_locale"), Some("en-US"));
    assert_eq!(text(&props, "release_channel"), Some("stable"));
    assert_eq!(text(&props, "browser_version"), Some("40.0.0"));
    assert_eq!(text(&props, "os_sdk_version"), Some("26100"));
    assert_eq!(num(&props, "client_build_number"), Some(500000));
    assert_eq!(num(&props, "native_build_number"), Some(80000));
    assert_rich_common(&props, Some("desktop-ua"));
}

#[test]
fn identify_properties_rich_web() {
    let props = identify_properties(
        &ClientProperties {
            os: "Windows".into(),
            browser: Some("Firefox".into()),
            device: String::new(),
            user_agent: Some("web-ua".into()),
            os_version: Some("10".into()),
            system_locale: Some("en-US".into()),
            release_channel: Some("stable".into()),
            browser_version: Some("140.0".into()),
            client_build_number: Some("500000".into()),
            ..Default::default()
        },
        AccountKind::User,
    );
    assert_eq!(text(&props, "os"), Some("Windows"));
    assert_eq!(text(&props, "browser"), Some("Firefox"));
    assert_eq!(text(&props, "device"), Some(""));
    assert_eq!(text(&props, "os_version"), Some("10"));
    assert_eq!(text(&props, "system_locale"), Some("en-US"));
    assert_eq!(text(&props, "release_channel"), Some("stable"));
    assert_eq!(text(&props, "browser_version"), Some("140.0"));
    assert_eq!(num(&props, "client_build_number"), Some(500000));
    assert!(props.get("os_arch").is_none());
    assert!(props.get("app_arch").is_none());
    assert!(props.get("client_version").is_none());
    assert!(props.get("native_build_number").is_none());
    assert!(props.get("os_sdk_version").is_none());
    assert_rich_common(&props, Some("web-ua"));
}

#[test]
fn identify_properties_rich_mobile() {
    let props = identify_properties(
        &ClientProperties {
            os: "iOS".into(),
            browser: Some("Discord iOS".into()),
            device: "iPhone".into(),
            user_agent: None,
            os_version: Some("18.0".into()),
            system_locale: Some("en-US".into()),
            release_channel: Some("stable".into()),
            ..Default::default()
        },
        AccountKind::User,
    );
    assert_eq!(text(&props, "os"), Some("iOS"));
    assert_eq!(text(&props, "browser"), Some("Discord iOS"));
    assert_eq!(text(&props, "device"), Some("iPhone"));
    assert_eq!(text(&props, "os_version"), Some("18.0"));
    assert_eq!(text(&props, "system_locale"), Some("en-US"));
    assert_eq!(text(&props, "release_channel"), Some("stable"));
    assert!(props.get("client_build_number").is_none());
    assert!(props.get("native_build_number").is_none());
    assert!(props.get("browser_version").is_none());
    assert!(props.get("client_version").is_none());
    assert_rich_common(&props, None);
}

#[test]
fn identify_properties_bot_stays_minimal() {
    let props = identify_properties(
        &ClientProperties {
            os: "linux".into(),
            browser: Some("discord-keep-alive".into()),
            device: "discord-keep-alive".into(),
            user_agent: Some("bot-ua".into()),
            ..Default::default()
        },
        AccountKind::Bot,
    );
    let obj = props.as_object().expect("object");
    assert_eq!(obj.len(), 3);
    assert_eq!(text(&props, "os"), Some("linux"));
    assert_eq!(text(&props, "browser"), Some("discord-keep-alive"));
    assert_eq!(text(&props, "device"), Some("discord-keep-alive"));
    assert!(props.get("has_client_mods").is_none());
    assert!(props.get("client_launch_id").is_none());
    assert!(props.get("browser_user_agent").is_none());
}

#[test]
fn identify_properties_bot_extras_stay_minimal() {
    let props = identify_properties(
        &ClientProperties {
            os: "linux".into(),
            browser: Some("discord-keep-alive".into()),
            device: "discord-keep-alive".into(),
            user_agent: Some("bot-ua".into()),
            client_version: Some("1.0.0".into()),
            os_version: Some("6.8.0".into()),
            os_arch: Some("x64".into()),
            app_arch: Some("x64".into()),
            system_locale: Some("en-US".into()),
            release_channel: Some("stable".into()),
            browser_version: Some("1.0".into()),
            os_sdk_version: Some("0".into()),
            client_build_number: Some("1".into()),
            native_build_number: Some("1".into()),
        },
        AccountKind::Bot,
    );
    let obj = props.as_object().expect("object");
    assert_eq!(obj.len(), 3);
    assert_eq!(text(&props, "os"), Some("linux"));
    assert_eq!(text(&props, "browser"), Some("discord-keep-alive"));
    assert_eq!(text(&props, "device"), Some("discord-keep-alive"));
    assert!(props.get("has_client_mods").is_none());
    assert!(props.get("client_event_source").is_none());
    assert!(props.get("client_launch_id").is_none());
    assert!(props.get("os_version").is_none());
    assert!(props.get("browser_user_agent").is_none());
}

#[test]
fn identify_properties_omits_unparseable_build_numbers() {
    let props = identify_properties(
        &ClientProperties {
            os: "Windows".into(),
            device: String::new(),
            release_channel: Some("stable".into()),
            client_build_number: Some("not-a-number".into()),
            native_build_number: Some("-1".into()),
            ..Default::default()
        },
        AccountKind::User,
    );
    assert!(props.get("client_build_number").is_none());
    assert!(props.get("native_build_number").is_none());
    assert_rich_common(&props, None);
}

fn params(kind: AccountKind, properties: ClientProperties) -> SessionParams {
    SessionParams { name: "t".into(), token: "tok".into(), kind, presence: Json::Object(Vec::new()), properties }
}

fn is_empty_object(j: Option<&Json>) -> bool {
    j.and_then(|v| v.as_object()).map(|o| o.is_empty()).unwrap_or(false)
}

#[test]
fn user_identify_envelope() {
    let d = identify_d(&params(
        AccountKind::User,
        ClientProperties {
            os: "Windows".into(),
            browser: Some("Firefox".into()),
            device: String::new(),
            user_agent: Some("ua".into()),
            os_version: Some("10".into()),
            ..Default::default()
        },
    ));
    assert_eq!(text(&d, "token"), Some("tok"));
    assert_eq!(flag(&d, "compress"), Some(false));
    assert_eq!(num(&d, "large_threshold"), Some(250));
    assert!(is_empty_object(d.get("presence")));
    assert_eq!(num(&d, "capabilities"), Some(1_734_653));
    let cs = d.get("client_state").expect("client_state");
    assert!(is_empty_object(cs.get("guild_versions")));
    assert_eq!(num(cs, "api_code_version"), Some(0));
    assert_eq!(cs.as_object().map(|o| o.len()), Some(2));
    assert!(d.get("intents").is_none());
    let props = d.get("properties").expect("properties");
    assert_eq!(text(props, "os"), Some("Windows"));
    assert_eq!(flag(props, "has_client_mods"), Some(false));
    assert!(props.get("client_event_source").map(|v| v.is_null()).unwrap_or(false));
    assert_eq!(text(props, "browser_user_agent"), Some("ua"));
    assert!(props.get("launch_signature").is_none());
}

#[test]
fn bot_identify_envelope() {
    let d = identify_d(&params(
        AccountKind::Bot,
        ClientProperties {
            os: "linux".into(),
            browser: Some("discord-keep-alive".into()),
            device: "discord-keep-alive".into(),
            ..Default::default()
        },
    ));
    assert_eq!(text(&d, "token"), Some("tok"));
    assert_eq!(flag(&d, "compress"), Some(false));
    assert_eq!(num(&d, "large_threshold"), Some(50));
    assert_eq!(num(&d, "intents"), Some(0));
    assert!(is_empty_object(d.get("presence")));
    assert!(d.get("capabilities").is_none());
    assert!(d.get("client_state").is_none());
    let props = d.get("properties").and_then(|p| p.as_object()).expect("properties");
    assert_eq!(props.len(), 3);
    let props = d.get("properties").unwrap();
    assert_eq!(text(props, "os"), Some("linux"));
    assert_eq!(text(props, "browser"), Some("discord-keep-alive"));
    assert_eq!(text(props, "device"), Some("discord-keep-alive"));
}

#[test]
fn identify_properties_with_given_launch_id() {
    let props = ClientProperties {
        os: "Linux".into(),
        browser: None,
        device: "dev".into(),
        user_agent: Some("ua".into()),
        client_version: Some("1.2".into()),
        os_version: None,
        os_arch: None,
        app_arch: None,
        system_locale: None,
        release_channel: None,
        browser_version: None,
        os_sdk_version: None,
        client_build_number: None,
        native_build_number: None,
    };
    let user = identify_properties_with(&props, AccountKind::User, "launch-1".into());
    assert_eq!(text(&user, "client_launch_id"), Some("launch-1"));
    assert_eq!(text(&user, "browser_user_agent"), Some("ua"));
    assert_eq!(flag(&user, "has_client_mods"), Some(false));
    let bot = identify_properties_with(&props, AccountKind::Bot, "launch-1".into());
    assert!(bot.get("client_launch_id").is_none());
    assert_eq!(text(&bot, "os"), Some("Linux"));
    let bare = ClientProperties { client_version: None, ..props };
    let plain = identify_properties_with(&bare, AccountKind::User, "launch-1".into());
    assert!(plain.get("client_launch_id").is_none());
}

#[test]
fn handshake_resumes_known_session_else_identifies() {
    let p = params(AccountKind::Bot, ClientProperties { os: "linux".into(), ..Default::default() });
    let resumable = SessionState { seq: Some(42), session_id: Some("sid".into()), resume_url: None, session_healthy: false };
    let (op, d) = handshake(&resumable, &p);
    assert_eq!(op, OP_RESUME);
    assert_eq!(text(&d, "token"), Some("tok"));
    assert_eq!(text(&d, "session_id"), Some("sid"));
    assert_eq!(num(&d, "seq"), Some(42));
    let fresh = SessionState { seq: Some(42), session_id: None, resume_url: None, session_healthy: true };
    let (op, d) = handshake(&fresh, &p);
    assert_eq!(op, OP_IDENTIFY);
    assert_eq!(num(&d, "intents"), Some(0));
    assert!(d.get("session_id").is_none());
}

#[test]
fn identify_d_with_carries_given_properties() {
    let p = params(AccountKind::User, ClientProperties::default());
    let props = Json::Object(vec![("os".to_string(), Json::Str("X".into()))]);
    let d = identify_d_with(&p, props);
    assert_eq!(d.get("properties").and_then(|v| text(v, "os")), Some("X"));
    assert_eq!(num(&d, "large_threshold"), Some(250));
}

#[test]
fn heartbeat_tick_sends_or_reports_zombie() {
    assert_eq!(heartbeat_tick(false, -1, 41250, 0), HeartbeatCmd::Send { seq: None });
    assert_eq!(heartbeat_tick(false, 0, 41250, 0), HeartbeatCmd::Send { seq: Some(0) });
    assert_eq!(heartbeat_tick(false, 17, 41250, 100), HeartbeatCmd::Send { seq: Some(17) });
    assert_eq!(
        heartbeat_tick(true, 17, 41250, 50_000),
        HeartbeatCmd::Zombie { interval_ms: 41250, since_ack_ms: 50_000 }
    );
}

#[test]
fn first_heartbeat_waits_part_of_the_interval() {
    assert_eq!(first_heartbeat_delay(0), 0);
    assert_eq!(first_heartbeat_delay(1), 0);
    for _ in 0..32 {
        assert!(first_heartbeat_delay(41250) < 41250);
    }
}
