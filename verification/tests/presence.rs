use discord_keep_alive::json::Json;
use discord_keep_alive::presence::activity::{
    build_custom_status, normalize_activity_image, pin_default_activity_timestamps, ActivityButton, ActivityConfig,
    ActivityParty, CustomStatusConfig, ImageAsset, DEFAULT_APPLICATION_ID,
};
use discord_keep_alive::presence::kinds::{AccountKind, ActivityPlatform, ActivityType, Status};
use discord_keep_alive::presence::status::build_presence_data;

fn named(name: &str) -> ActivityConfig {
    ActivityConfig { name: Some(name.into()), application_id: "1".into(), ..ActivityConfig::new() }
}

fn user_activity(cfg: ActivityConfig) -> Json {
    cfg.to_activity(AccountKind::User).unwrap()
}

fn at<'a>(j: &'a Json, path: &[&str]) -> Option<&'a Json> {
    let mut cur = j;
    for k in path {
        cur = cur.get(k)?;
    }
    Some(cur)
}

fn text<'a>(j: &'a Json, path: &[&str]) -> Option<&'a str> {
    at(j, path).and_then(|v| v.as_str())
}

fn num(j: &Json, path: &[&str]) -> Option<i64> {
    at(j, path).and_then(|v| v.as_i64())
}

fn strings(j: Option<&Json>) -> Vec<String> {
    j.and_then(|v| v.as_array())
        .map(|a| a.iter().map(|x| x.as_str().unwrap_or("?").to_string()).collect())
        .unwrap_or_default()
}

fn nums(j: Option<&Json>) -> Vec<i64> {
    j.and_then(|v| v.as_array()).map(|a| a.iter().map(|x| x.as_i64().unwrap()).collect()).unwrap_or_default()
}

fn keys(j: Option<&Json>) -> Vec<String> {
    j.and_then(|v| v.as_object()).map(|o| o.iter().map(|(k, _)| k.clone()).collect()).unwrap_or_default()
}

#[test]
fn custom_status_emoji_forms() {
    let cases: &[(&str, &str, &[(&str, &str)], bool)] = &[
        ("unicode", "🔥", &[("name", "🔥")], false),
        ("numeric_id", "1234567890", &[("id", "1234567890")], false),
        ("static_tag", "<:wave:123>", &[("name", "wave"), ("id", "123")], false),
        ("animated_tag", "<a:party:456>", &[("name", "party"), ("id", "456")], true),
    ];
    for (label, emoji, fields, animated) in cases {
        let v = build_custom_status("hi", Some(emoji));
        assert_eq!(num(&v, &["type"]), Some(4), "{label}");
        assert_eq!(text(&v, &["name"]), Some("Custom Status"), "{label}");
        assert_eq!(text(&v, &["state"]), Some("hi"), "{label}");
        let e = v.get("emoji").unwrap();
        for (k, want) in fields.iter() {
            assert_eq!(text(e, &[k]), Some(*want), "{label}");
        }
        let n = fields.len() + if *animated { 1 } else { 0 };
        assert_eq!(e.as_object().unwrap().len(), n, "{label}");
        if *animated {
            assert_eq!(e.get("animated").and_then(|b| b.as_bool()), Some(true), "{label}");
        }
    }
}

#[test]
fn activity_config_default_matches_new() {
    assert_eq!(ActivityConfig::default(), ActivityConfig::new());
    assert_eq!(ActivityConfig::default().application_id, DEFAULT_APPLICATION_ID);
}

#[test]
fn custom_status_config_requires_text() {
    assert!(CustomStatusConfig::default().to_activity().is_none());
    let v = CustomStatusConfig { text: Some("brb".into()), emoji: Some("💤".into()) }.to_activity().unwrap();
    assert_eq!(num(&v, &["type"]), Some(4));
    assert_eq!(text(&v, &["state"]), Some("brb"));
    assert_eq!(text(&v, &["emoji", "name"]), Some("💤"));
}

#[test]
fn rich_presence_defaults_and_fields() {
    let mut cfg = named("Game");
    cfg.activity_type = Some(ActivityType::Playing);
    let v = user_activity(cfg);
    assert_eq!(
        (text(&v, &["name"]), num(&v, &["type"]), text(&v, &["application_id"])),
        (Some("Game"), Some(0), Some("1")),
        "defaults"
    );

    let mut cfg = named("Song");
    cfg.activity_type = Some(ActivityType::Listening);
    cfg.platform = Some(ActivityPlatform::Xbox);
    cfg.timestamp = Some("1700000000".into());
    cfg.details = Some("Artist".into());
    cfg.application_id = "99".into();
    let v = user_activity(cfg);
    assert_eq!(text(&v, &["platform"]), Some("xbox"), "platform_ts");
    assert_eq!(num(&v, &["timestamps", "start"]), Some(1_700_000_000_000i64), "platform_ts");
    assert_eq!(text(&v, &["details"]), Some("Artist"), "platform_ts");
    assert_eq!(text(&v, &["application_id"]), Some("99"), "platform_ts");
}

#[test]
fn rich_presence_buttons_and_party() {
    let mut cfg = named("Stream");
    cfg.activity_type = Some(ActivityType::Streaming);
    cfg.url = Some("https://twitch.tv/x".into());
    cfg.button = ActivityButton { name: Some("Join".into()), url: Some("https://example.com/a".into()) };
    cfg.button2 = ActivityButton { name: Some("Watch".into()), url: Some("https://example.com/b".into()) };
    cfg.party = ActivityParty { id: "party1".into(), current: Some("2".into()), max: Some("5".into()) };
    let v = user_activity(cfg);
    assert_eq!(strings(v.get("buttons")), ["Join", "Watch"]);
    assert_eq!(strings(at(&v, &["metadata", "button_urls"])), ["https://example.com/a", "https://example.com/b"]);
    assert_eq!(text(&v, &["party", "id"]), Some("party1"));
    assert_eq!(nums(at(&v, &["party", "size"])), [2, 5]);
    assert_eq!(text(&v, &["url"]), Some("https://twitch.tv/x"));
}

#[test]
fn partial_activity_fields() {
    let mut cfg = named("X");
    cfg.button = ActivityButton { name: Some("Only name".into()), url: None };
    assert!(user_activity(cfg).get("buttons").is_none(), "partial_button");

    let mut cfg = named("X");
    cfg.party = ActivityParty { id: "1".into(), current: Some("1".into()), max: None };
    let v = user_activity(cfg);
    assert_eq!(text(&v, &["party", "id"]), Some("1"), "party_id_only");
    assert!(at(&v, &["party", "size"]).is_none(), "party_id_only");

    let mut cfg = named("X");
    cfg.large_image = ImageAsset { image: None, text: Some("hover".into()) };
    let v = user_activity(cfg);
    assert_eq!(text(&v, &["assets", "large_text"]), Some("hover"), "assets_text_only");
    assert!(at(&v, &["assets", "large_image"]).is_none(), "assets_text_only");
}

#[test]
fn no_name_yields_none() {
    assert!(ActivityConfig::new().to_activity(AccountKind::User).is_none());
}

#[test]
fn pin_default_activity_timestamps_fills_missing_and_empty() {
    let mut activities = vec![
        named("A"),
        ActivityConfig { timestamp: Some(String::new()), ..named("B") },
        ActivityConfig { timestamp: Some("1700000000".into()), ..named("C") },
    ];
    pin_default_activity_timestamps(&mut activities, 1_800_000_000);
    assert_eq!(activities[0].timestamp.as_deref(), Some("1800000000"));
    assert_eq!(activities[1].timestamp.as_deref(), Some("1800000000"));
    assert_eq!(activities[2].timestamp.as_deref(), Some("1700000000"));
}

#[test]
fn pin_default_activity_timestamps_is_stable() {
    let mut activities = vec![named("A")];
    pin_default_activity_timestamps(&mut activities, 1_800_000_000);
    pin_default_activity_timestamps(&mut activities, 1_900_000_000);
    assert_eq!(activities[0].timestamp.as_deref(), Some("1800000000"));
    let v = user_activity(activities[0].clone());
    assert_eq!(num(&v, &["timestamps", "start"]), Some(1_800_000_000_000i64));
}

#[test]
fn bot_activity_whitelist() {
    let mut cfg = named("Stream");
    cfg.activity_type = Some(ActivityType::Streaming);
    cfg.url = Some("https://twitch.tv/x".into());
    cfg.details = Some("Live".into());
    cfg.button = ActivityButton { name: Some("Join".into()), url: Some("https://example.com".into()) };
    let v = cfg.to_activity(AccountKind::Bot).unwrap();
    assert_eq!(
        (text(&v, &["name"]), num(&v, &["type"]), text(&v, &["url"]), text(&v, &["state"])),
        (Some("Stream"), Some(1), Some("https://twitch.tv/x"), Some("Live"))
    );
    assert!(v.get("buttons").is_none() && v.get("application_id").is_none());
}

#[test]
fn custom_type_maps_to_playing() {
    let mut cfg = named("brb");
    cfg.activity_type = Some(ActivityType::Custom);
    for kind in [AccountKind::Bot, AccountKind::User] {
        let v = cfg.to_activity(kind).unwrap();
        assert_eq!(text(&v, &["name"]), Some("brb"), "{kind:?}");
        assert_eq!(num(&v, &["type"]), Some(0), "{kind:?}");
        assert!(v.get("emoji").is_none(), "{kind:?}");
        if kind == AccountKind::Bot {
            assert!(v.get("state").is_none(), "{kind:?}");
        }
    }
}

#[test]
fn normalize_activity_image_inputs() {
    for (label, input, expected) in [
        ("cdn_query", "https://cdn.discordapp.com/app-assets/123/abc.png?size=128", "mp:app-assets/123/abc.png"),
        ("media_external", "https://media.discordapp.net/external/hash/img.png", "mp:external/hash/img.png"),
        ("mp_prefix", "mp:already", "mp:already"),
        ("numeric_id", "1234567890", "1234567890"),
        ("youtube", "youtube:dQw4w9WgXcQ", "youtube:dQw4w9WgXcQ"),
    ] {
        assert_eq!(normalize_activity_image(input), expected, "{label}");
    }
}

#[test]
fn rich_presence_rewrites_large_image() {
    let mut cfg = named("X");
    cfg.large_image = ImageAsset { image: Some("https://cdn.discordapp.com/app-assets/1/2.png".into()), text: None };
    assert_eq!(text(&user_activity(cfg), &["assets", "large_image"]), Some("mp:app-assets/1/2.png"));
}

fn presence(status: Option<Status>, custom: Option<&CustomStatusConfig>, activities: &[ActivityConfig], kind: AccountKind) -> Json {
    build_presence_data(status, custom, activities, false, None, kind)
}

fn activities_of(d: &Json) -> &Vec<Json> {
    d.get("activities").and_then(|a| a.as_array()).unwrap()
}

#[test]
fn empty_presence_online() {
    let d = presence(None, None, &[], AccountKind::User);
    assert_eq!(text(&d, &["status"]), Some("online"));
    assert!(activities_of(&d).is_empty());
    assert_eq!(d.get("afk").and_then(|b| b.as_bool()), Some(false));
    assert!(d.get("since").map(|s| s.is_null()).unwrap_or(false));
}

#[test]
fn with_custom_status_only() {
    let custom = CustomStatusConfig { text: Some("brb".into()), emoji: Some("🔥".into()) };
    let d = presence(Some(Status::Idle), Some(&custom), &[], AccountKind::User);
    assert_eq!(text(&d, &["status"]), Some("idle"));
    let acts = activities_of(&d);
    assert_eq!(acts.len(), 1);
    assert_eq!(num(&acts[0], &["type"]), Some(4));
    assert_eq!(text(&acts[0], &["state"]), Some("brb"));
    assert_eq!(text(&acts[0], &["emoji", "name"]), Some("🔥"));
}

#[test]
fn custom_plus_multiple_rich() {
    let custom = CustomStatusConfig { text: Some("coding".into()), emoji: None };
    let mut a = named("Rust");
    a.activity_type = Some(ActivityType::Playing);
    let mut b = named("Spotify");
    b.activity_type = Some(ActivityType::Listening);
    let d = presence(Some(Status::Online), Some(&custom), &[a, b], AccountKind::User);
    let acts = activities_of(&d);
    assert_eq!(acts.len(), 3);
    assert_eq!(num(&acts[0], &["type"]), Some(4));
    assert_eq!(text(&acts[0], &["state"]), Some("coding"));
    assert_eq!(text(&acts[1], &["name"]), Some("Rust"));
    assert_eq!(num(&acts[1], &["type"]), Some(0));
    assert_eq!(text(&acts[2], &["name"]), Some("Spotify"));
    assert_eq!(num(&acts[2], &["type"]), Some(2));
}

#[test]
fn bot_activity_omits_rich_fields() {
    let mut activity = named("Game");
    activity.activity_type = Some(ActivityType::Playing);
    activity.details = Some("Level 1".into());
    activity.application_id = "99".into();
    let d = presence(None, None, &[activity], AccountKind::Bot);
    let act = &activities_of(&d)[0];
    assert_eq!(text(act, &["name"]), Some("Game"));
    assert_eq!(num(act, &["type"]), Some(0));
    assert_eq!(text(act, &["state"]), Some("Level 1"));
    assert!(act.get("application_id").is_none());
}

#[test]
fn bot_ignores_custom_and_extra_activities() {
    let custom = CustomStatusConfig { text: Some("ignored".into()), emoji: Some("x".into()) };
    let mut first = named("First");
    first.activity_type = Some(ActivityType::Playing);
    let mut second = named("Second");
    second.activity_type = Some(ActivityType::Watching);
    let d = presence(None, Some(&custom), &[first, second], AccountKind::Bot);
    let acts = activities_of(&d);
    assert_eq!(acts.len(), 1);
    assert_eq!(text(&acts[0], &["name"]), Some("First"));
    assert_eq!(num(&acts[0], &["type"]), Some(0));
}

#[test]
fn nameless_activities_skipped() {
    let d = presence(None, None, &[ActivityConfig::new(), named("Only")], AccountKind::User);
    let acts = activities_of(&d);
    assert_eq!(acts.len(), 1);
    assert_eq!(text(&acts[0], &["name"]), Some("Only"));
    assert_eq!(keys(d.get("activities").and_then(|a| a.as_array()).map(|a| &a[0])).first().map(|s| s.as_str()), Some("name"));
}
