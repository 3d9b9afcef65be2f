use discord_keep_alive::config::resolve::AccountConfig;
use discord_keep_alive::config::token::SecretString;
use discord_keep_alive::indexed::partial::{PartialAccount, PartialActivity, PartialCustomStatus};
use discord_keep_alive::presence::activity::{ActivityConfig, CustomStatusConfig};
use discord_keep_alive::presence::kinds::{AccountKind, ActivityType, Device, Status};

#[test]
fn account_config_debug_layout() {
    let cfg = AccountConfig {
        name: "n".into(),
        token: SecretString::new("tok".to_string()),
        kind: AccountKind::User,
        device: None,
        status: None,
        custom_status: None,
        activities: vec![],
    };
    assert_eq!(
        cfg.debug_text(),
        "AccountConfig { name: \"n\", token: <redacted>, kind: User, device: None, status: None, custom_status: None, activities: [] }"
    );
}

#[test]
fn account_config_debug_nested_records() {
    let mut act = ActivityConfig::default();
    act.name = Some("Game".into());
    act.activity_type = Some(ActivityType::Playing);
    let cfg = AccountConfig {
        name: "a\"b".into(),
        token: SecretString::new("tok".to_string()),
        kind: AccountKind::Bot,
        device: Some(Device::Desktop),
        status: Some(Status::Dnd),
        custom_status: Some(CustomStatusConfig { text: Some("hi".into()), emoji: None }),
        activities: vec![act],
    };
    assert_eq!(
        cfg.debug_text(),
        "AccountConfig { name: \"a\\\"b\", token: <redacted>, kind: Bot, device: Some(Desktop), status: Some(Dnd), \
custom_status: Some(CustomStatusConfig { text: Some(\"hi\"), emoji: None }), activities: [ActivityConfig { \
name: Some(\"Game\"), activity_type: Some(Playing), platform: None, timestamp: None, application_id: \"1\", \
details: None, url: None, large_image: ImageAsset { image: None, text: None }, small_image: ImageAsset { image: None, \
text: None }, button: ActivityButton { name: None, url: None }, button2: ActivityButton { name: None, url: None }, \
party: ActivityParty { id: \"1\", current: None, max: None } }] }"
    );
}

#[test]
fn partial_account_debug_layout() {
    let account = PartialAccount {
        name: Some("n".into()),
        token: Some(SecretString::new("secret".to_string())),
        custom_status: Some(PartialCustomStatus { text: None, emoji: Some("e".into()) }),
        activities: vec![PartialActivity { details: Some("d".into()), ..Default::default() }],
        ..Default::default()
    };
    let text = account.debug_text();
    assert!(!text.contains("secret"));
    assert_eq!(
        text,
        "PartialAccount { name: Some(\"n\"), token: Some(<redacted>), kind: None, device: None, status: None, \
custom_status: Some(PartialCustomStatus { text: None, emoji: Some(\"e\") }), activity: None, activities: \
[PartialActivity { name: None, activity_type: None, platform: None, timestamp: None, application_id: None, \
details: Some(\"d\"), url: None, large_image: None, large_image_text: None, small_image: None, \
small_image_text: None, button: None, button_url: None, button2: None, button2_url: None, party_id: None, \
party_current: None, party_max: None }] }"
    );
}

#[test]
fn debug_renderings_differ_only_where_fields_differ() {
    let a = PartialAccount { token: Some(SecretString::new("one".to_string())), ..Default::default() };
    let b = PartialAccount { token: Some(SecretString::new("two".to_string())), ..Default::default() };
    assert_eq!(a.debug_text(), b.debug_text());
}
