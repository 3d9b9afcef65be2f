use discord_keep_alive::config::error::ConfigError;
use discord_keep_alive::config::file::{file_config_to_partial, FileAccount, FileConfig};
use discord_keep_alive::config::id::{ACCOUNT_FLAT, ACTIVITY_SINGULAR};
use discord_keep_alive::config::load::absent_file_layer;
use discord_keep_alive::config::partial::PartialActivity;
use discord_keep_alive::config::token::SecretString;

fn tok(s: &str) -> Option<SecretString> {
    Some(SecretString::new(s.to_string()))
}

fn activity(name: &str, ty: &str) -> PartialActivity {
    PartialActivity { name: Some(name.into()), activity_type: Some(ty.into()), ..Default::default() }
}

#[test]
fn load_toml_str_assigns_ids() {
    // token = "flat-tok", name = "flat", [activity] Singular/playing,
    // [[activities]] Zero/listening and One/watching, [[accounts]] first and second.
    let file = FileConfig {
        account: FileAccount {
            token: tok("flat-tok"),
            name: Some("flat".into()),
            activity: Some(activity("Singular", "playing")),
            activities: vec![activity("Zero", "listening"), activity("One", "watching")],
            ..Default::default()
        },
        accounts: vec![
            FileAccount {
                name: Some("first".into()),
                token: tok("tok-0"),
                status: Some("online".into()),
                ..Default::default()
            },
            FileAccount { name: Some("second".into()), token: tok("tok-1"), kind: Some("bot".into()), ..Default::default() },
        ],
        ..Default::default()
    };
    let partial = file_config_to_partial(file);

    assert_eq!(partial.account_order, vec![ACCOUNT_FLAT.to_string(), "0".to_string(), "1".to_string()]);
    let token_of = |id: &str| partial.accounts.get(id).and_then(|a| a.scalars.token.as_ref().map(|t| t.as_str().to_string()));
    assert_eq!(token_of(ACCOUNT_FLAT).as_deref(), Some("flat-tok"));
    assert_eq!(partial.accounts.get("0").and_then(|a| a.scalars.name.as_deref()), Some("first"));
    assert_eq!(token_of("1").as_deref(), Some("tok-1"));

    let flat = partial.accounts.get(ACCOUNT_FLAT).unwrap();
    assert_eq!(flat.activity_order, vec![ACTIVITY_SINGULAR.to_string(), "0".to_string(), "1".to_string()]);
    assert_eq!(flat.activities.get(ACTIVITY_SINGULAR).and_then(|a| a.name.as_deref()), Some("Singular"));
    assert_eq!(flat.activities.get("0").and_then(|a| a.name.as_deref()), Some("Zero"));
    assert_eq!(flat.activities.get("1").and_then(|a| a.name.as_deref()), Some("One"));
}

#[test]
fn load_file_missing_errors() {
    let err = absent_file_layer("definitely-missing-dka-config-xyz.toml").err().unwrap();
    assert!(matches!(err, ConfigError::ConfigNotFound(_)));
}

#[test]
fn empty_account_slots_get_dense_ids() {
    let file = FileConfig {
        accounts: vec![
            FileAccount::default(),
            FileAccount { token: tok("tok-real"), name: Some("real".into()), ..Default::default() },
        ],
        ..Default::default()
    };
    let partial = file_config_to_partial(file);
    assert_eq!(partial.account_order, vec!["0".to_string()]);
    assert!(partial.accounts.contains_key("0"));
    assert!(!partial.accounts.contains_key("1"));
    assert_eq!(
        partial.accounts.get("0").and_then(|a| a.scalars.token.as_ref().map(|t| t.as_str().to_string())),
        Some("tok-real".to_string())
    );
    assert_eq!(partial.accounts.get("0").and_then(|a| a.scalars.name.as_deref()), Some("real"));
}

#[test]
fn empty_activity_slots_get_dense_ids() {
    let file = FileConfig {
        account: FileAccount {
            token: tok("t"),
            activities: vec![PartialActivity::default(), activity("Second", "playing")],
            ..Default::default()
        },
        ..Default::default()
    };
    let partial = file_config_to_partial(file);
    let flat = partial.accounts.get(ACCOUNT_FLAT).unwrap();
    assert_eq!(flat.activity_order, vec!["0".to_string()]);
    assert_eq!(flat.activities.get("0").and_then(|a| a.name.as_deref()), Some("Second"));
    assert!(!flat.activities.contains_key("1"));
}

#[test]
fn default_path_missing_is_an_empty_layer() {
    let p = absent_file_layer("config.toml").unwrap();
    assert!(p.log_level.is_none());
    assert!(p.accounts.is_empty());
}
