use discord_keep_alive::config::env::{
    account_suffixes_longest_first, activity_suffixes_longest_first, from_env_map, parse_env_key, AccountEnvField,
};
use discord_keep_alive::config::fields::{AccountScalarField, ActivityField, CustomStatusField};
use discord_keep_alive::config::id::{ACCOUNT_FLAT, ACTIVITY_SINGULAR};
use discord_keep_alive::config::partial::PartialConfig;
use discord_keep_alive::config::path::{account_scalar_path, activity_field_path, custom_status_path};

fn env_map(pairs: &[(&str, &str)]) -> Vec<(String, String)> {
    pairs.iter().map(|(k, v)| ((*k).to_string(), (*v).to_string())).collect()
}

fn token_of<'a>(p: &'a PartialConfig, id: &str) -> Option<&'a str> {
    p.accounts.get(id).and_then(|a| a.scalars.token.as_ref().map(|t| t.as_str()))
}

fn status_of<'a>(p: &'a PartialConfig, id: &str) -> Option<&'a str> {
    p.accounts.get(id).and_then(|a| a.scalars.status.as_deref())
}

fn name_of<'a>(p: &'a PartialConfig, id: &str) -> Option<&'a str> {
    p.accounts.get(id).and_then(|a| a.scalars.name.as_deref())
}

#[test]
fn flat_token_and_indexed_accounts() {
    let p = from_env_map(env_map(&[
        ("TOKEN", "flat"),
        ("ACCOUNT_0_TOKEN", "tok-0"),
        ("ACCOUNT_0", "zero"),
        ("ACCOUNT_test_TOKEN", "tok-test"),
        ("ACTIVITY_foo_TYPE", "playing"),
        ("ACTIVITY_foo", "Game"),
    ]));
    assert_eq!(token_of(&p, ACCOUNT_FLAT), Some("flat"));
    assert_eq!(token_of(&p, "0"), Some("tok-0"));
    assert_eq!(name_of(&p, "0"), Some("zero"));
    assert_eq!(token_of(&p, "test"), Some("tok-test"));
    let flat = p.accounts.get(ACCOUNT_FLAT).unwrap();
    assert_eq!(flat.activities.get("foo").and_then(|a| a.name.as_deref()), Some("Game"));
    assert_eq!(flat.activities.get("foo").and_then(|a| a.activity_type.as_deref()), Some("playing"));
}

#[test]
fn ambiguity_custom_status_and_large_image_text() {
    let p = from_env_map(env_map(&[
        ("TOKEN", "t"),
        ("ACCOUNT_CUSTOM_STATUS_TEXT", "ignored"),
        ("CUSTOM_STATUS_TEXT", "works"),
        ("ACTIVITY_LARGE_IMAGE_TEXT", "hover"),
    ]));
    let flat = p.accounts.get(ACCOUNT_FLAT).unwrap();
    assert_eq!(flat.custom_status.as_ref().and_then(|c| c.text.as_deref()), Some("works"));
    assert!(!p.accounts.contains_key("CUSTOM"));
    assert_eq!(
        flat.activities.get(ACTIVITY_SINGULAR).and_then(|a| a.large_image_text.as_deref()),
        Some("hover")
    );
    assert!(!flat.activities.contains_key("LARGE"));
}

#[test]
fn no_pack_account_one_stays_one() {
    let p = from_env_map(env_map(&[("ACCOUNT_1_TOKEN", "tok-1")]));
    assert_eq!(p.accounts.len(), 1);
    assert!(p.accounts.contains_key("1"));
    assert!(!p.accounts.contains_key("0"));
    assert!(!p.accounts.contains_key(ACCOUNT_FLAT));
    assert_eq!(token_of(&p, "1"), Some("tok-1"));
}

#[test]
fn empty_values_unset_and_case_sensitive() {
    let p = from_env_map(env_map(&[
        ("TOKEN", "  "),
        ("token", "lower"),
        ("STATUS", "  dnd  "),
        ("ACCOUNT_0_TOKEN", ""),
        ("ACCOUNT_0_STATUS", "idle"),
    ]));
    assert_eq!(status_of(&p, ACCOUNT_FLAT), Some("dnd"));
    assert!(p.accounts.get(ACCOUNT_FLAT).map(|a| a.scalars.token.is_none()).unwrap_or(true));
    assert_eq!(status_of(&p, "0"), Some("idle"));
    assert!(p.accounts.get("0").map(|a| a.scalars.token.is_none()).unwrap_or(true));
}

#[test]
fn account_activity_nested_keys() {
    let p = from_env_map(env_map(&[
        ("ACCOUNT_main_TOKEN", "t"),
        ("ACCOUNT_main_ACTIVITY", "Game"),
        ("ACCOUNT_main_ACTIVITY_TYPE", "playing"),
        ("ACCOUNT_main_ACTIVITY_1", "Second"),
        ("ACCOUNT_main_ACTIVITY_1_DETAILS", "d"),
    ]));
    let acc = p.accounts.get("main").unwrap();
    assert_eq!(acc.activities.get(ACTIVITY_SINGULAR).and_then(|a| a.name.as_deref()), Some("Game"));
    assert_eq!(acc.activities.get(ACTIVITY_SINGULAR).and_then(|a| a.activity_type.as_deref()), Some("playing"));
    assert_eq!(acc.activities.get("1").and_then(|a| a.name.as_deref()), Some("Second"));
    assert_eq!(acc.activities.get("1").and_then(|a| a.details.as_deref()), Some("d"));
}

#[test]
fn defaults_from_env() {
    let p = from_env_map(env_map(&[("TOKEN", "t"), ("DEFAULTS_WEB_OS", "Linux"), ("DEFAULTS_BOT_BROWSER", "bot-browser")]));
    assert_eq!(p.defaults.web.os.as_deref(), Some("Linux"));
    assert_eq!(p.defaults.bot.browser.as_deref(), Some("bot-browser"));
}

#[test]
fn from_env_lookup_well_known() {
    let p = from_env_map(env_map(&[("LOG_LEVEL", "debug"), ("HEALTH_SOCKET", "/tmp/h"), ("TOKEN", "tok")]));
    assert_eq!(p.log_level.as_deref(), Some("debug"));
    assert_eq!(p.health_socket.as_deref(), Some("/tmp/h"));
    assert_eq!(token_of(&p, ACCOUNT_FLAT), Some("tok"));
}

#[test]
fn discover_account_without_token() {
    let p = from_env_map(env_map(&[("ACCOUNT_x_STATUS", "idle")]));
    assert!(p.accounts.contains_key("x"));
    assert_eq!(status_of(&p, "x"), Some("idle"));
}

#[test]
fn catalog_env_suffixes_are_reachable() {
    let account_suffixes = account_suffixes_longest_first();
    let act_suffixes = activity_suffixes_longest_first();
    for field in AccountScalarField::all() {
        let Some(suffix) = field.env_suffix() else {
            continue;
        };
        assert!(
            account_suffixes.iter().any(|(s, f)| *s == suffix && matches!(f, AccountEnvField::Scalar(x) if *x == field)),
            "AccountScalarField env_suffix {suffix} missing from account_suffixes"
        );
        let path = parse_env_key(suffix).expect(suffix);
        assert_eq!(path, account_scalar_path(ACCOUNT_FLAT.into(), field), "flat env key {suffix}");
        let key = format!("ACCOUNT_0_{suffix}");
        let path = parse_env_key(&key).expect(&key);
        assert_eq!(path, account_scalar_path("0".into(), field), "indexed {key}");
    }
    for field in CustomStatusField::all() {
        let suffix = field.env_suffix();
        assert!(
            account_suffixes.iter().any(|(s, f)| *s == suffix && matches!(f, AccountEnvField::Custom(x) if *x == field)),
            "CustomStatusField env_suffix {suffix} missing"
        );
        let path = parse_env_key(suffix).expect(suffix);
        assert_eq!(path, custom_status_path(ACCOUNT_FLAT.into(), field));
        let key = format!("ACCOUNT_0_{suffix}");
        let path = parse_env_key(&key).expect(&key);
        assert_eq!(path, custom_status_path("0".into(), field));
    }
    for field in ActivityField::all() {
        let Some(suffix) = field.env_suffix() else {
            continue;
        };
        assert!(
            act_suffixes.iter().any(|(f, s)| *f == field && *s == suffix),
            "ActivityField env_suffix {suffix} missing from activity_suffixes"
        );
        let key = format!("ACTIVITY_{suffix}");
        let path = parse_env_key(&key).expect(&key);
        assert_eq!(path, activity_field_path(ACCOUNT_FLAT.into(), ACTIVITY_SINGULAR.into(), field));
    }
}

#[test]
fn env_layer_does_not_depend_on_variable_order() {
    let a = from_env_map(env_map(&[("STATUS", "idle"), ("TOKEN", "t"), ("ACCOUNT_b_TOKEN", "b"), ("ACCOUNT_a_TOKEN", "a")]));
    let b = from_env_map(env_map(&[("ACCOUNT_a_TOKEN", "a"), ("TOKEN", "t"), ("ACCOUNT_b_TOKEN", "b"), ("STATUS", "idle")]));
    assert_eq!(a.account_order, b.account_order);
    assert_eq!(status_of(&a, ACCOUNT_FLAT), status_of(&b, ACCOUNT_FLAT));
    assert_eq!(token_of(&a, "a"), token_of(&b, "a"));
}

#[test]
fn account_variables_name_the_leaf_of_their_account() {
    assert_eq!(
        parse_env_key("ACCOUNT_main-1_STATUS"),
        Some(account_scalar_path("main-1".into(), AccountScalarField::Status))
    );
    assert_eq!(
        parse_env_key("ACCOUNT_CUSTOM_TOKEN"),
        Some(account_scalar_path("CUSTOM".into(), AccountScalarField::Token))
    );
    assert_eq!(
        parse_env_key("ACCOUNT_x_CUSTOM_STATUS_TEXT"),
        Some(custom_status_path("x".into(), CustomStatusField::Text))
    );
    assert_eq!(parse_env_key("ACCOUNT_CUSTOM_STATUS"), None);
    assert_eq!(parse_env_key("STATUS"), Some(account_scalar_path(ACCOUNT_FLAT.into(), AccountScalarField::Status)));
}

#[test]
fn activity_variables_name_the_leaf_of_their_activity() {
    assert_eq!(
        parse_env_key("ACTIVITY_game_LARGE_IMAGE_TEXT"),
        Some(activity_field_path(ACCOUNT_FLAT.into(), "game".into(), ActivityField::LargeImageText))
    );
    assert_eq!(
        parse_env_key("ACCOUNT_a1_ACTIVITY_game_URL"),
        Some(activity_field_path("a1".into(), "game".into(), ActivityField::Url))
    );
    assert_eq!(
        parse_env_key("ACCOUNT_a1_ACTIVITY_DETAILS"),
        Some(activity_field_path("a1".into(), ACTIVITY_SINGULAR.into(), ActivityField::Details))
    );
    assert_eq!(
        parse_env_key("ACTIVITY_BUTTON_URL"),
        Some(activity_field_path(ACCOUNT_FLAT.into(), ACTIVITY_SINGULAR.into(), ActivityField::ButtonUrl))
    );
}
