use discord_keep_alive::config::fields::{
    AccountScalarField, ActivityField, ClientPropField, CustomStatusField, DefaultsProfile,
};
use discord_keep_alive::config::id::{parse_user_id, ACCOUNT_FLAT, ACTIVITY_SINGULAR};
use discord_keep_alive::config::partial::PartialConfig;
use discord_keep_alive::config::path::{
    account_scalar_path, activity_field_path, apply_path, custom_status_path, ConfigPath,
};

#[test]
fn field_spec_name_special_cases() {
    let name = AccountScalarField::Name.spec();
    assert_eq!(name.env_suffix, None);
    assert_eq!(name.cli_long, Some("account"));
    assert_eq!(name.toml, "name");

    let act_name = ActivityField::Name.spec();
    assert_eq!(act_name.env_suffix, None);
    assert_eq!(act_name.cli_long, Some("activity"));
    assert_eq!(ActivityField::Type.spec().toml, "type");

    let cs_text = CustomStatusField::Text.spec();
    assert_eq!(cs_text.env_suffix, Some("CUSTOM_STATUS"));
    assert_eq!(cs_text.cli_long, Some("custom-status"));
    assert_eq!(cs_text.toml, "text");
}

#[test]
fn parse_user_id_accepts() {
    for id in ["a", "0", "account-1", "A1b2", "x", "abc-def-ghi", "1"] {
        assert_eq!(parse_user_id(id).unwrap(), id, "{id}");
    }
    let max = format!("a{}", "b".repeat(63));
    assert_eq!(max.len(), 64);
    assert_eq!(parse_user_id(&max).unwrap(), max);
}

#[test]
fn parse_user_id_rejects() {
    for id in ["", "_bad", "has_under", "trail-", "-lead", "a.b", "a b", ACCOUNT_FLAT, ACTIVITY_SINGULAR] {
        assert!(parse_user_id(id).is_err(), "{id}");
    }
    let too_long = format!("a{}", "b".repeat(64));
    assert_eq!(too_long.len(), 65);
    assert!(parse_user_id(&too_long).is_err());
}

#[test]
fn apply_path_account_and_activity_fields() {
    let mut partial = PartialConfig::default();
    apply_path(&mut partial, &account_scalar_path("primary".into(), AccountScalarField::Token), "tok".into());
    apply_path(&mut partial, &account_scalar_path("primary".into(), AccountScalarField::Name), "Primary".into());
    apply_path(&mut partial, &custom_status_path("primary".into(), CustomStatusField::Text), "brb".into());
    apply_path(
        &mut partial,
        &activity_field_path("primary".into(), "main".into(), ActivityField::Name),
        "Game".into(),
    );
    apply_path(
        &mut partial,
        &activity_field_path("primary".into(), "main".into(), ActivityField::Type),
        "playing".into(),
    );
    apply_path(
        &mut partial,
        &activity_field_path("primary".into(), ACTIVITY_SINGULAR.into(), ActivityField::Details),
        "details".into(),
    );

    assert_eq!(partial.account_order, vec!["primary".to_string()]);
    let acc = partial.accounts.get("primary").unwrap();
    assert_eq!(acc.scalars.token.as_ref().map(|t| t.as_str()), Some("tok"));
    assert_eq!(acc.scalars.name.as_deref(), Some("Primary"));
    assert_eq!(acc.custom_status.as_ref().and_then(|c| c.text.as_deref()), Some("brb"));
    assert_eq!(acc.activity_order, vec!["main".to_string(), ACTIVITY_SINGULAR.to_string()]);
    assert_eq!(acc.activities.get("main").and_then(|a| a.name.as_deref()), Some("Game"));
    assert_eq!(acc.activities.get("main").and_then(|a| a.activity_type.as_deref()), Some("playing"));
    assert_eq!(acc.activities.get(ACTIVITY_SINGULAR).and_then(|a| a.details.as_deref()), Some("details"));
}

#[test]
fn apply_path_defaults_and_scalars() {
    let mut partial = PartialConfig::default();
    apply_path(&mut partial, &ConfigPath::LogLevel, "debug".into());
    apply_path(&mut partial, &ConfigPath::HealthSocket, "/tmp/h".into());
    apply_path(&mut partial, &ConfigPath::Defaults(DefaultsProfile::Web, ClientPropField::Os), "Linux".into());
    apply_path(&mut partial, &account_scalar_path(ACCOUNT_FLAT.into(), AccountScalarField::Token), "flat-tok".into());

    assert_eq!(partial.log_level.as_deref(), Some("debug"));
    assert_eq!(partial.health_socket.as_deref(), Some("/tmp/h"));
    assert_eq!(partial.defaults.web.os.as_deref(), Some("Linux"));
    assert_eq!(
        partial.accounts.get(ACCOUNT_FLAT).and_then(|a| a.scalars.token.as_ref().map(|t| t.as_str())),
        Some("flat-tok")
    );
    assert_eq!(partial.account_order, vec![ACCOUNT_FLAT.to_string()]);
}

#[test]
fn apply_path_overwrites_the_leaf_it_names() {
    let mut partial = PartialConfig::default();
    apply_path(&mut partial, &ConfigPath::LogLevel, "debug".into());
    apply_path(&mut partial, &ConfigPath::LogLevel, "trace".into());
    assert_eq!(partial.log_level.as_deref(), Some("trace"));
    apply_path(&mut partial, &account_scalar_path("a".into(), AccountScalarField::Status), "idle".into());
    apply_path(&mut partial, &account_scalar_path("a".into(), AccountScalarField::Status), "dnd".into());
    assert_eq!(partial.accounts.get("a").and_then(|a| a.scalars.status.as_deref()), Some("dnd"));
    assert_eq!(partial.account_order, vec!["a".to_string()]);
}

#[test]
fn apply_path_keeps_other_leaves() {
    let mut partial = PartialConfig::default();
    let name = activity_field_path("a".into(), "x".into(), ActivityField::Name);
    let details = activity_field_path("a".into(), "x".into(), ActivityField::Details);
    apply_path(&mut partial, &name, "Game".into());
    apply_path(&mut partial, &details, "Ranked".into());
    apply_path(&mut partial, &custom_status_path("a".into(), CustomStatusField::Emoji), "🎮".into());
    let account = partial.accounts.get("a").unwrap();
    let act = account.activities.get("x").unwrap();
    assert_eq!(act.name.as_deref(), Some("Game"));
    assert_eq!(act.details.as_deref(), Some("Ranked"));
    assert_eq!(act.url, None);
    let cs = account.custom_status.as_ref().unwrap();
    assert_eq!(cs.text, None);
    assert_eq!(cs.emoji.as_deref(), Some("🎮"));
    assert_eq!(partial.log_level, None);
}

#[test]
fn activity_env_suffixes_are_distinct_and_flags_follow_them() {
    let all = ActivityField::all();
    for f in &all {
        assert_eq!(f.env_suffix().is_none(), *f == ActivityField::Name);
        match f.env_suffix() {
            None => assert_eq!(f.cli_long(), "activity"),
            Some(sfx) => {
                let flag = format!("activity-{}", sfx.to_ascii_lowercase().replace('_', "-"));
                assert_eq!(f.cli_long(), flag.as_str());
            }
        }
        for g in &all {
            if f != g && f.env_suffix().is_some() && g.env_suffix().is_some() {
                assert_ne!(f.env_suffix(), g.env_suffix());
            }
        }
    }
}
