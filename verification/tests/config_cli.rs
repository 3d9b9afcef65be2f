use discord_keep_alive::config::cli::{cli_partial, parse_account_relative_path, parse_set_path, Cli};
use discord_keep_alive::config::error::ConfigError;
use discord_keep_alive::config::fields::{
    AccountScalarField, ActivityField, ClientPropField, CustomStatusField, DefaultsProfile,
};
use discord_keep_alive::config::id::{ACCOUNT_FLAT, ACTIVITY_SINGULAR};
use discord_keep_alive::config::partial::PartialConfig;
use discord_keep_alive::config::path::{
    account_scalar_path, activity_field_path, custom_status_path, AccountPath, ConfigPath,
};
use discord_keep_alive::config::token::SecretString;

fn token_of<'a>(p: &'a PartialConfig, id: &str) -> Option<&'a str> {
    p.accounts.get(id).and_then(|a| a.scalars.token.as_ref().map(|t| t.as_str()))
}

fn status_of<'a>(p: &'a PartialConfig, id: &str) -> Option<&'a str> {
    p.accounts.get(id).and_then(|a| a.scalars.status.as_deref())
}

fn catalog_sample_value(label: &str) -> String {
    format!("cat-{label}")
}

#[test]
fn flat_cli_flags_to_flat_account() {
    let mut cli = Cli::default();
    cli.account.token = Some(SecretString::new("cli-tok".into()));
    cli.account.name = Some("cli-name".into());
    cli.account.kind = Some("user".into());
    cli.account.device = Some("mobile".into());
    cli.account.status = Some("dnd".into());
    cli.custom_status.custom_status = Some("brb".into());
    cli.custom_status.custom_status_emoji = Some("💤".into());
    cli.activity.activity = Some("Game".into());
    cli.activity.activity_type = Some("playing".into());
    cli.activity.activity_details = Some("level 1".into());
    cli.log_level = Some("debug".into());
    cli.health_socket = Some("/tmp/cli-h".into());

    let p = cli_partial(&cli).unwrap();
    assert_eq!(p.log_level.as_deref(), Some("debug"));
    assert_eq!(p.health_socket.as_deref(), Some("/tmp/cli-h"));
    let acc = p.accounts.get(ACCOUNT_FLAT).unwrap();
    assert_eq!(acc.scalars.token.as_ref().map(|t| t.as_str()), Some("cli-tok"));
    assert_eq!(acc.scalars.name.as_deref(), Some("cli-name"));
    assert_eq!(acc.scalars.kind.as_deref(), Some("user"));
    assert_eq!(acc.scalars.device.as_deref(), Some("mobile"));
    assert_eq!(acc.scalars.status.as_deref(), Some("dnd"));
    assert_eq!(acc.custom_status.as_ref().and_then(|c| c.text.as_deref()), Some("brb"));
    assert_eq!(acc.custom_status.as_ref().and_then(|c| c.emoji.as_deref()), Some("💤"));
    let act = acc.activities.get(ACTIVITY_SINGULAR).unwrap();
    assert_eq!(act.name.as_deref(), Some("Game"));
    assert_eq!(act.activity_type.as_deref(), Some("playing"));
    assert_eq!(act.details.as_deref(), Some("level 1"));
    assert_eq!(p.account_order, vec![ACCOUNT_FLAT.to_string()]);
}

#[test]
fn set_path_forms() {
    type Case = (&'static str, &'static [&'static str], &'static [&'static str], fn(&PartialConfig));
    let cases: &[Case] = &[
        ("log_level", &["log_level=debug"], &[], |p| {
            assert_eq!(p.log_level.as_deref(), Some("debug"));
        }),
        ("accounts_main_token", &["accounts.main.token=x"], &[], |p| {
            assert_eq!(token_of(p, "main"), Some("x"));
            assert_eq!(p.account_order, vec!["main".to_string()]);
        }),
        ("account_set_main_status", &[], &["main.status=dnd"], |p| {
            assert_eq!(status_of(p, "main"), Some("dnd"));
        }),
        ("activities_foo_name", &["activities.foo.name=Rust"], &[], |p| {
            let flat = p.accounts.get(ACCOUNT_FLAT).unwrap();
            assert_eq!(flat.activities.get("foo").and_then(|a| a.name.as_deref()), Some("Rust"));
        }),
        ("defaults_web_os", &["defaults.web.os=Linux"], &[], |p| {
            assert_eq!(p.defaults.web.os.as_deref(), Some("Linux"));
        }),
        ("set_value_with_extra_eq", &["activity.details=a=b=c"], &[], |p| {
            let act = p.accounts.get(ACCOUNT_FLAT).and_then(|a| a.activities.get(ACTIVITY_SINGULAR)).unwrap();
            assert_eq!(act.details.as_deref(), Some("a=b=c"));
        }),
    ];
    for &(label, sets, account_sets, check) in cases {
        let mut cli = Cli::default();
        cli.set = sets.iter().map(|s| (*s).to_string()).collect();
        cli.account_set = account_sets.iter().map(|s| (*s).to_string()).collect();
        let p = cli_partial(&cli).unwrap_or_else(|e| panic!("{label}: {}", e.message()));
        check(&p);
    }
}

#[test]
fn account_set_activity_forms() {
    let mut cli = Cli::default();
    cli.account_set = vec![
        "main.activities.game.type=playing".into(),
        "main.activity.game.details=d".into(),
        "main.activity.name=Singular".into(),
        "0.status=idle".into(),
    ];
    let p = cli_partial(&cli).unwrap();
    let main = p.accounts.get("main").unwrap();
    assert_eq!(main.activities.get("game").and_then(|a| a.activity_type.as_deref()), Some("playing"));
    assert_eq!(main.activities.get("game").and_then(|a| a.details.as_deref()), Some("d"));
    assert_eq!(main.activities.get(ACTIVITY_SINGULAR).and_then(|a| a.name.as_deref()), Some("Singular"));
    assert_eq!(status_of(&p, "0"), Some("idle"));
}

#[test]
fn set_overrides_flat_last_wins() {
    let mut cli = Cli::default();
    cli.account.status = Some("online".into());
    cli.set = vec!["status=dnd".into()];
    let p = cli_partial(&cli).unwrap();
    assert_eq!(status_of(&p, ACCOUNT_FLAT), Some("dnd"));
}

#[test]
fn set_unknown_path_errors() {
    let mut cli = Cli::default();
    cli.set = vec!["nope.field=1".into()];
    let err = cli_partial(&cli).err().unwrap();
    assert!(matches!(err, ConfigError::InvalidPath(_)));
}

#[test]
fn cli_partial_omits_unset() {
    let p = cli_partial(&Cli::default()).unwrap();
    assert!(p.log_level.is_none());
    assert!(p.health_socket.is_none());
    assert!(p.accounts.is_empty());
}

#[test]
fn cli_cli_debug_redacts_token() {
    let mut cli = Cli::default();
    cli.account.token = Some(SecretString::new("super-secret-token".into()));
    let debug = cli.debug_text();
    assert!(debug.contains("<redacted>"), "{debug}");
    assert!(!debug.contains("super-secret-token"), "{debug}");
}

#[test]
fn catalog_set_suffixes_and_cli_longs_reachable_via_path_parser() {
    for field in AccountScalarField::all() {
        let suffix = field.spec().set_suffix;
        let path = parse_set_path(suffix).unwrap_or_else(|e| panic!("{suffix}: {}", e.message()));
        assert_eq!(path, account_scalar_path(ACCOUNT_FLAT.into(), field));
        let relative =
            parse_account_relative_path(suffix).unwrap_or_else(|e| panic!("relative {suffix}: {}", e.message()));
        assert_eq!(relative, AccountPath::Scalar(field));
        if let Some(cli_long) = field.spec().cli_long {
            let flat_token = if cli_long == "account" { "account" } else { suffix };
            let path = parse_set_path(flat_token).unwrap_or_else(|e| panic!("{flat_token}: {}", e.message()));
            assert_eq!(path, account_scalar_path(ACCOUNT_FLAT.into(), field));
        }
    }
    for field in CustomStatusField::all() {
        let suffix = field.spec().set_suffix;
        let path = format!("custom_status.{suffix}");
        let got = parse_set_path(&path).unwrap_or_else(|e| panic!("{path}: {}", e.message()));
        assert_eq!(got, custom_status_path(ACCOUNT_FLAT.into(), field));
        let relative =
            parse_account_relative_path(&path).unwrap_or_else(|e| panic!("relative {path}: {}", e.message()));
        assert_eq!(relative, AccountPath::CustomStatus(field));
    }
    for field in ActivityField::all() {
        let suffix = field.spec().set_suffix;
        let path = format!("activity.{suffix}");
        let got = parse_set_path(&path).unwrap_or_else(|e| panic!("{path}: {}", e.message()));
        assert_eq!(got, activity_field_path(ACCOUNT_FLAT.into(), ACTIVITY_SINGULAR.into(), field));
        let relative =
            parse_account_relative_path(&path).unwrap_or_else(|e| panic!("relative {path}: {}", e.message()));
        assert_eq!(relative, AccountPath::Activity(ACTIVITY_SINGULAR.into(), field));
        let path = format!("activities.foo.{suffix}");
        let got = parse_set_path(&path).unwrap_or_else(|e| panic!("{path}: {}", e.message()));
        assert_eq!(got, activity_field_path(ACCOUNT_FLAT.into(), "foo".into(), field));
    }
}

#[test]
fn catalog_defaults_set_paths_reachable() {
    for profile in DefaultsProfile::all() {
        for field in ClientPropField::all() {
            let path = format!("defaults.{}.{}", profile.toml(), field.spec().set_suffix);
            let got = parse_set_path(&path).unwrap_or_else(|e| panic!("{path}: {}", e.message()));
            assert_eq!(got, ConfigPath::Defaults(profile, field), "{path}");
            let sample = catalog_sample_value(field.spec().set_suffix);
            let mut cli = Cli::default();
            cli.set = vec![format!("{path}={sample}")];
            let mut p = cli_partial(&cli).unwrap_or_else(|e| panic!("{path}: {}", e.message()));
            let props = profile.props_mut(&mut p.defaults);
            assert_eq!(field.get_mut(props).as_deref(), Some(sample.as_str()), "{path}");
        }
    }
}

#[test]
fn invalid_path_mentions_allowed_roots() {
    let err = parse_set_path("nope.field").err().unwrap();
    let msg = err.message();
    assert!(msg.contains("allowed roots"), "{msg}");
    assert!(msg.contains("log_level"), "{msg}");
}

#[test]
fn set_without_equals_is_invalid() {
    let mut cli = Cli::default();
    cli.set = vec!["log_level".into()];
    assert!(matches!(cli_partial(&cli).err().unwrap(), ConfigError::InvalidPath(_)));
}

#[test]
fn cli_set_wins_over_account_set_and_flat_flags() {
    let mut cli = Cli::default();
    cli.account.status = Some("idle".into());
    cli.account_set = vec!["main.status=online".into(), "__flat__.status=invisible".into()];
    cli.set = vec!["status=dnd".into(), "accounts.main.status=idle".into()];
    let p = cli_partial(&cli).unwrap();
    assert_eq!(status_of(&p, ACCOUNT_FLAT), Some("dnd"));
    assert_eq!(status_of(&p, "main"), Some("idle"));
}
