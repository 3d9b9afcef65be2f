use discord_keep_alive::config::cli::{cli_partial, Cli};
use discord_keep_alive::config::env::from_env_map;
use discord_keep_alive::config::error::ConfigError;
use discord_keep_alive::config::file::{file_config_to_partial, FileAccount, FileConfig};
use discord_keep_alive::config::id::{ACCOUNT_FLAT, ACTIVITY_SINGULAR};
use discord_keep_alive::config::keyed::KeyedMap;
use discord_keep_alive::config::load::{absent_file_layer, load_health_endpoint_with, load_with, resolve_config_path};
use discord_keep_alive::config::partial::{AccountScalars, PartialAccount, PartialActivity, PartialConfig};
use discord_keep_alive::config::resolve::DEFAULT_LOG_LEVEL;
use discord_keep_alive::config::token::SecretString;
use discord_keep_alive::presence::kinds::{ActivityType, Device, Status};

const DEFAULT_CONFIG_PATH: &str = "config.toml";

fn tok(s: &str) -> Option<SecretString> {
    Some(SecretString::new(s.to_string()))
}

fn env_map(pairs: &[(&str, &str)]) -> Vec<(String, String)> {
    pairs.iter().map(|(k, v)| ((*k).to_string(), (*v).to_string())).collect()
}

fn flat_layer(account: PartialAccount) -> PartialConfig {
    let mut accounts = KeyedMap::new();
    accounts.insert(ACCOUNT_FLAT.to_string(), account);
    PartialConfig { accounts, account_order: vec![ACCOUNT_FLAT.to_string()], ..Default::default() }
}

fn account_with_token(token: &str) -> PartialAccount {
    PartialAccount { scalars: AccountScalars { token: tok(token), ..Default::default() }, ..Default::default() }
}

/// The layer of a file with the given top-level settings.
fn file_layer(file: FileConfig) -> Result<PartialConfig, ConfigError> {
    Ok(file_config_to_partial(file))
}

fn token_file() -> FileConfig {
    FileConfig { account: FileAccount { token: tok("t"), ..Default::default() }, ..Default::default() }
}

#[test]
fn load_with_file_env_cli_precedence() {
    let file = FileConfig {
        log_level: Some("warn".into()),
        account: FileAccount { token: tok("file-tok"), ..Default::default() },
        ..Default::default()
    };
    let env_layer = PartialConfig {
        log_level: Some("debug".into()),
        ..flat_layer(PartialAccount {
            scalars: AccountScalars { token: tok("env-tok"), status: Some("online".into()), ..Default::default() },
            ..Default::default()
        })
    };
    let mut cli = Cli::default();
    cli.log_level = Some("trace".into());
    cli.account.token = tok("cli-tok");
    let app = load_with(file_layer(file), env_layer, cli_partial(&cli).unwrap()).ok().unwrap();
    assert_eq!(app.log_level, "trace");
    assert_eq!(app.accounts.len(), 1);
    assert_eq!(app.accounts[0].token.as_str(), "cli-tok");
    assert_eq!(app.accounts[0].status, Some(Status::Online));
}

#[test]
fn health_endpoint_cli_empty_disables() {
    let file = || FileConfig { health_socket: Some("/tmp/file".into()), ..Default::default() };
    let env = || PartialConfig { health_socket: Some("/tmp/env".into()), ..Default::default() };
    for (label, cli, want) in [
        ("cli_wins", Some("/tmp/cli"), Some("/tmp/cli")),
        ("env_over_file", None, Some("/tmp/env")),
        ("empty_cli", Some(""), None),
        ("ws_cli", Some("   "), None),
    ] {
        let ep = load_health_endpoint_with(file_layer(file()), cli, env()).unwrap();
        assert_eq!(ep.as_deref(), want, "{label}");
    }
    let file = FileConfig { health_socket: Some("/tmp/health-only".into()), ..Default::default() };
    let ep = load_health_endpoint_with(file_layer(file), None, PartialConfig::default()).unwrap();
    assert_eq!(ep.as_deref(), Some("/tmp/health-only"));
}

#[test]
fn load_missing_default_path_ok() {
    let env_layer = flat_layer(account_with_token("test-token"));
    let app = load_with(absent_file_layer(DEFAULT_CONFIG_PATH), env_layer, PartialConfig::default()).ok().unwrap();
    assert_eq!(app.log_level, DEFAULT_LOG_LEVEL);
    assert!(app.health_socket.is_none());
}

#[test]
fn load_explicit_missing_path_errors() {
    for (label, path, is_health) in [
        ("load", "definitely-missing-config-xyz.toml", false),
        ("health", "definitely-missing-health-config-xyz.toml", true),
    ] {
        let err = if is_health {
            load_health_endpoint_with(absent_file_layer(path), None, PartialConfig::default()).err().unwrap()
        } else {
            load_with(absent_file_layer(path), PartialConfig::default(), PartialConfig::default()).err().unwrap()
        };
        assert!(matches!(err, ConfigError::ConfigNotFound(_)), "{label}");
    }
}

#[test]
fn load_resolve_config_path_cases() {
    let env = Some("/tmp/from-config-path-env.toml");
    for (label, cli, env, want) in [
        ("cli_wins", "/tmp/explicit-cli-config.toml", env, "/tmp/explicit-cli-config.toml"),
        ("default_uses_env", DEFAULT_CONFIG_PATH, env, "/tmp/from-config-path-env.toml"),
        ("default_without_env", DEFAULT_CONFIG_PATH, None, DEFAULT_CONFIG_PATH),
    ] {
        assert_eq!(resolve_config_path(cli, env), want, "{label}");
    }
    assert_eq!(resolve_config_path(DEFAULT_CONFIG_PATH, Some("")), DEFAULT_CONFIG_PATH);
}

#[test]
fn multi_source_unique_string_ids() {
    let file = FileConfig {
        account: FileAccount { token: tok("flat-file"), status: Some("online".into()), ..Default::default() },
        accounts: vec![FileAccount { name: Some("from-file".into()), token: tok("file-0"), ..Default::default() }],
        ..Default::default()
    };
    let env_layer = from_env_map(env_map(&[
        ("ACCOUNT_main_TOKEN", "env-main"),
        ("ACCOUNT_main", "Main"),
        ("ACCOUNT_main_STATUS", "dnd"),
    ]));
    let mut cli = Cli::default();
    cli.account_set = vec!["extra.token=cli-extra".into(), "extra.name=Extra".into()];
    cli.set = vec!["accounts.main.device=mobile".into()];
    let app = load_with(file_layer(file), env_layer, cli_partial(&cli).unwrap()).ok().unwrap();

    let names: Vec<_> = app.accounts.iter().map(|a| a.name.as_str()).collect();
    assert!(names.contains(&"from-file"));
    assert!(names.contains(&"Main"));
    assert!(names.contains(&"Extra"));
    assert_eq!(app.accounts.len(), 4);

    let main = app.accounts.iter().find(|a| a.name == "Main").expect("main");
    assert_eq!(main.token.as_str(), "env-main");
    assert_eq!(main.status, Some(Status::Dnd));
    assert_eq!(main.device, Some(Device::Mobile));

    let extra = app.accounts.iter().find(|a| a.name == "Extra").expect("extra");
    assert_eq!(extra.token.as_str(), "cli-extra");
}

#[test]
fn load_cli_activity_field_merge_does_not_wipe_env_fields() {
    let mut env_acc = account_with_token("t");
    env_acc.activities.insert(
        ACTIVITY_SINGULAR.into(),
        PartialActivity {
            name: Some("from-env".into()),
            activity_type: Some("playing".into()),
            details: Some("env-details".into()),
            url: Some("https://env.example".into()),
            ..Default::default()
        },
    );
    env_acc.activity_order.push(ACTIVITY_SINGULAR.into());
    let env_layer = flat_layer(env_acc);
    let mut cli = Cli::default();
    cli.activity.activity = Some("from-cli".into());
    cli.activity.activity_type = Some("watching".into());
    let app = load_with(file_layer(token_file()), env_layer, cli_partial(&cli).unwrap()).ok().unwrap();
    let act = &app.accounts[0].activities;
    assert_eq!(act.len(), 1);
    assert_eq!(act[0].name.as_deref(), Some("from-cli"));
    assert_eq!(act[0].activity_type, Some(ActivityType::Watching));
    assert_eq!(act[0].details.as_deref(), Some("env-details"));
    assert_eq!(act[0].url.as_deref(), Some("https://env.example"));
}

#[test]
fn load_load_with_no_accounts_errors() {
    let file = FileConfig { log_level: Some("info".into()), ..Default::default() };
    let err = load_with(file_layer(file), PartialConfig::default(), PartialConfig::default()).err().unwrap();
    assert!(matches!(err, ConfigError::NoAccounts));
}

#[test]
fn load_env_overwrites_file_scalars() {
    let file = FileConfig { log_level: Some("warn".into()), ..token_file() };
    let app = load_with(file_layer(file), from_env_map(env_map(&[("LOG_LEVEL", "debug")])), PartialConfig::default())
        .ok()
        .unwrap();
    assert_eq!(app.log_level, "debug");
}

#[test]
fn unreadable_file_is_the_error() {
    let err = load_with(Err(ConfigError::Figment("bad toml".into())), PartialConfig::default(), PartialConfig::default())
        .err()
        .unwrap();
    assert_eq!(err.message(), "failed to load config: bad toml");
}
