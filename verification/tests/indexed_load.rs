use discord_keep_alive::config::error::ConfigError;
use discord_keep_alive::config::token::SecretString;
use discord_keep_alive::indexed::env::from_env_map;
use discord_keep_alive::indexed::load::{
    absent_file_layer, cli_partial, defaults_partial, load_health_endpoint_with, load_with, resolve_config_path,
    AppConfig, Cli,
};
use discord_keep_alive::indexed::merge::merge_partial;
use discord_keep_alive::indexed::partial::{PartialAccount, PartialActivity, PartialConfig};
use discord_keep_alive::presence::kinds::{ActivityType, Status};

const DEFAULT_CONFIG_PATH: &str = "config.toml";
const DEFAULT_LOG_LEVEL: &str = "info";
const SECRET: &str = "super-secret-token";

fn tok(s: &str) -> Option<SecretString> {
    Some(SecretString::new(s.to_string()))
}

fn tok_of(a: &PartialAccount) -> Option<&str> {
    a.token.as_ref().map(|t| t.as_str())
}

fn env(pairs: &[(&str, &str)]) -> Vec<(String, String)> {
    pairs.iter().map(|(k, v)| ((*k).to_string(), (*v).to_string())).collect()
}

/// The layer of a config file holding `token = "t"`.
fn token_t_file() -> PartialConfig {
    PartialConfig { account: PartialAccount { token: tok("t"), ..Default::default() }, ..Default::default() }
}

fn file_account(name: &str, token: &str, status: Option<&str>) -> PartialAccount {
    PartialAccount { name: Some(name.into()), token: tok(token), status: status.map(str::to_string), ..Default::default() }
}

fn load_env_file(file: PartialConfig, pairs: &[(&str, &str)]) -> AppConfig {
    load_with(Ok(file), from_env_map(&env(pairs)), PartialConfig::default()).unwrap()
}

fn with_token(mut p: PartialConfig) -> PartialConfig {
    if p.account.token.is_none() && p.accounts.is_empty() {
        p.account.token = tok("test-token");
    }
    p
}

fn assert_redacts(debug: &str, secret: &str) {
    assert!(debug.contains("<redacted>"), "{debug}");
    assert!(!debug.contains(secret), "{debug}");
}

#[test]
fn mod_env_overwrites_file_scalars() {
    let app = load_env_file(
        PartialConfig { log_level: Some("warn".into()), ..token_t_file() },
        &[("LOG_LEVEL", "debug")],
    );
    assert_eq!(app.log_level, "debug", "log_level");
    let app = load_env_file(
        PartialConfig { health_socket: Some("/tmp/from-file".into()), ..token_t_file() },
        &[("HEALTH_SOCKET", "/tmp/from-env")],
    );
    assert_eq!(app.health_socket.as_deref(), Some("/tmp/from-env"), "health_socket");
}

#[test]
fn cli_overwrites_env_scalars() {
    let app = load_with(
        Ok(token_t_file()),
        with_token(PartialConfig { log_level: Some("debug".into()), ..Default::default() }),
        PartialConfig { log_level: Some("trace".into()), ..Default::default() },
    )
    .unwrap();
    assert_eq!(app.log_level, "trace", "log_level");

    let app = load_with(
        Ok(token_t_file()),
        PartialConfig { health_socket: Some("/tmp/env".into()), ..Default::default() },
        PartialConfig { health_socket: Some("/tmp/cli".into()), ..Default::default() },
    )
    .unwrap();
    assert_eq!(app.health_socket.as_deref(), Some("/tmp/cli"), "health_socket");
}

#[test]
fn load_health_endpoint_precedence_and_disable() {
    let file = || PartialConfig { health_socket: Some("/tmp/file".into()), ..Default::default() };
    let env = || PartialConfig { health_socket: Some("/tmp/env".into()), ..Default::default() };
    for (label, cli, want) in [
        ("cli_wins", Some("/tmp/cli"), Some("/tmp/cli")),
        ("env_over_file", None, Some("/tmp/env")),
        ("empty_cli", Some(""), None),
        ("ws_cli", Some("   "), None),
    ] {
        let ep = load_health_endpoint_with(Ok(file()), cli, env()).unwrap();
        assert_eq!(ep.as_deref(), want, "{label}");
    }
    let file = PartialConfig { health_socket: Some("/tmp/health-only".into()), ..Default::default() };
    let ep = load_health_endpoint_with(Ok(file), None, PartialConfig::default()).unwrap();
    assert_eq!(ep.as_deref(), Some("/tmp/health-only"), "ignores_accounts");
}

#[test]
fn mod_missing_default_path_ok() {
    let env_layer = with_token(PartialConfig::default());
    let app = load_with(absent_file_layer(DEFAULT_CONFIG_PATH), env_layer, PartialConfig::default()).unwrap();
    assert_eq!(app.log_level, DEFAULT_LOG_LEVEL);
    assert!(app.health_socket.is_none());
}

#[test]
fn mod_explicit_missing_path_errors() {
    for (label, path, is_health) in [
        ("load", "definitely-missing-config-xyz.toml", false),
        ("health", "definitely-missing-health-config-xyz.toml", true),
    ] {
        let err = if is_health {
            load_health_endpoint_with(absent_file_layer(path), None, PartialConfig::default()).unwrap_err()
        } else {
            load_with(absent_file_layer(path), PartialConfig::default(), PartialConfig::default())
                .err()
                .unwrap()
        };
        assert!(matches!(err, ConfigError::ConfigNotFound(_)), "{label}");
    }
}

#[test]
fn defaults_then_file_for_log_level() {
    let app = load_with(
        Ok(PartialConfig { log_level: Some("error".into()), ..token_t_file() }),
        PartialConfig::default(),
        PartialConfig::default(),
    )
    .unwrap();
    assert_eq!(app.log_level, "error");
}

#[test]
fn env_from_lookup_sets_scalars() {
    let partial = from_env_map(&env(&[("LOG_LEVEL", "debug"), ("HEALTH_SOCKET", "/tmp/h"), ("TOKEN", "tok")]));
    assert_eq!(partial.log_level.as_deref(), Some("debug"));
    assert_eq!(partial.health_socket.as_deref(), Some("/tmp/h"));
    assert_eq!(tok_of(&partial.account), Some("tok"));
}

#[test]
fn merge_partial_cli_over_env() {
    let mut base = defaults_partial();
    for layer in [
        PartialConfig {
            log_level: Some("warn".into()),
            health_socket: Some("/tmp/file".into()),
            account: PartialAccount { token: tok("t"), ..Default::default() },
            ..Default::default()
        },
        PartialConfig {
            log_level: Some("debug".into()),
            health_socket: Some("/tmp/env".into()),
            ..Default::default()
        },
        PartialConfig { log_level: Some("trace".into()), ..Default::default() },
    ] {
        merge_partial(&mut base, layer);
    }
    assert_eq!(base.log_level.as_deref(), Some("trace"));
    assert_eq!(base.health_socket.as_deref(), Some("/tmp/env"));
}

#[test]
fn cli_partial_maps_flat_account_and_activity() {
    let mut cli = Cli::default();
    cli.token = tok("cli-tok");
    cli.name = Some("cli-name".into());
    cli.kind = Some("user".into());
    cli.device = Some("mobile".into());
    cli.status = Some("dnd".into());
    cli.custom_status_text = Some("brb".into());
    cli.custom_status_emoji = Some("💤".into());
    cli.activity = Some("Game".into());
    cli.activity_type = Some("playing".into());
    cli.activity_details = Some("level 1".into());
    cli.activity_url = Some("https://example.com".into());
    cli.activity_platform = Some("desktop".into());
    cli.activity_timestamp = Some("123".into());
    cli.activity_application_id = Some("42".into());
    cli.activity_large_image = Some("li".into());
    cli.activity_large_image_text = Some("lit".into());
    cli.activity_small_image = Some("si".into());
    cli.activity_small_image_text = Some("sit".into());
    cli.activity_button = Some("b1".into());
    cli.activity_button_url = Some("https://b1".into());
    cli.activity_button_2 = Some("b2".into());
    cli.activity_button_2_url = Some("https://b2".into());
    cli.activity_party_id = Some("p".into());
    cli.activity_party_current = Some("1".into());
    cli.activity_party_max = Some("4".into());
    cli.log_level = Some("debug".into());
    cli.health_socket = Some("/tmp/cli-h".into());
    let p = cli_partial(&cli);
    let act = p.account.activity.as_ref().unwrap();
    let cs = p.account.custom_status.as_ref().unwrap();
    for (label, got, want) in [
        ("log_level", p.log_level.as_deref(), Some("debug")),
        ("health_socket", p.health_socket.as_deref(), Some("/tmp/cli-h")),
        ("token", tok_of(&p.account), Some("cli-tok")),
        ("name", p.account.name.as_deref(), Some("cli-name")),
        ("kind", p.account.kind.as_deref(), Some("user")),
        ("device", p.account.device.as_deref(), Some("mobile")),
        ("status", p.account.status.as_deref(), Some("dnd")),
        ("cs.text", cs.text.as_deref(), Some("brb")),
        ("cs.emoji", cs.emoji.as_deref(), Some("💤")),
        ("act.name", act.name.as_deref(), Some("Game")),
        ("act.type", act.activity_type.as_deref(), Some("playing")),
        ("act.details", act.details.as_deref(), Some("level 1")),
        ("act.url", act.url.as_deref(), Some("https://example.com")),
        ("act.platform", act.platform.as_deref(), Some("desktop")),
        ("act.timestamp", act.timestamp.as_deref(), Some("123")),
        ("act.app_id", act.application_id.as_deref(), Some("42")),
        ("act.li", act.large_image.as_deref(), Some("li")),
        ("act.lit", act.large_image_text.as_deref(), Some("lit")),
        ("act.si", act.small_image.as_deref(), Some("si")),
        ("act.sit", act.small_image_text.as_deref(), Some("sit")),
        ("act.btn", act.button.as_deref(), Some("b1")),
        ("act.btn_url", act.button_url.as_deref(), Some("https://b1")),
        ("act.btn2", act.button2.as_deref(), Some("b2")),
        ("act.btn2_url", act.button2_url.as_deref(), Some("https://b2")),
        ("act.party_id", act.party_id.as_deref(), Some("p")),
        ("act.party_cur", act.party_current.as_deref(), Some("1")),
        ("act.party_max", act.party_max.as_deref(), Some("4")),
    ] {
        assert_eq!(got, want, "{label}");
    }
    assert!(p.accounts.is_empty());
}

#[test]
fn cli_partial_omits_unset_fields() {
    let p = cli_partial(&Cli::default());
    assert!(p.log_level.is_none() && p.health_socket.is_none());
    assert!(p.account.token.is_none());
    assert!(p.account.activity.is_none() && p.account.custom_status.is_none());
}

#[test]
fn cli_fields_overwrite_env_via_load_with() {
    let env_layer = || PartialConfig {
        account: PartialAccount { token: tok("env-tok"), status: Some("online".into()), ..Default::default() },
        ..Default::default()
    };
    let file = PartialConfig { account: PartialAccount { token: tok("file-tok"), ..Default::default() }, ..Default::default() };
    let mut cli = Cli::default();
    cli.token = tok("cli-tok");
    let app = load_with(Ok(file), env_layer(), cli_partial(&cli)).unwrap();
    assert_eq!(app.accounts.len(), 1, "token");
    assert_eq!(app.accounts[0].token.as_str(), "cli-tok", "token");
    assert_eq!(app.accounts[0].status, Some(Status::Online), "token");

    let mut cli = Cli::default();
    cli.status = Some("dnd".into());
    let app = load_with(Ok(token_t_file()), env_layer(), cli_partial(&cli)).unwrap();
    assert_eq!(app.accounts[0].token.as_str(), "env-tok", "status");
    assert_eq!(app.accounts[0].status, Some(Status::Dnd), "status");
}

#[test]
fn mod_cli_activity_field_merge_does_not_wipe_env_fields() {
    let env_layer = PartialConfig {
        account: PartialAccount {
            token: tok("t"),
            activity: Some(PartialActivity {
                name: Some("from-env".into()),
                activity_type: Some("playing".into()),
                details: Some("env-details".into()),
                url: Some("https://env.example".into()),
                ..Default::default()
            }),
            ..Default::default()
        },
        ..Default::default()
    };
    let mut cli = Cli::default();
    cli.activity = Some("from-cli".into());
    cli.activity_type = Some("watching".into());
    let app = load_with(Ok(token_t_file()), env_layer, cli_partial(&cli)).unwrap();
    let act = &app.accounts[0].activities;
    assert_eq!(act.len(), 1);
    assert_eq!(act[0].name.as_deref(), Some("from-cli"));
    assert_eq!(act[0].activity_type, Some(ActivityType::Watching));
    assert_eq!(act[0].details.as_deref(), Some("env-details"));
    assert_eq!(act[0].url.as_deref(), Some("https://env.example"));
}

#[test]
fn env_overwrites_file_account_token_and_status() {
    let app = load_env_file(
        PartialConfig {
            account: PartialAccount { token: tok("file-tok"), status: Some("online".into()), ..Default::default() },
            ..Default::default()
        },
        &[("TOKEN", "env-tok"), ("STATUS", "dnd")],
    );
    assert_eq!(app.accounts.len(), 1);
    assert_eq!(app.accounts[0].token.as_str(), "env-tok");
    assert_eq!(app.accounts[0].status, Some(Status::Dnd));
}

#[test]
fn sparse_activity_env_pads_then_resolve_filters_nameless() {
    let app = load_env_file(
        PartialConfig::default(),
        &[
            ("TOKEN", "t"),
            ("ACTIVITY_0", "zero"),
            ("ACTIVITY_0_TYPE", "playing"),
            ("ACTIVITY_2", "two"),
            ("ACTIVITY_2_TYPE", "watching"),
        ],
    );
    assert_eq!(app.accounts.len(), 1);
    let names: Vec<_> = app.accounts[0].activities.iter().map(|a| a.name.as_deref().unwrap()).collect();
    assert_eq!(names, ["zero", "two"]);
}

#[test]
fn account_env_beyond_len_appends_without_pad() {
    let app = load_env_file(
        PartialConfig::default(),
        &[("ACCOUNT_5_TOKEN", "tok-five"), ("ACCOUNT_5", "five"), ("ACCOUNT_5_STATUS", "idle")],
    );
    assert_eq!(app.accounts.len(), 1);
    assert_eq!(app.accounts[0].name, "five");
    assert_eq!(app.accounts[0].token.as_str(), "tok-five");
    assert_eq!(app.accounts[0].status, Some(Status::Idle));
}

#[test]
fn account_env_dense_indices_merge_onto_file_slots() {
    let file = PartialConfig {
        accounts: vec![file_account("first", "file-0", Some("online")), file_account("second", "file-1", Some("online"))],
        ..Default::default()
    };
    let a = load_env_file(file, &[("ACCOUNT_0_TOKEN", "env-0"), ("ACCOUNT_1_TOKEN", "env-1"), ("ACCOUNT_1_STATUS", "dnd")])
        .accounts;
    assert_eq!(a.len(), 2);
    assert_eq!((&*a[0].name, a[0].token.as_str()), ("first", "env-0"));
    assert_eq!(a[0].status, Some(Status::Online));
    assert_eq!((&*a[1].name, a[1].token.as_str()), ("second", "env-1"));
    assert_eq!(a[1].status, Some(Status::Dnd));
}

#[test]
fn account_env_sparse_high_index_packs_to_slot_zero_on_empty_env_layer() {
    let file = PartialConfig {
        accounts: vec![file_account("first", "file-0", None), file_account("second", "file-1", None)],
        ..Default::default()
    };
    let a = load_env_file(file, &[("ACCOUNT_1_TOKEN", "env-1")]).accounts;
    assert_eq!(a.len(), 2);
    assert_eq!((a[0].token.as_str(), &*a[0].name), ("env-1", "first"));
    assert_eq!((a[1].token.as_str(), &*a[1].name), ("file-1", "second"));
}

#[test]
fn account_env_discovery_sorted_by_token_anchor() {
    let a = load_env_file(
        PartialConfig::default(),
        &[("ACCOUNT_2_TOKEN", "tok-2"), ("ACCOUNT_2", "two"), ("ACCOUNT_0_TOKEN", "tok-0"), ("ACCOUNT_0", "zero")],
    )
    .accounts;
    assert_eq!(a.len(), 2);
    assert_eq!((&*a[0].name, a[0].token.as_str()), ("zero", "tok-0"));
    assert_eq!((&*a[1].name, a[1].token.as_str()), ("two", "tok-2"));
}

#[test]
fn flat_token_env_prepended_before_file_accounts() {
    let file = PartialConfig { accounts: vec![file_account("from-file", "file-tok", None)], ..Default::default() };
    let a = load_env_file(file, &[("TOKEN", "flat-tok"), ("ACCOUNT", "from-env")]).accounts;
    assert_eq!(a.len(), 2);
    assert_eq!((&*a[0].name, a[0].token.as_str()), ("from-env", "flat-tok"));
    assert_eq!((&*a[1].name, a[1].token.as_str()), ("from-file", "file-tok"));
}

#[test]
fn mod_load_with_no_accounts_errors() {
    let file = PartialConfig { log_level: Some("info".into()), ..Default::default() };
    let err = load_with(Ok(file), PartialConfig::default(), PartialConfig::default()).err().unwrap();
    assert!(matches!(err, ConfigError::NoAccounts));
}

#[test]
fn mod_resolve_config_path_cases() {
    let env = Some("/tmp/from-config-path-env.toml");
    for (label, cli, env, want) in [
        ("cli_wins", "/tmp/explicit-cli-config.toml", env, "/tmp/explicit-cli-config.toml"),
        ("default_uses_env", DEFAULT_CONFIG_PATH, env, "/tmp/from-config-path-env.toml"),
        ("default_without_env", DEFAULT_CONFIG_PATH, None, DEFAULT_CONFIG_PATH),
    ] {
        assert_eq!(resolve_config_path(cli, env), want, "{label}");
    }
}

#[test]
fn mod_cli_debug_redacts_token() {
    let mut cli = Cli::default();
    cli.token = tok(SECRET);
    assert_redacts(&cli.debug_text(), SECRET);
}

#[test]
fn layer_precedence_cli_env_file_defaults() {
    let file = PartialConfig { log_level: Some("error".into()), health_socket: Some("/f".into()), ..token_t_file() };
    let env_layer = PartialConfig { log_level: Some("warn".into()), ..Default::default() };
    let app = load_with(Ok(file), env_layer, PartialConfig::default()).unwrap();
    assert_eq!(app.log_level, "warn");
    assert_eq!(app.health_socket.as_deref(), Some("/f"));
}

#[test]
fn partial_account_debug_redacts_token() {
    let account = PartialAccount { name: Some("n".into()), token: tok(SECRET), ..Default::default() };
    assert_redacts(&account.debug_text(), SECRET);
}
