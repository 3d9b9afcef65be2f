use discord_keep_alive::config::error::ConfigError;
use discord_keep_alive::config::resolve::AccountConfig;
use discord_keep_alive::config::token::SecretString;
use discord_keep_alive::indexed::defaults::product_defaults;
use discord_keep_alive::indexed::partial::{
    PartialAccount, PartialActivity, PartialClientProperties, PartialConfig, PartialCustomStatus, PartialDefaults,
};
use discord_keep_alive::indexed::properties::DEFAULT_DESKTOP_UA;
use discord_keep_alive::indexed::resolve::resolve_config;
use discord_keep_alive::presence::kinds::{AccountKind, Device};

fn acc(token: &str) -> PartialAccount {
    PartialAccount { token: Some(SecretString::new(token.to_string())), ..Default::default() }
}

fn partial_flat(account: PartialAccount) -> PartialConfig {
    PartialConfig { account, ..Default::default() }
}

fn resolve_ok(p: PartialConfig) -> Vec<AccountConfig> {
    let (_, _, _, accounts) = resolve_config(p).unwrap();
    accounts
}

fn assert_invalid(label: &str, p: PartialConfig) {
    let err = resolve_config(p).err().unwrap();
    assert!(matches!(err, ConfigError::Invalid(_, _)), "{label}: {err:?}");
}

fn assert_invalid_msg(label: &str, p: PartialConfig, needle: &str) {
    let err = resolve_config(p).err().unwrap();
    match &err {
        ConfigError::Invalid(_, m) if m.contains(needle) => {}
        _ => panic!("{label}: expected Invalid containing {needle:?}, got {err:?}"),
    }
}

fn flat_with_activity(act: PartialActivity) -> PartialConfig {
    partial_flat(PartialAccount { activity: Some(act), ..acc("t") })
}

fn named_act(name: &str) -> PartialActivity {
    PartialActivity { name: Some(name.into()), ..Default::default() }
}

fn three_activities(first: PartialActivity, second: PartialActivity, third: PartialActivity) -> PartialConfig {
    partial_flat(PartialAccount { activity: Some(first), activities: vec![second, third], ..acc("t") })
}

#[test]
fn flat_account_prepended_before_toml_accounts() {
    let a = resolve_ok(PartialConfig {
        account: PartialAccount {
            name: Some("from-env".into()),
            device: Some("mobile".into()),
            status: Some("dnd".into()),
            ..acc("flat-token")
        },
        accounts: vec![PartialAccount {
            name: Some("from-toml".into()),
            device: Some("desktop".into()),
            status: Some("online".into()),
            ..acc("toml-token")
        }],
        ..Default::default()
    });
    assert_eq!(a.len(), 2);
    assert_eq!((&*a[0].name, a[0].token.as_str()), ("from-env", "flat-token"));
    assert_eq!(a[0].kind, AccountKind::User);
    assert_eq!(a[0].device, Some(Device::Mobile));
    assert_eq!((&*a[1].name, a[1].token.as_str()), ("from-toml", "toml-token"));
}

#[test]
fn bot_kind_ignores_device() {
    let accounts = resolve_ok(partial_flat(PartialAccount {
        kind: Some("bot".into()),
        device: Some("desktop".into()),
        ..acc("bot-token")
    }));
    assert_eq!(accounts[0].kind, AccountKind::Bot);
    assert_eq!(accounts[0].device, None);
}

#[test]
fn indexed_resolve_invalid_field_errors() {
    let cases: Vec<(&str, Box<dyn Fn() -> PartialConfig>, Option<&str>)> = vec![
        ("kind", Box::new(|| partial_flat(PartialAccount { kind: Some("alien".into()), ..acc("t") })), None),
        ("device", Box::new(|| partial_flat(PartialAccount { device: Some("toaster".into()), ..acc("t") })), None),
        (
            "custom_activity_type",
            Box::new(|| {
                flat_with_activity(PartialActivity { activity_type: Some("custom".into()), ..named_act("x") })
            }),
            Some("custom_status"),
        ),
        (
            "timestamp",
            Box::new(|| {
                flat_with_activity(PartialActivity { timestamp: Some("not-a-number".into()), ..named_act("x") })
            }),
            Some("timestamp"),
        ),
        (
            "streaming_url",
            Box::new(|| {
                flat_with_activity(PartialActivity { activity_type: Some("streaming".into()), ..named_act("live") })
            }),
            Some("url"),
        ),
    ];
    for (label, partial, needle) in cases {
        match needle {
            None => assert_invalid(label, partial()),
            Some(n) => assert_invalid_msg(label, partial(), n),
        }
    }
}

#[test]
fn resolve_minimal_account_sources() {
    let a = resolve_ok(partial_flat(acc("solo")));
    assert_eq!(a.len(), 1, "flat");
    assert_eq!(a[0].token.as_str(), "solo", "flat");
    assert_eq!(a[0].name, "account-0", "flat");

    let a = resolve_ok(PartialConfig {
        accounts: vec![PartialAccount { name: Some("only".into()), ..acc("t") }],
        ..Default::default()
    });
    assert_eq!(a.len(), 1, "toml");
    assert_eq!(a[0].name, "only", "toml");
}

#[test]
fn indexed_resolve_empty_errors() {
    let err = resolve_config(PartialConfig::default()).err().unwrap();
    assert!(matches!(err, ConfigError::NoAccounts));
}

#[test]
fn flat_without_token_ignored_when_toml_accounts_exist() {
    let accounts = resolve_ok(PartialConfig {
        account: PartialAccount {
            device: Some("desktop".into()),
            status: Some("online".into()),
            ..Default::default()
        },
        accounts: vec![PartialAccount { name: Some("only".into()), ..acc("t") }],
        ..Default::default()
    });
    assert_eq!(accounts.len(), 1);
    assert_eq!(accounts[0].name, "only");
}

#[test]
fn indexed_resolve_missing_token_on_named_account() {
    let partial = PartialConfig {
        accounts: vec![PartialAccount {
            name: Some("broken".into()),
            token: None,
            device: Some("web".into()),
            ..Default::default()
        }],
        ..Default::default()
    };
    let err = resolve_config(partial).err().unwrap();
    assert!(matches!(err, ConfigError::MissingToken(ref n) if n == "broken"));
}

#[test]
fn activity_defaults_ids_sequential() {
    let accounts = resolve_ok(three_activities(
        named_act("first"),
        named_act("second"),
        PartialActivity {
            application_id: Some("99".into()),
            party_id: Some("party-x".into()),
            ..named_act("third")
        },
    ));
    let acts = &accounts[0].activities;
    assert_eq!(acts.len(), 3);
    assert_eq!(acts[0].application_id, "1");
    assert_eq!(acts[0].party.id, "1");
    assert_eq!(acts[1].application_id, "2");
    assert_eq!(acts[1].party.id, "2");
    assert_eq!(acts[2].application_id, "99");
    assert_eq!(acts[2].party.id, "party-x");
}

#[test]
fn singular_activity_prepended_before_array() {
    let accounts = resolve_ok(three_activities(
        PartialActivity { activity_type: Some("playing".into()), ..named_act("first") },
        PartialActivity { activity_type: Some("listening".into()), ..named_act("second") },
        PartialActivity { activity_type: Some("watching".into()), ..named_act("third") },
    ));
    let names: Vec<_> = accounts[0].activities.iter().map(|a| a.name.as_deref().unwrap()).collect();
    assert_eq!(names, ["first", "second", "third"]);
}

#[test]
fn indexed_resolve_activity_without_name_skipped() {
    let accounts = resolve_ok(partial_flat(PartialAccount {
        activity: Some(PartialActivity { details: Some("no name".into()), ..Default::default() }),
        activities: vec![
            PartialActivity { details: Some("also no name".into()), ..Default::default() },
            named_act("kept"),
        ],
        ..acc("t")
    }));
    assert_eq!(accounts[0].activities.len(), 1);
    assert_eq!(accounts[0].activities[0].name.as_deref(), Some("kept"));
}

#[test]
fn indexed_resolve_custom_status_user_only() {
    let accounts = resolve_ok(partial_flat(PartialAccount {
        custom_status: Some(PartialCustomStatus { text: Some("brb".into()), emoji: Some("💤".into()) }),
        ..acc("t")
    }));
    let cs = accounts[0].custom_status.as_ref().unwrap();
    assert_eq!(cs.text.as_deref(), Some("brb"));
    assert_eq!(cs.emoji.as_deref(), Some("💤"));

    let accounts = resolve_ok(partial_flat(PartialAccount {
        kind: Some("bot".into()),
        custom_status: Some(PartialCustomStatus { text: Some("ignored".into()), emoji: Some("x".into()) }),
        ..acc("t")
    }));
    assert!(accounts[0].custom_status.is_none());
}

#[test]
fn indexed_resolve_custom_status_without_text_ignored() {
    let accounts = resolve_ok(partial_flat(PartialAccount {
        custom_status: Some(PartialCustomStatus { text: None, emoji: Some("🔥".into()) }),
        ..acc("t")
    }));
    assert!(accounts[0].custom_status.is_none());
}

#[test]
fn indexed_resolve_whitespace_token_is_missing() {
    let err = resolve_config(partial_flat(PartialAccount {
        token: Some(SecretString::new("   ".to_string())),
        ..Default::default()
    }))
    .err()
    .unwrap();
    assert!(matches!(err, ConfigError::NoAccounts));
}

#[test]
fn indexed_resolve_defaults_builtin_when_unset() {
    let (_, _, defaults, _) = resolve_config(partial_flat(acc("t"))).unwrap();
    assert_eq!(defaults, product_defaults());
}

#[test]
fn defaults_partial_override() {
    let props = |os: Option<&str>, browser: Option<&str>, device: Option<&str>, ua: Option<&str>| {
        PartialClientProperties {
            os: os.map(str::to_string),
            browser: browser.map(str::to_string),
            device: device.map(str::to_string),
            user_agent: ua.map(str::to_string),
        }
    };
    let (_, _, d, _) = resolve_config(PartialConfig {
        defaults: PartialDefaults {
            bot: props(Some("FreeBSD"), None, None, Some("bot-ua")),
            web: props(None, Some("Chrome"), Some(""), Some("")),
            mobile: props(None, Some(""), Some("Pixel"), None),
            ..Default::default()
        },
        account: acc("t"),
        ..Default::default()
    })
    .unwrap();
    let b = product_defaults();
    assert_eq!(d.bot.os, "FreeBSD");
    assert_eq!(d.bot.browser, b.bot.browser);
    assert_eq!(d.bot.device, b.bot.device);
    assert_eq!(d.bot.user_agent.as_deref(), Some("bot-ua"));
    assert_eq!(d.web.os, b.web.os);
    assert_eq!(d.web.browser.as_deref(), Some("Chrome"));
    assert_eq!(d.web.device, "");
    assert!(d.web.user_agent.is_none());
    assert_eq!(d.desktop, b.desktop);
    assert_eq!(d.desktop.user_agent.as_deref(), Some(DEFAULT_DESKTOP_UA));
    assert_eq!(d.mobile.os, b.mobile.os);
    assert!(d.mobile.browser.is_none());
    assert_eq!(d.mobile.device, "Pixel");
    assert!(d.mobile.user_agent.is_none());
}

#[test]
fn log_level_and_health_socket_are_trimmed() {
    let (log_level, health, _, _) = resolve_config(PartialConfig {
        log_level: Some("  debug ".into()),
        health_socket: Some("   ".into()),
        ..partial_flat(acc("t"))
    })
    .unwrap();
    assert_eq!(log_level, "debug");
    assert!(health.is_none());
    let (log_level, _, _, _) = resolve_config(partial_flat(acc("t"))).unwrap();
    assert_eq!(log_level, "info");
}

#[test]
fn unnamed_accounts_are_numbered_in_resolve_order() {
    let a = resolve_ok(PartialConfig {
        account: acc("flat"),
        accounts: vec![PartialAccount::default(), acc("second")],
        ..Default::default()
    });
    assert_eq!(a.len(), 2);
    assert_eq!(a[0].name, "account-0");
    assert_eq!(a[1].name, "account-1");
    assert_eq!(a[1].token.as_str(), "second");
}

#[test]
fn account_config_debug_redacts_token() {
    let cfg = AccountConfig {
        name: "n".into(),
        token: SecretString::new("super-secret".to_string()),
        kind: AccountKind::User,
        device: None,
        status: None,
        custom_status: None,
        activities: vec![],
    };
    let rendered = cfg.debug_text();
    assert!(rendered.contains("<redacted>"));
    assert!(!rendered.contains("super-secret"));
}
