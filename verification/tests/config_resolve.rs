use discord_keep_alive::config::defaults::product_defaults;
use discord_keep_alive::config::error::ConfigError;
use discord_keep_alive::config::id::{ACCOUNT_FLAT, ACTIVITY_SINGULAR};
use discord_keep_alive::config::keyed::KeyedMap;
use discord_keep_alive::config::partial::{
    AccountScalars, PartialAccount, PartialActivity, PartialConfig, PartialCustomStatus,
};
use discord_keep_alive::config::resolve::{resolve_config, AccountConfig};
use discord_keep_alive::config::token::SecretString;
use discord_keep_alive::presence::kinds::{AccountKind, ActivityType, Device};

fn map<V>(items: Vec<(&str, V)>) -> KeyedMap<V> {
    let mut m = KeyedMap::new();
    for (k, v) in items {
        m.insert(k.to_string(), v);
    }
    m
}

fn ids(v: &[&str]) -> Vec<String> {
    v.iter().map(|s| s.to_string()).collect()
}

fn account_with_token(token: &str) -> PartialAccount {
    PartialAccount {
        scalars: AccountScalars { token: Some(SecretString::new(token.to_string())), ..Default::default() },
        ..Default::default()
    }
}

fn account_with(token: &str, tweak: impl FnOnce(&mut PartialAccount)) -> PartialAccount {
    let mut account = account_with_token(token);
    tweak(&mut account);
    account
}

fn scalars_only(s: AccountScalars) -> PartialAccount {
    PartialAccount { scalars: s, ..Default::default() }
}

fn named_activity(name: &str) -> PartialActivity {
    PartialActivity { name: Some(name.into()), ..Default::default() }
}

fn partial_flat(account: PartialAccount) -> PartialConfig {
    PartialConfig { account_order: ids(&[ACCOUNT_FLAT]), accounts: map(vec![(ACCOUNT_FLAT, account)]), ..Default::default() }
}

fn flat_with_activities(activities: KeyedMap<PartialActivity>, activity_order: Vec<String>) -> PartialConfig {
    partial_flat(PartialAccount { activities, activity_order, ..account_with_token("t") })
}

fn resolve_ok(p: PartialConfig) -> Vec<AccountConfig> {
    resolve_config(p).ok().unwrap().accounts
}

fn assert_invalid(label: &str, p: PartialConfig) {
    let err = resolve_config(p).err().unwrap();
    assert!(matches!(err, ConfigError::Invalid(_, _)), "{label}: {err:?}");
}

fn assert_invalid_msg(label: &str, p: PartialConfig, needle: &str) {
    let err = resolve_config(p).err().unwrap();
    match &err {
        ConfigError::Invalid(_, m) if m.contains(needle) => {}
        _ => panic!("{label}: expected Invalid containing {needle:?}, got {err:?}"),
    }
}

#[test]
fn multi_account_order_flat_first() {
    let a = resolve_ok(PartialConfig {
        account_order: ids(&["0", ACCOUNT_FLAT]),
        accounts: map(vec![
            (
                ACCOUNT_FLAT,
                account_with("flat-token", |a| {
                    a.scalars.name = Some("from-env".into());
                    a.scalars.device = Some("mobile".into());
                    a.scalars.status = Some("dnd".into());
                }),
            ),
            (
                "0",
                account_with("toml-token", |a| {
                    a.scalars.name = Some("from-toml".into());
                    a.scalars.device = Some("desktop".into());
                    a.scalars.status = Some("online".into());
                }),
            ),
        ]),
        ..Default::default()
    });
    assert_eq!(a.len(), 2);
    assert_eq!((&*a[0].name, a[0].token.as_str()), ("from-env", "flat-token"));
    assert_eq!(a[0].kind, AccountKind::User);
    assert_eq!(a[0].device, Some(Device::Mobile));
    assert_eq!((&*a[1].name, a[1].token.as_str()), ("from-toml", "toml-token"));
}

#[test]
fn bot_kind_clears_device() {
    let accounts = resolve_ok(partial_flat(account_with("bot-token", |a| {
        a.scalars.kind = Some("bot".into());
        a.scalars.device = Some("desktop".into());
    })));
    assert_eq!(accounts[0].kind, AccountKind::Bot);
    assert_eq!(accounts[0].device, None);
}

#[test]
fn streaming_activity_url_rules() {
    assert_invalid_msg(
        "streaming_url",
        flat_with_activities(
            map(vec![(
                ACTIVITY_SINGULAR,
                PartialActivity { activity_type: Some("streaming".into()), ..named_activity("live") },
            )]),
            ids(&[ACTIVITY_SINGULAR]),
        ),
        "url",
    );

    let accounts = resolve_ok(flat_with_activities(
        map(vec![(
            ACTIVITY_SINGULAR,
            PartialActivity {
                activity_type: Some("streaming".into()),
                url: Some("https://twitch.tv/example".into()),
                ..named_activity("live")
            },
        )]),
        ids(&[ACTIVITY_SINGULAR]),
    ));
    let acts = &accounts[0].activities;
    assert_eq!(acts.len(), 1);
    assert_eq!(acts[0].activity_type, Some(ActivityType::Streaming));
    assert_eq!(acts[0].url.as_deref(), Some("https://twitch.tv/example"));
}

#[test]
fn resolve_invalid_field_errors() {
    let cases: Vec<(&str, Box<dyn Fn() -> PartialConfig>, Option<&str>)> = vec![
        ("kind", Box::new(|| partial_flat(account_with("t", |a| a.scalars.kind = Some("alien".into())))), None),
        ("device", Box::new(|| partial_flat(account_with("t", |a| a.scalars.device = Some("toaster".into())))), None),
        ("status", Box::new(|| partial_flat(account_with("t", |a| a.scalars.status = Some("busy".into())))), None),
        (
            "custom_activity_type",
            Box::new(|| {
                flat_with_activities(
                    map(vec![(
                        ACTIVITY_SINGULAR,
                        PartialActivity { activity_type: Some("custom".into()), ..named_activity("x") },
                    )]),
                    ids(&[ACTIVITY_SINGULAR]),
                )
            }),
            Some("custom_status"),
        ),
        (
            "timestamp",
            Box::new(|| {
                flat_with_activities(
                    map(vec![(
                        ACTIVITY_SINGULAR,
                        PartialActivity { timestamp: Some("not-a-number".into()), ..named_activity("x") },
                    )]),
                    ids(&[ACTIVITY_SINGULAR]),
                )
            }),
            Some("timestamp"),
        ),
    ];
    for (label, partial, needle) in cases {
        match needle {
            None => assert_invalid(label, partial()),
            Some(n) => assert_invalid_msg(label, partial(), n),
        }
    }
}

#[test]
fn resolve_minimal_and_default_name() {
    let a = resolve_ok(partial_flat(account_with_token("solo")));
    assert_eq!(a.len(), 1);
    assert_eq!(a[0].token.as_str(), "solo");
    assert_eq!(a[0].name, "account-0");
}

#[test]
fn resolve_empty_errors() {
    let err = resolve_config(PartialConfig::default()).err().unwrap();
    assert!(matches!(err, ConfigError::NoAccounts));
}

#[test]
fn flat_without_token_ignored_when_others_exist() {
    let accounts = resolve_ok(PartialConfig {
        account_order: ids(&[ACCOUNT_FLAT, "0"]),
        accounts: map(vec![
            (
                ACCOUNT_FLAT,
                scalars_only(AccountScalars {
                    device: Some("desktop".into()),
                    status: Some("online".into()),
                    ..Default::default()
                }),
            ),
            ("0", account_with("t", |a| a.scalars.name = Some("only".into()))),
        ]),
        ..Default::default()
    });
    assert_eq!(accounts.len(), 1);
    assert_eq!(accounts[0].name, "only");
}

#[test]
fn resolve_missing_token_on_named_account() {
    let partial = PartialConfig {
        account_order: ids(&["0"]),
        accounts: map(vec![(
            "0",
            scalars_only(AccountScalars { name: Some("broken".into()), device: Some("web".into()), ..Default::default() }),
        )]),
        ..Default::default()
    };
    let err = resolve_config(partial).err().unwrap();
    assert!(matches!(err, ConfigError::MissingToken(ref n) if n == "broken"));
}

#[test]
fn activity_order_and_default_ids() {
    let accounts = resolve_ok(flat_with_activities(
        map(vec![
            (ACTIVITY_SINGULAR, PartialActivity { activity_type: Some("playing".into()), ..named_activity("first") }),
            ("0", PartialActivity { activity_type: Some("listening".into()), ..named_activity("second") }),
            (
                "1",
                PartialActivity {
                    activity_type: Some("watching".into()),
                    application_id: Some("99".into()),
                    party_id: Some("party-x".into()),
                    ..named_activity("third")
                },
            ),
        ]),
        ids(&[ACTIVITY_SINGULAR, "0", "1"]),
    ));
    let acts = &accounts[0].activities;
    assert_eq!(acts.len(), 3);
    let names: Vec<_> = acts.iter().map(|a| a.name.as_deref().unwrap()).collect();
    assert_eq!(names, ["first", "second", "third"]);
    assert_eq!(acts[0].activity_type, Some(ActivityType::Playing));
    assert_eq!(acts[1].activity_type, Some(ActivityType::Listening));
    assert_eq!(acts[2].activity_type, Some(ActivityType::Watching));
    assert_eq!(acts[0].application_id, "1");
    assert_eq!(acts[0].party.id, "1");
    assert_eq!(acts[1].application_id, "2");
    assert_eq!(acts[1].party.id, "2");
    assert_eq!(acts[2].application_id, "99");
    assert_eq!(acts[2].party.id, "party-x");
}

#[test]
fn resolve_activity_without_name_skipped() {
    let accounts = resolve_ok(flat_with_activities(
        map(vec![
            (ACTIVITY_SINGULAR, PartialActivity { details: Some("no name".into()), ..Default::default() }),
            ("0", PartialActivity { details: Some("also no name".into()), ..Default::default() }),
            ("1", named_activity("kept")),
        ]),
        ids(&[ACTIVITY_SINGULAR, "0", "1"]),
    ));
    assert_eq!(accounts[0].activities.len(), 1);
    assert_eq!(accounts[0].activities[0].name.as_deref(), Some("kept"));
}

#[test]
fn resolve_custom_status_user_only() {
    let accounts = resolve_ok(partial_flat(account_with("t", |a| {
        a.custom_status = Some(PartialCustomStatus { text: Some("brb".into()), emoji: Some("💤".into()) });
    })));
    let cs = accounts[0].custom_status.as_ref().unwrap();
    assert_eq!(cs.text.as_deref(), Some("brb"));
    assert_eq!(cs.emoji.as_deref(), Some("💤"));

    let accounts = resolve_ok(partial_flat(account_with("t", |a| {
        a.scalars.kind = Some("bot".into());
        a.custom_status = Some(PartialCustomStatus { text: Some("ignored".into()), emoji: Some("x".into()) });
    })));
    assert!(accounts[0].custom_status.is_none());
}

#[test]
fn resolve_custom_status_without_text_ignored() {
    let accounts = resolve_ok(partial_flat(account_with("t", |a| {
        a.custom_status = Some(PartialCustomStatus { text: None, emoji: Some("🔥".into()) });
    })));
    assert!(accounts[0].custom_status.is_none());
}

#[test]
fn resolve_whitespace_token_is_missing() {
    let err = resolve_config(partial_flat(account_with_token("   "))).err().unwrap();
    assert!(matches!(err, ConfigError::NoAccounts));
}

#[test]
fn resolve_defaults_builtin_when_unset() {
    let cfg = resolve_config(partial_flat(account_with_token("t"))).ok().unwrap();
    assert_eq!(cfg.defaults, product_defaults());
}

#[test]
fn remaining_btree_keys_after_order() {
    let a = resolve_ok(PartialConfig {
        account_order: ids(&["b"]),
        accounts: map(vec![
            ("a", account_with("ta", |a| a.scalars.name = Some("A".into()))),
            ("b", account_with("tb", |a| a.scalars.name = Some("B".into()))),
            ("c", account_with("tc", |a| a.scalars.name = Some("C".into()))),
        ]),
        ..Default::default()
    });
    assert_eq!(a.len(), 3);
    assert_eq!(a[0].name, "B");
    assert_eq!(a[1].name, "A");
    assert_eq!(a[2].name, "C");
}

#[test]
fn client_prop_empty_string_policy() {
    let mut partial = partial_flat(account_with_token("t"));
    partial.defaults.web.os = Some(String::new());
    partial.defaults.web.browser = Some(String::new());
    partial.defaults.web.device = Some(String::new());
    partial.defaults.web.user_agent = Some(String::new());
    let cfg = resolve_config(partial).ok().unwrap();
    let product = product_defaults();
    assert_eq!(cfg.defaults.web.os, product.web.os);
    assert_eq!(cfg.defaults.web.browser, None);
    assert_eq!(cfg.defaults.web.user_agent, None);
    assert_eq!(cfg.defaults.web.device, "");
}

#[test]
fn invalid_status_message_names_the_value() {
    let err = resolve_config(partial_flat(account_with("t", |a| a.scalars.status = Some("busy".into())))).err().unwrap();
    assert_eq!(err.message(), "account 'account-0': invalid status 'busy'");
}
