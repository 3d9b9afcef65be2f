use discord_keep_alive::config::fields::{ActivityField, CustomStatusField};
use discord_keep_alive::config::keyed::KeyedMap;
use discord_keep_alive::config::merge::{merge_account, merge_activity, merge_custom_status, merge_partial};
use discord_keep_alive::config::order::merge_order;
use discord_keep_alive::config::partial::{
    AccountScalars, PartialAccount, PartialActivity, PartialConfig, PartialCustomStatus,
};
use discord_keep_alive::config::token::SecretString;

fn map<V>(items: Vec<(&str, V)>) -> KeyedMap<V> {
    let mut m = KeyedMap::new();
    for (k, v) in items {
        m.insert(k.to_string(), v);
    }
    m
}

fn ids(v: &[&str]) -> Vec<String> {
    v.iter().map(|s| s.to_string()).collect()
}

fn account_with_token(token: &str) -> PartialAccount {
    PartialAccount {
        scalars: AccountScalars { token: Some(SecretString::new(token.to_string())), ..Default::default() },
        ..Default::default()
    }
}

fn named_account(name: &str) -> PartialAccount {
    PartialAccount { scalars: AccountScalars { name: Some(name.into()), ..Default::default() }, ..Default::default() }
}

fn named_activity(name: &str) -> PartialActivity {
    PartialActivity { name: Some(name.into()), ..Default::default() }
}

fn activity_details(details: &str) -> PartialActivity {
    PartialActivity { details: Some(details.into()), ..Default::default() }
}

fn token_of(a: &PartialAccount) -> Option<&str> {
    a.scalars.token.as_ref().map(|t| t.as_str())
}

#[test]
fn merge_merge_nested_is_field_level() {
    let mut dst = PartialAccount {
        activities: map(vec![(
            "main",
            PartialActivity { name: Some("keep".into()), details: Some("old".into()), ..Default::default() },
        )]),
        activity_order: ids(&["main"]),
        custom_status: Some(PartialCustomStatus { text: Some("keep".into()), emoji: Some("old".into()) }),
        ..Default::default()
    };
    merge_account(
        &mut dst,
        PartialAccount {
            activities: map(vec![("main", activity_details("new"))]),
            activity_order: ids(&["main"]),
            custom_status: Some(PartialCustomStatus { text: None, emoji: Some("new".into()) }),
            ..Default::default()
        },
    );
    let act = dst.activities.get("main").unwrap();
    assert_eq!(act.name.as_deref(), Some("keep"));
    assert_eq!(act.details.as_deref(), Some("new"));
    let cs = dst.custom_status.unwrap();
    assert_eq!(cs.text.as_deref(), Some("keep"));
    assert_eq!(cs.emoji.as_deref(), Some("new"));
}

#[test]
fn merge_by_id_and_order_append() {
    let mut dst = PartialConfig {
        accounts: map(vec![("a", named_account("A"))]),
        account_order: ids(&["a"]),
        ..Default::default()
    };
    let src = PartialConfig {
        accounts: map(vec![("a", account_with_token("t")), ("b", named_account("B"))]),
        account_order: ids(&["a", "b"]),
        ..Default::default()
    };
    merge_partial(&mut dst, src);
    assert_eq!(dst.account_order, vec!["a".to_string(), "b".to_string()]);
    assert_eq!(dst.accounts.get("a").unwrap().scalars.name.as_deref(), Some("A"));
    assert_eq!(token_of(dst.accounts.get("a").unwrap()), Some("t"));
    assert_eq!(dst.accounts.get("b").unwrap().scalars.name.as_deref(), Some("B"));
}

#[test]
fn merge_no_pack_account_id_one_stays_one() {
    let mut dst = PartialConfig::default();
    let mut one = account_with_token("tok-1");
    one.scalars.name = Some("one".into());
    let src = PartialConfig { accounts: map(vec![("1", one)]), account_order: ids(&["1"]), ..Default::default() };
    merge_partial(&mut dst, src);
    assert_eq!(dst.account_order, vec!["1".to_string()]);
    assert!(dst.accounts.contains_key("1"));
    assert!(!dst.accounts.contains_key("0"));
    assert_eq!(dst.accounts.len(), 1);
    assert_eq!(token_of(dst.accounts.get("1").unwrap()), Some("tok-1"));
    assert_eq!(dst.accounts.get("1").unwrap().scalars.name.as_deref(), Some("one"));
}

#[test]
fn merge_activities_by_id_no_pad() {
    let mut dst = PartialAccount {
        activities: map(vec![(
            "0",
            PartialActivity { name: Some("zero".into()), details: Some("old".into()), ..Default::default() },
        )]),
        activity_order: ids(&["0"]),
        ..Default::default()
    };
    merge_account(
        &mut dst,
        PartialAccount {
            activities: map(vec![("0", activity_details("new")), ("5", named_activity("five"))]),
            activity_order: ids(&["0", "5"]),
            ..Default::default()
        },
    );
    assert_eq!(dst.activity_order, vec!["0".to_string(), "5".to_string()]);
    assert_eq!(dst.activities.len(), 2);
    assert_eq!(dst.activities.get("0").unwrap().name.as_deref(), Some("zero"));
    assert_eq!(dst.activities.get("0").unwrap().details.as_deref(), Some("new"));
    assert_eq!(dst.activities.get("5").unwrap().name.as_deref(), Some("five"));
    assert!(!dst.activities.contains_key("1"));
}

#[test]
fn merge_order_appends_missing_only() {
    let mut order = ids(&["a", "b"]);
    merge_order(&mut order, &ids(&["b", "c", "a"]));
    assert_eq!(order, vec!["a".to_string(), "b".to_string(), "c".to_string()]);
}

#[test]
fn catalog_activity_and_custom_merge_field_level() {
    for field in CustomStatusField::all() {
        let mut dst = PartialCustomStatus::default();
        *field.get_mut(&mut dst) = Some("keep".into());
        let mut src = PartialCustomStatus::default();
        for other in CustomStatusField::all() {
            if other != field {
                *other.get_mut(&mut src) = Some(format!("src-{}", other.spec().set_suffix));
            }
        }
        merge_custom_status(&mut dst, src);
        assert_eq!(field.get_mut(&mut dst).as_deref(), Some("keep"), "dst leaf {}", field.spec().set_suffix);
    }
    for field in ActivityField::all() {
        let mut dst = PartialActivity::default();
        *field.get_mut(&mut dst) = Some("keep".into());
        let mut src = PartialActivity::default();
        if let Some(other) = ActivityField::all().into_iter().find(|&f| f != field) {
            *other.get_mut(&mut src) = Some("from-src".into());
            merge_activity(&mut dst, src);
            assert_eq!(field.get_mut(&mut dst).as_deref(), Some("keep"), "dst leaf {}", field.spec().set_suffix);
            assert_eq!(other.get_mut(&mut dst).as_deref(), Some("from-src"), "src leaf {}", other.spec().set_suffix);
        }
    }
}

#[test]
fn merging_an_empty_layer_keeps_every_setting() {
    let mut dst = PartialConfig {
        log_level: Some("warn".into()),
        health_socket: Some("/tmp/h".into()),
        accounts: map(vec![("a", named_account("A"))]),
        account_order: ids(&["a"]),
        ..Default::default()
    };
    merge_partial(&mut dst, PartialConfig::default());
    assert_eq!(dst.log_level.as_deref(), Some("warn"));
    assert_eq!(dst.health_socket.as_deref(), Some("/tmp/h"));
    assert_eq!(dst.accounts.len(), 1);
    assert_eq!(dst.accounts.get("a").unwrap().scalars.name.as_deref(), Some("A"));
    assert_eq!(dst.account_order, vec!["a".to_string()]);
}

fn override_layer() -> PartialConfig {
    let mut acct = account_with_token("t2");
    acct.activities = map(vec![("game", activity_details("ranked")), ("song", named_activity("Song"))]);
    acct.activity_order = ids(&["song", "game"]);
    PartialConfig {
        log_level: Some("debug".into()),
        accounts: map(vec![("a", acct), ("b", named_account("bee"))]),
        account_order: ids(&["b", "a"]),
        ..Default::default()
    }
}

fn snapshot(p: &PartialConfig) -> Vec<String> {
    let a = p.accounts.get("a").unwrap();
    let mut out = vec![
        format!("{:?}", p.log_level),
        format!("{:?}", p.account_order),
        format!("{:?}", p.accounts.keys()),
        format!("{:?}", a.activity_order),
        format!("{:?}", a.activities.keys()),
        format!("{:?}", token_of(a)),
        format!("{:?}", a.scalars.name),
        format!("{:?}", p.accounts.get("b").and_then(|b| b.scalars.name.clone())),
    ];
    for k in ["game", "song", "old"] {
        let act = a.activities.get(k).unwrap();
        out.push(format!("{:?} {:?}", act.name, act.details));
    }
    out
}

#[test]
fn merging_a_layer_twice_is_merging_it_once() {
    let mut base_acct = named_account("ay");
    base_acct.activities = map(vec![("old", named_activity("Old"))]);
    base_acct.activity_order = ids(&["old"]);
    let mut d = PartialConfig {
        accounts: map(vec![("a", base_acct)]),
        account_order: ids(&["a"]),
        ..Default::default()
    };
    merge_partial(&mut d, override_layer());
    let once = snapshot(&d);
    merge_partial(&mut d, override_layer());
    assert_eq!(snapshot(&d), once);
    assert_eq!(d.account_order, ids(&["a", "b"]));
    assert_eq!(d.accounts.get("a").unwrap().activity_order, ids(&["old", "song", "game"]));
}
