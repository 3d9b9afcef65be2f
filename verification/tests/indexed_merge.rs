use discord_keep_alive::config::token::SecretString;
use discord_keep_alive::indexed::merge::{
    insert_indexed_account, insert_indexed_activity, merge_account, merge_partial,
};
use discord_keep_alive::indexed::partial::{
    any_activity_field_set, PartialAccount, PartialActivity, PartialConfig, PartialCustomStatus,
};

fn tok(s: &str) -> Option<SecretString> {
    Some(SecretString::new(s.to_string()))
}

fn tok_of(a: &PartialAccount) -> Option<&str> {
    a.token.as_ref().map(|t| t.as_str())
}

fn named_account(name: &str) -> PartialAccount {
    PartialAccount { name: Some(name.into()), ..Default::default() }
}

fn named_activity(name: &str) -> PartialActivity {
    PartialActivity { name: Some(name.into()), ..Default::default() }
}

fn activity_details(details: &str) -> PartialActivity {
    PartialActivity { details: Some(details.into()), ..Default::default() }
}

#[test]
fn indexed_merge_nested_is_field_level() {
    let mut dst = PartialAccount {
        activity: Some(PartialActivity {
            name: Some("keep".into()),
            details: Some("old".into()),
            ..Default::default()
        }),
        custom_status: Some(PartialCustomStatus { text: Some("keep".into()), emoji: Some("old".into()) }),
        ..Default::default()
    };
    merge_account(
        &mut dst,
        PartialAccount {
            activity: Some(activity_details("new")),
            custom_status: Some(PartialCustomStatus { text: None, emoji: Some("new".into()) }),
            ..Default::default()
        },
    );
    let act = dst.activity.unwrap();
    assert_eq!(act.name.as_deref(), Some("keep"), "activity");
    assert_eq!(act.details.as_deref(), Some("new"), "activity");
    let cs = dst.custom_status.unwrap();
    assert_eq!(cs.text.as_deref(), Some("keep"), "custom_status");
    assert_eq!(cs.emoji.as_deref(), Some("new"), "custom_status");
}

#[test]
fn insert_indexed_account_merge_and_append() {
    let mut accounts = vec![named_account("a"), named_account("b")];
    insert_indexed_account(&mut accounts, 1, PartialAccount { token: tok("t"), ..Default::default() });
    assert_eq!(accounts.len(), 2, "in_range");
    assert_eq!(tok_of(&accounts[1]), Some("t"), "in_range");
    assert_eq!(accounts[1].name.as_deref(), Some("b"), "in_range");

    let mut accounts = vec![named_account("only")];
    insert_indexed_account(
        &mut accounts,
        5,
        PartialAccount { token: tok("t"), name: Some("extra".into()), ..Default::default() },
    );
    assert_eq!(accounts.len(), 2, "beyond");
    assert_eq!(accounts[0].name.as_deref(), Some("only"), "beyond");
    assert_eq!(accounts[1].name.as_deref(), Some("extra"), "beyond");
    assert_eq!(tok_of(&accounts[1]), Some("t"), "beyond");
}

#[test]
fn insert_indexed_activity_merges_and_pads() {
    let mut activities = vec![named_activity("a")];
    insert_indexed_activity(&mut activities, 0, activity_details("merged"));
    assert_eq!(activities[0].name.as_deref(), Some("a"));
    assert_eq!(activities[0].details.as_deref(), Some("merged"));
    insert_indexed_activity(&mut activities, 3, named_activity("b"));
    assert_eq!(activities.len(), 4);
    assert_eq!(activities[3].name.as_deref(), Some("b"));
    assert!(!any_activity_field_set(&activities[1]) && !any_activity_field_set(&activities[2]));
}

#[test]
fn merge_account_activities_by_index() {
    let mut dst = PartialAccount {
        activities: vec![PartialActivity {
            name: Some("keep".into()),
            details: Some("old".into()),
            ..Default::default()
        }],
        ..Default::default()
    };
    merge_account(&mut dst, PartialAccount { activities: vec![activity_details("new")], ..Default::default() });
    assert_eq!(dst.activities.len(), 1);
    assert_eq!(dst.activities[0].name.as_deref(), Some("keep"));
    assert_eq!(dst.activities[0].details.as_deref(), Some("new"));

    let mut dst = PartialAccount {
        activities: vec![
            PartialActivity { name: Some("zero".into()), details: Some("old".into()), ..Default::default() },
            named_activity("one"),
        ],
        ..Default::default()
    };
    let mut src_acts: Vec<PartialActivity> = (0..6).map(|_| PartialActivity::default()).collect();
    src_acts[5] = named_activity("five");
    merge_account(&mut dst, PartialAccount { activities: src_acts, ..Default::default() });
    assert_eq!(dst.activities.len(), 6, "sparse");
    assert_eq!(dst.activities[0].name.as_deref(), Some("zero"), "sparse");
    assert_eq!(dst.activities[0].details.as_deref(), Some("old"), "sparse");
    assert_eq!(dst.activities[1].name.as_deref(), Some("one"), "sparse");
    assert_eq!(dst.activities[5].name.as_deref(), Some("five"), "sparse");
}

#[test]
fn merging_an_empty_layer_changes_nothing() {
    let mut base = PartialConfig {
        log_level: Some("warn".into()),
        health_socket: Some("/tmp/h".into()),
        account: PartialAccount { token: tok("t"), name: Some("n".into()), ..Default::default() },
        accounts: vec![named_account("a")],
        ..Default::default()
    };
    merge_partial(&mut base, PartialConfig::default());
    assert_eq!(base.log_level.as_deref(), Some("warn"));
    assert_eq!(base.health_socket.as_deref(), Some("/tmp/h"));
    assert_eq!(tok_of(&base.account), Some("t"));
    assert_eq!(base.account.name.as_deref(), Some("n"));
    assert_eq!(base.accounts.len(), 1);
    assert_eq!(base.accounts[0].name.as_deref(), Some("a"));
}
