use discord_keep_alive::health::{parse_status, HealthState};

#[test]
fn healthy_when_all_live() {
    let mut state = HealthState::new(vec!["a".to_string(), "b".to_string()]);
    assert_eq!(state.status_line(), "fail\n");

    state.set_live("a", true);
    assert_eq!(state.status_line(), "fail\n");

    state.set_live("b", true);
    assert_eq!(state.status_line(), "ok\n");

    state.set_live("a", false);
    assert_eq!(state.status_line(), "fail\n");
}

#[test]
fn empty_accounts_unhealthy() {
    let state = HealthState::new(Vec::new());
    assert_eq!(state.status_line(), "fail\n");
}

#[test]
fn unknown_account_is_ignored() {
    let mut state = HealthState::new(vec!["a".to_string()]);
    state.set_live("b", true);
    assert_eq!(state.status_line(), "fail\n");
    state.set_live("a", true);
    assert_eq!(state.status_line(), "ok\n");
}

#[test]
fn probe_reply_is_ok_only_for_ok() {
    assert!(parse_status(b"ok\n"));
    assert!(!parse_status(b"fail\n"));
    assert!(!parse_status(b""));
}
