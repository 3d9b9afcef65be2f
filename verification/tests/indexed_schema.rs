use discord_keep_alive::indexed::schema::{
    indexed_account_env_key, indexed_activity_env_key, parse_indexed_key, singular_account_env_key,
    singular_activity_env_key, ActivityField, AccountScalarField, CustomStatusField,
};

#[test]
fn parse_indexed_key_account_token() {
    assert_eq!(parse_indexed_key("ACCOUNT_0_TOKEN", "ACCOUNT_", "_TOKEN"), Some(0));
    assert_eq!(parse_indexed_key("ACCOUNT_31_TOKEN", "ACCOUNT_", "_TOKEN"), Some(31));
    assert_eq!(parse_indexed_key("ACCOUNT_100_TOKEN", "ACCOUNT_", "_TOKEN"), Some(100));
}

#[test]
fn parse_indexed_key_activity_name() {
    assert_eq!(parse_indexed_key("ACTIVITY_0", "ACTIVITY_", ""), Some(0));
    assert_eq!(parse_indexed_key("ACTIVITY_12", "ACTIVITY_", ""), Some(12));
    assert_eq!(parse_indexed_key("ACTIVITY_0_TYPE", "ACTIVITY_", ""), None);
    assert_eq!(parse_indexed_key("ACTIVITY_0_DETAILS", "ACTIVITY_", ""), None);
}

#[test]
fn parse_indexed_key_account_activity() {
    assert_eq!(parse_indexed_key("ACCOUNT_0_ACTIVITY_1", "ACCOUNT_0_ACTIVITY_", ""), Some(1));
    assert_eq!(parse_indexed_key("ACCOUNT_0_ACTIVITY_1_TYPE", "ACCOUNT_0_ACTIVITY_", ""), None);
}

#[test]
fn parse_indexed_key_rejects_noise() {
    assert_eq!(parse_indexed_key("ACCOUNT__TOKEN", "ACCOUNT_", "_TOKEN"), None);
    assert_eq!(parse_indexed_key("ACCOUNT_01_TOKEN", "ACCOUNT_", "_TOKEN"), None);
    assert_eq!(parse_indexed_key("ACCOUNT_x_TOKEN", "ACCOUNT_", "_TOKEN"), None);
    assert_eq!(parse_indexed_key("ACCOUNT_0", "ACCOUNT_", "_TOKEN"), None);
    assert_eq!(parse_indexed_key("TOKEN", "ACCOUNT_", "_TOKEN"), None);
    assert_eq!(parse_indexed_key("ACTIVITY_", "ACTIVITY_", ""), None);
    assert_eq!(parse_indexed_key("ACTIVITY_01", "ACTIVITY_", ""), None);
}

#[test]
fn account_env_keys_follow_catalog() {
    assert_eq!(singular_account_env_key(AccountScalarField::Name), "ACCOUNT");
    assert_eq!(singular_account_env_key(AccountScalarField::Token), "TOKEN");
    assert_eq!(singular_account_env_key(AccountScalarField::Status), "STATUS");
    assert_eq!(indexed_account_env_key(0, AccountScalarField::Name), "ACCOUNT_0");
    assert_eq!(indexed_account_env_key(2, AccountScalarField::Token), "ACCOUNT_2_TOKEN");
    assert_eq!(indexed_account_env_key(1, AccountScalarField::Kind), "ACCOUNT_1_KIND");
}

#[test]
fn activity_env_keys_follow_catalog() {
    assert_eq!(singular_activity_env_key("", ActivityField::Name), "ACTIVITY");
    assert_eq!(singular_activity_env_key("", ActivityField::Type), "ACTIVITY_TYPE");
    assert_eq!(
        singular_activity_env_key("ACCOUNT_2_", ActivityField::Details),
        "ACCOUNT_2_ACTIVITY_DETAILS"
    );
    assert_eq!(indexed_activity_env_key("", 5, ActivityField::Name), "ACTIVITY_5");
    assert_eq!(
        indexed_activity_env_key("ACCOUNT_1_", 0, ActivityField::Type),
        "ACCOUNT_1_ACTIVITY_0_TYPE"
    );
}

#[test]
fn cli_long_names_match_env_identity() {
    assert_eq!(AccountScalarField::Token.cli_long(), "token");
    assert_eq!(AccountScalarField::Name.cli_long(), "account");
    assert_eq!(CustomStatusField::Text.cli_long(), "custom-status-text");
    assert_eq!(ActivityField::Name.cli_long(), "activity");
    assert_eq!(ActivityField::Type.cli_long(), "activity-type");
    assert_eq!(ActivityField::Button2.cli_long(), "activity-button-2");
    assert_eq!(ActivityField::ApplicationId.cli_long(), "activity-application-id");
}

#[test]
fn indexed_keys_parse_back_to_their_index() {
    for i in [0usize, 7, 42, 1000] {
        let key = indexed_account_env_key(i, AccountScalarField::Token);
        assert_eq!(parse_indexed_key(&key, "ACCOUNT_", "_TOKEN"), Some(i));
        let key = indexed_activity_env_key("ACCOUNT_3_", i, ActivityField::Name);
        assert_eq!(parse_indexed_key(&key, "ACCOUNT_3_ACTIVITY_", ""), Some(i));
    }
}

#[test]
fn parsed_index_is_plain_decimal() {
    assert_eq!(parse_indexed_key("ACCOUNT_12_TOKEN", "ACCOUNT_", "_TOKEN"), Some(12));
    assert_eq!(parse_indexed_key("ACCOUNT_012_TOKEN", "ACCOUNT_", "_TOKEN"), None);
    assert_eq!(parse_indexed_key("ACCOUNT_+1_TOKEN", "ACCOUNT_", "_TOKEN"), None);
    assert_eq!(parse_indexed_key("ACCOUNT__TOKEN", "ACCOUNT_", "_TOKEN"), None);
    assert_eq!(parse_indexed_key("ACCOUNT_00_TOKEN", "ACCOUNT_", "_TOKEN"), None);
}
