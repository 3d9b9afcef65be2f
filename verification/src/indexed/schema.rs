//! The field catalog of indexed layers, and the names of their environment
//! variables.

pub use crate::config::fields::{ActivityField, ClientPropField, DefaultsProfile};
use crate::config::fields::{names_of, FieldNames, FieldSpec};
use crate::config::partial::PartialCustomStatus;
use crate::config::token::SecretString;
use crate::indexed::partial::PartialAccount;
use crate::json::opt_ref_view;
use crate::text::{parse_u64_spec, all_digits, chars, digits_value, nat_decimal, opt_view, parse_u64, all_digit_chars, sub_vec, vec_starts_with, vec_ends_with, string_of, u64_to_string, starts_with, ends_with};
use vstd::prelude::*;
use vstd::string::*;

verus! {

/// A plain account setting of an indexed layer.
#[derive(Debug, Clone, Copy, PartialEq, Eq)]
pub enum AccountScalarField {
    Token,
    Name,
    Kind,
    Device,
    Status,
}

impl AccountScalarField {
    /// Position in the catalog and among the leaves of the record.
    pub open spec fn index(self) -> int {
        match self {
            AccountScalarField::Token => 0,
            AccountScalarField::Name => 1,
            AccountScalarField::Kind => 2,
            AccountScalarField::Device => 3,
            AccountScalarField::Status => 4,
        }
    }

    /// The names of this leaf.
    pub open spec fn names(self) -> FieldNames {
        match self {
            AccountScalarField::Token => FieldNames { toml: "token"@, env_suffix: Some("TOKEN"@), cli_long: Some("token"@), set_suffix: "token"@ },
            AccountScalarField::Name => FieldNames { toml: "name"@, env_suffix: None::<Seq<char>>, cli_long: Some("account"@), set_suffix: "name"@ },
            AccountScalarField::Kind => FieldNames { toml: "kind"@, env_suffix: Some("KIND"@), cli_long: Some("kind"@), set_suffix: "kind"@ },
            AccountScalarField::Device => FieldNames { toml: "device"@, env_suffix: Some("DEVICE"@), cli_long: Some("device"@), set_suffix: "device"@ },
            AccountScalarField::Status => FieldNames { toml: "status"@, env_suffix: Some("STATUS"@), cli_long: Some("status"@), set_suffix: "status"@ },
        }
    }

    /// Every leaf, in catalog order.
    pub fn all() -> (r: Vec<AccountScalarField>)
        ensures
            r@ == seq![AccountScalarField::Token, AccountScalarField::Name, AccountScalarField::Kind, AccountScalarField::Device, AccountScalarField::Status],
    {
        vec![AccountScalarField::Token, AccountScalarField::Name, AccountScalarField::Kind, AccountScalarField::Device, AccountScalarField::Status]
    }

    pub fn spec(self) -> (r: FieldSpec)
        ensures
            names_of(r) == self.names(),
    {
        match self {
            AccountScalarField::Token => FieldSpec { toml: "token", env_suffix: Some("TOKEN"), cli_long: Some("token"), set_suffix: "token" },
            AccountScalarField::Name => FieldSpec { toml: "name", env_suffix: None, cli_long: Some("account"), set_suffix: "name" },
            AccountScalarField::Kind => FieldSpec { toml: "kind", env_suffix: Some("KIND"), cli_long: Some("kind"), set_suffix: "kind" },
            AccountScalarField::Device => FieldSpec { toml: "device", env_suffix: Some("DEVICE"), cli_long: Some("device"), set_suffix: "device" },
            AccountScalarField::Status => FieldSpec { toml: "status", env_suffix: Some("STATUS"), cli_long: Some("status"), set_suffix: "status" },
        }
    }

    pub fn env_suffix(self) -> (r: Option<&'static str>)
        ensures
            opt_ref_view(r) == self.names().env_suffix,
    {
        self.spec().env_suffix
    }

    pub fn cli_long(self) -> (r: &'static str)
        ensures
            Some(r@) == self.names().cli_long,
    {
        match self {
            AccountScalarField::Token => "token",
            AccountScalarField::Name => "account",
            AccountScalarField::Kind => "kind",
            AccountScalarField::Device => "device",
            AccountScalarField::Status => "status",
        }
    }

}

/// A custom-status leaf of an indexed layer.
#[derive(Debug, Clone, Copy, PartialEq, Eq)]
pub enum CustomStatusField {
    Text,
    Emoji,
}

impl CustomStatusField {
    /// Position in the catalog and among the leaves of the record.
    pub open spec fn index(self) -> int {
        match self {
            CustomStatusField::Text => 0,
            CustomStatusField::Emoji => 1,
        }
    }

    /// The names of this leaf.
    pub open spec fn names(self) -> FieldNames {
        match self {
            CustomStatusField::Text => FieldNames { toml: "text"@, env_suffix: Some("CUSTOM_STATUS_TEXT"@), cli_long: Some("custom-status-text"@), set_suffix: "text"@ },
            CustomStatusField::Emoji => FieldNames { toml: "emoji"@, env_suffix: Some("CUSTOM_STATUS_EMOJI"@), cli_long: Some("custom-status-emoji"@), set_suffix: "emoji"@ },
        }
    }

    /// Every leaf, in catalog order.
    pub fn all() -> (r: Vec<CustomStatusField>)
        ensures
            r@ == seq![CustomStatusField::Text, CustomStatusField::Emoji],
    {
        vec![CustomStatusField::Text, CustomStatusField::Emoji]
    }

    pub fn spec(self) -> (r: FieldSpec)
        ensures
            names_of(r) == self.names(),
    {
        match self {
            CustomStatusField::Text => FieldSpec { toml: "text", env_suffix: Some("CUSTOM_STATUS_TEXT"), cli_long: Some("custom-status-text"), set_suffix: "text" },
            CustomStatusField::Emoji => FieldSpec { toml: "emoji", env_suffix: Some("CUSTOM_STATUS_EMOJI"), cli_long: Some("custom-status-emoji"), set_suffix: "emoji" },
        }
    }

    pub fn env_suffix(self) -> (r: &'static str)
        ensures
            Some(r@) == self.names().env_suffix,
    {
        match self {
            CustomStatusField::Text => "CUSTOM_STATUS_TEXT",
            CustomStatusField::Emoji => "CUSTOM_STATUS_EMOJI",
        }
    }

    pub fn cli_long(self) -> (r: &'static str)
        ensures
            Some(r@) == self.names().cli_long,
    {
        match self {
            CustomStatusField::Text => "custom-status-text",
            CustomStatusField::Emoji => "custom-status-emoji",
        }
    }

    /// The leaf of `target` that this field names.
    pub fn get_mut(self, target: &mut PartialCustomStatus) -> (r: &mut Option<String>)
        ensures
            opt_view(*r) == old(target)@[self.index()],
            final(target)@ == old(target)@.update(self.index(), opt_view(*final(r))),
    {
        match self {
            CustomStatusField::Text => &mut target.text,
            CustomStatusField::Emoji => &mut target.emoji,
        }
    }

}

impl AccountScalarField {
    /// The text leaf of a non-token field.
    pub fn get_mut(self, account: &mut PartialAccount) -> (r: &mut Option<String>)
        requires
            self != AccountScalarField::Token,
        ensures
            opt_view(*r) == old(account).scalars_view()[self.index()],
            final(account).scalars_view() == old(account).scalars_view().update(self.index(), opt_view(*final(r))),
            final(account).custom_status == old(account).custom_status,
            final(account).activity == old(account).activity,
            final(account).activities == old(account).activities,
    {
        match self {
            AccountScalarField::Name => &mut account.name,
            AccountScalarField::Kind => &mut account.kind,
            AccountScalarField::Device => &mut account.device,
            _ => &mut account.status,
        }
    }

    pub fn set(self, account: &mut PartialAccount, value: String)
        ensures
            final(account).scalars_view() == old(account).scalars_view().update(self.index(), Some(value@)),
            final(account).custom_status == old(account).custom_status,
            final(account).activity == old(account).activity,
            final(account).activities == old(account).activities,
    {
        match self {
            AccountScalarField::Token => account.token = Some(SecretString::new(value)),
            AccountScalarField::Name => account.name = Some(value),
            AccountScalarField::Kind => account.kind = Some(value),
            AccountScalarField::Device => account.device = Some(value),
            AccountScalarField::Status => account.status = Some(value),
        }
        assert(account.scalars_view() =~= old(account).scalars_view().update(self.index(), Some(value@)));
    }

    pub fn take(self, account: &mut PartialAccount) -> (r: Option<String>)
        ensures
            opt_view(r) == old(account).scalars_view()[self.index()],
            final(account).scalars_view() == old(account).scalars_view().update(self.index(), None),
            final(account).custom_status == old(account).custom_status,
            final(account).activity == old(account).activity,
            final(account).activities == old(account).activities,
    {
        let r = match self {
            AccountScalarField::Token => match account.token.take() {
                Some(t) => Some(t.into_inner()),
                None => None,
            },
            AccountScalarField::Name => account.name.take(),
            AccountScalarField::Kind => account.kind.take(),
            AccountScalarField::Device => account.device.take(),
            AccountScalarField::Status => account.status.take(),
        };
        assert(account.scalars_view() =~= old(account).scalars_view().update(self.index(), None));
        r
    }
}

pub const ENV_LOG_LEVEL: &'static str = "LOG_LEVEL";
pub const ENV_HEALTH_SOCKET: &'static str = "HEALTH_SOCKET";

/// Account discovery anchors on a non-empty `ACCOUNT_{i}_TOKEN`.
pub const ACCOUNT_INDEX_PREFIX: &'static str = "ACCOUNT_";
pub const ACCOUNT_INDEX_TOKEN_SUFFIX: &'static str = "_TOKEN";
pub const ACCOUNT_SINGULAR: &'static str = "ACCOUNT";

/// Activity discovery anchors on a bare `ACTIVITY_{j}`.
pub const ACTIVITY_INDEX_PREFIX: &'static str = "ACTIVITY_";

/// The index in `key` = `prefix` + index + `suffix`: ASCII digits without a
/// leading zero (but `0` itself), fitting in a `usize`.
pub open spec fn indexed_key_spec(key: Seq<char>, prefix: Seq<char>, suffix: Seq<char>) -> Option<nat> {
    if starts_with(key, prefix) && ends_with(key.skip(prefix.len() as int), suffix) {
        let rest = key.skip(prefix.len() as int);
        let idx = rest.subrange(0, rest.len() - suffix.len());
        if idx.len() > 0 && all_digits(idx) && !(idx.len() > 1 && idx[0] == '0') && digits_value(idx) <= usize::MAX {
            Some(digits_value(idx) as nat)
        } else {
            None
        }
    } else {
        None
    }
}

/// Parses `{prefix}{index}{suffix}`.
pub fn parse_indexed_key(key: &str, prefix: &str, suffix: &str) -> (r: Option<usize>)
    ensures
        match r {
            Some(i) => indexed_key_spec(key@, prefix@, suffix@) == Some(i as nat),
            None => indexed_key_spec(key@, prefix@, suffix@) is None,
        },
{
    let k = chars(key);
    let p = chars(prefix);
    let sf = chars(suffix);
    if !vec_starts_with(&k, &p) {
        return None;
    }
    let n = k.len();
    let rest = sub_vec(&k, p.len(), n);
    assert(rest@ == key@.skip(prefix@.len() as int));
    if !vec_ends_with(&rest, &sf) {
        return None;
    }
    let m = rest.len();
    let idx = sub_vec(&rest, 0, m - sf.len());
    if idx.len() == 0 || !all_digit_chars(&idx) {
        return None;
    }
    if idx.len() > 1 && idx[0] == '0' {
        return None;
    }
    let text = string_of(&idx);
    match parse_u64(text.as_str()) {
        Some(v) => {
            proof {
                assert(text@ == idx@);
                assert(crate::text::is_ascii_digit(text@[0]));
                assert(text@.len() > 0 && text@[0] != '+');
                assert(parse_u64_spec(text@) == Some(digits_value(text@) as u64));
                assert(digits_value(text@) <= u64::MAX);
                crate::text::lemma_digits_value_nonneg(text@);
            }
            assert(digits_value(idx@) == v as int);
            if v as u128 <= usize::MAX as u128 {
                assert(idx@ == key@.skip(prefix@.len() as int).subrange(0, key@.skip(prefix@.len() as int).len() - suffix@.len()));
                Some(v as usize)
            } else {
                None
            }
        },
        None => {
            proof {
                assert(text@ == idx@);
                assert(crate::text::is_ascii_digit(text@[0]));
                assert(text@.len() > 0 && text@[0] != '+');
            }
            None
        },
    }
}

/// `ACCOUNT` for the name, else the field's suffix alone.
pub open spec fn singular_account_key_spec(field: AccountScalarField) -> Seq<char> {
    match field.names().env_suffix {
        None => "ACCOUNT"@,
        Some(s) => s,
    }
}

/// `ACCOUNT_{i}` for the name, else `ACCOUNT_{i}_{SUFFIX}`.
pub open spec fn indexed_account_key_spec(i: nat, field: AccountScalarField) -> Seq<char> {
    match field.names().env_suffix {
        None => "ACCOUNT_"@ + nat_decimal(i),
        Some(s) => "ACCOUNT_"@ + nat_decimal(i) + "_"@ + s,
    }
}

/// `{prefix}ACTIVITY` for the name, else `{prefix}ACTIVITY_{SUFFIX}`.
pub open spec fn singular_activity_key_spec(prefix: Seq<char>, field: ActivityField) -> Seq<char> {
    match field.names().env_suffix {
        None => prefix + "ACTIVITY"@,
        Some(s) => prefix + "ACTIVITY_"@ + s,
    }
}

/// `{prefix}ACTIVITY_{j}` for the name, else `{prefix}ACTIVITY_{j}_{SUFFIX}`.
pub open spec fn indexed_activity_key_spec(prefix: Seq<char>, j: nat, field: ActivityField) -> Seq<char> {
    match field.names().env_suffix {
        None => prefix + "ACTIVITY_"@ + nat_decimal(j),
        Some(s) => prefix + "ACTIVITY_"@ + nat_decimal(j) + "_"@ + s,
    }
}

pub fn singular_account_env_key(field: AccountScalarField) -> (r: String)
    ensures
        r@ == singular_account_key_spec(field),
{
    match field.env_suffix() {
        None => String::from_str(ACCOUNT_SINGULAR),
        Some(suffix) => String::from_str(suffix),
    }
}

pub fn indexed_account_env_key(account_index: usize, field: AccountScalarField) -> (r: String)
    ensures
        r@ == indexed_account_key_spec(account_index as nat, field),
{
    let base = String::from_str(ACCOUNT_INDEX_PREFIX).concat(u64_to_string(account_index as u64).as_str());
    match field.env_suffix() {
        None => base,
        Some(suffix) => base.concat("_").concat(suffix),
    }
}

pub fn singular_activity_env_key(account_prefix: &str, field: ActivityField) -> (r: String)
    ensures
        r@ == singular_activity_key_spec(account_prefix@, field),
{
    match field.env_suffix() {
        None => String::from_str(account_prefix).concat("ACTIVITY"),
        Some(suffix) => String::from_str(account_prefix).concat("ACTIVITY_").concat(suffix),
    }
}

pub fn indexed_activity_env_key(account_prefix: &str, activity_index: usize, field: ActivityField) -> (r: String)
    ensures
        r@ == indexed_activity_key_spec(account_prefix@, activity_index as nat, field),
{
    let base = String::from_str(account_prefix).concat(ACTIVITY_INDEX_PREFIX).concat(
        u64_to_string(activity_index as u64).as_str(),
    );
    match field.env_suffix() {
        None => base,
        Some(suffix) => base.concat("_").concat(suffix),
    }
}

/// A key made of `prefix`, the decimal of an index and `suffix` is parsed
/// back to that index.
pub proof fn lemma_indexed_key_roundtrip(prefix: Seq<char>, i: nat, suffix: Seq<char>)
    requires
        i <= usize::MAX,
    ensures
        indexed_key_spec(prefix + nat_decimal(i) + suffix, prefix, suffix) == Some(i),
{
    let d = nat_decimal(i);
    let key = prefix + d + suffix;
    crate::text::lemma_nat_decimal_value(i);
    assert(key.subrange(0, prefix.len() as int) =~= prefix);
    let rest = key.skip(prefix.len() as int);
    assert(rest =~= d + suffix);
    assert(rest.subrange(rest.len() - suffix.len(), rest.len() as int) =~= suffix);
    assert(rest.subrange(0, rest.len() - suffix.len()) =~= d);
}

/// A key that parses to an index is exactly `prefix`, the plain decimal of
/// that index (no sign, no leading zero) and `suffix`.
pub proof fn lemma_indexed_key_rebuilds(key: Seq<char>, prefix: Seq<char>, suffix: Seq<char>)
    requires
        indexed_key_spec(key, prefix, suffix) is Some,
    ensures
        key == prefix + nat_decimal(indexed_key_spec(key, prefix, suffix)->0) + suffix,
{
    let rest = key.skip(prefix.len() as int);
    let idx = rest.subrange(0, rest.len() - suffix.len());
    crate::text::lemma_decimal_canonical(idx);
    assert(key.subrange(0, prefix.len() as int) == prefix);
    assert(rest.subrange(rest.len() - suffix.len(), rest.len() as int) == suffix);
    assert(key =~= prefix + idx + suffix);
}

/// Discovery finds the account that an indexed token key was built for:
/// `ACCOUNT_{i}_TOKEN` parses back to `i`.
pub proof fn lemma_account_token_key_discovered(i: usize)
    ensures
        indexed_key_spec(indexed_account_key_spec(i as nat, AccountScalarField::Token), "ACCOUNT_"@, "_TOKEN"@)
            == Some(i as nat),
{
    reveal_strlit("_");
    reveal_strlit("TOKEN");
    reveal_strlit("_TOKEN");
    assert("_"@ + "TOKEN"@ =~= "_TOKEN"@);
    assert(indexed_account_key_spec(i as nat, AccountScalarField::Token) =~= "ACCOUNT_"@ + nat_decimal(i as nat) + "_TOKEN"@);
    lemma_indexed_key_roundtrip("ACCOUNT_"@, i as nat, "_TOKEN"@);
}

/// Discovery finds the activity that an indexed name key was built for:
/// `{prefix}ACTIVITY_{j}` parses back to `j`.
pub proof fn lemma_activity_name_key_discovered(prefix: Seq<char>, j: usize)
    ensures
        indexed_key_spec(indexed_activity_key_spec(prefix, j as nat, ActivityField::Name), prefix + "ACTIVITY_"@, Seq::empty())
            == Some(j as nat),
{
    assert(indexed_activity_key_spec(prefix, j as nat, ActivityField::Name) =~= (prefix + "ACTIVITY_"@) + nat_decimal(j as nat) + Seq::<char>::empty());
    lemma_indexed_key_roundtrip(prefix + "ACTIVITY_"@, j as nat, Seq::empty());
}

} // verus!
