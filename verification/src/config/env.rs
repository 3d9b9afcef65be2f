//! The environment layer: each variable name is read as a path to a leaf.

use crate::config::fields::{AccountScalarField, ActivityField, ClientPropField, CustomStatusField, DefaultsProfile};
use crate::config::id::{flat_id, parse_user_id, singular_id, user_id_error, ACCOUNT_FLAT, ACTIVITY_SINGULAR};
use crate::config::partial::{config_view, empty_config, ConfigV, PartialConfig};
use crate::config::path::{
    account_scalar_path, activity_field_path, apply_path, apply_v, custom_status_path, layer_shape,
    lemma_apply_v_reads_back, leaf_v, path_view, AccountPath, AccountPathV, ConfigPath, PathV,
};
use crate::text::{
    chars, ends_with, is_alnum_char, is_ascii_alnum, seq_eq, starts_with, string_of, sub_vec, trim_nonempty,
    trim_nonempty_str, vec_ends_with, vec_starts_with, has_at,
};
use crate::text::{lemma_seq_lt_irreflexive, lemma_seq_lt_transitive, seq_lt, str_lt};
use vstd::prelude::*;
use vstd::string::*;

verus! {

/// A leaf that an account variable can name.
#[derive(Debug, Clone, Copy, PartialEq, Eq)]
pub enum AccountEnvField {
    Scalar(AccountScalarField),
    Custom(CustomStatusField),
}

/// Account variable suffixes, longest first; `CUSTOM_STATUS_TEXT` is read
/// as the custom-status text too.
pub open spec fn account_table() -> Seq<(Seq<char>, AccountEnvField)> {
    seq![
        ("CUSTOM_STATUS_EMOJI"@, AccountEnvField::Custom(CustomStatusField::Emoji)),
        ("CUSTOM_STATUS_TEXT"@, AccountEnvField::Custom(CustomStatusField::Text)),
        ("CUSTOM_STATUS"@, AccountEnvField::Custom(CustomStatusField::Text)),
        ("DEVICE"@, AccountEnvField::Scalar(AccountScalarField::Device)),
        ("STATUS"@, AccountEnvField::Scalar(AccountScalarField::Status)),
        ("TOKEN"@, AccountEnvField::Scalar(AccountScalarField::Token)),
        ("KIND"@, AccountEnvField::Scalar(AccountScalarField::Kind)),
    ]
}

/// Activity variable suffixes, longest first.
pub open spec fn activity_table() -> Seq<(ActivityField, Seq<char>)> {
    seq![
        (ActivityField::LargeImageText, "LARGE_IMAGE_TEXT"@),
        (ActivityField::SmallImageText, "SMALL_IMAGE_TEXT"@),
        (ActivityField::ApplicationId, "APPLICATION_ID"@),
        (ActivityField::PartyCurrent, "PARTY_CURRENT"@),
        (ActivityField::Button2Url, "BUTTON_2_URL"@),
        (ActivityField::LargeImage, "LARGE_IMAGE"@),
        (ActivityField::SmallImage, "SMALL_IMAGE"@),
        (ActivityField::ButtonUrl, "BUTTON_URL"@),
        (ActivityField::Timestamp, "TIMESTAMP"@),
        (ActivityField::PartyMax, "PARTY_MAX"@),
        (ActivityField::Platform, "PLATFORM"@),
        (ActivityField::Button2, "BUTTON_2"@),
        (ActivityField::PartyId, "PARTY_ID"@),
        (ActivityField::Details, "DETAILS"@),
        (ActivityField::Button, "BUTTON"@),
        (ActivityField::Type, "TYPE"@),
        (ActivityField::Url, "URL"@),
    ]
}

/// The account variable suffixes: every catalog suffix of an account scalar
/// or custom-status leaf, and `CUSTOM_STATUS_TEXT` for the custom-status
/// text, longest first (ties keep catalog order).
pub fn account_suffixes_longest_first() -> (r: Vec<(&'static str, AccountEnvField)>)
    ensures
        r@.len() == account_table().len(),
        forall|i: int| 0 <= i < r@.len() ==> #[trigger] r@[i].0@ == account_table()[i].0 && r@[i].1 == account_table()[i].1,
        forall|i: int, j: int| 0 <= i < j < r@.len() ==> r@[i].0@.len() >= r@[j].0@.len(),
        forall|f: AccountScalarField| #[trigger] f.names().env_suffix is Some ==> exists|i: int| 0 <= i < r@.len() && r@[i].1 == AccountEnvField::Scalar(f) && Some(r@[i].0@) == f.names().env_suffix,
        forall|f: CustomStatusField| exists|i: int| 0 <= i < r@.len() && r@[i].1 == AccountEnvField::Custom(f) && Some(r@[i].0@) == #[trigger] f.names().env_suffix,
{
    let r = vec![
        ("CUSTOM_STATUS_EMOJI", AccountEnvField::Custom(CustomStatusField::Emoji)),
        ("CUSTOM_STATUS_TEXT", AccountEnvField::Custom(CustomStatusField::Text)),
        ("CUSTOM_STATUS", AccountEnvField::Custom(CustomStatusField::Text)),
        ("DEVICE", AccountEnvField::Scalar(AccountScalarField::Device)),
        ("STATUS", AccountEnvField::Scalar(AccountScalarField::Status)),
        ("TOKEN", AccountEnvField::Scalar(AccountScalarField::Token)),
        ("KIND", AccountEnvField::Scalar(AccountScalarField::Kind)),
    ];
    proof {
        reveal_strlit("CUSTOM_STATUS_EMOJI");
        reveal_strlit("CUSTOM_STATUS_TEXT");
        reveal_strlit("CUSTOM_STATUS");
        reveal_strlit("DEVICE");
        reveal_strlit("STATUS");
        reveal_strlit("TOKEN");
        reveal_strlit("KIND");
        assert forall|f: AccountScalarField| #[trigger] f.names().env_suffix is Some implies exists|i: int| 0 <= i < r@.len() && r@[i].1 == AccountEnvField::Scalar(f) && Some(r@[i].0@) == f.names().env_suffix by {
            match f {
                AccountScalarField::Token => assert(r@[5].1 == AccountEnvField::Scalar(f)),
                AccountScalarField::Name => {},
                AccountScalarField::Kind => assert(r@[6].1 == AccountEnvField::Scalar(f)),
                AccountScalarField::Device => assert(r@[3].1 == AccountEnvField::Scalar(f)),
                AccountScalarField::Status => assert(r@[4].1 == AccountEnvField::Scalar(f)),
            }
        }
        assert forall|f: CustomStatusField| exists|i: int| 0 <= i < r@.len() && r@[i].1 == AccountEnvField::Custom(f) && Some(r@[i].0@) == #[trigger] f.names().env_suffix by {
            match f {
                CustomStatusField::Text => assert(r@[2].1 == AccountEnvField::Custom(f)),
                CustomStatusField::Emoji => assert(r@[0].1 == AccountEnvField::Custom(f)),
            }
        }
    }
    r
}

/// The activity variable suffixes: every catalog suffix of an activity leaf,
/// longest first (ties keep catalog order).
pub fn activity_suffixes_longest_first() -> (r: Vec<(ActivityField, &'static str)>)
    ensures
        r@.len() == activity_table().len(),
        forall|i: int| 0 <= i < r@.len() ==> #[trigger] r@[i].1@ == activity_table()[i].1 && r@[i].0 == activity_table()[i].0,
        forall|i: int, j: int| 0 <= i < j < r@.len() ==> r@[i].1@.len() >= r@[j].1@.len(),
        forall|f: ActivityField| #[trigger] f.names().env_suffix is Some ==> exists|i: int| 0 <= i < r@.len() && r@[i].0 == f && Some(r@[i].1@) == f.names().env_suffix,
{
    let r = vec![
        (ActivityField::LargeImageText, "LARGE_IMAGE_TEXT"),
        (ActivityField::SmallImageText, "SMALL_IMAGE_TEXT"),
        (ActivityField::ApplicationId, "APPLICATION_ID"),
        (ActivityField::PartyCurrent, "PARTY_CURRENT"),
        (ActivityField::Button2Url, "BUTTON_2_URL"),
        (ActivityField::LargeImage, "LARGE_IMAGE"),
        (ActivityField::SmallImage, "SMALL_IMAGE"),
        (ActivityField::ButtonUrl, "BUTTON_URL"),
        (ActivityField::Timestamp, "TIMESTAMP"),
        (ActivityField::PartyMax, "PARTY_MAX"),
        (ActivityField::Platform, "PLATFORM"),
        (ActivityField::Button2, "BUTTON_2"),
        (ActivityField::PartyId, "PARTY_ID"),
        (ActivityField::Details, "DETAILS"),
        (ActivityField::Button, "BUTTON"),
        (ActivityField::Type, "TYPE"),
        (ActivityField::Url, "URL"),
    ];
    proof {
        reveal_strlit("LARGE_IMAGE_TEXT");
        reveal_strlit("SMALL_IMAGE_TEXT");
        reveal_strlit("APPLICATION_ID");
        reveal_strlit("PARTY_CURRENT");
        reveal_strlit("BUTTON_2_URL");
        reveal_strlit("LARGE_IMAGE");
        reveal_strlit("SMALL_IMAGE");
        reveal_strlit("BUTTON_URL");
        reveal_strlit("TIMESTAMP");
        reveal_strlit("PARTY_MAX");
        reveal_strlit("PLATFORM");
        reveal_strlit("BUTTON_2");
        reveal_strlit("PARTY_ID");
        reveal_strlit("DETAILS");
        reveal_strlit("BUTTON");
        reveal_strlit("TYPE");
        reveal_strlit("URL");
        assert forall|f: ActivityField| #[trigger] f.names().env_suffix is Some implies exists|i: int| 0 <= i < r@.len() && r@[i].0 == f && Some(r@[i].1@) == f.names().env_suffix by {
            match f {
                ActivityField::Name => {},
                ActivityField::LargeImageText => assert(r@[0].0 == f),
                ActivityField::SmallImageText => assert(r@[1].0 == f),
                ActivityField::ApplicationId => assert(r@[2].0 == f),
                ActivityField::PartyCurrent => assert(r@[3].0 == f),
                ActivityField::Button2Url => assert(r@[4].0 == f),
                ActivityField::LargeImage => assert(r@[5].0 == f),
                ActivityField::SmallImage => assert(r@[6].0 == f),
                ActivityField::ButtonUrl => assert(r@[7].0 == f),
                ActivityField::Timestamp => assert(r@[8].0 == f),
                ActivityField::PartyMax => assert(r@[9].0 == f),
                ActivityField::Platform => assert(r@[10].0 == f),
                ActivityField::Button2 => assert(r@[11].0 == f),
                ActivityField::PartyId => assert(r@[12].0 == f),
                ActivityField::Details => assert(r@[13].0 == f),
                ActivityField::Button => assert(r@[14].0 == f),
                ActivityField::Type => assert(r@[15].0 == f),
                ActivityField::Url => assert(r@[16].0 == f),
            }
        }
    }
    r
}

/// The path of an account leaf.
pub open spec fn env_field_path(id: Seq<char>, f: AccountEnvField) -> PathV {
    match f {
        AccountEnvField::Scalar(x) => PathV::Account(id, AccountPathV::Scalar(x)),
        AccountEnvField::Custom(x) => PathV::Account(id, AccountPathV::CustomStatus(x)),
    }
}

/// The first suffix of `t` equal to `key`, as a flat-account path.
pub open spec fn flat_scan(key: Seq<char>, t: Seq<(Seq<char>, AccountEnvField)>) -> Option<PathV>
    decreases t.len(),
{
    if t.len() == 0 {
        None
    } else if key == t[0].0 {
        Some(env_field_path(flat_id(), t[0].1))
    } else {
        flat_scan(key, t.drop_first())
    }
}

/// The first client-property field whose suffix is `part`.
pub open spec fn prop_scan(part: Seq<char>, fs: Seq<ClientPropField>) -> Option<ClientPropField>
    decreases fs.len(),
{
    if fs.len() == 0 {
        None
    } else if Some(part) == fs[0].names().env_suffix {
        Some(fs[0])
    } else {
        prop_scan(part, fs.drop_first())
    }
}

pub open spec fn all_props() -> Seq<ClientPropField> {
    seq![ClientPropField::Os, ClientPropField::Browser, ClientPropField::Device, ClientPropField::UserAgent]
}

pub open spec fn all_profiles() -> Seq<DefaultsProfile> {
    seq![DefaultsProfile::Bot, DefaultsProfile::Web, DefaultsProfile::Desktop, DefaultsProfile::Mobile]
}

/// The first profile whose prefix starts `key` and whose rest names a field.
pub open spec fn defaults_scan(key: Seq<char>, ps: Seq<DefaultsProfile>) -> Option<PathV>
    decreases ps.len(),
{
    if ps.len() == 0 {
        None
    } else if starts_with(key, ps[0].prefix_spec()) && prop_scan(key.skip(ps[0].prefix_spec().len() as int), all_props()) is Some {
        Some(PathV::Defaults(ps[0], prop_scan(key.skip(ps[0].prefix_spec().len() as int), all_props()).unwrap()))
    } else {
        defaults_scan(key, ps.drop_first())
    }
}

/// `_` then `s`.
pub open spec fn underscored(s: Seq<char>) -> Seq<char> {
    seq!['_'] + s
}

/// `s` without a trailing `_suffix`, when what is left is not empty.
pub open spec fn id_before(s: Seq<char>, suffix: Seq<char>) -> Option<Seq<char>> {
    if ends_with(s, underscored(suffix)) && s.len() > suffix.len() + 1 {
        Some(s.subrange(0, s.len() - suffix.len() - 1))
    } else {
        None
    }
}

/// The first activity suffix equal to `r`.
pub open spec fn exact_activity(r: Seq<char>, t: Seq<(ActivityField, Seq<char>)>) -> Option<ActivityField>
    decreases t.len(),
{
    if t.len() == 0 {
        None
    } else if r == t[0].1 {
        Some(t[0].0)
    } else {
        exact_activity(r, t.drop_first())
    }
}

/// The first activity suffix that `r` ends with after a valid id.
pub open spec fn activity_suffix_scan(r: Seq<char>, t: Seq<(ActivityField, Seq<char>)>) -> Option<(Seq<char>, ActivityField)>
    decreases t.len(),
{
    if t.len() == 0 {
        None
    } else if id_before(r, t[0].1) is Some && user_id_error(id_before(r, t[0].1).unwrap()) is None {
        Some((id_before(r, t[0].1).unwrap(), t[0].0))
    } else {
        activity_suffix_scan(r, t.drop_first())
    }
}

/// The activity id and field named by what follows `ACTIVITY` in a variable.
pub open spec fn activity_token(rest: Seq<char>) -> Option<(Seq<char>, ActivityField)> {
    if rest.len() == 0 {
        Some((singular_id(), ActivityField::Name))
    } else if rest[0] != '_' {
        None
    } else {
        let r = rest.skip(1);
        match exact_activity(r, activity_table()) {
            Some(f) => Some((singular_id(), f)),
            None => match activity_suffix_scan(r, activity_table()) {
                Some(x) => Some(x),
                None => if user_id_error(r) is None {
                    Some((r, ActivityField::Name))
                } else {
                    None
                },
            },
        }
    }
}

/// `p` occurs in `s` at `i`.
pub open spec fn occurs_at(s: Seq<char>, p: Seq<char>, i: int) -> bool {
    0 <= i && i + p.len() <= s.len() && s.subrange(i, i + p.len()) == p
}

pub open spec fn is_first_occurrence(s: Seq<char>, p: Seq<char>, i: int) -> bool {
    occurs_at(s, p, i) && forall|j: int| 0 <= j < i ==> !occurs_at(s, p, j)
}

/// Where `p` first occurs in `s`.
pub open spec fn first_occurrence(s: Seq<char>, p: Seq<char>) -> Option<int> {
    if exists|i: int| is_first_occurrence(s, p, i) {
        Some(choose|i: int| is_first_occurrence(s, p, i))
    } else {
        None
    }
}

/// The first account suffix that decides `rest`: `Some(None)` when `rest`
/// is a bare suffix or its id is invalid, `None` when no suffix matches.
pub open spec fn account_rest_scan(rest: Seq<char>, t: Seq<(Seq<char>, AccountEnvField)>) -> Option<Option<PathV>>
    decreases t.len(),
{
    if t.len() == 0 {
        None
    } else if rest == t[0].0 {
        Some(None)
    } else if id_before(rest, t[0].0) is Some {
        let id = id_before(rest, t[0].0).unwrap();
        Some(
            if user_id_error(id) is None {
                Some(env_field_path(id, t[0].1))
            } else {
                None
            },
        )
    } else {
        account_rest_scan(rest, t.drop_first())
    }
}

/// The path named by what follows `ACCOUNT_` in a variable.
pub open spec fn account_rest(rest: Seq<char>) -> Option<PathV> {
    match first_occurrence(rest, "_ACTIVITY"@) {
        Some(idx) => {
            let left = rest.subrange(0, idx);
            let right = rest.skip(idx + 9);
            if user_id_error(left) is Some {
                None
            } else {
                match activity_token(right) {
                    Some((a, f)) => Some(PathV::Account(left, AccountPathV::Activity(a, f))),
                    None => None,
                }
            }
        },
        None => match account_rest_scan(rest, account_table()) {
            Some(decided) => decided,
            None => if user_id_error(rest) is None {
                Some(PathV::Account(rest, AccountPathV::Scalar(AccountScalarField::Name)))
            } else {
                None
            },
        },
    }
}

/// The leaf an environment variable name sets, if any.
pub open spec fn env_path(key: Seq<char>) -> Option<PathV> {
    if key == "LOG_LEVEL"@ {
        Some(PathV::LogLevel)
    } else if key == "HEALTH_SOCKET"@ {
        Some(PathV::HealthSocket)
    } else if key == "ACCOUNT"@ {
        Some(PathV::Account(flat_id(), AccountPathV::Scalar(AccountScalarField::Name)))
    } else if starts_with(key, "DEFAULTS_"@) {
        defaults_scan(key, all_profiles())
    } else if starts_with(key, "ACTIVITY"@) {
        match activity_token(key.skip(8)) {
            Some((a, f)) => Some(PathV::Account(flat_id(), AccountPathV::Activity(a, f))),
            None => None,
        }
    } else if starts_with(key, "ACCOUNT_"@) {
        account_rest(key.skip(8))
    } else {
        flat_scan(key, account_table())
    }
}

proof fn lemma_skip_step<T>(t: Seq<T>, i: int)
    requires
        0 <= i < t.len(),
    ensures
        t.skip(i).drop_first() == t.skip(i + 1),
        t.skip(i)[0] == t[i],
        t.skip(i).len() > 0,
{
    assert(t.skip(i).drop_first() =~= t.skip(i + 1));
}

/// `_` then the text of `s`.
fn underscore_then(s: &str) -> (r: Vec<char>)
    ensures
        r@ == underscored(s@),
{
    let mut r: Vec<char> = Vec::new();
    r.push('_');
    let v = chars(s);
    let mut i: usize = 0;
    while i < v.len()
        invariant
            i <= v@.len(),
            v@ == s@,
            r@ == seq!['_'] + v@.subrange(0, i as int),
        decreases v@.len() - i,
    {
        r.push(v[i]);
        i = i + 1;
        assert(r@ =~= seq!['_'] + v@.subrange(0, i as int));
    }
    assert(v@.subrange(0, v@.len() as int) =~= v@);
    r
}

/// `s` without a trailing `_suffix`, when what is left is not empty.
fn strip_id_before(s: &Vec<char>, suffix: &str) -> (r: Option<String>)
    ensures
        match r {
            Some(x) => id_before(s@, suffix@) == Some(x@),
            None => id_before(s@, suffix@) is None,
        },
{
    let pat = underscore_then(suffix);
    if vec_ends_with(s, &pat) && s.len() > pat.len() {
        let v = sub_vec(s, 0, s.len() - pat.len());
        Some(string_of(&v))
    } else {
        None
    }
}

fn flat_key_path(key: &Vec<char>) -> (r: Option<ConfigPath>)
    ensures
        match r {
            Some(p) => flat_scan(key@, account_table()) == Some(path_view(p)),
            None => flat_scan(key@, account_table()) is None,
        },
{
    let table = account_suffixes_longest_first();
    let ghost t = account_table();
    let mut i: usize = 0;
    assert(t.skip(0) =~= t);
    while i < table.len()
        invariant
            table@.len() == t.len(),
            forall|j: int| 0 <= j < t.len() ==> #[trigger] table@[j].0@ == t[j].0 && table@[j].1 == t[j].1,
            i <= t.len(),
            t == account_table(),
            flat_scan(key@, t) == flat_scan(key@, t.skip(i as int)),
        decreases t.len() - i,
    {
        proof {
            lemma_skip_step(t, i as int);
        }
        let (suffix, field) = table[i];
        if seq_eq(key, &chars(suffix)) {
            let id = String::from_str(ACCOUNT_FLAT);
            return Some(
                match field {
                    AccountEnvField::Scalar(f) => account_scalar_path(id, f),
                    AccountEnvField::Custom(f) => custom_status_path(id, f),
                },
            );
        }
        i = i + 1;
    }
    None
}

fn defaults_key_path(key: &Vec<char>) -> (r: Option<ConfigPath>)
    ensures
        match r {
            Some(p) => defaults_scan(key@, all_profiles()) == Some(path_view(p)),
            None => defaults_scan(key@, all_profiles()) is None,
        },
{
    let profiles = DefaultsProfile::all();
    let ghost ps = all_profiles();
    let mut i: usize = 0;
    assert(ps.skip(0) =~= ps);
    while i < profiles.len()
        invariant
            profiles@ == ps,
            ps == all_profiles(),
            i <= ps.len(),
            defaults_scan(key@, ps) == defaults_scan(key@, ps.skip(i as int)),
        decreases ps.len() - i,
    {
        proof {
            lemma_skip_step(ps, i as int);
        }
        let profile = profiles[i];
        let prefix = chars(profile.env_prefix());
        if vec_starts_with(key, &prefix) {
            let part = sub_vec(key, prefix.len(), key.len());
            assert(part@ == key@.skip(profile.prefix_spec().len() as int));
            let fields = ClientPropField::all();
            let ghost fs = all_props();
            let mut j: usize = 0;
            assert(fs.skip(0) =~= fs);
            while j < fields.len()
                invariant
                    fields@ == fs,
                    fs == all_props(),
                    j <= fs.len(),
                    prop_scan(part@, fs) == prop_scan(part@, fs.skip(j as int)),
                    i < ps.len(),
                    ps.skip(i as int)[0] == profile,
                    ps == all_profiles(),
                    defaults_scan(key@, ps) == defaults_scan(key@, ps.skip(i as int)),
                    starts_with(key@, profile.prefix_spec()),
                    part@ == key@.skip(profile.prefix_spec().len() as int),
                decreases fs.len() - j,
            {
                proof {
                    lemma_skip_step(fs, j as int);
                }
                let field = fields[j];
                if seq_eq(&part, &chars(field.env_suffix())) {
                    return Some(ConfigPath::Defaults(profile, field));
                }
                j = j + 1;
            }
            assert(fs.skip(4).len() == 0);
        }
        i = i + 1;
    }
    None
}

fn exact_activity_field(r: &Vec<char>, table: &Vec<(ActivityField, &'static str)>) -> (out: Option<ActivityField>)
    requires
        table@.len() == activity_table().len(),
        forall|i: int| 0 <= i < table@.len() ==> #[trigger] table@[i].1@ == activity_table()[i].1 && table@[i].0 == activity_table()[i].0,
    ensures
        out == exact_activity(r@, activity_table()),
{
    let ghost t = activity_table();
    let mut i: usize = 0;
    assert(t.skip(0) =~= t);
    while i < table.len()
        invariant
            table@.len() == t.len(),
            forall|j: int| 0 <= j < t.len() ==> #[trigger] table@[j].1@ == t[j].1 && table@[j].0 == t[j].0,
            t == activity_table(),
            i <= t.len(),
            exact_activity(r@, t) == exact_activity(r@, t.skip(i as int)),
        decreases t.len() - i,
    {
        proof {
            lemma_skip_step(t, i as int);
        }
        let (field, suffix) = table[i];
        if seq_eq(r, &chars(suffix)) {
            return Some(field);
        }
        i = i + 1;
    }
    None
}

fn activity_suffix_id(r: &Vec<char>, table: &Vec<(ActivityField, &'static str)>) -> (out: Option<(String, ActivityField)>)
    requires
        table@.len() == activity_table().len(),
        forall|i: int| 0 <= i < table@.len() ==> #[trigger] table@[i].1@ == activity_table()[i].1 && table@[i].0 == activity_table()[i].0,
    ensures
        match out {
            Some((id, f)) => activity_suffix_scan(r@, activity_table()) == Some((id@, f)),
            None => activity_suffix_scan(r@, activity_table()) is None,
        },
{
    let ghost t = activity_table();
    let mut i: usize = 0;
    assert(t.skip(0) =~= t);
    while i < table.len()
        invariant
            table@.len() == t.len(),
            forall|j: int| 0 <= j < t.len() ==> #[trigger] table@[j].1@ == t[j].1 && table@[j].0 == t[j].0,
            t == activity_table(),
            i <= t.len(),
            activity_suffix_scan(r@, t) == activity_suffix_scan(r@, t.skip(i as int)),
        decreases t.len() - i,
    {
        proof {
            lemma_skip_step(t, i as int);
        }
        let (field, suffix) = table[i];
        match strip_id_before(r, suffix) {
            Some(prefix) => {
                match parse_user_id(prefix.as_str()) {
                    Ok(id) => {
                        return Some((id, field));
                    },
                    Err(_) => {},
                }
            },
            None => {},
        }
        i = i + 1;
    }
    None
}

/// The activity id and field named by what follows `ACTIVITY` in a
/// variable: nothing is the singular activity's name, `_SUFFIX` a leaf of
/// the singular activity, `_id_SUFFIX` a leaf of activity `id`, `_id` its
/// name.
fn parse_activity_token(rest: &Vec<char>) -> (out: Option<(String, ActivityField)>)
    ensures
        match out {
            Some((id, f)) => activity_token(rest@) == Some((id@, f)),
            None => activity_token(rest@) is None,
        },
{
    if rest.len() == 0 {
        return Some((String::from_str(ACTIVITY_SINGULAR), ActivityField::Name));
    }
    if rest[0] != '_' {
        return None;
    }
    let r = sub_vec(rest, 1, rest.len());
    assert(r@ == rest@.skip(1));
    let table = activity_suffixes_longest_first();
    match exact_activity_field(&r, &table) {
        Some(field) => {
            return Some((String::from_str(ACTIVITY_SINGULAR), field));
        },
        None => {},
    }
    match activity_suffix_id(&r, &table) {
        Some(x) => {
            return Some(x);
        },
        None => {},
    }
    let text = string_of(&r);
    match parse_user_id(text.as_str()) {
        Ok(id) => Some((id, ActivityField::Name)),
        Err(_) => None,
    }
}

/// Where `p` first occurs in `s`.
fn find_sub(s: &Vec<char>, p: &Vec<char>) -> (r: Option<usize>)
    requires
        p@.len() > 0,
    ensures
        match r {
            Some(i) => first_occurrence(s@, p@) == Some(i as int) && occurs_at(s@, p@, i as int),
            None => first_occurrence(s@, p@) is None,
        },
{
    let mut i: usize = 0;
    while i < s.len()
        invariant
            i <= s@.len(),
            p@.len() > 0,
            forall|j: int| 0 <= j < i ==> !occurs_at(s@, p@, j),
        decreases s@.len() - i,
    {
        if has_at(s, i, p) {
            assert(s@.subrange(i as int, s@.len() as int).subrange(0, p@.len() as int) =~= s@.subrange(
                i as int,
                i + p@.len(),
            ));
            assert(is_first_occurrence(s@, p@, i as int));
            proof {
                let k = choose|k: int| is_first_occurrence(s@, p@, k);
                if k < i {
                } else if k > i {
                }
            }
            return Some(i);
        }
        proof {
            if occurs_at(s@, p@, i as int) {
                assert(s@.subrange(i as int, s@.len() as int).subrange(0, p@.len() as int) =~= s@.subrange(
                    i as int,
                    i + p@.len(),
                ));
            }
        }
        i = i + 1;
    }
    assert(!exists|k: int| is_first_occurrence(s@, p@, k)) by {
        if exists|k: int| is_first_occurrence(s@, p@, k) {
            let k = choose|k: int| is_first_occurrence(s@, p@, k);
            assert(k < s@.len());
        }
    }
    None
}

fn env_field_config_path(id: String, field: AccountEnvField) -> (r: ConfigPath)
    ensures
        path_view(r) == env_field_path(id@, field),
{
    match field {
        AccountEnvField::Scalar(f) => account_scalar_path(id, f),
        AccountEnvField::Custom(f) => custom_status_path(id, f),
    }
}

/// The path named by what follows `ACCOUNT_` in a variable: `id_ACTIVITY…`
/// a leaf of one of the account's activities, `id_SUFFIX` an account leaf
/// (a bare suffix names none), `id` the account's name.
fn parse_account_rest(rest: &Vec<char>) -> (r: Option<ConfigPath>)
    ensures
        match r {
            Some(p) => account_rest(rest@) == Some(path_view(p)),
            None => account_rest(rest@) is None,
        },
{
    let marker = chars("_ACTIVITY");
    proof {
        reveal_strlit("_ACTIVITY");
    }
    match find_sub(rest, &marker) {
        Some(idx) => {
            assert(marker@.len() == 9);
            let n = rest.len();
            assert(idx + 9 <= n);
            let from: usize = idx + 9;
            let left = string_of(&sub_vec(rest, 0, idx));
            let right = sub_vec(rest, from, n);
            assert(right@ == rest@.skip(idx + 9));
            let account_id = match parse_user_id(left.as_str()) {
                Ok(id) => id,
                Err(_) => {
                    return None;
                },
            };
            return match parse_activity_token(&right) {
                Some((act_id, field)) => Some(activity_field_path(account_id, act_id, field)),
                None => None,
            };
        },
        None => {},
    }
    let table = account_suffixes_longest_first();
    let ghost t = account_table();
    let mut i: usize = 0;
    assert(t.skip(0) =~= t);
    while i < table.len()
        invariant
            table@.len() == t.len(),
            forall|j: int| 0 <= j < t.len() ==> #[trigger] table@[j].0@ == t[j].0 && table@[j].1 == t[j].1,
            i <= t.len(),
            t == account_table(),
            account_rest_scan(rest@, t) == account_rest_scan(rest@, t.skip(i as int)),
            first_occurrence(rest@, "_ACTIVITY"@) is None,
        decreases t.len() - i,
    {
        proof {
            lemma_skip_step(t, i as int);
        }
        let (suffix, field) = table[i];
        if seq_eq(rest, &chars(suffix)) {
            return None;
        }
        match strip_id_before(rest, suffix) {
            Some(prefix) => {
                return match parse_user_id(prefix.as_str()) {
                    Ok(id) => Some(env_field_config_path(id, field)),
                    Err(_) => None,
                };
            },
            None => {},
        }
        i = i + 1;
    }
    assert(t.skip(t.len() as int).len() == 0);
    let text = string_of(rest);
    match parse_user_id(text.as_str()) {
        Ok(id) => Some(account_scalar_path(id, AccountScalarField::Name)),
        Err(_) => None,
    }
}

/// The leaf an environment variable name sets, if any.
pub fn parse_env_key(key: &str) -> (r: Option<ConfigPath>)
    ensures
        match r {
            Some(p) => env_path(key@) == Some(path_view(p)),
            None => env_path(key@) is None,
        },
{
    let k = chars(key);
    proof {
        reveal_strlit("LOG_LEVEL");
        reveal_strlit("HEALTH_SOCKET");
        reveal_strlit("ACCOUNT");
        reveal_strlit("DEFAULTS_");
        reveal_strlit("ACTIVITY");
        reveal_strlit("ACCOUNT_");
    }
    if seq_eq(&k, &chars("LOG_LEVEL")) {
        return Some(ConfigPath::LogLevel);
    }
    if seq_eq(&k, &chars("HEALTH_SOCKET")) {
        return Some(ConfigPath::HealthSocket);
    }
    if seq_eq(&k, &chars("ACCOUNT")) {
        return Some(account_scalar_path(String::from_str(ACCOUNT_FLAT), AccountScalarField::Name));
    }
    if vec_starts_with(&k, &chars("DEFAULTS_")) {
        return defaults_key_path(&k);
    }
    if vec_starts_with(&k, &chars("ACTIVITY")) {
        let rest = sub_vec(&k, 8, k.len());
        assert(rest@ == key@.skip(8));
        return match parse_activity_token(&rest) {
            Some((act_id, field)) => Some(activity_field_path(String::from_str(ACCOUNT_FLAT), act_id, field)),
            None => None,
        };
    }
    if vec_starts_with(&k, &chars("ACCOUNT_")) {
        let rest = sub_vec(&k, 8, k.len());
        assert(rest@ == key@.skip(8));
        return parse_account_rest(&rest);
    }
    flat_key_path(&k)
}

/// A variable name made only of ASCII letters, digits, `_` and `-`.
pub open spec fn env_key_ok(key: Seq<char>) -> bool {
    key.len() > 0 && forall|i: int| 0 <= i < key.len() ==> is_ascii_alnum(#[trigger] key[i]) || key[i] == '_' || key[i] == '-'
}

fn is_ascii_env_key(key: &str) -> (r: bool)
    ensures
        r == env_key_ok(key@),
{
    let k = chars(key);
    if k.len() == 0 {
        return false;
    }
    let mut i: usize = 0;
    while i < k.len()
        invariant
            i <= k@.len(),
            k@ == key@,
            forall|j: int| 0 <= j < i ==> is_ascii_alnum(#[trigger] key@[j]) || key@[j] == '_' || key@[j] == '-',
        decreases k@.len() - i,
    {
        let c = k[i];
        if !(is_alnum_char(c) || c == '_' || c == '-') {
            assert(!(is_ascii_alnum(key@[i as int]) || key@[i as int] == '_' || key@[i as int] == '-'));
            return false;
        }
        i = i + 1;
    }
    true
}

/// The layer after reading one variable.
pub open spec fn env_step(c: ConfigV, key: Seq<char>, value: Seq<char>) -> ConfigV {
    if !env_key_ok(key) {
        c
    } else {
        match crate::text::trim_nonempty(value) {
            None => c,
            Some(v) => match env_path(key) {
                None => c,
                Some(p) => apply_v(c, p, v),
            },
        }
    }
}

/// The layer read from variables, in their order.
pub open spec fn env_layer(pairs: Seq<(Seq<char>, Seq<char>)>) -> ConfigV
    decreases pairs.len(),
{
    if pairs.len() == 0 {
        empty_config()
    } else {
        env_step(env_layer(pairs.drop_last()), pairs.last().0, pairs.last().1)
    }
}

pub open spec fn pairs_view(p: Seq<(String, String)>) -> Seq<(Seq<char>, Seq<char>)> {
    p.map_values(|kv: (String, String)| (kv.0@, kv.1@))
}

/// The layer of the given variables, read in order: a name outside
/// `[A-Za-z0-9_-]`, a blank value or a name that sets no leaf is skipped;
/// values are trimmed.
pub fn from_env_pairs(pairs: &Vec<(String, String)>) -> (r: PartialConfig)
    ensures
        config_view(r) == env_layer(pairs_view(pairs@)),
{
    let mut partial = PartialConfig::default();
    proof {
        assert(crate::config::partial::accounts_view(partial.accounts@) =~= Map::<Seq<char>, crate::config::partial::AccountV>::empty());
        assert(crate::config::partial::strings_view(partial.account_order@) =~= Seq::<Seq<char>>::empty());
        assert(config_view(partial) =~= empty_config());
        assert(pairs_view(pairs@.subrange(0, 0)) =~= Seq::<(Seq<char>, Seq<char>)>::empty());
    }
    let mut i: usize = 0;
    while i < pairs.len()
        invariant
            i <= pairs@.len(),
            config_view(partial) == env_layer(pairs_view(pairs@.subrange(0, i as int))),
        decreases pairs@.len() - i,
    {
        let key = pairs[i].0.as_str();
        let value = pairs[i].1.as_str();
        let ghost before = config_view(partial);
        proof {
            assert(pairs_view(pairs@.subrange(0, i + 1)).drop_last() =~= pairs_view(pairs@.subrange(0, i as int)));
            assert(pairs_view(pairs@.subrange(0, i + 1)).last() == (key@, value@));
        }
        if is_ascii_env_key(key) {
            match trim_nonempty_str(value) {
                Some(v) => match parse_env_key(key) {
                    Some(path) => {
                        apply_path(&mut partial, &path, v);
                    },
                    None => {},
                },
                None => {},
            }
        }
        i = i + 1;
    }
    assert(pairs@.subrange(0, pairs@.len() as int) =~= pairs@);
    partial
}

/// Keys in non-decreasing order.
pub open spec fn key_sorted(s: Seq<(String, String)>) -> bool {
    forall|i: int, j: int| 0 <= i < j < s.len() ==> !seq_lt(s[j].0@, s[i].0@)
}

/// The pairs ordered by key; pairs with equal keys keep their order.
pub fn sort_by_key(pairs: Vec<(String, String)>) -> (r: Vec<(String, String)>)
    ensures
        r@.to_multiset() == pairs@.to_multiset(),
        key_sorted(r@),
{
    broadcast use vstd::seq_lib::to_multiset_build, vstd::seq_lib::to_multiset_insert;

    let mut r: Vec<(String, String)> = Vec::new();
    let mut rest = pairs;
    let ghost all = rest@;
    proof {
        assert(all.subrange(0, 0) =~= Seq::<(String, String)>::empty());
    }
    let n = rest.len();
    let mut rev: Vec<(String, String)> = Vec::new();
    while rest.len() > 0
        invariant
            rest@.len() + rev@.len() == n,
            n == all.len(),
            forall|k: int| 0 <= k < rest@.len() ==> rest@[k] == all[k],
            forall|k: int| 0 <= k < rev@.len() ==> rev@[k] == all[n - 1 - k],
        decreases rest@.len(),
    {
        let x = rest.pop().unwrap();
        rev.push(x);
    }
    let mut j: usize = rev.len();
    while j > 0
        invariant
            n == all.len(),
            j <= n,
            forall|k: int| 0 <= k < rev@.len() ==> rev@[k] == all[n - 1 - k],
            r@.to_multiset() == all.subrange(0, n - j).to_multiset(),
            key_sorted(r@),
            rev@.len() == j,
        decreases j,
    {
        let x = rev.pop().unwrap();
        j = j - 1;
        assert(x == all[n - 1 - j]);
        let mut p: usize = 0;
        while p < r.len() && !str_lt(x.0.as_str(), r[p].0.as_str())
            invariant
                p <= r@.len(),
                forall|k: int| 0 <= k < p ==> !seq_lt(x.0@, #[trigger] r@[k].0@),
            decreases r@.len() - p,
        {
            p = p + 1;
        }
        let ghost before = r@;
        r.insert(p, x);
        proof {
            assert(all.subrange(0, n - j) =~= all.subrange(0, n - 1 - j).push(x));
            assert(r@ == before.insert(p as int, x));
            vstd::seq_lib::to_multiset_insert(before, p as int, x);
            vstd::seq_lib::to_multiset_build(all.subrange(0, n - 1 - j), x);
            assert forall|a: int, b: int| 0 <= a < b < r@.len() implies !seq_lt(r@[b].0@, r@[a].0@) by {
                if b < p {
                    assert(r@[a] == before[a] && r@[b] == before[b]);
                } else if b == p {
                    assert(r@[a] == before[a]);
                    assert(!seq_lt(x.0@, before[a].0@));
                } else if a < p {
                    assert(r@[a] == before[a] && r@[b] == before[b - 1]);
                } else if a == p {
                    assert(r@[b] == before[b - 1]);
                    assert(p < before.len());
                    assert(seq_lt(x.0@, before[p as int].0@));
                    if seq_lt(before[b - 1].0@, x.0@) {
                        lemma_seq_lt_transitive(before[b - 1].0@, x.0@, before[p as int].0@);
                        if b - 1 > p {
                            assert(!seq_lt(before[b - 1].0@, before[p as int].0@));
                        } else {
                            lemma_seq_lt_irreflexive(before[p as int].0@);
                        }
                    }
                } else {
                    assert(r@[a] == before[a - 1] && r@[b] == before[b - 1]);
                }
            }
        }
    }
    proof {
        assert(all.subrange(0, n as int) =~= all);
    }
    r
}

/// The layer of an environment: its variables read in key order.
pub fn from_env_map(pairs: Vec<(String, String)>) -> (r: PartialConfig)
    ensures
        exists|q: Seq<(String, String)>| #[trigger] q.to_multiset() == pairs@.to_multiset() && key_sorted(q) && config_view(r) == env_layer(pairs_view(q)),
{
    let sorted = sort_by_key(pairs);
    let r = from_env_pairs(&sorted);
    assert(sorted@.to_multiset() == pairs@.to_multiset() && key_sorted(sorted@) && config_view(r) == env_layer(pairs_view(sorted@)));
    r
}

proof fn lemma_flat_scan_at(key: Seq<char>, t: Seq<(Seq<char>, AccountEnvField)>, k: int)
    requires
        0 <= k < t.len(),
        key == t[k].0,
        forall|j: int| 0 <= j < k ==> key != #[trigger] t[j].0,
    ensures
        flat_scan(key, t) == Some(env_field_path(flat_id(), t[k].1)),
    decreases k,
{
    if k > 0 {
        assert(key != t[0].0);
        let u = t.drop_first();
        assert forall|j: int| 0 <= j < k - 1 implies key != #[trigger] u[j].0 by {
            assert(u[j] == t[j + 1]);
        }
        lemma_flat_scan_at(key, u, k - 1);
    }
}

/// The account suffixes as texts: pairwise different, none starting with
/// `L`, `H` or `A`, and the one starting with `D` shorter than `DEFAULTS_`.
proof fn lemma_account_suffix_texts()
    ensures
        account_table()[0].0 == "CUSTOM_STATUS_EMOJI"@,
        account_table()[1].0 == "CUSTOM_STATUS_TEXT"@,
        account_table()[2].0 == "CUSTOM_STATUS"@,
        account_table()[3].0 == "DEVICE"@,
        account_table()[4].0 == "STATUS"@,
        account_table()[5].0 == "TOKEN"@,
        account_table()[6].0 == "KIND"@,
        forall|a: int, b: int| 0 <= a < b < 7 ==> account_table()[a].0 != account_table()[b].0,
        forall|a: int, b: int| 0 <= a < b < 7 ==> account_table()[a].0.len() >= account_table()[b].0.len(),
        forall|a: int| 0 <= a < 7 ==> account_table()[a].0.len() > 0 && account_table()[a].0[0] != 'L' && account_table()[a].0[0] != 'H'
            && account_table()[a].0[0] != 'A' && (account_table()[a].0[0] == 'D' ==> account_table()[a].0.len() < 9),
{
    reveal_strlit("CUSTOM_STATUS_EMOJI");
    reveal_strlit("CUSTOM_STATUS_TEXT");
    reveal_strlit("CUSTOM_STATUS");
    reveal_strlit("DEVICE");
    reveal_strlit("STATUS");
    reveal_strlit("TOKEN");
    reveal_strlit("KIND");
    let t = account_table();
    assert(t[0].0 == "CUSTOM_STATUS_EMOJI"@);
    assert(t[1].0 == "CUSTOM_STATUS_TEXT"@);
    assert(t[2].0 == "CUSTOM_STATUS"@);
    assert(t[3].0 == "DEVICE"@);
    assert(t[4].0 == "STATUS"@);
    assert(t[5].0 == "TOKEN"@);
    assert(t[6].0 == "KIND"@);
    assert("CUSTOM_STATUS_EMOJI"@.len() == 19 && "CUSTOM_STATUS_EMOJI"@[0] == 'C');
    assert("CUSTOM_STATUS_TEXT"@.len() == 18 && "CUSTOM_STATUS_TEXT"@[0] == 'C');
    assert("CUSTOM_STATUS"@.len() == 13 && "CUSTOM_STATUS"@[0] == 'C');
    assert("DEVICE"@.len() == 6 && "DEVICE"@[0] == 'D');
    assert("STATUS"@.len() == 6 && "STATUS"@[0] == 'S');
    assert("TOKEN"@.len() == 5 && "TOKEN"@[0] == 'T');
    assert("KIND"@.len() == 4 && "KIND"@[0] == 'K');
    assert("CUSTOM_STATUS_EMOJI"@[14] != "CUSTOM_STATUS_TEXT"@[14]);
    assert("DEVICE"@[0] != "STATUS"@[0]);
    assert forall|a: int| 0 <= a < 7 implies t[a].0.len() > 0 && t[a].0[0] != 'L' && t[a].0[0] != 'H' && t[a].0[0] != 'A'
        && (t[a].0[0] == 'D' ==> t[a].0.len() < 9) by {
        if a == 0 {
            assert(t[0].0[0] == 'C');
        } else if a == 1 {
            assert(t[1].0[0] == 'C');
        } else if a == 2 {
            assert(t[2].0[0] == 'C');
        } else if a == 3 {
            assert(t[3].0[0] == 'D');
        } else if a == 4 {
            assert(t[4].0[0] == 'S');
        } else if a == 5 {
            assert(t[5].0[0] == 'T');
        } else {
            assert(t[6].0[0] == 'K');
        }
    }
}

/// A variable named by an account suffix alone sets that leaf of the flat
/// account (`CUSTOM_STATUS_TEXT` too sets the custom-status text).
pub proof fn lemma_flat_env_suffix(i: int)
    requires
        0 <= i < account_table().len(),
    ensures
        env_path(account_table()[i].0) == Some(env_field_path(flat_id(), account_table()[i].1)),
{
    lemma_account_suffix_texts();
    let t = account_table();
    let key = t[i].0;
    lemma_flat_scan_at(key, t, i);
    reveal_strlit("LOG_LEVEL");
    reveal_strlit("HEALTH_SOCKET");
    reveal_strlit("ACCOUNT");
    reveal_strlit("DEFAULTS_");
    reveal_strlit("ACTIVITY");
    reveal_strlit("ACCOUNT_");
    assert(key != "LOG_LEVEL"@ && key != "HEALTH_SOCKET"@ && key != "ACCOUNT"@) by {
        assert("LOG_LEVEL"@[0] == 'L' && "HEALTH_SOCKET"@[0] == 'H' && "ACCOUNT"@[0] == 'A');
    }
    assert(!starts_with(key, "DEFAULTS_"@) && !starts_with(key, "ACTIVITY"@) && !starts_with(key, "ACCOUNT_"@)) by {
        assert("DEFAULTS_"@[0] == 'D' && "ACTIVITY"@[0] == 'A' && "ACCOUNT_"@[0] == 'A');
        if starts_with(key, "DEFAULTS_"@) {
            assert(key.subrange(0, 9)[0] == key[0]);
        }
        if starts_with(key, "ACTIVITY"@) {
            assert(key.subrange(0, 8)[0] == key[0]);
        }
        if starts_with(key, "ACCOUNT_"@) {
            assert(key.subrange(0, 8)[0] == key[0]);
        }
    }
}

/// A valid user id holds no `_`.
proof fn lemma_user_id_no_underscore(id: Seq<char>)
    requires
        user_id_error(id) is None,
    ensures
        id.len() > 0,
        forall|i: int| 0 <= i < id.len() ==> #[trigger] id[i] != '_',
{
    reveal_strlit("__flat__");
    reveal_strlit("__singular__");
    assert forall|i: int| 0 <= i < id.len() implies #[trigger] id[i] != '_' by {
        if i > 0 {
            assert(is_ascii_alnum(id[i]) || id[i] == '-');
        }
    }
}

/// `id_suffix` with an `_` before it cannot end with `_` and a suffix at
/// least as long that differs from it, when the id holds no `_`.
proof fn lemma_no_longer_suffix(id: Seq<char>, s: Seq<char>, t: Seq<char>)
    requires
        forall|i: int| 0 <= i < id.len() ==> #[trigger] id[i] != '_',
        t.len() >= s.len(),
        t != s,
    ensures
        !ends_with(id + "_"@ + s, "_"@ + t),
{
    reveal_strlit("_");
    let rest = id + "_"@ + s;
    let ut = "_"@ + t;
    if ends_with(rest, ut) {
        let p = rest.len() - ut.len();
        assert(rest.subrange(p, rest.len() as int)[0] == ut[0]);
        assert(rest[p] == '_');
        if p < id.len() {
            assert(rest[p] == id[p]);
        } else {
            assert(t.len() == s.len());
            assert forall|k: int| 0 <= k < t.len() implies t[k] == s[k] by {
                assert(ut[k + 1] == t[k]);
                assert(rest.subrange(p, rest.len() as int)[k + 1] == rest[p + k + 1]);
                assert(rest[p + k + 1] == s[k]);
            }
            assert(t =~= s);
        }
    }
}

/// No account suffix, with `_` before it, holds `_ACTIVITY`.
#[verifier::rlimit(40)]
proof fn lemma_no_activity_in_suffix(m: int)
    requires
        0 <= m < 7,
    ensures
        forall|j: int| !occurs_at("_"@ + account_table()[m].0, "_ACTIVITY"@, j),
{
    lemma_account_suffix_texts();
    reveal_strlit("_");
    reveal_strlit("_ACTIVITY");
    let us = "_"@ + account_table()[m].0;
    assert forall|j: int| !occurs_at(us, "_ACTIVITY"@, j) by {
        if occurs_at(us, "_ACTIVITY"@, j) {
            let w = us.subrange(j, j + 9);
            assert(w[0] == us[j] && w[1] == us[j + 1] && w[2] == us[j + 2]);
            assert(w[0] == '_' && w[1] == 'A' && w[2] == 'C');
            reveal_strlit("CUSTOM_STATUS_EMOJI");
            reveal_strlit("CUSTOM_STATUS_TEXT");
            reveal_strlit("CUSTOM_STATUS");
            reveal_strlit("DEVICE");
            reveal_strlit("STATUS");
            reveal_strlit("TOKEN");
            reveal_strlit("KIND");
            assert(us.len() >= 9);
            assert(m <= 2);
            let c = account_table()[m].0;
            assert(0 <= j < c.len() + 1);
            assert(us[j + 1] == c[j]);
            if j == 0 {
            } else {
                assert(us[j] == c[j - 1]);
                assert(c[j - 1] == '_');
                assert(j - 1 == 6 || j - 1 == 13);
            }
        }
    }
}

/// `id_S` spells no longer account suffix `T` listed before `S`, except
/// `CUSTOM_STATUS` itself, which is id `CUSTOM` with `STATUS`.
#[verifier::rlimit(40)]
proof fn lemma_rest_not_earlier_suffix(id: Seq<char>, m: int, k: int)
    requires
        id.len() > 0,
        forall|i: int| 0 <= i < id.len() ==> #[trigger] id[i] != '_',
        0 <= k < m < 7,
        !(id == "CUSTOM"@ && m == 4),
    ensures
        id + "_"@ + account_table()[m].0 != account_table()[k].0,
{
    lemma_account_suffix_texts();
    reveal_strlit("_");
    reveal_strlit("CUSTOM");
    reveal_strlit("CUSTOM_STATUS_EMOJI");
    reveal_strlit("CUSTOM_STATUS_TEXT");
    reveal_strlit("CUSTOM_STATUS");
    reveal_strlit("DEVICE");
    reveal_strlit("STATUS");
    reveal_strlit("TOKEN");
    reveal_strlit("KIND");
    let t = account_table();
    let s = t[m].0;
    let rest = id + "_"@ + s;
    let big = t[k].0;
    if rest == big {
        let p = id.len() as int;
        assert(rest[p] == '_');
        assert(big[p] == '_');
        assert(k <= 2);
        assert(p == 6 || p == 13);
        if p == 13 {
            assert(rest[6] == id[6]);
            assert(big[6] == '_');
        }
        assert(p == 6);
        assert(big.len() == 7 + s.len());
        assert(k == 2);
        assert(s.len() == 6);
        assert forall|i: int| 0 <= i < 6 implies s[i] == big[7 + i] by {
            assert(rest[7 + i] == s[i]);
        }
        assert(s[0] == 'S');
        assert(m == 4);
        assert forall|i: int| 0 <= i < 6 implies id[i] == "CUSTOM"@[i] by {
            assert(rest[i] == id[i]);
        }
        assert(id =~= "CUSTOM"@);
    }
}

proof fn lemma_rest_scan_at(rest: Seq<char>, t: Seq<(Seq<char>, AccountEnvField)>, m: int, id: Seq<char>)
    requires
        0 <= m < t.len(),
        rest != t[m].0,
        id_before(rest, t[m].0) == Some(id),
        user_id_error(id) is None,
        forall|j: int| 0 <= j < m ==> rest != #[trigger] t[j].0 && id_before(rest, t[j].0) is None,
    ensures
        account_rest_scan(rest, t) == Some(Some(env_field_path(id, t[m].1))),
    decreases m,
{
    if m > 0 {
        assert(rest != t[0].0 && id_before(rest, t[0].0) is None);
        let u = t.drop_first();
        assert forall|j: int| 0 <= j < m - 1 implies rest != #[trigger] u[j].0 && id_before(rest, u[j].0) is None by {
            assert(u[j] == t[j + 1]);
        }
        lemma_rest_scan_at(rest, u, m - 1, id);
    }
}

proof fn lemma_id_before_rest(id: Seq<char>, s: Seq<char>)
    requires
        id.len() > 0,
    ensures
        id_before(id + "_"@ + s, s) == Some(id),
        id + "_"@ + s != s,
{
    reveal_strlit("_");
    let rest = id + "_"@ + s;
    assert(rest.subrange(rest.len() - (s.len() + 1), rest.len() as int) =~= underscored(s));
    assert(rest.subrange(0, rest.len() - s.len() - 1) =~= id);
    assert(rest.len() != s.len());
}

/// What follows `ACCOUNT_` in an account leaf's variable names that leaf.
#[verifier::rlimit(40)]
proof fn lemma_account_rest_at(id: Seq<char>, m: int)
    requires
        user_id_error(id) is None,
        0 <= m < 7,
        !(id == "CUSTOM"@ && m == 4),
    ensures
        account_rest(id + "_"@ + account_table()[m].0) == Some(env_field_path(id, account_table()[m].1)),
{
    lemma_account_suffix_texts();
    lemma_user_id_no_underscore(id);
    let t = account_table();
    let s = t[m].0;
    let rest = id + "_"@ + s;
    lemma_id_before_rest(id, s);
    assert forall|j: int| 0 <= j < m implies rest != #[trigger] t[j].0 && id_before(rest, t[j].0) is None by {
        assert(t[j].0.len() >= s.len() && t[j].0 != s);
        lemma_no_longer_suffix(id, s, t[j].0);
        lemma_rest_not_earlier_suffix(id, m, j);
        reveal_strlit("_");
        assert(underscored(t[j].0) =~= "_"@ + t[j].0);
    }
    lemma_rest_scan_at(rest, t, m, id);
    lemma_no_activity_in_suffix(m);
    reveal_strlit("_");
    reveal_strlit("_ACTIVITY");
    assert forall|i: int| !occurs_at(rest, "_ACTIVITY"@, i) by {
        if occurs_at(rest, "_ACTIVITY"@, i) {
            assert(rest.subrange(i, i + 9)[0] == rest[i]);
            if i < id.len() {
                assert(rest[i] == id[i]);
            } else {
                let us = "_"@ + s;
                let o = i - id.len();
                assert(us.subrange(o, o + 9) =~= rest.subrange(i, i + 9));
                assert(occurs_at(us, "_ACTIVITY"@, o));
            }
        }
    }
    assert(!(exists|i: int| is_first_occurrence(rest, "_ACTIVITY"@, i)));
}

/// The variable of an account leaf: `ACCOUNT_`, the account id, `_` and the
/// leaf's suffix.
pub open spec fn account_var(id: Seq<char>, suffix: Seq<char>) -> Seq<char> {
    "ACCOUNT_"@ + id + "_"@ + suffix
}

/// `ACCOUNT_{id}_{SUFFIX}` sets that leaf of account `id`, for every valid
/// id, except `ACCOUNT_CUSTOM_STATUS`: it reads as the bare `CUSTOM_STATUS`
/// suffix after `ACCOUNT_` and sets nothing, not the status of account
/// `CUSTOM`.
#[verifier::rlimit(40)]
pub proof fn lemma_account_env_suffix(id: Seq<char>, m: int)
    requires
        user_id_error(id) is None,
        0 <= m < account_table().len(),
        !(id == "CUSTOM"@ && account_table()[m].0 == "STATUS"@),
    ensures
        env_path(account_var(id, account_table()[m].0)) == Some(env_field_path(id, account_table()[m].1)),
{
    lemma_account_suffix_texts();
    reveal_strlit("STATUS");
    assert(!(id == "CUSTOM"@ && m == 4));
    lemma_account_rest_at(id, m);
    let s = account_table()[m].0;
    let rest = id + "_"@ + s;
    let key = account_var(id, s);
    reveal_strlit("LOG_LEVEL");
    reveal_strlit("HEALTH_SOCKET");
    reveal_strlit("ACCOUNT");
    reveal_strlit("DEFAULTS_");
    reveal_strlit("ACTIVITY");
    reveal_strlit("ACCOUNT_");
    assert(key.subrange(0, 8) =~= "ACCOUNT_"@);
    assert(key.skip(8) =~= rest);
    assert(key[0] == 'A' && key[2] == 'C');
    assert(key != "LOG_LEVEL"@ && key != "HEALTH_SOCKET"@) by {
        assert("LOG_LEVEL"@[0] == 'L' && "HEALTH_SOCKET"@[0] == 'H');
    }
    assert(key != "ACCOUNT"@) by {
        assert("ACCOUNT"@.len() == 7);
    }
    assert(!starts_with(key, "DEFAULTS_"@)) by {
        if starts_with(key, "DEFAULTS_"@) {
            assert(key.subrange(0, 9)[0] == key[0]);
        }
    }
    assert(!starts_with(key, "ACTIVITY"@)) by {
        if starts_with(key, "ACTIVITY"@) {
            assert(key.subrange(0, 8)[2] == key[2]);
        }
    }
}

/// The activity suffixes as texts: pairwise different, longest first, with
/// the lengths that the id-splitting proofs rely on.
#[verifier::rlimit(40)]
proof fn lemma_activity_suffix_texts()
    ensures
        activity_table()[0].1 == "LARGE_IMAGE_TEXT"@,
        activity_table()[1].1 == "SMALL_IMAGE_TEXT"@,
        activity_table()[2].1 == "APPLICATION_ID"@,
        activity_table()[3].1 == "PARTY_CURRENT"@,
        activity_table()[4].1 == "BUTTON_2_URL"@,
        activity_table()[5].1 == "LARGE_IMAGE"@,
        activity_table()[6].1 == "SMALL_IMAGE"@,
        activity_table()[7].1 == "BUTTON_URL"@,
        activity_table()[8].1 == "TIMESTAMP"@,
        activity_table()[9].1 == "PARTY_MAX"@,
        activity_table()[10].1 == "PLATFORM"@,
        activity_table()[11].1 == "BUTTON_2"@,
        activity_table()[12].1 == "PARTY_ID"@,
        activity_table()[13].1 == "DETAILS"@,
        activity_table()[14].1 == "BUTTON"@,
        activity_table()[15].1 == "TYPE"@,
        activity_table()[16].1 == "URL"@,
        forall|a: int, b: int| 0 <= a < b < 17 ==> activity_table()[a].1 != activity_table()[b].1,
        forall|a: int, b: int| 0 <= a < b < 17 ==> activity_table()[a].1.len() >= activity_table()[b].1.len(),
        forall|a: int| 0 <= a < 17 ==> #[trigger] activity_table()[a].1.len() != 5 && activity_table()[a].1.len() != 2
            && activity_table()[a].1.len() != 1,
        forall|a: int| 0 <= a < 17 && #[trigger] activity_table()[a].1.len() == 10 ==> a == 7,
        forall|a: int| 0 <= a < 17 && #[trigger] activity_table()[a].1.len() == 7 ==> a == 13,
        forall|a: int| 0 <= a < 17 && #[trigger] activity_table()[a].1.len() == 3 ==> a == 16,
{
    reveal_strlit("LARGE_IMAGE_TEXT");
    reveal_strlit("SMALL_IMAGE_TEXT");
    reveal_strlit("APPLICATION_ID");
    reveal_strlit("PARTY_CURRENT");
    reveal_strlit("BUTTON_2_URL");
    reveal_strlit("LARGE_IMAGE");
    reveal_strlit("SMALL_IMAGE");
    reveal_strlit("BUTTON_URL");
    reveal_strlit("TIMESTAMP");
    reveal_strlit("PARTY_MAX");
    reveal_strlit("PLATFORM");
    reveal_strlit("BUTTON_2");
    reveal_strlit("PARTY_ID");
    reveal_strlit("DETAILS");
    reveal_strlit("BUTTON");
    reveal_strlit("TYPE");
    reveal_strlit("URL");
    let t = activity_table();
    assert(t[0].1 == "LARGE_IMAGE_TEXT"@ && "LARGE_IMAGE_TEXT"@.len() == 16 && "LARGE_IMAGE_TEXT"@[0] == 'L' && "LARGE_IMAGE_TEXT"@[1] == 'A');
    assert(t[1].1 == "SMALL_IMAGE_TEXT"@ && "SMALL_IMAGE_TEXT"@.len() == 16 && "SMALL_IMAGE_TEXT"@[0] == 'S' && "SMALL_IMAGE_TEXT"@[1] == 'M');
    assert(t[2].1 == "APPLICATION_ID"@ && "APPLICATION_ID"@.len() == 14 && "APPLICATION_ID"@[0] == 'A' && "APPLICATION_ID"@[1] == 'P');
    assert(t[3].1 == "PARTY_CURRENT"@ && "PARTY_CURRENT"@.len() == 13 && "PARTY_CURRENT"@[0] == 'P' && "PARTY_CURRENT"@[1] == 'A');
    assert(t[4].1 == "BUTTON_2_URL"@ && "BUTTON_2_URL"@.len() == 12 && "BUTTON_2_URL"@[0] == 'B' && "BUTTON_2_URL"@[1] == 'U');
    assert(t[5].1 == "LARGE_IMAGE"@ && "LARGE_IMAGE"@.len() == 11 && "LARGE_IMAGE"@[0] == 'L' && "LARGE_IMAGE"@[1] == 'A');
    assert(t[6].1 == "SMALL_IMAGE"@ && "SMALL_IMAGE"@.len() == 11 && "SMALL_IMAGE"@[0] == 'S' && "SMALL_IMAGE"@[1] == 'M');
    assert(t[7].1 == "BUTTON_URL"@ && "BUTTON_URL"@.len() == 10 && "BUTTON_URL"@[0] == 'B' && "BUTTON_URL"@[1] == 'U');
    assert(t[8].1 == "TIMESTAMP"@ && "TIMESTAMP"@.len() == 9 && "TIMESTAMP"@[0] == 'T' && "TIMESTAMP"@[1] == 'I');
    assert(t[9].1 == "PARTY_MAX"@ && "PARTY_MAX"@.len() == 9 && "PARTY_MAX"@[0] == 'P' && "PARTY_MAX"@[1] == 'A');
    assert(t[10].1 == "PLATFORM"@ && "PLATFORM"@.len() == 8 && "PLATFORM"@[0] == 'P' && "PLATFORM"@[1] == 'L');
    assert(t[11].1 == "BUTTON_2"@ && "BUTTON_2"@.len() == 8 && "BUTTON_2"@[0] == 'B' && "BUTTON_2"@[1] == 'U');
    assert(t[12].1 == "PARTY_ID"@ && "PARTY_ID"@.len() == 8 && "PARTY_ID"@[0] == 'P' && "PARTY_ID"@[1] == 'A');
    assert(t[13].1 == "DETAILS"@ && "DETAILS"@.len() == 7 && "DETAILS"@[0] == 'D' && "DETAILS"@[1] == 'E');
    assert(t[14].1 == "BUTTON"@ && "BUTTON"@.len() == 6 && "BUTTON"@[0] == 'B' && "BUTTON"@[1] == 'U');
    assert(t[15].1 == "TYPE"@ && "TYPE"@.len() == 4 && "TYPE"@[0] == 'T' && "TYPE"@[1] == 'Y');
    assert(t[16].1 == "URL"@ && "URL"@.len() == 3 && "URL"@[0] == 'U' && "URL"@[1] == 'R');
    assert forall|a: int, b: int| 0 <= a < b < 17 implies t[a].1 != t[b].1 by {
        if t[a].1.len() == t[b].1.len() {
            assert(t[a].1[0] != t[b].1[0] || t[a].1[1] != t[b].1[1]);
        }
    }
}

proof fn lemma_exact_activity_at(r: Seq<char>, t: Seq<(ActivityField, Seq<char>)>, k: int)
    requires
        0 <= k < t.len(),
        r == t[k].1,
        forall|j: int| 0 <= j < k ==> r != #[trigger] t[j].1,
    ensures
        exact_activity(r, t) == Some(t[k].0),
    decreases k,
{
    if k > 0 {
        assert(r != t[0].1);
        let u = t.drop_first();
        assert forall|j: int| 0 <= j < k - 1 implies r != #[trigger] u[j].1 by {
            assert(u[j] == t[j + 1]);
        }
        lemma_exact_activity_at(r, u, k - 1);
    }
}

proof fn lemma_exact_activity_none(r: Seq<char>, t: Seq<(ActivityField, Seq<char>)>)
    requires
        forall|j: int| 0 <= j < t.len() ==> r != #[trigger] t[j].1,
    ensures
        exact_activity(r, t) is None,
    decreases t.len(),
{
    if t.len() > 0 {
        assert(r != t[0].1);
        let u = t.drop_first();
        assert forall|j: int| 0 <= j < u.len() implies r != #[trigger] u[j].1 by {
            assert(u[j] == t[j + 1]);
        }
        lemma_exact_activity_none(r, u);
    }
}

proof fn lemma_activity_scan_at(r: Seq<char>, t: Seq<(ActivityField, Seq<char>)>, m: int, id: Seq<char>)
    requires
        0 <= m < t.len(),
        id_before(r, t[m].1) == Some(id),
        user_id_error(id) is None,
        forall|j: int| 0 <= j < m ==> id_before(r, #[trigger] t[j].1) is None,
    ensures
        activity_suffix_scan(r, t) == Some((id, t[m].0)),
    decreases m,
{
    if m > 0 {
        assert(id_before(r, t[0].1) is None);
        let u = t.drop_first();
        assert forall|j: int| 0 <= j < m - 1 implies id_before(r, #[trigger] u[j].1) is None by {
            assert(u[j] == t[j + 1]);
        }
        lemma_activity_scan_at(r, u, m - 1, id);
    }
}

/// `id_S` for an activity suffix `S` spells no activity suffix, except
/// `BUTTON_URL`, which is id `BUTTON` with `URL`.
#[verifier::rlimit(40)]
proof fn lemma_named_not_suffix(id: Seq<char>, m: int, j: int)
    requires
        id.len() > 0,
        forall|i: int| 0 <= i < id.len() ==> #[trigger] id[i] != '_',
        0 <= m < 17,
        0 <= j < 17,
        !(id == "BUTTON"@ && m == 16),
    ensures
        id + "_"@ + activity_table()[m].1 != activity_table()[j].1,
{
    lemma_activity_suffix_texts();
    reveal_strlit("_");
    reveal_strlit("BUTTON");
    reveal_strlit("LARGE_IMAGE_TEXT");
    reveal_strlit("SMALL_IMAGE_TEXT");
    reveal_strlit("APPLICATION_ID");
    reveal_strlit("PARTY_CURRENT");
    reveal_strlit("BUTTON_2_URL");
    reveal_strlit("LARGE_IMAGE");
    reveal_strlit("SMALL_IMAGE");
    reveal_strlit("BUTTON_URL");
    reveal_strlit("TIMESTAMP");
    reveal_strlit("PARTY_MAX");
    reveal_strlit("PLATFORM");
    reveal_strlit("BUTTON_2");
    reveal_strlit("PARTY_ID");
    reveal_strlit("DETAILS");
    reveal_strlit("BUTTON");
    reveal_strlit("TYPE");
    reveal_strlit("URL");
    let t = activity_table();
    let s = t[m].1;
    let r = id + "_"@ + s;
    let big = t[j].1;
    if r == big {
        let p = id.len() as int;
        assert(r[p] == '_');
        assert(big[p] == '_');
        assert forall|i: int| 0 <= i < p implies big[i] != '_' by {
            assert(r[i] == id[i]);
        }
        assert(s.len() == big.len() - p - 1);
        assert forall|i: int| 0 <= i < s.len() implies s[i] == big[p + 1 + i] by {
            assert(r[p + 1 + i] == s[i]);
        }
        if j == 0 {
            assert(big == "LARGE_IMAGE_TEXT"@);
            assert(p == 5 || p == 11);
            assert(big[5] == '_');
            assert(p == 5);
            assert(s.len() == 10);
            assert(m == 7);
            assert(s[0] == big[6]);
        } else if j == 1 {
            assert(big == "SMALL_IMAGE_TEXT"@);
            assert(p == 5 || p == 11);
            assert(big[5] == '_');
            assert(p == 5);
            assert(s.len() == 10);
            assert(m == 7);
            assert(s[0] == big[6]);
        } else if j == 2 {
            assert(big == "APPLICATION_ID"@);
            assert(p == 11);
            assert(p == 11);
            assert(s.len() == 2);
        } else if j == 3 {
            assert(big == "PARTY_CURRENT"@);
            assert(p == 5);
            assert(p == 5);
            assert(s.len() == 7);
            assert(m == 13);
            assert(s[0] == big[6]);
        } else if j == 4 {
            assert(big == "BUTTON_2_URL"@);
            assert(p == 6 || p == 8);
            assert(big[6] == '_');
            assert(p == 6);
            assert(s.len() == 5);
        } else if j == 5 {
            assert(big == "LARGE_IMAGE"@);
            assert(p == 5);
            assert(p == 5);
            assert(s.len() == 5);
        } else if j == 6 {
            assert(big == "SMALL_IMAGE"@);
            assert(p == 5);
            assert(p == 5);
            assert(s.len() == 5);
        } else if j == 7 {
            assert(big == "BUTTON_URL"@);
            assert(p == 6);
            assert(p == 6);
            assert(s.len() == 3);
            assert(m == 16);
            assert forall|i: int| 0 <= i < 6 implies id[i] == "BUTTON"@[i] by {
                assert(r[i] == id[i]);
            }
            assert(id =~= "BUTTON"@);
        } else if j == 8 {
            assert(big == "TIMESTAMP"@);
            assert(false);
        } else if j == 9 {
            assert(big == "PARTY_MAX"@);
            assert(p == 5);
            assert(p == 5);
            assert(s.len() == 3);
            assert(m == 16);
            assert(s[0] == big[6]);
        } else if j == 10 {
            assert(big == "PLATFORM"@);
            assert(false);
        } else if j == 11 {
            assert(big == "BUTTON_2"@);
            assert(p == 6);
            assert(p == 6);
            assert(s.len() == 1);
        } else if j == 12 {
            assert(big == "PARTY_ID"@);
            assert(p == 5);
            assert(p == 5);
            assert(s.len() == 2);
        } else if j == 13 {
            assert(big == "DETAILS"@);
            assert(false);
        } else if j == 14 {
            assert(big == "BUTTON"@);
            assert(false);
        } else if j == 15 {
            assert(big == "TYPE"@);
            assert(false);
        } else if j == 16 {
            assert(big == "URL"@);
            assert(false);
        }
    }
}

/// After `_`, an activity suffix alone names that leaf of the singular
/// activity.
proof fn lemma_singular_activity_token(k: int)
    requires
        0 <= k < 17,
    ensures
        activity_token("_"@ + activity_table()[k].1) == Some((singular_id(), activity_table()[k].0)),
{
    lemma_activity_suffix_texts();
    reveal_strlit("_");
    let t = activity_table();
    let rest = "_"@ + t[k].1;
    assert(rest.skip(1) =~= t[k].1);
    lemma_exact_activity_at(t[k].1, t, k);
}

/// After `_`, a valid activity id, `_` and an activity suffix name that
/// leaf of the activity, except `_BUTTON_URL`, which names the singular
/// activity's button URL.
#[verifier::rlimit(40)]
proof fn lemma_named_activity_token(aid: Seq<char>, m: int)
    requires
        user_id_error(aid) is None,
        0 <= m < 17,
        !(aid == "BUTTON"@ && m == 16),
    ensures
        activity_token("_"@ + aid + "_"@ + activity_table()[m].1) == Some((aid, activity_table()[m].0)),
{
    lemma_activity_suffix_texts();
    lemma_user_id_no_underscore(aid);
    reveal_strlit("_");
    let t = activity_table();
    let s = t[m].1;
    let r = aid + "_"@ + s;
    let rest = "_"@ + aid + "_"@ + s;
    assert(rest.skip(1) =~= r);
    assert(rest[0] == '_');
    assert forall|j: int| 0 <= j < t.len() implies r != #[trigger] t[j].1 by {
        lemma_named_not_suffix(aid, m, j);
    }
    lemma_exact_activity_none(r, t);
    lemma_id_before_rest(aid, s);
    assert forall|j: int| 0 <= j < m implies id_before(r, #[trigger] t[j].1) is None by {
        lemma_no_longer_suffix(aid, s, t[j].1);
        assert(underscored(t[j].1) =~= "_"@ + t[j].1);
    }
    lemma_activity_scan_at(r, t, m, aid);
}

/// What follows `ACCOUNT_` when it is an id, `_ACTIVITY` and the rest of an
/// activity variable.
proof fn lemma_account_activity_rest(id: Seq<char>, right: Seq<char>)
    requires
        user_id_error(id) is None,
    ensures
        account_rest(id + "_ACTIVITY"@ + right) == match activity_token(right) {
            Some((a, f)) => Some(PathV::Account(id, AccountPathV::Activity(a, f))),
            None => None,
        },
{
    lemma_user_id_no_underscore(id);
    reveal_strlit("_ACTIVITY");
    let p = "_ACTIVITY"@;
    let rest = id + p + right;
    let n = id.len() as int;
    assert(rest.subrange(n, n + 9) =~= p);
    assert forall|i: int| 0 <= i < n implies !occurs_at(rest, p, i) by {
        if occurs_at(rest, p, i) {
            assert(rest.subrange(i, i + 9)[0] == rest[i]);
            assert(rest[i] == id[i]);
        }
    }
    assert(is_first_occurrence(rest, p, n));
    let c = choose|i: int| is_first_occurrence(rest, p, i);
    assert(is_first_occurrence(rest, p, c));
    if c < n {
        assert(!occurs_at(rest, p, c));
    }
    if c > n {
        assert(!occurs_at(rest, p, n));
    }
    assert(first_occurrence(rest, p) == Some(n));
    assert(rest.subrange(0, n) =~= id);
    assert(rest.skip(n + 9) =~= right);
}

proof fn lemma_activity_var_shape(key: Seq<char>)
    requires
        starts_with(key, "ACTIVITY_"@),
    ensures
        env_path(key) == match activity_token(key.skip(8)) {
            Some((a, f)) => Some(PathV::Account(flat_id(), AccountPathV::Activity(a, f))),
            None => None,
        },
{
    reveal_strlit("LOG_LEVEL");
    reveal_strlit("HEALTH_SOCKET");
    reveal_strlit("ACCOUNT");
    reveal_strlit("DEFAULTS_");
    reveal_strlit("ACTIVITY");
    reveal_strlit("ACTIVITY_");
    let w = key.subrange(0, 9);
    assert(w[0] == 'A' && w[1] == 'C' && w[2] == 'T' && w[8] == '_');
    assert(key[0] == 'A' && key[2] == 'T' && key[8] == '_');
    assert(key.subrange(0, 8) =~= "ACTIVITY"@);
    assert(key != "LOG_LEVEL"@ && key != "HEALTH_SOCKET"@) by {
        assert("LOG_LEVEL"@[0] == 'L' && "HEALTH_SOCKET"@[0] == 'H');
    }
    assert(key != "ACCOUNT"@) by {
        assert("ACCOUNT"@[2] == 'C');
    }
    assert(!starts_with(key, "DEFAULTS_"@)) by {
        if starts_with(key, "DEFAULTS_"@) {
            assert(key.subrange(0, 9)[0] == key[0]);
        }
    }
}

proof fn lemma_account_var_shape(id: Seq<char>, suffix: Seq<char>)
    ensures
        env_path(account_var(id, suffix)) == account_rest(id + "_"@ + suffix),
{
    reveal_strlit("LOG_LEVEL");
    reveal_strlit("HEALTH_SOCKET");
    reveal_strlit("ACCOUNT");
    reveal_strlit("DEFAULTS_");
    reveal_strlit("ACTIVITY");
    reveal_strlit("ACCOUNT_");
    reveal_strlit("_");
    let key = account_var(id, suffix);
    assert(key.subrange(0, 8) =~= "ACCOUNT_"@);
    assert(key.skip(8) =~= id + "_"@ + suffix);
    assert(key[0] == 'A' && key[2] == 'C' && key[7] == '_');
    assert(key != "LOG_LEVEL"@ && key != "HEALTH_SOCKET"@) by {
        assert("LOG_LEVEL"@[0] == 'L' && "HEALTH_SOCKET"@[0] == 'H');
    }
    assert(key != "ACCOUNT"@) by {
        assert("ACCOUNT"@.len() == 7);
    }
    assert(!starts_with(key, "DEFAULTS_"@)) by {
        if starts_with(key, "DEFAULTS_"@) {
            assert(key.subrange(0, 9)[0] == key[0]);
        }
    }
    assert(!starts_with(key, "ACTIVITY"@)) by {
        if starts_with(key, "ACTIVITY"@) {
            assert(key.subrange(0, 8)[2] == key[2]);
        }
    }
}

/// `ACTIVITY_{SUFFIX}` sets that leaf of the flat account's singular
/// activity, and `ACCOUNT_{id}_ACTIVITY_{SUFFIX}` that of account `id`.
#[verifier::rlimit(40)]
pub proof fn lemma_singular_activity_env_suffix(id: Seq<char>, k: int)
    requires
        user_id_error(id) is None,
        0 <= k < activity_table().len(),
    ensures
        env_path("ACTIVITY_"@ + activity_table()[k].1) == Some(
            PathV::Account(flat_id(), AccountPathV::Activity(singular_id(), activity_table()[k].0)),
        ),
        env_path(account_var(id, "ACTIVITY_"@ + activity_table()[k].1)) == Some(
            PathV::Account(id, AccountPathV::Activity(singular_id(), activity_table()[k].0)),
        ),
{
    reveal_strlit("ACTIVITY_");
    reveal_strlit("_");
    reveal_strlit("_ACTIVITY");
    let s = activity_table()[k].1;
    let key = "ACTIVITY_"@ + s;
    assert(key.subrange(0, 9) =~= "ACTIVITY_"@);
    assert(key.skip(8) =~= "_"@ + s);
    lemma_singular_activity_token(k);
    lemma_activity_var_shape(key);
    lemma_account_var_shape(id, key);
    assert("_"@ + key =~= "_ACTIVITY"@ + ("_"@ + s));
    assert(id + "_"@ + key =~= id + "_ACTIVITY"@ + ("_"@ + s));
    lemma_account_activity_rest(id, "_"@ + s);
}

proof fn lemma_url_suffix_index(m: int)
    requires
        0 <= m < 17,
    ensures
        activity_table()[m].1 == "URL"@ <==> m == 16,
{
    lemma_activity_suffix_texts();
}

/// `ACTIVITY_{aid}_{SUFFIX}` sets that leaf of activity `aid` of the flat
/// account, and `ACCOUNT_{id}_ACTIVITY_{aid}_{SUFFIX}` that of account
/// `id`, for every valid id and activity id, except activity `BUTTON` with
/// `URL`: `ACTIVITY_BUTTON_URL` is the singular activity's button URL.
#[verifier::rlimit(40)]
pub proof fn lemma_named_activity_env_suffix(id: Seq<char>, aid: Seq<char>, m: int)
    requires
        user_id_error(id) is None,
        user_id_error(aid) is None,
        0 <= m < activity_table().len(),
        !(aid == "BUTTON"@ && activity_table()[m].1 == "URL"@),
    ensures
        env_path("ACTIVITY_"@ + aid + "_"@ + activity_table()[m].1) == Some(
            PathV::Account(flat_id(), AccountPathV::Activity(aid, activity_table()[m].0)),
        ),
        env_path(account_var(id, "ACTIVITY_"@ + aid + "_"@ + activity_table()[m].1)) == Some(
            PathV::Account(id, AccountPathV::Activity(aid, activity_table()[m].0)),
        ),
{
    lemma_url_suffix_index(m);
    reveal_strlit("ACTIVITY_");
    reveal_strlit("_");
    reveal_strlit("_ACTIVITY");
    let s = activity_table()[m].1;
    let key = "ACTIVITY_"@ + aid + "_"@ + s;
    let right = "_"@ + aid + "_"@ + s;
    assert(key.subrange(0, 9) =~= "ACTIVITY_"@);
    assert(key.skip(8) =~= right);
    lemma_named_activity_token(aid, m);
    lemma_activity_var_shape(key);
    lemma_account_var_shape(id, key);
    assert(id + "_"@ + key =~= id + "_ACTIVITY"@ + right);
    lemma_account_activity_rest(id, right);
}

/// Where an activity field with a suffix stands in the suffix table.
pub open spec fn activity_table_pos(f: ActivityField) -> int {
    match f {
        ActivityField::Name => -1,
        ActivityField::LargeImageText => 0,
        ActivityField::SmallImageText => 1,
        ActivityField::ApplicationId => 2,
        ActivityField::PartyCurrent => 3,
        ActivityField::Button2Url => 4,
        ActivityField::LargeImage => 5,
        ActivityField::SmallImage => 6,
        ActivityField::ButtonUrl => 7,
        ActivityField::Timestamp => 8,
        ActivityField::PartyMax => 9,
        ActivityField::Platform => 10,
        ActivityField::Button2 => 11,
        ActivityField::PartyId => 12,
        ActivityField::Details => 13,
        ActivityField::Button => 14,
        ActivityField::Type => 15,
        ActivityField::Url => 16,
    }
}

proof fn lemma_activity_table_pos(f: ActivityField)
    ensures
        f.names().env_suffix is None <==> f == ActivityField::Name,
        f != ActivityField::Name ==> 0 <= activity_table_pos(f) < 17 && activity_table()[activity_table_pos(f)] == (
            f,
            f.names().env_suffix->0,
        ),
{
    let t = activity_table();
    match f {
        ActivityField::Name => {},
        ActivityField::LargeImageText => assert(t[0] == (f, f.names().env_suffix->0)),
        ActivityField::SmallImageText => assert(t[1] == (f, f.names().env_suffix->0)),
        ActivityField::ApplicationId => assert(t[2] == (f, f.names().env_suffix->0)),
        ActivityField::PartyCurrent => assert(t[3] == (f, f.names().env_suffix->0)),
        ActivityField::Button2Url => assert(t[4] == (f, f.names().env_suffix->0)),
        ActivityField::LargeImage => assert(t[5] == (f, f.names().env_suffix->0)),
        ActivityField::SmallImage => assert(t[6] == (f, f.names().env_suffix->0)),
        ActivityField::ButtonUrl => assert(t[7] == (f, f.names().env_suffix->0)),
        ActivityField::Timestamp => assert(t[8] == (f, f.names().env_suffix->0)),
        ActivityField::PartyMax => assert(t[9] == (f, f.names().env_suffix->0)),
        ActivityField::Platform => assert(t[10] == (f, f.names().env_suffix->0)),
        ActivityField::Button2 => assert(t[11] == (f, f.names().env_suffix->0)),
        ActivityField::PartyId => assert(t[12] == (f, f.names().env_suffix->0)),
        ActivityField::Details => assert(t[13] == (f, f.names().env_suffix->0)),
        ActivityField::Button => assert(t[14] == (f, f.names().env_suffix->0)),
        ActivityField::Type => assert(t[15] == (f, f.names().env_suffix->0)),
        ActivityField::Url => assert(t[16] == (f, f.names().env_suffix->0)),
    }
}

/// Only the name has no environment suffix, and distinct fields have
/// distinct suffixes, so a variable names at most one field.
pub proof fn lemma_activity_env_suffixes_distinct(f: ActivityField, g: ActivityField)
    ensures
        f.names().env_suffix is None <==> f == ActivityField::Name,
        f != g && f != ActivityField::Name && g != ActivityField::Name ==> f.names().env_suffix != g.names().env_suffix,
{
    lemma_activity_table_pos(f);
    lemma_activity_table_pos(g);
    if f != g && f != ActivityField::Name && g != ActivityField::Name {
        lemma_activity_suffix_texts();
        let a = activity_table_pos(f);
        let b = activity_table_pos(g);
        assert(a != b);
        if a < b {
            assert(activity_table()[a].1 != activity_table()[b].1);
        } else {
            assert(activity_table()[b].1 != activity_table()[a].1);
        }
    }
}


/// Every record of a layer read from variables has its full number of leaves.
proof fn lemma_env_layer_shape(pairs: Seq<(Seq<char>, Seq<char>)>)
    ensures
        layer_shape(env_layer(pairs)),
    decreases pairs.len(),
{
    if pairs.len() == 0 {
        let c = empty_config();
        assert(c.defaults[0].len() == 4 && c.defaults[1].len() == 4);
        assert(c.defaults[2].len() == 4 && c.defaults[3].len() == 4);
    } else {
        let c = env_layer(pairs.drop_last());
        lemma_env_layer_shape(pairs.drop_last());
        let (key, value) = pairs.last();
        if env_key_ok(key) && trim_nonempty(value) is Some && env_path(key) is Some {
            lemma_apply_v_reads_back(c, env_path(key)->0, trim_nonempty(value)->0);
        }
    }
}

/// A variable whose name is made of ASCII letters, digits, `_` and `-`,
/// names a leaf and whose value is not blank sets that leaf to the trimmed
/// value, whatever came before it.
pub proof fn lemma_env_variable_sets_leaf(pairs: Seq<(Seq<char>, Seq<char>)>, key: Seq<char>, value: Seq<char>)
    requires
        key.len() > 0,
        forall|i: int| 0 <= i < key.len() ==> is_ascii_alnum(#[trigger] key[i]) || key[i] == '_' || key[i] == '-',
        env_path(key) is Some,
        trim_nonempty(value) is Some,
    ensures
        leaf_v(env_layer(pairs.push((key, value))), env_path(key)->0) == trim_nonempty(value),
{
    let all = pairs.push((key, value));
    assert(all.drop_last() =~= pairs);
    lemma_env_layer_shape(pairs);
    lemma_apply_v_reads_back(env_layer(pairs), env_path(key)->0, trim_nonempty(value)->0);
}

/// A variable whose name holds a character other than an ASCII letter, a
/// digit, `_` or `-` changes nothing, and neither does an empty name.
pub proof fn lemma_env_other_name_skipped(pairs: Seq<(Seq<char>, Seq<char>)>, key: Seq<char>, value: Seq<char>)
    requires
        key.len() == 0 || exists|i: int| 0 <= i < key.len() && !(is_ascii_alnum(#[trigger] key[i]) || key[i] == '_' || key[i] == '-'),
    ensures
        env_layer(pairs.push((key, value))) == env_layer(pairs),
{
    let all = pairs.push((key, value));
    assert(all.drop_last() =~= pairs);
}


/// The account suffixes are made of capital letters and `_`.
proof fn lemma_account_suffix_chars(m: int)
    requires
        0 <= m < account_table().len(),
    ensures
        forall|i: int| 0 <= i < account_table()[m].0.len() ==> is_ascii_alnum(#[trigger] account_table()[m].0[i]) || account_table()[m].0[i] == '_',
{
    lemma_account_suffix_texts();
    reveal_strlit("CUSTOM_STATUS_EMOJI");
    reveal_strlit("CUSTOM_STATUS_TEXT");
    reveal_strlit("CUSTOM_STATUS");
    reveal_strlit("DEVICE");
    reveal_strlit("STATUS");
    reveal_strlit("TOKEN");
    reveal_strlit("KIND");
}

/// `ACCOUNT_{id}_{SUFFIX}` with a non-blank value sets that leaf of account
/// `id` to the trimmed value, for every valid id (`-` in it included), except
/// `ACCOUNT_CUSTOM_STATUS`.
pub proof fn lemma_account_variable_sets_leaf(pairs: Seq<(Seq<char>, Seq<char>)>, id: Seq<char>, m: int, value: Seq<char>)
    requires
        user_id_error(id) is None,
        0 <= m < account_table().len(),
        !(id == "CUSTOM"@ && account_table()[m].0 == "STATUS"@),
        trim_nonempty(value) is Some,
    ensures
        leaf_v(
            env_layer(pairs.push((account_var(id, account_table()[m].0), value))),
            env_field_path(id, account_table()[m].1),
        ) == trim_nonempty(value),
{
    let s = account_table()[m].0;
    let key = account_var(id, s);
    lemma_account_env_suffix(id, m);
    lemma_account_suffix_chars(m);
    reveal_strlit("ACCOUNT_");
    reveal_strlit("_");
    assert forall|i: int| 0 <= i < key.len() implies is_ascii_alnum(#[trigger] key[i]) || key[i] == '_' || key[i] == '-' by {
        if i < 8 {
            assert(key[i] == "ACCOUNT_"@[i]);
        } else if i < 8 + id.len() {
            assert(key[i] == id[i - 8]);
            if i - 8 >= 1 {
                assert(is_ascii_alnum(id[i - 8]) || id[i - 8] == '-');
            }
        } else if i == 8 + id.len() {
            assert(key[i] == '_');
        } else {
            assert(key[i] == s[i - 9 - id.len()]);
        }
    }
    lemma_env_variable_sets_leaf(pairs, key, value);
}

} // verus!
