//! The command-line layer: flat flags for the flat account, then
//! `--account-set id.path=value` and `--set path=value` overrides.

use crate::config::error::ConfigError;
use crate::config::fields::{AccountScalarField, ActivityField, ClientPropField, CustomStatusField, DefaultsProfile};
use crate::config::id::{flat_id, singular_id, user_id_error, ACCOUNT_FLAT, ACTIVITY_SINGULAR};
use crate::config::path::{id_ok, parse_account_id, parse_activity_id, AccountPath, AccountPathV, ConfigPath, PathV, path_view, account_path_view};
use crate::config::partial::strings_view;
use crate::config::partial::{config_view, empty_config, secret_view, unset, ConfigV, Leaves, PartialConfig};
use crate::config::path::{
    account_scalar_path, activity_field_path, apply_path, apply_v, custom_status_path, layer_shape, leaf_v,
    lemma_apply_v_reads_back,
};
use crate::config::token::SecretString;
use crate::config::util::trim_to_string;
use crate::json::opt_ref_view;
use crate::render::{field, fields_view, list_text, list_text_of, opt_text, opt_text_of, quote, quoted, record_text, record_text_of, secret_text, secret_text_of};
use crate::text::{opt_view, trim_opt,chars, find_char, first_index, seq_eq, string_of, sub_vec, str_eq};
use vstd::prelude::*;
use vstd::string::*;

verus! {

/// The pieces of `s` between dots (`str::split('.')`).
pub open spec fn split_dots(s: Seq<char>) -> Seq<Seq<char>>
    decreases s.len(),
{
    match first_index(s, '.') {
        Some(i) => if 0 <= i < s.len() {
            seq![s.subrange(0, i)] + split_dots(s.subrange(i + 1, s.len() as int))
        } else {
            seq![s]
        },
        None => seq![s],
    }
}

/// The pieces of `s` between dots.
pub fn split_on_dots(s: &str) -> (r: Vec<String>)
    ensures
        strings_view(r@) == split_dots(s@),
{
    let mut rest = chars(s);
    let mut out: Vec<String> = Vec::new();
    let ghost whole = s@;
    let mut done = false;
    assert(strings_view(out@) =~= Seq::<Seq<char>>::empty());
    assert(split_dots(whole) =~= strings_view(out@) + split_dots(rest@));
    while !done
        invariant
            !done ==> split_dots(whole) == strings_view(out@) + split_dots(rest@),
            done ==> split_dots(whole) == strings_view(out@),
        decreases rest@.len(), if done { 0int } else { 1int },
    {
        let ghost out0 = strings_view(out@);
        match find_char(&rest, '.') {
            Some(i) => {
                let n = rest.len();
                let from: usize = i + 1;
                let head = sub_vec(&rest, 0, i);
                let tail = sub_vec(&rest, from, n);
                let ghost r0 = rest@;
                out.push(string_of(&head));
                rest = tail;
                proof {
                    assert(split_dots(r0) == seq![head@] + split_dots(rest@));
                    assert(strings_view(out@) =~= out0.push(head@));
                    assert(split_dots(whole) =~= strings_view(out@) + split_dots(rest@));
                }
            },
            None => {
                let ghost r0 = rest@;
                out.push(string_of(&rest));
                done = true;
                proof {
                    assert(split_dots(r0) == seq![r0]);
                    assert(strings_view(out@) =~= out0.push(r0));
                    assert(split_dots(whole) =~= strings_view(out@));
                }
            },
        }
    }
    out
}

pub open spec fn scalar_by_suffix(raw: Seq<char>, fs: Seq<AccountScalarField>) -> Option<AccountScalarField>
    decreases fs.len(),
{
    if fs.len() == 0 {
        None
    } else if fs[0].names().set_suffix == raw {
        Some(fs[0])
    } else {
        scalar_by_suffix(raw, fs.drop_first())
    }
}

pub open spec fn all_scalars() -> Seq<AccountScalarField> {
    seq![AccountScalarField::Token, AccountScalarField::Name, AccountScalarField::Kind, AccountScalarField::Device, AccountScalarField::Status]
}

pub open spec fn custom_by_suffix(raw: Seq<char>, fs: Seq<CustomStatusField>) -> Option<CustomStatusField>
    decreases fs.len(),
{
    if fs.len() == 0 {
        None
    } else if fs[0].names().set_suffix == raw {
        Some(fs[0])
    } else {
        custom_by_suffix(raw, fs.drop_first())
    }
}

pub open spec fn all_customs() -> Seq<CustomStatusField> {
    seq![CustomStatusField::Text, CustomStatusField::Emoji]
}

pub open spec fn activity_by_suffix(raw: Seq<char>, fs: Seq<ActivityField>) -> Option<ActivityField>
    decreases fs.len(),
{
    if fs.len() == 0 {
        None
    } else if fs[0].names().set_suffix == raw {
        Some(fs[0])
    } else {
        activity_by_suffix(raw, fs.drop_first())
    }
}

pub open spec fn all_activities() -> Seq<ActivityField> {
    seq![ActivityField::Name, ActivityField::Type, ActivityField::Platform, ActivityField::Timestamp, ActivityField::ApplicationId, ActivityField::Details, ActivityField::Url, ActivityField::LargeImage, ActivityField::LargeImageText, ActivityField::SmallImage, ActivityField::SmallImageText, ActivityField::Button, ActivityField::ButtonUrl, ActivityField::Button2, ActivityField::Button2Url, ActivityField::PartyId, ActivityField::PartyCurrent, ActivityField::PartyMax]
}

pub open spec fn prop_by_suffix(raw: Seq<char>, fs: Seq<ClientPropField>) -> Option<ClientPropField>
    decreases fs.len(),
{
    if fs.len() == 0 {
        None
    } else if fs[0].names().set_suffix == raw {
        Some(fs[0])
    } else {
        prop_by_suffix(raw, fs.drop_first())
    }
}

pub open spec fn all_prop_fields() -> Seq<ClientPropField> {
    seq![ClientPropField::Os, ClientPropField::Browser, ClientPropField::Device, ClientPropField::UserAgent]
}

pub open spec fn profile_by_toml(raw: Seq<char>, fs: Seq<DefaultsProfile>) -> Option<DefaultsProfile>
    decreases fs.len(),
{
    if fs.len() == 0 {
        None
    } else if fs[0].toml_spec() == raw {
        Some(fs[0])
    } else {
        profile_by_toml(raw, fs.drop_first())
    }
}

pub open spec fn all_profile_names() -> Seq<DefaultsProfile> {
    seq![DefaultsProfile::Bot, DefaultsProfile::Web, DefaultsProfile::Desktop, DefaultsProfile::Mobile]
}

/// The account scalar whose `--set` segment is `raw`.
fn scalar_field_by_suffix(raw: &str) -> (r: Option<AccountScalarField>)
    ensures
        r == scalar_by_suffix(raw@, all_scalars()),
{
    let fs = AccountScalarField::all();
    let ghost t = all_scalars();
    let mut i: usize = 0;
    assert(t.skip(0) =~= t);
    while i < fs.len()
        invariant
            fs@ == t,
            t == all_scalars(),
            i <= t.len(),
            scalar_by_suffix(raw@, t) == scalar_by_suffix(raw@, t.skip(i as int)),
        decreases t.len() - i,
    {
        proof {
            assert(t.skip(i as int).drop_first() =~= t.skip(i + 1));
        }
        let f = fs[i];
        if str_eq(f.spec().set_suffix, raw) {
            return Some(f);
        }
        i = i + 1;
    }
    None
}

/// The custom-status leaf whose `--set` segment is `raw`.
fn custom_field_by_suffix(raw: &str) -> (r: Option<CustomStatusField>)
    ensures
        r == custom_by_suffix(raw@, all_customs()),
{
    let fs = CustomStatusField::all();
    let ghost t = all_customs();
    let mut i: usize = 0;
    assert(t.skip(0) =~= t);
    while i < fs.len()
        invariant
            fs@ == t,
            t == all_customs(),
            i <= t.len(),
            custom_by_suffix(raw@, t) == custom_by_suffix(raw@, t.skip(i as int)),
        decreases t.len() - i,
    {
        proof {
            assert(t.skip(i as int).drop_first() =~= t.skip(i + 1));
        }
        let f = fs[i];
        if str_eq(f.spec().set_suffix, raw) {
            return Some(f);
        }
        i = i + 1;
    }
    None
}

/// The activity leaf whose `--set` segment is `raw`.
fn activity_field_by_suffix(raw: &str) -> (r: Option<ActivityField>)
    ensures
        r == activity_by_suffix(raw@, all_activities()),
{
    let fs = ActivityField::all();
    let ghost t = all_activities();
    let mut i: usize = 0;
    assert(t.skip(0) =~= t);
    while i < fs.len()
        invariant
            fs@ == t,
            t == all_activities(),
            i <= t.len(),
            activity_by_suffix(raw@, t) == activity_by_suffix(raw@, t.skip(i as int)),
        decreases t.len() - i,
    {
        proof {
            assert(t.skip(i as int).drop_first() =~= t.skip(i + 1));
        }
        let f = fs[i];
        if str_eq(f.spec().set_suffix, raw) {
            return Some(f);
        }
        i = i + 1;
    }
    None
}

/// The client-property leaf whose `--set` segment is `raw`.
fn prop_field_by_suffix(raw: &str) -> (r: Option<ClientPropField>)
    ensures
        r == prop_by_suffix(raw@, all_prop_fields()),
{
    let fs = ClientPropField::all();
    let ghost t = all_prop_fields();
    let mut i: usize = 0;
    assert(t.skip(0) =~= t);
    while i < fs.len()
        invariant
            fs@ == t,
            t == all_prop_fields(),
            i <= t.len(),
            prop_by_suffix(raw@, t) == prop_by_suffix(raw@, t.skip(i as int)),
        decreases t.len() - i,
    {
        proof {
            assert(t.skip(i as int).drop_first() =~= t.skip(i + 1));
        }
        let f = fs[i];
        if str_eq(f.spec().set_suffix, raw) {
            return Some(f);
        }
        i = i + 1;
    }
    None
}

/// The profile whose TOML name is `raw`.
fn profile_by_name(raw: &str) -> (r: Option<DefaultsProfile>)
    ensures
        r == profile_by_toml(raw@, all_profile_names()),
{
    let fs = DefaultsProfile::all();
    let ghost t = all_profile_names();
    let mut i: usize = 0;
    assert(t.skip(0) =~= t);
    while i < fs.len()
        invariant
            fs@ == t,
            t == all_profile_names(),
            i <= t.len(),
            profile_by_toml(raw@, t) == profile_by_toml(raw@, t.skip(i as int)),
        decreases t.len() - i,
    {
        proof {
            assert(t.skip(i as int).drop_first() =~= t.skip(i + 1));
        }
        let f = fs[i];
        if str_eq(f.toml(), raw) {
            return Some(f);
        }
        i = i + 1;
    }
    None
}

/// A path-parsing error, with its text.
pub enum ErrV {
    InvalidPath(Seq<char>),
    InvalidId(Seq<char>),
    UnknownField(Seq<char>),
}

/// The path-parsing error that `e` is.
pub open spec fn err_of(e: ConfigError) -> Option<ErrV> {
    match e {
        ConfigError::InvalidPath(m) => Some(ErrV::InvalidPath(m@)),
        ConfigError::InvalidId(m) => Some(ErrV::InvalidId(m@)),
        ConfigError::UnknownField(m) => Some(ErrV::UnknownField(m@)),
        _ => None,
    }
}

pub open spec fn account_id_result(raw: Seq<char>) -> Result<Seq<char>, ErrV> {
    if id_ok(raw, flat_id()) {
        Ok(raw)
    } else {
        Err(ErrV::InvalidId(user_id_error(raw).unwrap()))
    }
}

pub open spec fn activity_id_result(raw: Seq<char>) -> Result<Seq<char>, ErrV> {
    if id_ok(raw, singular_id()) {
        Ok(raw)
    } else {
        Err(ErrV::InvalidId(user_id_error(raw).unwrap()))
    }
}

/// A scalar segment: a catalog `--set` segment, or `account` for the name.
pub open spec fn scalar_token(raw: Seq<char>) -> Option<AccountScalarField> {
    if raw == "account"@ {
        Some(AccountScalarField::Name)
    } else {
        scalar_by_suffix(raw, all_scalars())
    }
}

pub open spec fn custom_field_result(raw: Seq<char>) -> Result<CustomStatusField, ErrV> {
    match custom_by_suffix(raw, all_customs()) {
        Some(f) => Ok(f),
        None => Err(ErrV::UnknownField("custom_status."@ + raw)),
    }
}

pub open spec fn activity_field_result(raw: Seq<char>) -> Result<ActivityField, ErrV> {
    match activity_by_suffix(raw, all_activities()) {
        Some(f) => Ok(f),
        None => Err(ErrV::UnknownField("activity field '"@ + raw + "'"@)),
    }
}

pub open spec fn prop_field_result(raw: Seq<char>) -> Result<ClientPropField, ErrV> {
    match prop_by_suffix(raw, all_prop_fields()) {
        Some(f) => Ok(f),
        None => Err(ErrV::UnknownField("client prop '"@ + raw + "'"@)),
    }
}

pub open spec fn profile_result(raw: Seq<char>) -> Result<DefaultsProfile, ErrV> {
    match profile_by_toml(raw, all_profile_names()) {
        Some(p) => Ok(p),
        None => Err(ErrV::UnknownField("defaults profile '"@ + raw + "'"@)),
    }
}

/// An activity leaf of account-relative segments.
pub open spec fn activity_leaf(aid: Seq<char>, field: Seq<char>) -> Result<AccountPathV, ErrV> {
    match activity_id_result(aid) {
        Err(e) => Err(e),
        Ok(id) => match activity_field_result(field) {
            Ok(f) => Ok(AccountPathV::Activity(id, f)),
            Err(e) => Err(e),
        },
    }
}

/// Account-relative segments: `None` when they are not of this grammar.
pub open spec fn relative_segs(segs: Seq<Seq<char>>) -> Option<Result<AccountPathV, ErrV>> {
    if segs.len() == 1 {
        match scalar_token(segs[0]) {
            Some(f) => Some(Ok(AccountPathV::Scalar(f))),
            None => None,
        }
    } else if segs.len() == 2 && segs[0] == "custom_status"@ {
        Some(
            match custom_field_result(segs[1]) {
                Ok(f) => Ok(AccountPathV::CustomStatus(f)),
                Err(e) => Err(e),
            },
        )
    } else if segs.len() == 2 && segs[0] == "activity"@ {
        match activity_field_result(segs[1]) {
            Ok(f) => Some(Ok(AccountPathV::Activity(singular_id(), f))),
            Err(_) => None,
        }
    } else if segs.len() == 3 && (segs[0] == "activity"@ || segs[0] == "activities"@) {
        Some(activity_leaf(segs[1], segs[2]))
    } else {
        None
    }
}

pub open spec fn relative_help() -> Seq<char> {
    "account-relative: name/token/kind/device/status, custom_status.*, activity.*, activities.*"@
}

pub open spec fn roots_help() -> Seq<char> {
    "allowed roots: log_level, health_socket, token/account/name/kind/device/status, custom_status.*, activity.*, activities.*, defaults.*, accounts.*"@
}

/// An account-relative path.
pub open spec fn relative_path(text: Seq<char>) -> Result<AccountPathV, ErrV> {
    match relative_segs(split_dots(text)) {
        Some(r) => r,
        None => Err(ErrV::InvalidPath(text + " ("@ + relative_help() + ")"@)),
    }
}

/// Segments joined by dots.
pub open spec fn join_dots(segs: Seq<Seq<char>>) -> Seq<char>
    decreases segs.len(),
{
    if segs.len() == 0 {
        Seq::empty()
    } else if segs.len() == 1 {
        segs[0]
    } else {
        join_dots(segs.drop_last()) + "."@ + segs.last()
    }
}

/// The leaf a `--set` path names.
pub open spec fn set_path(path: Seq<char>) -> Result<PathV, ErrV> {
    let segs = split_dots(path);
    if segs.len() == 1 && segs[0] == "log_level"@ {
        Ok(PathV::LogLevel)
    } else if segs.len() == 1 && segs[0] == "health_socket"@ {
        Ok(PathV::HealthSocket)
    } else if segs.len() == 3 && segs[0] == "defaults"@ {
        match profile_result(segs[1]) {
            Err(e) => Err(e),
            Ok(p) => match prop_field_result(segs[2]) {
                Err(e) => Err(e),
                Ok(f) => Ok(PathV::Defaults(p, f)),
            },
        }
    } else if segs.len() >= 3 && segs[0] == "accounts"@ {
        match account_id_result(segs[1]) {
            Err(e) => Err(e),
            Ok(id) => match relative_path(join_dots(segs.skip(2))) {
                Ok(ap) => Ok(PathV::Account(id, ap)),
                Err(e) => Err(e),
            },
        }
    } else {
        match relative_segs(segs) {
            Some(Ok(ap)) => Ok(PathV::Account(flat_id(), ap)),
            Some(Err(e)) => Err(e),
            None => Err(ErrV::InvalidPath(path + " ("@ + roots_help() + ")"@)),
        }
    }
}

/// A `Result` of the library against its spec value.
pub open spec fn matches_path(r: Result<ConfigPath, ConfigError>, want: Result<PathV, ErrV>) -> bool {
    match r {
        Ok(p) => want == Ok::<PathV, ErrV>(path_view(p)),
        Err(e) => err_of(e) is Some && want == Err::<PathV, ErrV>(err_of(e).unwrap()),
    }
}

pub open spec fn matches_relative(r: Result<AccountPath, ConfigError>, want: Result<AccountPathV, ErrV>) -> bool {
    match r {
        Ok(p) => want == Ok::<AccountPathV, ErrV>(account_path_view(p)),
        Err(e) => err_of(e) is Some && want == Err::<AccountPathV, ErrV>(err_of(e).unwrap()),
    }
}

fn account_id_of(raw: &str) -> (r: Result<String, ConfigError>)
    ensures
        match r {
            Ok(s) => account_id_result(raw@) == Ok::<Seq<char>, ErrV>(s@),
            Err(e) => err_of(e) is Some && account_id_result(raw@) == Err::<Seq<char>, ErrV>(err_of(e).unwrap()),
        },
{
    parse_account_id(raw)
}

fn activity_id_of(raw: &str) -> (r: Result<String, ConfigError>)
    ensures
        match r {
            Ok(s) => activity_id_result(raw@) == Ok::<Seq<char>, ErrV>(s@),
            Err(e) => err_of(e) is Some && activity_id_result(raw@) == Err::<Seq<char>, ErrV>(err_of(e).unwrap()),
        },
{
    parse_activity_id(raw)
}

fn parse_activity_field(raw: &str) -> (r: Result<ActivityField, ConfigError>)
    ensures
        match r {
            Ok(f) => activity_field_result(raw@) == Ok::<ActivityField, ErrV>(f),
            Err(e) => err_of(e) is Some && activity_field_result(raw@) == Err::<ActivityField, ErrV>(err_of(e).unwrap()),
        },
{
    match activity_field_by_suffix(raw) {
        Some(f) => Ok(f),
        None => Err(ConfigError::UnknownField(String::from_str("activity field '").concat(raw).concat("'"))),
    }
}

fn parse_custom_status_field(raw: &str) -> (r: Result<CustomStatusField, ConfigError>)
    ensures
        match r {
            Ok(f) => custom_field_result(raw@) == Ok::<CustomStatusField, ErrV>(f),
            Err(e) => err_of(e) is Some && custom_field_result(raw@) == Err::<CustomStatusField, ErrV>(err_of(e).unwrap()),
        },
{
    match custom_field_by_suffix(raw) {
        Some(f) => Ok(f),
        None => Err(ConfigError::UnknownField(String::from_str("custom_status.").concat(raw))),
    }
}

fn parse_client_prop_field(raw: &str) -> (r: Result<ClientPropField, ConfigError>)
    ensures
        match r {
            Ok(f) => prop_field_result(raw@) == Ok::<ClientPropField, ErrV>(f),
            Err(e) => err_of(e) is Some && prop_field_result(raw@) == Err::<ClientPropField, ErrV>(err_of(e).unwrap()),
        },
{
    match prop_field_by_suffix(raw) {
        Some(f) => Ok(f),
        None => Err(ConfigError::UnknownField(String::from_str("client prop '").concat(raw).concat("'"))),
    }
}

fn parse_defaults_profile(raw: &str) -> (r: Result<DefaultsProfile, ConfigError>)
    ensures
        match r {
            Ok(p) => profile_result(raw@) == Ok::<DefaultsProfile, ErrV>(p),
            Err(e) => err_of(e) is Some && profile_result(raw@) == Err::<DefaultsProfile, ErrV>(err_of(e).unwrap()),
        },
{
    match profile_by_name(raw) {
        Some(p) => Ok(p),
        None => Err(ConfigError::UnknownField(String::from_str("defaults profile '").concat(raw).concat("'"))),
    }
}

fn parse_account_scalar_token(raw: &str) -> (r: Option<AccountScalarField>)
    ensures
        r == scalar_token(raw@),
{
    proof {
        reveal_strlit("account");
    }
    if str_eq(raw, "account") {
        return Some(AccountScalarField::Name);
    }
    scalar_field_by_suffix(raw)
}

fn activity_leaf_of(aid: &str, field: &str) -> (r: Result<AccountPath, ConfigError>)
    ensures
        matches_relative(r, activity_leaf(aid@, field@)),
{
    let id = match activity_id_of(aid) {
        Ok(id) => id,
        Err(e) => {
            return Err(e);
        },
    };
    match parse_activity_field(field) {
        Ok(f) => Ok(AccountPath::Activity(id, f)),
        Err(e) => Err(e),
    }
}

fn parse_account_relative_segs(segs: &Vec<String>) -> (r: Option<Result<AccountPath, ConfigError>>)
    ensures
        match r {
            Some(x) => relative_segs(strings_view(segs@)) matches Some(w) && matches_relative(x, w),
            None => relative_segs(strings_view(segs@)) is None,
        },
{
    let ghost sv = strings_view(segs@);
    proof {
        reveal_strlit("custom_status");
        reveal_strlit("activity");
        reveal_strlit("activities");
    }
    let n = segs.len();
    if n == 1 {
        assert(sv[0] == segs@[0]@);
        return match parse_account_scalar_token(segs[0].as_str()) {
            Some(f) => Some(Ok(AccountPath::Scalar(f))),
            None => None,
        };
    }
    if n == 2 && str_eq(segs[0].as_str(), "custom_status") {
        assert(sv[0] == segs@[0]@ && sv[1] == segs@[1]@);
        return Some(
            match parse_custom_status_field(segs[1].as_str()) {
                Ok(f) => Ok(AccountPath::CustomStatus(f)),
                Err(e) => Err(e),
            },
        );
    }
    if n == 2 && str_eq(segs[0].as_str(), "activity") {
        assert(sv[0] == segs@[0]@ && sv[1] == segs@[1]@);
        return match parse_activity_field(segs[1].as_str()) {
            Ok(f) => Some(Ok(AccountPath::Activity(String::from_str(ACTIVITY_SINGULAR), f))),
            Err(_) => None,
        };
    }
    if n == 3 && (str_eq(segs[0].as_str(), "activity") || str_eq(segs[0].as_str(), "activities")) {
        assert(sv[0] == segs@[0]@ && sv[1] == segs@[1]@ && sv[2] == segs@[2]@);
        return Some(activity_leaf_of(segs[1].as_str(), segs[2].as_str()));
    }
    proof {
        if n == 2 {
            assert(sv[0] == segs@[0]@);
        }
        if n == 3 {
            assert(sv[0] == segs@[0]@);
        }
    }
    None
}

const ACCOUNT_RELATIVE_HELP: &'static str = "account-relative: name/token/kind/device/status, custom_status.*, activity.*, activities.*";

const PATH_ROOTS_HELP: &'static str = "allowed roots: log_level, health_socket, token/account/name/kind/device/status, custom_status.*, activity.*, activities.*, defaults.*, accounts.*";

/// An account-relative path (`token`, `activity.name`, `activities.x.type`, …).
pub fn parse_account_relative_path(path: &str) -> (r: Result<AccountPath, ConfigError>)
    ensures
        matches_relative(r, relative_path(path@)),
{
    let segs = split_on_dots(path);
    match parse_account_relative_segs(&segs) {
        Some(r) => r,
        None => Err(
            ConfigError::InvalidPath(
                String::from_str(path).concat(" (").concat(ACCOUNT_RELATIVE_HELP).concat(")"),
            ),
        ),
    }
}

/// Segments joined by dots.
fn join_on_dots(segs: &[String]) -> (r: String)
    ensures
        r@ == join_dots(strings_view(segs@)),
{
    let mut out = String::new();
    let mut i: usize = 0;
    assert(strings_view(segs@.subrange(0, 0)) =~= Seq::<Seq<char>>::empty());
    while i < segs.len()
        invariant
            i <= segs@.len(),
            out@ == join_dots(strings_view(segs@.subrange(0, i as int))),
        decreases segs@.len() - i,
    {
        proof {
            reveal_strlit(".");
            assert(strings_view(segs@.subrange(0, i + 1)).drop_last() =~= strings_view(segs@.subrange(0, i as int)));
        }
        if i > 0 {
            out.append(".");
        }
        out.append(segs[i].as_str());
        i = i + 1;
        proof {
            if i == 1 {
                assert(out@ =~= segs@[0]@);
            }
        }
    }
    assert(segs@.subrange(0, segs@.len() as int) =~= segs@);
    out
}

/// The leaf a `--set` path names: `log_level`, `health_socket`,
/// `defaults.<profile>.<field>`, `accounts.<id>.<account path>`, or an
/// account path of the flat account.
pub fn parse_set_path(path: &str) -> (r: Result<ConfigPath, ConfigError>)
    ensures
        matches_path(r, set_path(path@)),
{
    proof {
        reveal_strlit("log_level");
        reveal_strlit("health_socket");
        reveal_strlit("defaults");
        reveal_strlit("accounts");
    }
    let segs = split_on_dots(path);
    let ghost sv = strings_view(segs@);
    let n = segs.len();
    if n == 1 && str_eq(segs[0].as_str(), "log_level") {
        return Ok(ConfigPath::LogLevel);
    }
    if n == 1 && str_eq(segs[0].as_str(), "health_socket") {
        return Ok(ConfigPath::HealthSocket);
    }
    if n == 3 && str_eq(segs[0].as_str(), "defaults") {
        assert(sv[1] == segs@[1]@ && sv[2] == segs@[2]@);
        let p = match parse_defaults_profile(segs[1].as_str()) {
            Ok(p) => p,
            Err(e) => {
                return Err(e);
            },
        };
        return match parse_client_prop_field(segs[2].as_str()) {
            Ok(f) => Ok(ConfigPath::Defaults(p, f)),
            Err(e) => Err(e),
        };
    }
    if n >= 3 && str_eq(segs[0].as_str(), "accounts") {
        assert(sv[1] == segs@[1]@);
        let account_id = match account_id_of(segs[1].as_str()) {
            Ok(id) => id,
            Err(e) => {
                return Err(e);
            },
        };
        let rest = slice_from(&segs, 2);
        assert(strings_view(rest@) =~= sv.skip(2));
        let relative = join_on_dots(rest.as_slice());
        return match parse_account_relative_path(relative.as_str()) {
            Ok(ap) => Ok(ConfigPath::Account(account_id, ap)),
            Err(e) => Err(e),
        };
    }
    proof {
        if n >= 1 {
            assert(sv[0] == segs@[0]@);
        }
    }
    match parse_account_relative_segs(&segs) {
        Some(Ok(ap)) => Ok(ConfigPath::Account(String::from_str(ACCOUNT_FLAT), ap)),
        Some(Err(e)) => Err(e),
        None => Err(ConfigError::InvalidPath(String::from_str(path).concat(" (").concat(PATH_ROOTS_HELP).concat(")"))),
    }
}

/// Copies of `v[from..]`.
fn slice_from(v: &Vec<String>, from: usize) -> (r: Vec<String>)
    requires
        from <= v@.len(),
    ensures
        r@.len() == v@.len() - from,
        forall|i: int| 0 <= i < r@.len() ==> #[trigger] r@[i] == v@[from + i],
{
    let mut r: Vec<String> = Vec::new();
    let mut i: usize = from;
    while i < v.len()
        invariant
            from <= i <= v@.len(),
            r@.len() == i - from,
            forall|k: int| 0 <= k < r@.len() ==> #[trigger] r@[k] == v@[from + k],
        decreases v@.len() - i,
    {
        r.push(v[i].clone());
        i = i + 1;
    }
    r
}

/// `PATH=VALUE` split at the first `=`; the path must not be empty.
pub open spec fn kv_result(spec: Seq<char>) -> Result<(Seq<char>, Seq<char>), ErrV> {
    match first_index(spec, '=') {
        None => Err(ErrV::InvalidPath("expected PATH=VALUE, got '"@ + spec + "'"@)),
        Some(i) => if i == 0 {
            Err(ErrV::InvalidPath("empty path in '"@ + spec + "'"@))
        } else {
            Ok((spec.subrange(0, i), spec.subrange(i + 1, spec.len() as int)))
        },
    }
}

fn split_kv(spec: &str) -> (r: Result<(String, String), ConfigError>)
    ensures
        match r {
            Ok((p, v)) => kv_result(spec@) == Ok::<(Seq<char>, Seq<char>), ErrV>((p@, v@)),
            Err(e) => err_of(e) is Some && kv_result(spec@) == Err::<(Seq<char>, Seq<char>), ErrV>(err_of(e).unwrap()),
        },
{
    let v = chars(spec);
    match find_char(&v, '=') {
        None => Err(ConfigError::InvalidPath(String::from_str("expected PATH=VALUE, got '").concat(spec).concat("'"))),
        Some(i) => {
            if i == 0 {
                return Err(ConfigError::InvalidPath(String::from_str("empty path in '").concat(spec).concat("'")));
            }
            let n = v.len();
            let from: usize = i + 1;
            Ok((string_of(&sub_vec(&v, 0, i)), string_of(&sub_vec(&v, from, n))))
        },
    }
}

/// What a `--set` argument sets.
#[verifier::opaque]
pub open spec fn set_spec_result(spec: Seq<char>) -> Result<(PathV, Seq<char>), ErrV> {
    match kv_result(spec) {
        Err(e) => Err(e),
        Ok((path, value)) => match set_path(path) {
            Ok(p) => Ok((p, value)),
            Err(e) => Err(e),
        },
    }
}

pub open spec fn matches_spec(r: Result<(ConfigPath, String), ConfigError>, want: Result<(PathV, Seq<char>), ErrV>) -> bool {
    match r {
        Ok((p, v)) => want == Ok::<(PathV, Seq<char>), ErrV>((path_view(p), v@)),
        Err(e) => err_of(e) is Some && want == Err::<(PathV, Seq<char>), ErrV>(err_of(e).unwrap()),
    }
}

/// A `--set PATH=VALUE` argument.
pub fn parse_set_spec(spec: &str) -> (r: Result<(ConfigPath, String), ConfigError>)
    ensures
        matches_spec(r, set_spec_result(spec@)),
{
    reveal(set_spec_result);
    let (path, value) = match split_kv(spec) {
        Ok(x) => x,
        Err(e) => {
            return Err(e);
        },
    };
    match parse_set_path(path.as_str()) {
        Ok(p) => Ok((p, value)),
        Err(e) => Err(e),
    }
}

/// What an `--account-set` argument sets.
#[verifier::opaque]
pub open spec fn account_set_result(spec: Seq<char>) -> Result<(PathV, Seq<char>), ErrV> {
    match kv_result(spec) {
        Err(e) => Err(e),
        Ok((path, value)) => match first_index(path, '.') {
            None => Err(ErrV::InvalidPath("account-set expects id.path=value, got '"@ + spec + "'"@)),
            Some(i) => {
                let id = path.subrange(0, i);
                let rest = path.subrange(i + 1, path.len() as int);
                if rest.len() == 0 {
                    Err(ErrV::InvalidPath("account-set missing path after id in '"@ + spec + "'"@))
                } else {
                    match account_id_result(id) {
                        Err(e) => Err(e),
                        Ok(aid) => match relative_path(rest) {
                            Ok(ap) => Ok((PathV::Account(aid, ap), value)),
                            Err(e) => Err(e),
                        },
                    }
                }
            },
        },
    }
}

/// An `--account-set ID.PATH=VALUE` argument.
pub fn parse_account_set_spec(spec: &str) -> (r: Result<(ConfigPath, String), ConfigError>)
    ensures
        matches_spec(r, account_set_result(spec@)),
{
    reveal(account_set_result);
    let (path, value) = match split_kv(spec) {
        Ok(x) => x,
        Err(e) => {
            return Err(e);
        },
    };
    let pv = chars(path.as_str());
    let i = match find_char(&pv, '.') {
        Some(i) => i,
        None => {
            return Err(
                ConfigError::InvalidPath(String::from_str("account-set expects id.path=value, got '").concat(spec).concat("'")),
            );
        },
    };
    let n = pv.len();
    let from: usize = i + 1;
    let id = string_of(&sub_vec(&pv, 0, i));
    let rest = string_of(&sub_vec(&pv, from, n));
    if rest.unicode_len() == 0 {
        return Err(
            ConfigError::InvalidPath(String::from_str("account-set missing path after id in '").concat(spec).concat("'")),
        );
    }
    let account_id = match account_id_of(id.as_str()) {
        Ok(a) => a,
        Err(e) => {
            return Err(e);
        },
    };
    match parse_account_relative_path(rest.as_str()) {
        Ok(ap) => Ok((ConfigPath::Account(account_id, ap), value)),
        Err(e) => Err(e),
    }
}

/// The default config file path.
pub const DEFAULT_CONFIG_PATH: &'static str = "config.toml";

/// Flat-account flags.
pub struct AccountScalarCliArgs {
    pub token: Option<SecretString>,
    pub name: Option<String>,
    pub kind: Option<String>,
    pub device: Option<String>,
    pub status: Option<String>,
}

impl View for AccountScalarCliArgs {
    type V = Leaves;

    /// In catalog order: token, name, kind, device, status.
    open spec fn view(&self) -> Leaves {
        seq![secret_view(self.token), opt_view(self.name), opt_view(self.kind), opt_view(self.device), opt_view(self.status)]
    }
}

/// Flat custom-status flags.
pub struct CustomStatusCliArgs {
    pub custom_status: Option<String>,
    pub custom_status_emoji: Option<String>,
}

impl View for CustomStatusCliArgs {
    type V = Leaves;

    open spec fn view(&self) -> Leaves {
        seq![opt_view(self.custom_status), opt_view(self.custom_status_emoji)]
    }
}

/// Flat activity flags.
pub struct ActivityCliArgs {
    pub activity: Option<String>,
    pub activity_type: Option<String>,
    pub activity_platform: Option<String>,
    pub activity_timestamp: Option<String>,
    pub activity_application_id: Option<String>,
    pub activity_details: Option<String>,
    pub activity_url: Option<String>,
    pub activity_large_image: Option<String>,
    pub activity_large_image_text: Option<String>,
    pub activity_small_image: Option<String>,
    pub activity_small_image_text: Option<String>,
    pub activity_button: Option<String>,
    pub activity_button_url: Option<String>,
    pub activity_button_2: Option<String>,
    pub activity_button_2_url: Option<String>,
    pub activity_party_id: Option<String>,
    pub activity_party_current: Option<String>,
    pub activity_party_max: Option<String>,
}

impl View for ActivityCliArgs {
    type V = Leaves;

    open spec fn view(&self) -> Leaves {
        seq![
            opt_view(self.activity),
            opt_view(self.activity_type),
            opt_view(self.activity_platform),
            opt_view(self.activity_timestamp),
            opt_view(self.activity_application_id),
            opt_view(self.activity_details),
            opt_view(self.activity_url),
            opt_view(self.activity_large_image),
            opt_view(self.activity_large_image_text),
            opt_view(self.activity_small_image),
            opt_view(self.activity_small_image_text),
            opt_view(self.activity_button),
            opt_view(self.activity_button_url),
            opt_view(self.activity_button_2),
            opt_view(self.activity_button_2_url),
            opt_view(self.activity_party_id),
            opt_view(self.activity_party_current),
            opt_view(self.activity_party_max)
        ]
    }
}

/// Subcommands.
pub enum Command {
    /// Probe the health endpoint.
    Health { health_socket: Option<String>, config: String },
}

/// The command line.
pub struct Cli {
    pub config: String,
    pub log_level: Option<String>,
    pub health_socket: Option<String>,
    pub account: AccountScalarCliArgs,
    pub custom_status: CustomStatusCliArgs,
    pub activity: ActivityCliArgs,
    pub account_set: Vec<String>,
    pub set: Vec<String>,
    pub command: Option<Command>,
}

impl Default for Cli {
    /// A command line with no arguments.
    fn default() -> (r: Cli)
        ensures
            r.config@ == "config.toml"@,
            r.log_level is None && r.health_socket is None,
            r.account@ == unset(5) && r.custom_status@ == unset(2) && r.activity@ == unset(18),
            r.account_set@.len() == 0 && r.set@.len() == 0,
            r.command is None,
    {
        let r = Cli {
            config: String::from_str(DEFAULT_CONFIG_PATH),
            log_level: None,
            health_socket: None,
            account: AccountScalarCliArgs { token: None, name: None, kind: None, device: None, status: None },
            custom_status: CustomStatusCliArgs { custom_status: None, custom_status_emoji: None },
            activity: ActivityCliArgs {
            activity: None,
            activity_type: None,
            activity_platform: None,
            activity_timestamp: None,
            activity_application_id: None,
            activity_details: None,
            activity_url: None,
            activity_large_image: None,
            activity_large_image_text: None,
            activity_small_image: None,
            activity_small_image_text: None,
            activity_button: None,
            activity_button_url: None,
            activity_button_2: None,
            activity_button_2_url: None,
            activity_party_id: None,
            activity_party_current: None,
            activity_party_max: None
            },
            account_set: Vec::new(),
            set: Vec::new(),
            command: None,
        };
        assert(r.account@ =~= unset(5));
        assert(r.custom_status@ =~= unset(2));
        assert(r.activity@ =~= unset(18));
        r
    }
}

fn opt_as_str(s: &Option<String>) -> (r: Option<&str>)
    ensures
        opt_ref_view(r) == opt_view(*s),
{
    match s {
        Some(v) => Some(v.as_str()),
        None => None,
    }
}

impl CustomStatusField {
    /// The flag value of this leaf.
    pub fn cli_get(self, args: &CustomStatusCliArgs) -> (r: Option<&str>)
        ensures
            opt_ref_view(r) == args@[self.index()],
    {
        match self {
            CustomStatusField::Text => opt_as_str(&args.custom_status),
            CustomStatusField::Emoji => opt_as_str(&args.custom_status_emoji),
        }
    }
}

impl ActivityField {
    /// The flag value of this leaf.
    pub fn cli_get(self, args: &ActivityCliArgs) -> (r: Option<&str>)
        ensures
            opt_ref_view(r) == args@[self.index()],
    {
        match self {
            ActivityField::Name => opt_as_str(&args.activity),
            ActivityField::Type => opt_as_str(&args.activity_type),
            ActivityField::Platform => opt_as_str(&args.activity_platform),
            ActivityField::Timestamp => opt_as_str(&args.activity_timestamp),
            ActivityField::ApplicationId => opt_as_str(&args.activity_application_id),
            ActivityField::Details => opt_as_str(&args.activity_details),
            ActivityField::Url => opt_as_str(&args.activity_url),
            ActivityField::LargeImage => opt_as_str(&args.activity_large_image),
            ActivityField::LargeImageText => opt_as_str(&args.activity_large_image_text),
            ActivityField::SmallImage => opt_as_str(&args.activity_small_image),
            ActivityField::SmallImageText => opt_as_str(&args.activity_small_image_text),
            ActivityField::Button => opt_as_str(&args.activity_button),
            ActivityField::ButtonUrl => opt_as_str(&args.activity_button_url),
            ActivityField::Button2 => opt_as_str(&args.activity_button_2),
            ActivityField::Button2Url => opt_as_str(&args.activity_button_2_url),
            ActivityField::PartyId => opt_as_str(&args.activity_party_id),
            ActivityField::PartyCurrent => opt_as_str(&args.activity_party_current),
            ActivityField::PartyMax => opt_as_str(&args.activity_party_max),
        }
    }
}

fn scalar_cli_get(field: AccountScalarField, args: &AccountScalarCliArgs) -> (r: Option<&str>)
    ensures
        opt_ref_view(r) == args@[field.index()],
{
    match field {
        AccountScalarField::Token => match &args.token {
            Some(t) => Some(t.as_str()),
            None => None,
        },
        AccountScalarField::Name => opt_as_str(&args.name),
        AccountScalarField::Kind => opt_as_str(&args.kind),
        AccountScalarField::Device => opt_as_str(&args.device),
        AccountScalarField::Status => opt_as_str(&args.status),
    }
}

/// The layer after the first `n` flat flags of a group, in catalog order.
pub open spec fn apply_group_v(c: ConfigV, args: Leaves, paths: Seq<PathV>, n: int) -> ConfigV
    decreases n,
{
    if n <= 0 {
        c
    } else {
        let prev = apply_group_v(c, args, paths, n - 1);
        match trim_opt(args[n - 1]) {
            Some(v) => apply_v(prev, paths[n - 1], v),
            None => prev,
        }
    }
}

pub open spec fn scalar_paths() -> Seq<PathV> {
    all_scalars().map_values(|f: AccountScalarField| PathV::Account(flat_id(), AccountPathV::Scalar(f)))
}

pub open spec fn custom_paths() -> Seq<PathV> {
    all_customs().map_values(|f: CustomStatusField| PathV::Account(flat_id(), AccountPathV::CustomStatus(f)))
}

pub open spec fn activity_paths() -> Seq<PathV> {
    all_activities().map_values(|f: ActivityField| PathV::Account(flat_id(), AccountPathV::Activity(singular_id(), f)))
}

/// Sets each trimmed, non-empty custom-status flag on the flat account.
pub fn apply_custom_status_cli(partial: &mut PartialConfig, args: &CustomStatusCliArgs)
    ensures
        config_view(*final(partial)) == apply_group_v(config_view(*old(partial)), args@, custom_paths(), 2),
{
    let fields = CustomStatusField::all();
    let ghost c0 = config_view(*partial);
    let mut i: usize = 0;
    while i < fields.len()
        invariant
            fields@ == all_customs(),
            i <= 2,
            config_view(*partial) == apply_group_v(c0, args@, custom_paths(), i as int),
        decreases 2 - i,
    {
        let field = fields[i];
        assert(field.index() == i);
        match trim_to_string(field.cli_get(args)) {
            Some(v) => {
                let path = custom_status_path(String::from_str(ACCOUNT_FLAT), field);
                apply_path(partial, &path, v);
            },
            None => {},
        }
        i = i + 1;
    }
}

/// Sets each trimmed, non-empty activity flag on the flat account's
/// singular activity.
pub fn apply_activity_cli(partial: &mut PartialConfig, args: &ActivityCliArgs)
    ensures
        config_view(*final(partial)) == apply_group_v(config_view(*old(partial)), args@, activity_paths(), 18),
{
    let fields = ActivityField::all();
    let ghost c0 = config_view(*partial);
    let mut i: usize = 0;
    while i < fields.len()
        invariant
            fields@ == all_activities(),
            i <= 18,
            config_view(*partial) == apply_group_v(c0, args@, activity_paths(), i as int),
        decreases 18 - i,
    {
        let field = fields[i];
        assert(field.index() == i);
        match trim_to_string(field.cli_get(args)) {
            Some(v) => {
                let path = activity_field_path(String::from_str(ACCOUNT_FLAT), String::from_str(ACTIVITY_SINGULAR), field);
                apply_path(partial, &path, v);
            },
            None => {},
        }
        i = i + 1;
    }
}

/// Sets each trimmed, non-empty account flag on the flat account.
pub fn apply_account_scalar_cli(partial: &mut PartialConfig, args: &AccountScalarCliArgs)
    ensures
        config_view(*final(partial)) == apply_group_v(config_view(*old(partial)), args@, scalar_paths(), 5),
{
    let fields = AccountScalarField::all();
    let ghost c0 = config_view(*partial);
    let mut i: usize = 0;
    while i < fields.len()
        invariant
            fields@ == all_scalars(),
            i <= 5,
            config_view(*partial) == apply_group_v(c0, args@, scalar_paths(), i as int),
        decreases 5 - i,
    {
        let field = fields[i];
        assert(field.index() == i);
        match trim_to_string(scalar_cli_get(field, args)) {
            Some(v) => {
                let path = account_scalar_path(String::from_str(ACCOUNT_FLAT), field);
                apply_path(partial, &path, v);
            },
            None => {},
        }
        i = i + 1;
    }
}

/// The layer of the flat flags.
pub open spec fn flat_flags_v(cli: Cli) -> ConfigV {
    let c1 = match trim_opt(opt_view(cli.log_level)) {
        Some(v) => apply_v(empty_config(), PathV::LogLevel, v),
        None => empty_config(),
    };
    let c2 = match opt_view(cli.health_socket) {
        Some(v) => apply_v(c1, PathV::HealthSocket, v),
        None => c1,
    };
    let c3 = apply_group_v(c2, cli.account@, scalar_paths(), 5);
    let c4 = apply_group_v(c3, cli.custom_status@, custom_paths(), 2);
    apply_group_v(c4, cli.activity@, activity_paths(), 18)
}

/// The layer after applying override arguments in order; the first bad one
/// fails the whole layer.
pub open spec fn apply_specs_v(c: ConfigV, specs: Seq<Seq<char>>, account: bool) -> Result<ConfigV, ErrV>
    decreases specs.len(),
{
    if specs.len() == 0 {
        Ok(c)
    } else {
        match apply_specs_v(c, specs.drop_last(), account) {
            Err(e) => Err(e),
            Ok(prev) => match (if account {
                account_set_result(specs.last())
            } else {
                set_spec_result(specs.last())
            }) {
                Err(e) => Err(e),
                Ok((p, v)) => Ok(apply_v(prev, p, v)),
            },
        }
    }
}

/// The command-line layer: flat flags, then `--account-set`, then `--set`
/// (later wins).
pub open spec fn cli_layer(cli: Cli) -> Result<ConfigV, ErrV> {
    match apply_specs_v(flat_flags_v(cli), strings_view(cli.account_set@), true) {
        Err(e) => Err(e),
        Ok(c) => apply_specs_v(c, strings_view(cli.set@), false),
    }
}

fn apply_flat_flags(partial: &mut PartialConfig, cli: &Cli)
    requires
        config_view(*old(partial)) == empty_config(),
    ensures
        config_view(*final(partial)) == flat_flags_v(*cli),
{
    match trim_to_string(opt_as_str(&cli.log_level)) {
        Some(v) => apply_path(partial, &ConfigPath::LogLevel, v),
        None => {},
    }
    match &cli.health_socket {
        Some(v) => apply_path(partial, &ConfigPath::HealthSocket, v.clone()),
        None => {},
    }
    apply_account_scalar_cli(partial, &cli.account);
    apply_custom_status_cli(partial, &cli.custom_status);
    apply_activity_cli(partial, &cli.activity);
}

proof fn lemma_specs_step(c: ConfigV, specs: Seq<Seq<char>>, account: bool, i: int)
    requires
        0 <= i < specs.len(),
    ensures
        apply_specs_v(c, specs.subrange(0, i + 1), account) == match apply_specs_v(c, specs.subrange(0, i), account) {
            Err(e) => Err(e),
            Ok(prev) => match (if account {
                account_set_result(specs[i])
            } else {
                set_spec_result(specs[i])
            }) {
                Err(e) => Err(e),
                Ok((p, v)) => Ok(apply_v(prev, p, v)),
            },
        },
{
    assert(specs.subrange(0, i + 1).drop_last() =~= specs.subrange(0, i));
}

fn parse_override(spec: &str, account: bool) -> (r: Result<(ConfigPath, String), ConfigError>)
    ensures
        matches_spec(r, if account { account_set_result(spec@) } else { set_spec_result(spec@) }),
{
    if account {
        parse_account_set_spec(spec)
    } else {
        parse_set_spec(spec)
    }
}

fn apply_specs(partial: &mut PartialConfig, specs: &Vec<String>, account: bool) -> (r: Result<(), ConfigError>)
    ensures
        match r {
            Ok(_) => apply_specs_v(config_view(*old(partial)), strings_view(specs@), account) == Ok::<ConfigV, ErrV>(config_view(*final(partial))),
            Err(e) => err_of(e) is Some && apply_specs_v(config_view(*old(partial)), strings_view(specs@), account) == Err::<ConfigV, ErrV>(err_of(e).unwrap()),
        },
{
    let ghost c0 = config_view(*partial);
    let ghost sv = strings_view(specs@);
    let mut i: usize = 0;
    assert(sv.subrange(0, 0) =~= Seq::<Seq<char>>::empty());
    while i < specs.len()
        invariant
            i <= specs@.len(),
            sv == strings_view(specs@),
            c0 == config_view(*old(partial)),
            apply_specs_v(c0, sv.subrange(0, i as int), account) == Ok::<ConfigV, ErrV>(config_view(*partial)),
        decreases specs@.len() - i,
    {
        proof {
            lemma_specs_step(c0, sv, account, i as int);
            assert(sv[i as int] == specs@[i as int]@);
        }
        let parsed = parse_override(specs[i].as_str(), account);
        match parsed {
            Ok((path, value)) => {
                apply_path(partial, &path, value);
            },
            Err(e) => {
                proof {
                    lemma_specs_error_sticks(c0, sv, account, i as int + 1, err_of(e).unwrap());
                    assert(apply_specs_v(c0, sv, account) == Err::<ConfigV, ErrV>(err_of(e).unwrap()));
                    assert(c0 == config_view(*old(partial)));
                }
                return Err(e);
            },
        }
        i = i + 1;
    }
    assert(sv.subrange(0, sv.len() as int) =~= sv);
    Ok(())
}

proof fn lemma_specs_error_sticks(c: ConfigV, specs: Seq<Seq<char>>, account: bool, k: int, e: ErrV)
    requires
        0 < k <= specs.len(),
        apply_specs_v(c, specs.subrange(0, k), account) == Err::<ConfigV, ErrV>(e),
    ensures
        apply_specs_v(c, specs, account) == Err::<ConfigV, ErrV>(e),
    decreases specs.len() - k,
{
    if k < specs.len() {
        assert(specs.subrange(0, k + 1).drop_last() =~= specs.subrange(0, k));
        lemma_specs_error_sticks(c, specs, account, k + 1, e);
    } else {
        assert(specs.subrange(0, k) =~= specs);
    }
}

/// The command-line layer. Order (last wins): flat flags, then each
/// `--account-set`, then each `--set`; the first malformed override is the
/// error.
pub fn cli_partial(cli: &Cli) -> (r: Result<PartialConfig, ConfigError>)
    ensures
        match r {
            Ok(p) => cli_layer(*cli) == Ok::<ConfigV, ErrV>(config_view(p)),
            Err(e) => err_of(e) is Some && cli_layer(*cli) == Err::<ConfigV, ErrV>(err_of(e).unwrap()),
        },
{
    let mut partial = PartialConfig::default();
    proof {
        assert(crate::config::partial::accounts_view(partial.accounts@) =~= Map::<Seq<char>, crate::config::partial::AccountV>::empty());
        assert(strings_view(partial.account_order@) =~= Seq::<Seq<char>>::empty());
        assert(config_view(partial) =~= empty_config());
    }
    apply_flat_flags(&mut partial, cli);
    match apply_specs(&mut partial, &cli.account_set, true) {
        Ok(()) => {},
        Err(e) => {
            return Err(e);
        },
    }
    match apply_specs(&mut partial, &cli.set, false) {
        Ok(()) => Ok(partial),
        Err(e) => Err(e),
    }
}

/// The debug rendering of flat-account flags.
pub open spec fn account_args_text(a: AccountScalarCliArgs) -> Seq<char> {
    record_text(
        "AccountScalarCliArgs"@,
        seq![
            ("token"@, secret_text(secret_view(a.token))),
            ("name"@, opt_text(opt_view(a.name))),
            ("kind"@, opt_text(opt_view(a.kind))),
            ("device"@, opt_text(opt_view(a.device))),
            ("status"@, opt_text(opt_view(a.status))),
        ],
    )
}

/// The debug rendering of custom-status flags.
pub open spec fn custom_args_text(a: CustomStatusCliArgs) -> Seq<char> {
    record_text(
        "CustomStatusCliArgs"@,
        seq![
            ("custom_status"@, opt_text(opt_view(a.custom_status))),
            ("custom_status_emoji"@, opt_text(opt_view(a.custom_status_emoji))),
        ],
    )
}

/// The debug rendering of activity flags.
pub open spec fn activity_args_text(a: ActivityCliArgs) -> Seq<char> {
    record_text(
        "ActivityCliArgs"@,
        seq![
            ("activity"@, opt_text(opt_view(a.activity))),
            ("activity_type"@, opt_text(opt_view(a.activity_type))),
            ("activity_platform"@, opt_text(opt_view(a.activity_platform))),
            ("activity_timestamp"@, opt_text(opt_view(a.activity_timestamp))),
            ("activity_application_id"@, opt_text(opt_view(a.activity_application_id))),
            ("activity_details"@, opt_text(opt_view(a.activity_details))),
            ("activity_url"@, opt_text(opt_view(a.activity_url))),
            ("activity_large_image"@, opt_text(opt_view(a.activity_large_image))),
            ("activity_large_image_text"@, opt_text(opt_view(a.activity_large_image_text))),
            ("activity_small_image"@, opt_text(opt_view(a.activity_small_image))),
            ("activity_small_image_text"@, opt_text(opt_view(a.activity_small_image_text))),
            ("activity_button"@, opt_text(opt_view(a.activity_button))),
            ("activity_button_url"@, opt_text(opt_view(a.activity_button_url))),
            ("activity_button_2"@, opt_text(opt_view(a.activity_button_2))),
            ("activity_button_2_url"@, opt_text(opt_view(a.activity_button_2_url))),
            ("activity_party_id"@, opt_text(opt_view(a.activity_party_id))),
            ("activity_party_current"@, opt_text(opt_view(a.activity_party_current))),
            ("activity_party_max"@, opt_text(opt_view(a.activity_party_max))),
        ],
    )
}

/// The debug rendering of a subcommand.
pub open spec fn command_text(c: Option<Command>) -> Seq<char> {
    match c {
        Some(Command::Health { health_socket, config }) => "Some("@ + record_text(
            "Health"@,
            seq![("health_socket"@, opt_text(opt_view(health_socket))), ("config"@, quoted(config@))],
        ) + ")"@,
        None => "None"@,
    }
}

/// The debug rendering of a command line; the token shows as `<redacted>`.
pub open spec fn cli_text(c: Cli) -> Seq<char> {
    record_text(
        "Cli"@,
        seq![
            ("config"@, quoted(c.config@)),
            ("log_level"@, opt_text(opt_view(c.log_level))),
            ("health_socket"@, opt_text(opt_view(c.health_socket))),
            ("account"@, account_args_text(c.account)),
            ("custom_status"@, custom_args_text(c.custom_status)),
            ("activity"@, activity_args_text(c.activity)),
            ("account_set"@, list_text(c.account_set@.map_values(|s: String| s@))),
            ("set"@, list_text(c.set@.map_values(|s: String| s@))),
            ("command"@, command_text(c.command)),
        ],
    )
}

impl AccountScalarCliArgs {
    /// A debug rendering with the token shown as `<redacted>`.
    pub fn debug_text(&self) -> (r: String)
        ensures
            r@ == account_args_text(*self),
    {
        let mut f: Vec<(String, String)> = Vec::new();
        f.push(field("token", secret_text_of(&self.token)));
        f.push(field("name", opt_text_of(&self.name)));
        f.push(field("kind", opt_text_of(&self.kind)));
        f.push(field("device", opt_text_of(&self.device)));
        f.push(field("status", opt_text_of(&self.status)));
        let ghost a = *self;
        assert(fields_view(f@) =~= seq![
            ("token"@, secret_text(secret_view(a.token))),
            ("name"@, opt_text(opt_view(a.name))),
            ("kind"@, opt_text(opt_view(a.kind))),
            ("device"@, opt_text(opt_view(a.device))),
            ("status"@, opt_text(opt_view(a.status))),
        ]);
        record_text_of("AccountScalarCliArgs", &f)
    }
}

impl CustomStatusCliArgs {
    pub fn debug_text(&self) -> (r: String)
        ensures
            r@ == custom_args_text(*self),
    {
        let mut f: Vec<(String, String)> = Vec::new();
        f.push(field("custom_status", opt_text_of(&self.custom_status)));
        f.push(field("custom_status_emoji", opt_text_of(&self.custom_status_emoji)));
        let ghost a = *self;
        assert(fields_view(f@) =~= seq![
            ("custom_status"@, opt_text(opt_view(a.custom_status))),
            ("custom_status_emoji"@, opt_text(opt_view(a.custom_status_emoji))),
        ]);
        record_text_of("CustomStatusCliArgs", &f)
    }
}

impl ActivityCliArgs {
    pub fn debug_text(&self) -> (r: String)
        ensures
            r@ == activity_args_text(*self),
    {
        let mut f: Vec<(String, String)> = Vec::new();
        f.push(field("activity", opt_text_of(&self.activity)));
        f.push(field("activity_type", opt_text_of(&self.activity_type)));
        f.push(field("activity_platform", opt_text_of(&self.activity_platform)));
        f.push(field("activity_timestamp", opt_text_of(&self.activity_timestamp)));
        f.push(field("activity_application_id", opt_text_of(&self.activity_application_id)));
        f.push(field("activity_details", opt_text_of(&self.activity_details)));
        f.push(field("activity_url", opt_text_of(&self.activity_url)));
        f.push(field("activity_large_image", opt_text_of(&self.activity_large_image)));
        f.push(field("activity_large_image_text", opt_text_of(&self.activity_large_image_text)));
        f.push(field("activity_small_image", opt_text_of(&self.activity_small_image)));
        f.push(field("activity_small_image_text", opt_text_of(&self.activity_small_image_text)));
        f.push(field("activity_button", opt_text_of(&self.activity_button)));
        f.push(field("activity_button_url", opt_text_of(&self.activity_button_url)));
        f.push(field("activity_button_2", opt_text_of(&self.activity_button_2)));
        f.push(field("activity_button_2_url", opt_text_of(&self.activity_button_2_url)));
        f.push(field("activity_party_id", opt_text_of(&self.activity_party_id)));
        f.push(field("activity_party_current", opt_text_of(&self.activity_party_current)));
        f.push(field("activity_party_max", opt_text_of(&self.activity_party_max)));
        let ghost a = *self;
        assert(fields_view(f@) =~= seq![
            ("activity"@, opt_text(opt_view(a.activity))),
            ("activity_type"@, opt_text(opt_view(a.activity_type))),
            ("activity_platform"@, opt_text(opt_view(a.activity_platform))),
            ("activity_timestamp"@, opt_text(opt_view(a.activity_timestamp))),
            ("activity_application_id"@, opt_text(opt_view(a.activity_application_id))),
            ("activity_details"@, opt_text(opt_view(a.activity_details))),
            ("activity_url"@, opt_text(opt_view(a.activity_url))),
            ("activity_large_image"@, opt_text(opt_view(a.activity_large_image))),
            ("activity_large_image_text"@, opt_text(opt_view(a.activity_large_image_text))),
            ("activity_small_image"@, opt_text(opt_view(a.activity_small_image))),
            ("activity_small_image_text"@, opt_text(opt_view(a.activity_small_image_text))),
            ("activity_button"@, opt_text(opt_view(a.activity_button))),
            ("activity_button_url"@, opt_text(opt_view(a.activity_button_url))),
            ("activity_button_2"@, opt_text(opt_view(a.activity_button_2))),
            ("activity_button_2_url"@, opt_text(opt_view(a.activity_button_2_url))),
            ("activity_party_id"@, opt_text(opt_view(a.activity_party_id))),
            ("activity_party_current"@, opt_text(opt_view(a.activity_party_current))),
            ("activity_party_max"@, opt_text(opt_view(a.activity_party_max))),
        ]);
        record_text_of("ActivityCliArgs", &f)
    }
}

pub fn command_text_of(c: &Option<Command>) -> (r: String)
    ensures
        r@ == command_text(*c),
{
    match c {
        Some(Command::Health { health_socket, config }) => {
            let mut f: Vec<(String, String)> = Vec::new();
            f.push(field("health_socket", opt_text_of(health_socket)));
            f.push(field("config", quote(config.as_str())));
            assert(fields_view(f@) =~= seq![("health_socket"@, opt_text(opt_view(*health_socket))), ("config"@, quoted(config@))]);
            String::from_str("Some(").concat(record_text_of("Health", &f).as_str()).concat(")")
        },
        None => String::from_str("None"),
    }
}

impl Cli {
    /// A debug rendering of every flag, with the token shown as
    /// `<redacted>`.
    pub fn debug_text(&self) -> (r: String)
        ensures
            r@ == cli_text(*self),
    {
        let mut f: Vec<(String, String)> = Vec::new();
        f.push(field("config", quote(self.config.as_str())));
        f.push(field("log_level", opt_text_of(&self.log_level)));
        f.push(field("health_socket", opt_text_of(&self.health_socket)));
        f.push(field("account", self.account.debug_text()));
        f.push(field("custom_status", self.custom_status.debug_text()));
        f.push(field("activity", self.activity.debug_text()));
        f.push(field("account_set", list_text_of(&self.account_set)));
        f.push(field("set", list_text_of(&self.set)));
        f.push(field("command", command_text_of(&self.command)));
        let ghost c = *self;
        assert(fields_view(f@) =~= seq![
            ("config"@, quoted(c.config@)),
            ("log_level"@, opt_text(opt_view(c.log_level))),
            ("health_socket"@, opt_text(opt_view(c.health_socket))),
            ("account"@, account_args_text(c.account)),
            ("custom_status"@, custom_args_text(c.custom_status)),
            ("activity"@, activity_args_text(c.activity)),
            ("account_set"@, list_text(c.account_set@.map_values(|s: String| s@))),
            ("set"@, list_text(c.set@.map_values(|s: String| s@))),
            ("command"@, command_text(c.command)),
        ]);
        record_text_of("Cli", &f)
    }
}

/// A command line renders the same whatever text its token holds.
pub proof fn lemma_cli_text_hides_token(a: Cli, b: Cli)
    requires
        a.account.token is Some <==> b.account.token is Some,
        (AccountScalarCliArgs { token: None, ..a.account }) == (AccountScalarCliArgs { token: None, ..b.account }),
        (Cli { account: b.account, ..a }) == b,
    ensures
        cli_text(a) == cli_text(b),
{
    assert(account_args_text(a.account) == account_args_text(b.account));
}

proof fn lemma_group_shape(c: ConfigV, args: Leaves, paths: Seq<PathV>, n: int)
    requires
        layer_shape(c),
    ensures
        layer_shape(apply_group_v(c, args, paths, n)),
    decreases n,
{
    if n > 0 {
        lemma_group_shape(c, args, paths, n - 1);
        let prev = apply_group_v(c, args, paths, n - 1);
        if let Some(v) = trim_opt(args[n - 1]) {
            lemma_apply_v_reads_back(prev, paths[n - 1], v);
        }
    }
}

proof fn lemma_flat_flags_shape(cli: Cli)
    ensures
        layer_shape(flat_flags_v(cli)),
{
    let e = empty_config();
    assert(layer_shape(e)) by {
        assert(forall|i: int| 0 <= i < 4 ==> (#[trigger] e.defaults[i]).len() == 4);
    }
    let c1 = match trim_opt(opt_view(cli.log_level)) {
        Some(v) => apply_v(e, PathV::LogLevel, v),
        None => e,
    };
    if let Some(v) = trim_opt(opt_view(cli.log_level)) {
        lemma_apply_v_reads_back(e, PathV::LogLevel, v);
    }
    let c2 = match opt_view(cli.health_socket) {
        Some(v) => apply_v(c1, PathV::HealthSocket, v),
        None => c1,
    };
    if let Some(v) = opt_view(cli.health_socket) {
        lemma_apply_v_reads_back(c1, PathV::HealthSocket, v);
    }
    lemma_group_shape(c2, cli.account@, scalar_paths(), 5);
    let c3 = apply_group_v(c2, cli.account@, scalar_paths(), 5);
    lemma_group_shape(c3, cli.custom_status@, custom_paths(), 2);
    let c4 = apply_group_v(c3, cli.custom_status@, custom_paths(), 2);
    lemma_group_shape(c4, cli.activity@, activity_paths(), 18);
}

/// The path and value an override names.
pub open spec fn override_result(spec: Seq<char>, account: bool) -> Result<(PathV, Seq<char>), ErrV> {
    if account {
        account_set_result(spec)
    } else {
        set_spec_result(spec)
    }
}

proof fn lemma_specs_shape(c: ConfigV, specs: Seq<Seq<char>>, account: bool)
    requires
        layer_shape(c),
    ensures
        apply_specs_v(c, specs, account) matches Ok(r) ==> layer_shape(r),
    decreases specs.len(),
{
    if specs.len() > 0 {
        lemma_specs_shape(c, specs.drop_last(), account);
        if let Ok(prev) = apply_specs_v(c, specs.drop_last(), account) {
            if let Ok((p, v)) = override_result(specs.last(), account) {
                lemma_apply_v_reads_back(prev, p, v);
            }
        }
    }
}

/// Overrides apply in order and the last wins: when applying them
/// succeeds, the leaf the last one names holds the value it gives.
pub proof fn lemma_last_override_wins(c: ConfigV, specs: Seq<Seq<char>>, account: bool)
    requires
        layer_shape(c),
        specs.len() > 0,
        apply_specs_v(c, specs, account) is Ok,
    ensures
        override_result(specs.last(), account) is Ok,
        leaf_v(apply_specs_v(c, specs, account)->Ok_0, override_result(specs.last(), account)->Ok_0.0) == Some(
            override_result(specs.last(), account)->Ok_0.1,
        ),
{
    lemma_specs_shape(c, specs.drop_last(), account);
    let prev = apply_specs_v(c, specs.drop_last(), account)->Ok_0;
    let (p, v) = override_result(specs.last(), account)->Ok_0;
    lemma_apply_v_reads_back(prev, p, v);
}

/// On the command line, `--set` comes last: when the layer builds, the leaf
/// that the last `--set` names holds its value, over `--account-set` and
/// the flat flags.
pub proof fn lemma_cli_last_set_wins(cli: Cli)
    requires
        cli_layer(cli) is Ok,
        cli.set@.len() > 0,
    ensures
        set_spec_result(cli.set@.last()@) is Ok,
        leaf_v(cli_layer(cli)->Ok_0, set_spec_result(cli.set@.last()@)->Ok_0.0) == Some(
            set_spec_result(cli.set@.last()@)->Ok_0.1,
        ),
{
    lemma_flat_flags_shape(cli);
    let flat = flat_flags_v(cli);
    lemma_specs_shape(flat, strings_view(cli.account_set@), true);
    let mid = apply_specs_v(flat, strings_view(cli.account_set@), true)->Ok_0;
    let sets = strings_view(cli.set@);
    assert(sets.last() == cli.set@.last()@);
    lemma_last_override_wins(mid, sets, false);
}

} // verus!
