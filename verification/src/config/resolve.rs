//! Resolving a merged layer: trimmed values are parsed into account
//! settings, with the first invalid value as the error.

use crate::config::error::ConfigError;
use crate::config::id::{flat_id, singular_id, ACCOUNT_FLAT, ACTIVITY_SINGULAR};
use crate::config::keyed::{sorted_keys, KeyedMap};
use crate::config::merge::account_set_v;
use crate::config::defaults::{builtin_bot, builtin_desktop, builtin_mobile, builtin_web, defaults_views, product_defaults, props_view};
use crate::config::fields::{with_override, ClientPropField, DefaultsProfile};
use crate::gateway::properties::{ClientProperties, Defaults};
use crate::config::partial::{
    config_view, ConfigV, PartialClientProperties, PartialConfig, PartialDefaults,
    accounts_view, any_account_field_set,
    account_view, PartialAccount,
    activities_view, strings_view, AccountV,
    AccountScalars, Leaves, PartialActivity, PartialCustomStatus, custom_view,
};
use crate::config::token::SecretString;
use crate::config::util::trim_owned;
use crate::presence::activity::{ActivityButton, ActivityConfig, ActivityParty, CustomStatusConfig, ImageAsset};
use crate::presence::kinds::{AccountKind, ActivityPlatform, ActivityType, Device, Status};
use crate::text::{str_eq, nat_decimal, opt_view, parse_i64, parse_i64_spec, trim_opt, u64_to_string};
use vstd::prelude::*;
use vstd::string::*;

verus! {

/// A resolution error, with its texts.
pub enum ErrR {
    NoAccounts,
    MissingToken(Seq<char>),
    Invalid(Seq<char>, Seq<char>),
}

pub open spec fn err_r(e: ConfigError) -> Option<ErrR> {
    match e {
        ConfigError::NoAccounts => Some(ErrR::NoAccounts),
        ConfigError::MissingToken(n) => Some(ErrR::MissingToken(n@)),
        ConfigError::Invalid(a, m) => Some(ErrR::Invalid(a@, m@)),
        _ => None,
    }
}

/// `invalid <field> '<value>'`.
pub open spec fn invalid_msg(field: Seq<char>, v: Seq<char>) -> Seq<char> {
    "invalid "@ + field + " '"@ + v + "'"@
}

/// The value, or `d` when there is none.
pub open spec fn or_default(v: Option<Seq<char>>, d: Seq<char>) -> Seq<char> {
    match v {
        Some(x) => x,
        None => d,
    }
}

/// A trimmed value that is present and fails to parse.
pub open spec fn bad_i64(v: Option<Seq<char>>) -> bool {
    v is Some && parse_i64_spec(v.unwrap()) is None
}

pub open spec fn type_of(raw: Leaves) -> Option<ActivityType> {
    match trim_opt(raw[1]) {
        Some(t) => ActivityType::parse_spec(t),
        None => None,
    }
}

pub open spec fn platform_of(raw: Leaves) -> Option<ActivityPlatform> {
    match trim_opt(raw[2]) {
        Some(p) => ActivityPlatform::parse_spec(p),
        None => None,
    }
}

/// Why an activity is invalid, if it is.
pub open spec fn activity_error(raw: Leaves) -> Option<Seq<char>> {
    let ty = trim_opt(raw[1]);
    let platform = trim_opt(raw[2]);
    if ty is Some && ActivityType::parse_spec(ty.unwrap()) is None {
        Some(invalid_msg("activity type"@, ty.unwrap()))
    } else if ty is Some && ActivityType::parse_spec(ty.unwrap()) == Some(ActivityType::Custom) {
        Some("activity type 'custom' is not valid here; use [custom_status]"@)
    } else if platform is Some && ActivityPlatform::parse_spec(platform.unwrap()) is None {
        Some(invalid_msg("activity platform"@, platform.unwrap()))
    } else if bad_i64(trim_opt(raw[3])) {
        Some(invalid_msg("activity timestamp"@, trim_opt(raw[3]).unwrap()))
    } else if bad_i64(trim_opt(raw[16])) {
        Some(invalid_msg("party_current"@, trim_opt(raw[16]).unwrap()))
    } else if bad_i64(trim_opt(raw[17])) {
        Some(invalid_msg("party_max"@, trim_opt(raw[17]).unwrap()))
    } else if type_of(raw) == Some(ActivityType::Streaming) && trim_opt(raw[6]) is None {
        Some("streaming activity requires a url"@)
    } else {
        None
    }
}

/// `a` is the activity resolved from `raw`, its ids defaulting to `default_id`.
pub open spec fn activity_ok(raw: Leaves, default_id: Seq<char>, a: ActivityConfig) -> bool {
    &&& opt_view(a.name) == trim_opt(raw[0])
    &&& a.activity_type == type_of(raw)
    &&& a.platform == platform_of(raw)
    &&& opt_view(a.timestamp) == trim_opt(raw[3])
    &&& a.application_id@ == or_default(trim_opt(raw[4]), default_id)
    &&& opt_view(a.details) == trim_opt(raw[5])
    &&& opt_view(a.url) == trim_opt(raw[6])
    &&& opt_view(a.large_image.image) == trim_opt(raw[7])
    &&& opt_view(a.large_image.text) == trim_opt(raw[8])
    &&& opt_view(a.small_image.image) == trim_opt(raw[9])
    &&& opt_view(a.small_image.text) == trim_opt(raw[10])
    &&& opt_view(a.button.name) == trim_opt(raw[11])
    &&& opt_view(a.button.url) == trim_opt(raw[12])
    &&& opt_view(a.button2.name) == trim_opt(raw[13])
    &&& opt_view(a.button2.url) == trim_opt(raw[14])
    &&& a.party.id@ == or_default(trim_opt(raw[15]), default_id)
    &&& opt_view(a.party.current) == trim_opt(raw[16])
    &&& opt_view(a.party.max) == trim_opt(raw[17])
}

fn invalid_field(account: &str, field: &str, v: &str) -> (e: ConfigError)
    ensures
        err_r(e) == Some(ErrR::Invalid(account@, invalid_msg(field@, v@))),
{
    ConfigError::Invalid(
        String::from_str(account),
        String::from_str("invalid ").concat(field).concat(" '").concat(v).concat("'"),
    )
}

fn parse_i64_field(account: &str, field: &str, raw: Option<String>) -> (r: Result<Option<String>, ConfigError>)
    ensures
        match r {
            Ok(v) => !bad_i64(trim_opt(opt_view(raw))) && opt_view(v) == trim_opt(opt_view(raw)),
            Err(e) => bad_i64(trim_opt(opt_view(raw))) && err_r(e) == Some(
                ErrR::Invalid(account@, invalid_msg(field@, trim_opt(opt_view(raw)).unwrap())),
            ),
        },
{
    match trim_owned(raw) {
        None => Ok(None),
        Some(v) => match parse_i64(v.as_str()) {
            Some(_) => Ok(Some(v)),
            None => Err(invalid_field(account, field, v.as_str())),
        },
    }
}

/// One activity, its ids defaulting to `default_id`.
pub fn parse_activity(account: &str, raw: PartialActivity, default_id: &str) -> (r: Result<ActivityConfig, ConfigError>)
    ensures
        match r {
            Ok(a) => activity_error(raw@) is None && activity_ok(raw@, default_id@, a),
            Err(e) => activity_error(raw@) is Some && err_r(e) == Some(ErrR::Invalid(account@, activity_error(raw@).unwrap())),
        },
{
    let ghost rv = raw@;
    let PartialActivity {
        name,
        activity_type,
        platform,
        timestamp,
        application_id,
        details,
        url,
        large_image,
        large_image_text,
        small_image,
        small_image_text,
        button,
        button_url,
        button2,
        button2_url,
        party_id,
        party_current,
        party_max,
    } = raw;
    let ty = trim_owned(activity_type);
    let parsed_type = match &ty {
        Some(t) => match ActivityType::parse(t.as_str()) {
            Some(ActivityType::Custom) => {
                return Err(
                    ConfigError::Invalid(
                        String::from_str(account),
                        String::from_str("activity type 'custom' is not valid here; use [custom_status]"),
                    ),
                );
            },
            Some(p) => Some(p),
            None => {
                return Err(invalid_field(account, "activity type", t.as_str()));
            },
        },
        None => None,
    };
    let plat = trim_owned(platform);
    let parsed_platform = match &plat {
        Some(p) => match ActivityPlatform::parse(p.as_str()) {
            Some(x) => Some(x),
            None => {
                return Err(invalid_field(account, "activity platform", p.as_str()));
            },
        },
        None => None,
    };
    let timestamp = match parse_i64_field(account, "activity timestamp", timestamp) {
        Ok(t) => t,
        Err(e) => {
            return Err(e);
        },
    };
    let current = match parse_i64_field(account, "party_current", party_current) {
        Ok(t) => t,
        Err(e) => {
            return Err(e);
        },
    };
    let max = match parse_i64_field(account, "party_max", party_max) {
        Ok(t) => t,
        Err(e) => {
            return Err(e);
        },
    };
    let url = trim_owned(url);
    let streaming = match parsed_type {
        Some(ActivityType::Streaming) => true,
        _ => false,
    };
    if streaming && url.is_none() {
        return Err(ConfigError::Invalid(String::from_str(account), String::from_str("streaming activity requires a url")));
    }
    let application_id = match trim_owned(application_id) {
        Some(v) => v,
        None => String::from_str(default_id),
    };
    let party_id = match trim_owned(party_id) {
        Some(v) => v,
        None => String::from_str(default_id),
    };
    Ok(
        ActivityConfig {
            name: trim_owned(name),
            activity_type: parsed_type,
            platform: parsed_platform,
            timestamp,
            application_id,
            details: trim_owned(details),
            url,
            large_image: ImageAsset { image: trim_owned(large_image), text: trim_owned(large_image_text) },
            small_image: ImageAsset { image: trim_owned(small_image), text: trim_owned(small_image_text) },
            button: ActivityButton { name: trim_owned(button), url: trim_owned(button_url) },
            button2: ActivityButton { name: trim_owned(button2), url: trim_owned(button2_url) },
            party: ActivityParty { id: party_id, current, max },
        },
    )
}

/// The settings of one account.
pub struct AccountConfig {
    pub name: String,
    pub token: SecretString,
    pub kind: AccountKind,
    pub device: Option<Device>,
    pub status: Option<Status>,
    pub custom_status: Option<CustomStatusConfig>,
    pub activities: Vec<ActivityConfig>,
}

pub fn parse_custom_status(raw: PartialCustomStatus) -> (r: CustomStatusConfig)
    ensures
        opt_view(r.text) == trim_opt(raw@[0]),
        opt_view(r.emoji) == trim_opt(raw@[1]),
{
    CustomStatusConfig { text: trim_owned(raw.text), emoji: trim_owned(raw.emoji) }
}

/// The first invalid activity's reason.
pub open spec fn acts_error(acts: Seq<Leaves>) -> Option<Seq<char>>
    decreases acts.len(),
{
    if acts.len() == 0 {
        None
    } else {
        match acts_error(acts.drop_last()) {
            Some(m) => Some(m),
            None => activity_error(acts.last()),
        }
    }
}

/// `out` are the activities resolved from `acts`, the `j`th with default id `j + 1`.
pub open spec fn acts_ok(acts: Seq<Leaves>, out: Seq<ActivityConfig>) -> bool {
    out.len() == acts.len() && forall|j: int| 0 <= j < acts.len() ==> activity_ok(#[trigger] acts[j], nat_decimal((j + 1) as nat), out[j])
}

pub open spec fn leaves_of(v: Seq<PartialActivity>) -> Seq<Leaves> {
    v.map_values(|a: PartialActivity| a@)
}

/// Resolves configured activities in order; missing application and party
/// ids become `"1"`, `"2"`, … by position.
pub fn resolve_activity_list(account: &str, raw: Vec<PartialActivity>) -> (r: Result<Vec<ActivityConfig>, ConfigError>)
    ensures
        match r {
            Ok(out) => acts_error(leaves_of(raw@)) is None && acts_ok(leaves_of(raw@), out@),
            Err(e) => acts_error(leaves_of(raw@)) is Some && err_r(e) == Some(ErrR::Invalid(account@, acts_error(leaves_of(raw@)).unwrap())),
        },
{
    let ghost acts = leaves_of(raw@);
    let n = raw.len();
    let mut rev: Vec<PartialActivity> = Vec::new();
    let mut rest = raw;
    while rest.len() > 0
        invariant
            rest@.len() + rev@.len() == n,
            n == acts.len(),
            forall|k: int| 0 <= k < rest@.len() ==> #[trigger] rest@[k]@ == acts[k],
            forall|k: int| 0 <= k < rev@.len() ==> #[trigger] rev@[k]@ == acts[n - 1 - k],
        decreases rest@.len(),
    {
        let x = rest.pop().unwrap();
        rev.push(x);
    }
    let mut out: Vec<ActivityConfig> = Vec::new();
    let mut i: usize = 0;
    assert(acts.subrange(0, 0) =~= Seq::<Leaves>::empty());
    while i < n
        invariant
            i <= n,
            n == acts.len(),
            acts == leaves_of(raw@),
            rev@.len() == n - i,
            forall|k: int| 0 <= k < rev@.len() ==> #[trigger] rev@[k]@ == acts[n - 1 - k],
            acts_error(acts.subrange(0, i as int)) is None,
            acts_ok(acts.subrange(0, i as int), out@),
        decreases n - i,
    {
        let x = rev.pop().unwrap();
        assert(x@ == acts[i as int]);
        let id_num: usize = i + 1;
        let default_id = u64_to_string(id_num as u64);
        let ghost pre = acts.subrange(0, i as int);
        assert(acts.subrange(0, i + 1).drop_last() =~= pre);
        match parse_activity(account, x, default_id.as_str()) {
            Ok(a) => {
                out.push(a);
            },
            Err(e) => {
                proof {
                    lemma_acts_error_sticks(acts, i as int + 1);
                }
                return Err(e);
            },
        }
        i = i + 1;
        assert forall|j: int| 0 <= j < i implies activity_ok(#[trigger] acts.subrange(0, i as int)[j], nat_decimal((j + 1) as nat), out@[j]) by {
            if j < i - 1 {
                assert(acts.subrange(0, i as int)[j] == pre[j]);
            }
        }
    }
    assert(acts.subrange(0, n as int) =~= acts);
    Ok(out)
}

proof fn lemma_acts_error_sticks(acts: Seq<Leaves>, k: int)
    requires
        0 < k <= acts.len(),
        acts_error(acts.subrange(0, k)) is Some,
    ensures
        acts_error(acts) == acts_error(acts.subrange(0, k)),
    decreases acts.len() - k,
{
    if k < acts.len() {
        assert(acts.subrange(0, k + 1).drop_last() =~= acts.subrange(0, k));
        lemma_acts_error_sticks(acts, k + 1);
    } else {
        assert(acts.subrange(0, k) =~= acts);
    }
}

pub open spec fn default_name(i: int) -> Seq<char> {
    "account-"@ + nat_decimal(i as nat)
}

/// An account's name: its trimmed name, else `account-<index>`.
pub open spec fn account_name(i: int, s: Leaves) -> Seq<char> {
    or_default(trim_opt(s[1]), default_name(i))
}

pub open spec fn kind_of(s: Leaves) -> Option<AccountKind> {
    match trim_opt(s[2]) {
        Some(v) => AccountKind::parse_spec(v),
        None => Some(AccountKind::User),
    }
}

pub open spec fn device_of(s: Leaves) -> Option<Option<Device>> {
    match trim_opt(s[3]) {
        Some(v) => match Device::parse_spec(v) {
            Some(d) => Some(Some(d)),
            None => None,
        },
        None => Some(None),
    }
}

pub open spec fn status_of(s: Leaves) -> Option<Option<Status>> {
    match trim_opt(s[4]) {
        Some(v) => match Status::parse_spec(v) {
            Some(d) => Some(Some(d)),
            None => None,
        },
        None => Some(None),
    }
}

/// Why an account does not resolve, if it does not. `s` are its scalars
/// (token, name, kind, device, status), `acts` its configured activities.
pub open spec fn account_error(i: int, s: Leaves, acts: Seq<Leaves>) -> Option<ErrR> {
    let name = account_name(i, s);
    if trim_opt(s[0]) is None {
        Some(ErrR::MissingToken(name))
    } else if kind_of(s) is None {
        Some(ErrR::Invalid(name, invalid_msg("kind"@, trim_opt(s[2]).unwrap())))
    } else if kind_of(s) != Some(AccountKind::Bot) && device_of(s) is None {
        Some(ErrR::Invalid(name, invalid_msg("device"@, trim_opt(s[3]).unwrap())))
    } else if status_of(s) is None {
        Some(ErrR::Invalid(name, invalid_msg("status"@, trim_opt(s[4]).unwrap())))
    } else {
        match acts_error(acts) {
            Some(m) => Some(ErrR::Invalid(name, m)),
            None => None,
        }
    }
}

/// The custom status kept: a user account's, when its text is set.
pub open spec fn custom_ok(custom: Option<Leaves>, kind: AccountKind, c: Option<CustomStatusConfig>) -> bool {
    match custom {
        Some(cs) => if trim_opt(cs[0]) is Some && kind == AccountKind::User {
            c matches Some(x) && opt_view(x.text) == trim_opt(cs[0]) && opt_view(x.emoji) == trim_opt(cs[1])
        } else {
            c is None
        },
        None => c is None,
    }
}

/// `cfg` is the account resolved from its parts.
pub open spec fn account_ok(i: int, s: Leaves, custom: Option<Leaves>, acts: Seq<Leaves>, cfg: AccountConfig) -> bool {
    &&& cfg.name@ == account_name(i, s)
    &&& cfg.token@ == trim_opt(s[0]).unwrap()
    &&& Some(cfg.kind) == kind_of(s)
    &&& cfg.device == (if cfg.kind == AccountKind::Bot {
        None
    } else {
        device_of(s).unwrap()
    })
    &&& Some(cfg.status) == status_of(s)
    &&& custom_ok(custom, cfg.kind, cfg.custom_status)
    &&& acts_ok(acts, cfg.activities@)
}

/// Resolves one account from its parts; `index` names an account without a
/// name.
pub fn resolve_account_parts(
    index: usize,
    scalars: AccountScalars,
    custom_status: Option<PartialCustomStatus>,
    activities: Vec<PartialActivity>,
) -> (r: Result<AccountConfig, ConfigError>)
    ensures
        match r {
            Ok(c) => account_error(index as int, scalars@, leaves_of(activities@)) is None && account_ok(
                index as int,
                scalars@,
                custom_view(custom_status),
                leaves_of(activities@),
                c,
            ),
            Err(e) => err_r(e) is Some && account_error(index as int, scalars@, leaves_of(activities@)) == err_r(e),
        },
{
    let ghost sv = scalars@;
    let AccountScalars { name, token, kind, device, status } = scalars;
    let name = match trim_owned(name) {
        Some(n) => n,
        None => String::from_str("account-").concat(u64_to_string(index as u64).as_str()),
    };
    let token = match token {
        Some(t) => trim_owned(Some(t.into_inner())),
        None => None,
    };
    let token = match token {
        Some(t) => SecretString::new(t),
        None => {
            return Err(ConfigError::MissingToken(name));
        },
    };
    let kind = match trim_owned(kind) {
        Some(v) => match AccountKind::parse(v.as_str()) {
            Some(k) => k,
            None => {
                return Err(invalid_field(name.as_str(), "kind", v.as_str()));
            },
        },
        None => AccountKind::User,
    };
    let device = match kind {
        AccountKind::Bot => None,
        AccountKind::User => match trim_owned(device) {
            Some(v) => match Device::parse(v.as_str()) {
                Some(d) => Some(d),
                None => {
                    return Err(invalid_field(name.as_str(), "device", v.as_str()));
                },
            },
            None => None,
        },
    };
    let status = match trim_owned(status) {
        Some(v) => match Status::parse(v.as_str()) {
            Some(d) => Some(d),
            None => {
                return Err(invalid_field(name.as_str(), "status", v.as_str()));
            },
        },
        None => None,
    };
    let custom_status = match custom_status {
        Some(cs) => {
            let keep = match kind {
                AccountKind::User => crate::text::trim_owned_str(&cs.text).is_some(),
                AccountKind::Bot => false,
            };
            if keep {
                Some(parse_custom_status(cs))
            } else {
                None
            }
        },
        None => None,
    };
    let activities = match resolve_activity_list(name.as_str(), activities) {
        Ok(a) => a,
        Err(e) => {
            return Err(e);
        },
    };
    Ok(AccountConfig { name, token, kind, device, status, custom_status, activities })
}

/// `acc` extended by each of `ids` that is not `special`, not yet listed
/// and accepted by `ok`.
pub open spec fn pick_ids(acc: Seq<Seq<char>>, ids: Seq<Seq<char>>, special: Seq<char>, ok: spec_fn(Seq<char>) -> bool) -> Seq<Seq<char>>
    decreases ids.len(),
{
    if ids.len() == 0 {
        acc
    } else {
        let prev = pick_ids(acc, ids.drop_last(), special, ok);
        let id = ids.last();
        if id != special && !prev.contains(id) && ok(id) {
            prev.push(id)
        } else {
            prev
        }
    }
}

/// Ids in resolve order: the special id first when it qualifies, then the
/// order's ids, then the remaining keys in ascending order; each once, and
/// only those `ok` accepts.
pub open spec fn ordered_ids_v(
    keys: Seq<Seq<char>>,
    order: Seq<Seq<char>>,
    special: Seq<char>,
    special_ok: bool,
    ok: spec_fn(Seq<char>) -> bool,
) -> Seq<Seq<char>> {
    let start = if keys.contains(special) && special_ok {
        seq![special]
    } else {
        Seq::empty()
    };
    pick_ids(pick_ids(start, order, special, ok), keys, special, ok)
}

pub proof fn lemma_pick_ids(acc: Seq<Seq<char>>, ids: Seq<Seq<char>>, special: Seq<char>, ok: spec_fn(Seq<char>) -> bool)
    ensures
        acc.no_duplicates() ==> pick_ids(acc, ids, special, ok).no_duplicates(),
        forall|x: Seq<char>| #[trigger] pick_ids(acc, ids, special, ok).contains(x) ==> acc.contains(x) || (x != special && ok(x)),
        pick_ids(acc, ids, special, ok).len() >= acc.len(),
        pick_ids(acc, ids, special, ok).subrange(0, acc.len() as int) == acc,
    decreases ids.len(),
{
    if ids.len() == 0 {
        assert(acc.subrange(0, acc.len() as int) =~= acc);
    } else {
        lemma_pick_ids(acc, ids.drop_last(), special, ok);
        let prev = pick_ids(acc, ids.drop_last(), special, ok);
        let r = pick_ids(acc, ids, special, ok);
        let id = ids.last();
        if id != special && !prev.contains(id) && ok(id) {
            assert(r == prev.push(ids.last()));
            assert(r.subrange(0, acc.len() as int) =~= prev.subrange(0, acc.len() as int));
            assert forall|x: Seq<char>| #[trigger] r.contains(x) implies acc.contains(x) || (x != special && ok(x)) by {
                if x != ids.last() {
                    let k = choose|k: int| 0 <= k < r.len() && r[k] == x;
                    assert(k < prev.len());
                    assert(prev[k] == x);
                    assert(prev.contains(x));
                }
            }
        }
    }
}

pub fn contains_str(v: &Vec<String>, s: &str) -> (r: bool)
    ensures
        r == strings_view(v@).contains(s@),
{
    let mut i: usize = 0;
    while i < v.len()
        invariant
            i <= v@.len(),
            forall|j: int| 0 <= j < i ==> (#[trigger] v@[j])@ != s@,
        decreases v@.len() - i,
    {
        if str_eq(v[i].as_str(), s) {
            assert(strings_view(v@)[i as int] == s@);
            return true;
        }
        i = i + 1;
    }
    assert(!strings_view(v@).contains(s@)) by {
        if strings_view(v@).contains(s@) {
            let j = choose|j: int| 0 <= j < v@.len() && strings_view(v@)[j] == s@;
            assert(v@[j]@ == s@);
        }
    }
    false
}

/// An activity is configured when its trimmed name is not empty.
pub open spec fn activity_configured_in(m: Map<Seq<char>, Leaves>) -> spec_fn(Seq<char>) -> bool {
    |k: Seq<char>| m.dom().contains(k) && trim_opt(m[k][0]) is Some
}

/// The ids of an account's activities in resolve order.
pub open spec fn activity_ids(a: AccountV) -> Seq<Seq<char>> {
    ordered_ids_v(
        sorted_keys(a.activities.dom()),
        a.order,
        singular_id(),
        trim_opt(a.activities[singular_id()][0]) is Some,
        activity_configured_in(a.activities),
    )
}

/// An account's configured activities in resolve order.
pub open spec fn activity_list(a: AccountV) -> Seq<Leaves> {
    activity_ids(a).map_values(|k: Seq<char>| a.activities[k])
}

pub fn activity_configured(a: &PartialActivity) -> (r: bool)
    ensures
        r == (trim_opt(a@[0]) is Some),
{
    crate::text::trim_owned_str(&a.name).is_some()
}

fn ordered_activity_ids(items: &KeyedMap<PartialActivity>, order: &Vec<String>) -> (r: Vec<String>)
    ensures
        strings_view(r@) == ordered_ids_v(
            items.keys_view(),
            strings_view(order@),
            singular_id(),
            trim_opt(activities_view(items@)[singular_id()][0]) is Some,
            activity_configured_in(activities_view(items@)),
        ),
{
    let ghost m = activities_view(items@);
    let ghost ok = activity_configured_in(m);
    let ghost special_ok = trim_opt(m[singular_id()][0]) is Some;
    let ghost keys = items.keys_view();
    let ghost ov = strings_view(order@);
    let mut ordered: Vec<String> = Vec::new();
    match items.get(ACTIVITY_SINGULAR) {
        Some(a) => {
            if activity_configured(a) {
                ordered.push(String::from_str(ACTIVITY_SINGULAR));
            }
        },
        None => {},
    }
    let ghost start = strings_view(ordered@);
    assert(start =~= (if keys.contains(singular_id()) && special_ok { seq![singular_id()] } else { Seq::<Seq<char>>::empty() }));
    let mut i: usize = 0;
    assert(ov.subrange(0, 0) =~= Seq::<Seq<char>>::empty());
    while i < order.len()
        invariant
            i <= order@.len(),
            ov == strings_view(order@),
            m == activities_view(items@),
            ok == activity_configured_in(m),
            strings_view(ordered@) == pick_ids(start, ov.subrange(0, i as int), singular_id(), ok),
        decreases order@.len() - i,
    {
        proof {
            assert(ov.subrange(0, i + 1).drop_last() =~= ov.subrange(0, i as int));
            assert(ov.subrange(0, i + 1).last() == order@[i as int]@);
        }
        let id = order[i].as_str();
        if !str_eq(id, ACTIVITY_SINGULAR) && !contains_str(&ordered, id) {
            match items.get(id) {
                Some(a) => {
                    if activity_configured(a) {
                        ordered.push(String::from_str(id));
                        assert(strings_view(ordered@) =~= strings_view(ordered@.drop_last()).push(id@));
                    }
                },
                None => {},
            }
        }
        i = i + 1;
    }
    assert(ov.subrange(0, ov.len() as int) =~= ov);
    let ghost mid = strings_view(ordered@);
    let ks = items.keys();
    let ghost kv = strings_view(ks@);
    assert(kv =~= keys);
    let mut j: usize = 0;
    assert(kv.subrange(0, 0) =~= Seq::<Seq<char>>::empty());
    while j < ks.len()
        invariant
            j <= ks@.len(),
            kv == strings_view(ks@),
            m == activities_view(items@),
            ok == activity_configured_in(m),
            strings_view(ordered@) == pick_ids(mid, kv.subrange(0, j as int), singular_id(), ok),
        decreases ks@.len() - j,
    {
        proof {
            assert(kv.subrange(0, j + 1).drop_last() =~= kv.subrange(0, j as int));
            assert(kv.subrange(0, j + 1).last() == ks@[j as int]@);
        }
        let id = ks[j].as_str();
        if !str_eq(id, ACTIVITY_SINGULAR) && !contains_str(&ordered, id) {
            match items.get(id) {
                Some(a) => {
                    if activity_configured(a) {
                        ordered.push(String::from_str(id));
                        assert(strings_view(ordered@) =~= strings_view(ordered@.drop_last()).push(id@));
                    }
                },
                None => {},
            }
        }
        j = j + 1;
    }
    assert(kv.subrange(0, kv.len() as int) =~= kv);
    ordered
}

proof fn lemma_ids_in_dom(keys: Seq<Seq<char>>, order: Seq<Seq<char>>, special: Seq<char>, special_ok: bool, ok: spec_fn(Seq<char>) -> bool, dom: Set<Seq<char>>)
    requires
        forall|k: Seq<char>| #[trigger] ok(k) ==> dom.contains(k),
        keys.contains(special) ==> dom.contains(special),
    ensures
        ordered_ids_v(keys, order, special, special_ok, ok).no_duplicates(),
        forall|x: Seq<char>| #[trigger] ordered_ids_v(keys, order, special, special_ok, ok).contains(x) ==> dom.contains(x),
{
    let start = if keys.contains(special) && special_ok {
        seq![special]
    } else {
        Seq::<Seq<char>>::empty()
    };
    lemma_pick_ids(start, order, special, ok);
    let mid = pick_ids(start, order, special, ok);
    lemma_pick_ids(mid, keys, special, ok);
    assert forall|x: Seq<char>| #[trigger] ordered_ids_v(keys, order, special, special_ok, ok).contains(x) implies dom.contains(x) by {
        if mid.contains(x) {
            if start.contains(x) {
                assert(x == special);
            }
        }
    }
}

/// Takes the values of `ids` out of `items`, in order.
fn take_activities(items: KeyedMap<PartialActivity>, ids: &Vec<String>) -> (r: Vec<PartialActivity>)
    requires
        strings_view(ids@).no_duplicates(),
        forall|x: Seq<char>| #[trigger] strings_view(ids@).contains(x) ==> items@.dom().contains(x),
    ensures
        leaves_of(r@) == strings_view(ids@).map_values(|k: Seq<char>| activities_view(items@)[k]),
{
    let ghost m0 = items@;
    let ghost iv = strings_view(ids@);
    let mut items = items;
    let mut out: Vec<PartialActivity> = Vec::new();
    let mut i: usize = 0;
    while i < ids.len()
        invariant
            i <= ids@.len(),
            iv == strings_view(ids@),
            iv.no_duplicates(),
            forall|x: Seq<char>| #[trigger] iv.contains(x) ==> m0.dom().contains(x),
            forall|k: Seq<char>| #[trigger] items@.dom().contains(k) <==> (m0.dom().contains(k) && !iv.subrange(0, i as int).contains(k)),
            forall|k: Seq<char>| #[trigger] items@.dom().contains(k) ==> items@[k] == m0[k],
            out@.len() == i,
            forall|j: int| 0 <= j < i ==> (#[trigger] out@[j])@ == m0[iv[j]]@,
        decreases ids@.len() - i,
    {
        let id = ids[i].as_str();
        proof {
            assert(iv[i as int] == id@);
            assert(iv.contains(id@));
            if iv.subrange(0, i as int).contains(id@) {
                let j = choose|j: int| 0 <= j < i && iv.subrange(0, i as int)[j] == id@;
                assert(iv[j] == iv[i as int]);
            }
            assert(items@.dom().contains(id@));
        }
        match items.remove(id) {
            Some(a) => {
                out.push(a);
            },
            None => {},
        }
        proof {
            let s0 = iv.subrange(0, i as int);
            let s1 = iv.subrange(0, i + 1);
            assert forall|k: Seq<char>| #[trigger] items@.dom().contains(k) <==> (m0.dom().contains(k) && !s1.contains(k)) by {
                if s1.contains(k) && k != id@ {
                    let j = choose|j: int| 0 <= j < s1.len() && s1[j] == k;
                    assert(s0[j] == k);
                }
                if s0.contains(k) {
                    let j = choose|j: int| 0 <= j < s0.len() && s0[j] == k;
                    assert(s1[j] == k);
                }
                if k == id@ {
                    assert(s1[i as int] == k);
                }
            }
        }
        i = i + 1;
    }
    assert forall|j: int| 0 <= j < out@.len() implies leaves_of(out@)[j] == iv.map_values(|k: Seq<char>| activities_view(m0)[k])[j] by {
        assert(iv.contains(iv[j]));
    }
    assert(leaves_of(out@) =~= iv.map_values(|k: Seq<char>| activities_view(m0)[k]));
    out
}

/// Resolves one account of a layer; `index` names it when it has no name.
pub fn resolve_one_account(index: usize, raw: PartialAccount) -> (r: Result<AccountConfig, ConfigError>)
    ensures
        match r {
            Ok(c) => account_error(index as int, raw.scalars@, activity_list(account_view(raw))) is None && account_ok(
                index as int,
                raw.scalars@,
                custom_view(raw.custom_status),
                activity_list(account_view(raw)),
                c,
            ),
            Err(e) => err_r(e) is Some && account_error(index as int, raw.scalars@, activity_list(account_view(raw))) == err_r(e),
        },
{
    let ghost av = account_view(raw);
    let PartialAccount { scalars, custom_status, activities, activity_order } = raw;
    let ids = ordered_activity_ids(&activities, &activity_order);
    let n = activities.len();
    proof {
        let m = activities_view(activities@);
        assert(m.dom() =~= activities@.dom());
        lemma_ids_in_dom(
            activities.keys_view(),
            strings_view(activity_order@),
            singular_id(),
            trim_opt(m[singular_id()][0]) is Some,
            activity_configured_in(m),
            activities@.dom(),
        );
    }
    let list = take_activities(activities, &ids);
    proof {
        assert(activities.keys_view() == sorted_keys(av.activities.dom()));
        assert(leaves_of(list@) =~= activity_list(av));
    }
    resolve_account_parts(index, scalars, custom_status, list)
}

/// An account is configured when it sets anything.
pub open spec fn account_configured_in(m: Map<Seq<char>, AccountV>) -> spec_fn(Seq<char>) -> bool {
    |k: Seq<char>| m.dom().contains(k) && account_set_v(m[k])
}

/// Whether the account has a non-blank token.
pub fn has_token(a: &PartialAccount) -> (r: bool)
    ensures
        r == (trim_opt(a.scalars@[0]) is Some),
{
    match &a.scalars.token {
        Some(t) => crate::text::trim_nonempty_str(t.as_str()).is_some(),
        None => false,
    }
}

fn ordered_account_ids(items: &KeyedMap<PartialAccount>, order: &Vec<String>) -> (r: Vec<String>)
    ensures
        strings_view(r@) == ordered_ids_v(
            items.keys_view(),
            strings_view(order@),
            flat_id(),
            trim_opt(accounts_view(items@)[flat_id()].scalars[0]) is Some,
            account_configured_in(accounts_view(items@)),
        ),
{
    let ghost m = accounts_view(items@);
    let ghost ok = account_configured_in(m);
    let ghost special_ok = trim_opt(m[flat_id()].scalars[0]) is Some;
    let ghost keys = items.keys_view();
    let ghost ov = strings_view(order@);
    let mut ordered: Vec<String> = Vec::new();
    match items.get(ACCOUNT_FLAT) {
        Some(a) => {
            if has_token(a) {
                ordered.push(String::from_str(ACCOUNT_FLAT));
            }
        },
        None => {},
    }
    let ghost start = strings_view(ordered@);
    assert(start =~= (if keys.contains(flat_id()) && special_ok { seq![flat_id()] } else { Seq::<Seq<char>>::empty() }));
    let mut i: usize = 0;
    assert(ov.subrange(0, 0) =~= Seq::<Seq<char>>::empty());
    while i < order.len()
        invariant
            i <= order@.len(),
            ov == strings_view(order@),
            m == accounts_view(items@),
            ok == account_configured_in(m),
            strings_view(ordered@) == pick_ids(start, ov.subrange(0, i as int), flat_id(), ok),
        decreases order@.len() - i,
    {
        proof {
            assert(ov.subrange(0, i + 1).drop_last() =~= ov.subrange(0, i as int));
            assert(ov.subrange(0, i + 1).last() == order@[i as int]@);
        }
        let id = order[i].as_str();
        if !str_eq(id, ACCOUNT_FLAT) && !contains_str(&ordered, id) {
            match items.get(id) {
                Some(a) => {
                    proof {
                        crate::config::merge::lemma_account_set_view(*a);
                    }
                    if any_account_field_set(a) {
                        ordered.push(String::from_str(id));
                        assert(strings_view(ordered@) =~= strings_view(ordered@.drop_last()).push(id@));
                    }
                },
                None => {},
            }
        }
        i = i + 1;
    }
    assert(ov.subrange(0, ov.len() as int) =~= ov);
    let ghost mid = strings_view(ordered@);
    let ks = items.keys();
    let ghost kv = strings_view(ks@);
    assert(kv =~= keys);
    let mut j: usize = 0;
    assert(kv.subrange(0, 0) =~= Seq::<Seq<char>>::empty());
    while j < ks.len()
        invariant
            j <= ks@.len(),
            kv == strings_view(ks@),
            m == accounts_view(items@),
            ok == account_configured_in(m),
            strings_view(ordered@) == pick_ids(mid, kv.subrange(0, j as int), flat_id(), ok),
        decreases ks@.len() - j,
    {
        proof {
            assert(kv.subrange(0, j + 1).drop_last() =~= kv.subrange(0, j as int));
            assert(kv.subrange(0, j + 1).last() == ks@[j as int]@);
        }
        let id = ks[j].as_str();
        if !str_eq(id, ACCOUNT_FLAT) && !contains_str(&ordered, id) {
            match items.get(id) {
                Some(a) => {
                    proof {
                        crate::config::merge::lemma_account_set_view(*a);
                    }
                    if any_account_field_set(a) {
                        ordered.push(String::from_str(id));
                        assert(strings_view(ordered@) =~= strings_view(ordered@.drop_last()).push(id@));
                    }
                },
                None => {},
            }
        }
        j = j + 1;
    }
    assert(kv.subrange(0, kv.len() as int) =~= kv);
    ordered
}

/// The ids of a layer's accounts in resolve order: the flat account first
/// when it has a token, then the account order, then the remaining ids in
/// ascending order; only accounts that set something.
pub open spec fn account_ids(m: Map<Seq<char>, AccountV>, order: Seq<Seq<char>>) -> Seq<Seq<char>> {
    ordered_ids_v(
        sorted_keys(m.dom()),
        order,
        flat_id(),
        trim_opt(m[flat_id()].scalars[0]) is Some,
        account_configured_in(m),
    )
}

/// The first account among `ids` that fails to resolve.
pub open spec fn first_account_error(ids: Seq<Seq<char>>, m: Map<Seq<char>, AccountV>) -> Option<ErrR>
    decreases ids.len(),
{
    if ids.len() == 0 {
        None
    } else {
        match first_account_error(ids.drop_last(), m) {
            Some(e) => Some(e),
            None => account_error(ids.len() - 1, m[ids.last()].scalars, activity_list(m[ids.last()])),
        }
    }
}

/// Why a layer's accounts do not resolve, if they do not.
pub open spec fn accounts_error(m: Map<Seq<char>, AccountV>, order: Seq<Seq<char>>) -> Option<ErrR> {
    if account_ids(m, order).len() == 0 {
        Some(ErrR::NoAccounts)
    } else {
        first_account_error(account_ids(m, order), m)
    }
}

/// `out` are the layer's accounts, resolved in order.
pub open spec fn accounts_ok(m: Map<Seq<char>, AccountV>, order: Seq<Seq<char>>, out: Seq<AccountConfig>) -> bool {
    let ids = account_ids(m, order);
    out.len() == ids.len() && forall|j: int|
        0 <= j < ids.len() ==> account_ok(j, m[ids[j]].scalars, m[ids[j]].custom, activity_list(m[ids[j]]), #[trigger] out[j])
}

proof fn lemma_first_error_sticks(ids: Seq<Seq<char>>, m: Map<Seq<char>, AccountV>, k: int)
    requires
        0 < k <= ids.len(),
        first_account_error(ids.subrange(0, k), m) is Some,
    ensures
        first_account_error(ids, m) == first_account_error(ids.subrange(0, k), m),
    decreases ids.len() - k,
{
    if k < ids.len() {
        assert(ids.subrange(0, k + 1).drop_last() =~= ids.subrange(0, k));
        lemma_first_error_sticks(ids, m, k + 1);
    } else {
        assert(ids.subrange(0, k) =~= ids);
    }
}

/// Resolves the accounts of a layer in resolve order.
pub fn resolve_accounts(accounts: KeyedMap<PartialAccount>, account_order: &Vec<String>) -> (r: Result<Vec<AccountConfig>, ConfigError>)
    ensures
        match r {
            Ok(out) => accounts_error(accounts_view(accounts@), strings_view(account_order@)) is None && accounts_ok(
                accounts_view(accounts@),
                strings_view(account_order@),
                out@,
            ),
            Err(e) => err_r(e) is Some && accounts_error(accounts_view(accounts@), strings_view(account_order@)) == err_r(e),
        },
{
    let ghost m = accounts_view(accounts@);
    let ghost ov = strings_view(account_order@);
    let ids = ordered_account_ids(&accounts, account_order);
    let n = accounts.len();
    proof {
        assert(m.dom() =~= accounts@.dom());
        lemma_ids_in_dom(accounts.keys_view(), ov, flat_id(), trim_opt(m[flat_id()].scalars[0]) is Some, account_configured_in(m), accounts@.dom());
        assert(accounts.keys_view() == sorted_keys(m.dom()));
    }
    let ghost iv = strings_view(ids@);
    assert(iv == account_ids(m, ov));
    if ids.len() == 0 {
        return Err(ConfigError::NoAccounts);
    }
    let ghost m0 = accounts@;
    let mut items = accounts;
    let mut out: Vec<AccountConfig> = Vec::new();
    let mut i: usize = 0;
    assert(iv.subrange(0, 0) =~= Seq::<Seq<char>>::empty());
    while i < ids.len()
        invariant
            i <= ids@.len(),
            iv == strings_view(ids@),
            iv == account_ids(m, ov),
            iv.len() > 0,
            m == accounts_view(m0),
            m == accounts_view(accounts@),
            ov == strings_view(account_order@),
            iv.no_duplicates(),
            forall|x: Seq<char>| #[trigger] iv.contains(x) ==> m0.dom().contains(x),
            forall|k: Seq<char>| #[trigger] items@.dom().contains(k) <==> (m0.dom().contains(k) && !iv.subrange(0, i as int).contains(k)),
            forall|k: Seq<char>| #[trigger] items@.dom().contains(k) ==> items@[k] == m0[k],
            out@.len() == i,
            first_account_error(iv.subrange(0, i as int), m) is None,
            forall|j: int|
                0 <= j < i ==> account_ok(j, m[iv[j]].scalars, m[iv[j]].custom, activity_list(m[iv[j]]), #[trigger] out@[j]),
        decreases ids@.len() - i,
    {
        let id = ids[i].as_str();
        let ghost s0 = iv.subrange(0, i as int);
        let ghost s1 = iv.subrange(0, i + 1);
        proof {
            assert(iv[i as int] == id@);
            assert(iv.contains(id@));
            if s0.contains(id@) {
                let j = choose|j: int| 0 <= j < s0.len() && s0[j] == id@;
                assert(iv[j] == iv[i as int]);
            }
            assert(items@.dom().contains(id@));
            assert(s1.drop_last() =~= s0);
        }
        let raw = match items.remove(id) {
            Some(a) => a,
            None => PartialAccount::default(),
        };
        assert(account_view(raw) == m[id@]);
        match resolve_one_account(i, raw) {
            Ok(c) => {
                out.push(c);
            },
            Err(e) => {
                proof {
                    lemma_first_error_sticks(iv, m, i as int + 1);
                }
                return Err(e);
            },
        }
        proof {
            assert forall|k: Seq<char>| #[trigger] items@.dom().contains(k) <==> (m0.dom().contains(k) && !s1.contains(k)) by {
                if s1.contains(k) && k != id@ {
                    let j = choose|j: int| 0 <= j < s1.len() && s1[j] == k;
                    assert(s0[j] == k);
                }
                if s0.contains(k) {
                    let j = choose|j: int| 0 <= j < s0.len() && s0[j] == k;
                    assert(s1[j] == k);
                }
                if k == id@ {
                    assert(s1[i as int] == k);
                }
            }
        }
        i = i + 1;
    }
    assert(iv.subrange(0, iv.len() as int) =~= iv);
    Ok(out)
}

/// Resolved properties after one override, as optional texts.
pub open spec fn override_view(f: ClientPropField, pv: Seq<Option<Seq<char>>>, v: Seq<char>) -> Seq<Option<Seq<char>>> {
    match f {
        ClientPropField::Os => if v.len() == 0 {
            pv
        } else {
            pv.update(0, Some(v))
        },
        ClientPropField::Browser => pv.update(1, if v.len() == 0 { None } else { Some(v) }),
        ClientPropField::Device => pv.update(2, Some(v)),
        ClientPropField::UserAgent => pv.update(3, if v.len() == 0 { None } else { Some(v) }),
    }
}

/// Resolved properties after a profile's overrides (os, browser, device,
/// user agent, in that order).
pub open spec fn overrides_view(pv: Seq<Option<Seq<char>>>, raw: Leaves) -> Seq<Option<Seq<char>>> {
    let p1 = match raw[0] {
        Some(v) => override_view(ClientPropField::Os, pv, v),
        None => pv,
    };
    let p2 = match raw[1] {
        Some(v) => override_view(ClientPropField::Browser, p1, v),
        None => p1,
    };
    let p3 = match raw[2] {
        Some(v) => override_view(ClientPropField::Device, p2, v),
        None => p2,
    };
    match raw[3] {
        Some(v) => override_view(ClientPropField::UserAgent, p3, v),
        None => p3,
    }
}

proof fn lemma_override_view(f: ClientPropField, d: ClientProperties, v: String)
    ensures
        props_view(with_override(f, d, v)) == override_view(f, props_view(d), v@),
{
    assert(props_view(with_override(f, d, v)) =~= override_view(f, props_view(d), v@));
}

/// Lays a profile's set overrides onto resolved client properties.
pub fn apply_client_property_overrides(dst: &mut ClientProperties, src: PartialClientProperties)
    ensures
        props_view(*final(dst)) == overrides_view(props_view(*old(dst)), src@),
{
    let ghost s0 = src@;
    let ghost d0 = props_view(*dst);
    let PartialClientProperties { os, browser, device, user_agent } = src;
    let ghost p0 = props_view(*dst);
    match os {
        Some(v) => {
            proof {
                lemma_override_view(ClientPropField::Os, *dst, v);
            }
            ClientPropField::Os.apply_override(dst, v);
        },
        None => {},
    }
    match browser {
        Some(v) => {
            proof {
                lemma_override_view(ClientPropField::Browser, *dst, v);
            }
            ClientPropField::Browser.apply_override(dst, v);
        },
        None => {},
    }
    match device {
        Some(v) => {
            proof {
                lemma_override_view(ClientPropField::Device, *dst, v);
            }
            ClientPropField::Device.apply_override(dst, v);
        },
        None => {},
    }
    match user_agent {
        Some(v) => {
            proof {
                lemma_override_view(ClientPropField::UserAgent, *dst, v);
            }
            ClientPropField::UserAgent.apply_override(dst, v);
        },
        None => {},
    }
}

/// The built-in properties with each profile's overrides.
pub fn resolve_defaults(raw: PartialDefaults) -> (r: Defaults)
    ensures
        defaults_views(r) == Seq::new(
            4,
            |i: int| overrides_view(seq![builtin_bot(), builtin_web(), builtin_desktop(), builtin_mobile()][i], raw@[i]),
        ),
{
    let ghost rv = raw@;
    let mut defaults = product_defaults();
    let PartialDefaults { bot, web, desktop, mobile } = raw;
    apply_client_property_overrides(DefaultsProfile::Bot.resolved_mut(&mut defaults), bot);
    apply_client_property_overrides(DefaultsProfile::Web.resolved_mut(&mut defaults), web);
    apply_client_property_overrides(DefaultsProfile::Desktop.resolved_mut(&mut defaults), desktop);
    apply_client_property_overrides(DefaultsProfile::Mobile.resolved_mut(&mut defaults), mobile);
    assert(defaults_views(defaults) =~= Seq::new(
        4,
        |i: int| overrides_view(seq![builtin_bot(), builtin_web(), builtin_desktop(), builtin_mobile()][i], rv[i]),
    ));
    defaults
}

/// The settings a layer resolves to.
pub struct AppConfig {
    pub log_level: String,
    pub health_socket: Option<String>,
    pub defaults: Defaults,
    pub accounts: Vec<AccountConfig>,
}

/// The log level used when none is set.
pub const DEFAULT_LOG_LEVEL: &'static str = "info";

/// `app` is what the layer `c` resolves to.
pub open spec fn app_ok(c: ConfigV, app: AppConfig) -> bool {
    &&& app.log_level@ == or_default(trim_opt(c.log_level), "info"@)
    &&& opt_view(app.health_socket) == trim_opt(c.health_socket)
    &&& defaults_views(app.defaults) == Seq::new(
        4,
        |i: int| overrides_view(seq![builtin_bot(), builtin_web(), builtin_desktop(), builtin_mobile()][i], c.defaults[i]),
    )
    &&& accounts_ok(c.accounts, c.order, app.accounts@)
}

/// `r` is what resolving the layer `c` gives.
pub open spec fn resolves_to(c: ConfigV, r: Result<AppConfig, ConfigError>) -> bool {
    match r {
        Ok(app) => accounts_error(c.accounts, c.order) is None && app_ok(c, app),
        Err(e) => err_r(e) is Some && accounts_error(c.accounts, c.order) == err_r(e),
    }
}

/// Resolves a merged layer: the trimmed log level (else `info`), the
/// trimmed health socket (blank disables it), the built-in client
/// properties with their overrides, and the accounts in resolve order.
pub fn resolve_config(partial: PartialConfig) -> (r: Result<AppConfig, ConfigError>)
    ensures
        resolves_to(config_view(partial), r),
{
    let PartialConfig { log_level, health_socket, defaults, accounts, account_order } = partial;
    let log_level = match trim_owned(log_level) {
        Some(l) => l,
        None => String::from_str(DEFAULT_LOG_LEVEL),
    };
    let health_socket = trim_owned(health_socket);
    let defaults = resolve_defaults(defaults);
    let accounts = match resolve_accounts(accounts, &account_order) {
        Ok(a) => a,
        Err(e) => {
            return Err(e);
        },
    };
    Ok(AppConfig { log_level, health_socket, defaults, accounts })
}

} // verus!
