//! Resolving a merged indexed layer: the flat account (when it has a token)
//! and the configured positional accounts, in that order, each with its
//! singular activity before its positional ones.

use crate::config::error::ConfigError;
use crate::config::partial::{custom_view, secret_view, AccountScalars, Leaves, PartialClientProperties, PartialDefaults};
use crate::config::resolve::{
    account_error, account_ok, activity_configured, err_r, or_default, overrides_view,
    resolve_account_parts, AccountConfig, ErrR, DEFAULT_LOG_LEVEL,
};
use crate::config::token::SecretString;
use crate::config::util::trim_owned;
use crate::indexed::partial::{acts_view, AccountW, ConfigW, PartialAccount, PartialActivity, PartialConfig};
use crate::indexed::properties::{builtin4, defaults4_views, props4_view, ClientProperties, Defaults};
use crate::text::{is_empty_str, opt_view, trim_opt};
use vstd::prelude::*;
use vstd::string::*;

verus! {

/// The named activities of `s`, in order.
pub open spec fn named_acts(s: Seq<Leaves>) -> Seq<Leaves>
    decreases s.len(),
{
    if s.len() == 0 {
        s
    } else {
        let prev = named_acts(s.drop_last());
        if named(s.last()) {
            prev.push(s.last())
        } else {
            prev
        }
    }
}

/// The configured accounts of `s`, in order.
pub open spec fn configured_accounts(s: Seq<AccountW>) -> Seq<AccountW>
    decreases s.len(),
{
    if s.len() == 0 {
        s
    } else {
        let prev = configured_accounts(s.drop_last());
        if slot_configured(s.last()) {
            prev.push(s.last())
        } else {
            prev
        }
    }
}

/// The configured accounts of a prefix are a prefix of the configured
/// accounts.
pub proof fn lemma_configured_prefix(s: Seq<AccountW>, k: int)
    requires
        0 <= k <= s.len(),
    ensures
        configured_accounts(s.subrange(0, k)).len() <= configured_accounts(s).len(),
        configured_accounts(s).subrange(0, configured_accounts(s.subrange(0, k)).len() as int)
            == configured_accounts(s.subrange(0, k)),
    decreases s.len() - k,
{
    if k == s.len() {
        assert(s.subrange(0, k) =~= s);
        assert(configured_accounts(s).subrange(0, configured_accounts(s).len() as int) =~= configured_accounts(s));
    } else {
        lemma_configured_prefix(s, k + 1);
        let a = s.subrange(0, k);
        let b = s.subrange(0, k + 1);
        assert(b.drop_last() =~= a);
        let ka = configured_accounts(a);
        let kb = configured_accounts(b);
        assert(kb.subrange(0, ka.len() as int) =~= ka);
        assert(configured_accounts(s).subrange(0, ka.len() as int) =~= kb.subrange(0, ka.len() as int));
    }
}

/// An activity with a non-blank name.
pub open spec fn named(a: Leaves) -> bool {
    trim_opt(a[0]) is Some
}

/// An account's activities in resolve order: the singular activity first,
/// then the positional ones; those without a name are left out.
pub open spec fn act_list_w(a: AccountW) -> Seq<Leaves> {
    let first = match a.activity {
        Some(x) => if named(x) {
            seq![x]
        } else {
            Seq::empty()
        },
        None => Seq::empty(),
    };
    first + named_acts(a.activities)
}

/// A positional account that sets a non-blank scalar, a custom status, a
/// singular activity or a named activity.
pub open spec fn slot_configured(a: AccountW) -> bool {
    ||| trim_opt(a.scalars[0]) is Some
    ||| trim_opt(a.scalars[1]) is Some
    ||| trim_opt(a.scalars[2]) is Some
    ||| trim_opt(a.scalars[3]) is Some
    ||| trim_opt(a.scalars[4]) is Some
    ||| a.custom is Some
    ||| a.activity is Some
    ||| exists|j: int| 0 <= j < a.activities.len() && named(#[trigger] a.activities[j])
}

/// The accounts to resolve: the flat account when its token is not blank,
/// then the configured positional accounts.
pub open spec fn raw_accounts_w(c: ConfigW) -> Seq<AccountW> {
    let flat = if trim_opt(c.account.scalars[0]) is Some {
        seq![c.account]
    } else {
        Seq::empty()
    };
    flat + configured_accounts(c.accounts)
}

/// The first account's error, the `i`th named `account-<i>` when unnamed.
pub open spec fn accounts_error_w(raws: Seq<AccountW>) -> Option<ErrR>
    decreases raws.len(),
{
    if raws.len() == 0 {
        None
    } else {
        match accounts_error_w(raws.drop_last()) {
            Some(e) => Some(e),
            None => account_error(raws.len() - 1, raws.last().scalars, act_list_w(raws.last())),
        }
    }
}

/// Why a layer does not resolve, if it does not.
pub open spec fn resolve_error_w(c: ConfigW) -> Option<ErrR> {
    if raw_accounts_w(c).len() == 0 {
        Some(ErrR::NoAccounts)
    } else {
        accounts_error_w(raw_accounts_w(c))
    }
}

/// `out` are the accounts resolved from `raws`, in order.
pub open spec fn accounts_ok_w(raws: Seq<AccountW>, out: Seq<AccountConfig>) -> bool {
    out.len() == raws.len() && forall|i: int|
        0 <= i < raws.len() ==> account_ok(i, #[trigger] raws[i].scalars, raws[i].custom, act_list_w(raws[i]), out[i])
}

proof fn lemma_error_sticks(raws: Seq<AccountW>, k: int)
    requires
        0 < k <= raws.len(),
        accounts_error_w(raws.subrange(0, k)) is Some,
    ensures
        accounts_error_w(raws) == accounts_error_w(raws.subrange(0, k)),
    decreases raws.len() - k,
{
    if k < raws.len() {
        assert(raws.subrange(0, k + 1).drop_last() =~= raws.subrange(0, k));
        lemma_error_sticks(raws, k + 1);
    } else {
        assert(raws.subrange(0, k) =~= raws);
    }
}

/// An account's activities in resolve order, moved out of it.
fn take_act_list(activity: Option<PartialActivity>, activities: Vec<PartialActivity>) -> (r: Vec<PartialActivity>)
    ensures
        acts_view(r@) == act_list_w(
            AccountW {
                scalars: Seq::empty(),
                custom: None,
                activity: crate::indexed::partial::activity_view(activity),
                activities: acts_view(activities@),
            },
        ),
{
    let ghost av = acts_view(activities@);
    let mut out: Vec<PartialActivity> = Vec::new();
    match activity {
        Some(a) => {
            if activity_configured(&a) {
                out.push(a);
            }
        },
        None => {},
    }
    let ghost first = acts_view(out@);
    let n = activities.len();
    let mut rev: Vec<PartialActivity> = Vec::new();
    let mut rest = activities;
    while rest.len() > 0
        invariant
            rest@.len() + rev@.len() == n,
            n == av.len(),
            forall|k: int| 0 <= k < rest@.len() ==> #[trigger] rest@[k]@ == av[k],
            forall|k: int| 0 <= k < rev@.len() ==> #[trigger] rev@[k]@ == av[n - 1 - k],
        decreases rest@.len(),
    {
        let x = rest.pop().unwrap();
        rev.push(x);
    }
    let mut i: usize = 0;
    assert(av.subrange(0, 0) =~= Seq::<Leaves>::empty());
    assert(acts_view(out@) =~= first + named_acts(av.subrange(0, 0)));
    while i < n
        invariant
            i <= n,
            n == av.len(),
            rev@.len() == n - i,
            forall|k: int| 0 <= k < rev@.len() ==> #[trigger] rev@[k]@ == av[n - 1 - k],
            acts_view(out@) == first + named_acts(av.subrange(0, i as int)),
        decreases n - i,
    {
        let x = rev.pop().unwrap();
        assert(x@ == av[i as int]);
        assert(av.subrange(0, i + 1).drop_last() =~= av.subrange(0, i as int));
        assert(av.subrange(0, i + 1).last() == av[i as int]);
        assert(named_acts(av.subrange(0, i + 1)) == if named(av[i as int]) {
            named_acts(av.subrange(0, i as int)).push(av[i as int])
        } else {
            named_acts(av.subrange(0, i as int))
        });
        let ghost o0 = out@;
        let ghost xv = x@;
        if activity_configured(&x) {
            out.push(x);
            assert(out@ =~= o0.push(out@.last()));
            assert(acts_view(out@) =~= acts_view(o0).push(xv));
        }
        i = i + 1;
        assert(acts_view(out@) =~= first + named_acts(av.subrange(0, i as int)));
    }
    assert(av.subrange(0, n as int) =~= av);
    out
}

/// Resolves one indexed account; `index` names it when it has no name.
pub fn resolve_indexed_account(index: usize, raw: PartialAccount) -> (r: Result<AccountConfig, ConfigError>)
    ensures
        match r {
            Ok(c) => account_error(index as int, raw.scalars_view(), act_list_w(raw.view_w())) is None && account_ok(
                index as int,
                raw.scalars_view(),
                custom_view(raw.custom_status),
                act_list_w(raw.view_w()),
                c,
            ),
            Err(e) => err_r(e) is Some && account_error(index as int, raw.scalars_view(), act_list_w(raw.view_w())) == err_r(e),
        },
{
    let ghost w = raw.view_w();
    let PartialAccount { name, token, kind, device, status, custom_status, activity, activities } = raw;
    let list = take_act_list(activity, activities);
    let scalars = AccountScalars { name, token, kind, device, status };
    assert(scalars@ =~= w.scalars);
    resolve_account_parts(index, scalars, custom_status, list)
}

fn token_set(t: &Option<SecretString>) -> (r: bool)
    ensures
        r == (trim_opt(secret_view(*t)) is Some),
{
    match t {
        Some(v) => crate::text::trim_nonempty_str(v.as_str()).is_some(),
        None => false,
    }
}

/// Whether a positional account is configured.
pub fn account_slot_configured(a: &PartialAccount) -> (r: bool)
    ensures
        r == slot_configured(a.view_w()),
{
    let w = Ghost(a.view_w());
    let tok = token_set(&a.token);
    if tok || crate::text::trim_owned_str(&a.name).is_some() || crate::text::trim_owned_str(&a.kind).is_some()
        || crate::text::trim_owned_str(&a.device).is_some() || crate::text::trim_owned_str(&a.status).is_some()
        || a.custom_status.is_some() || a.activity.is_some() {
        return true;
    }
    let mut i: usize = 0;
    while i < a.activities.len()
        invariant
            i <= a.activities@.len(),
            w@ == a.view_w(),
            forall|j: int| 0 <= j < i ==> !named(#[trigger] w@.activities[j]),
        decreases a.activities@.len() - i,
    {
        if activity_configured(&a.activities[i]) {
            assert(named(w@.activities[i as int]));
            return true;
        }
        i = i + 1;
    }
    false
}

/// Resolves the flat account and the positional accounts, in that order.
pub fn resolve_accounts(flat: PartialAccount, array: Vec<PartialAccount>) -> (r: Result<Vec<AccountConfig>, ConfigError>)
    ensures
        ({
            let c = ConfigW {
                log_level: None,
                health_socket: None,
                defaults: Seq::empty(),
                account: flat.view_w(),
                accounts: crate::indexed::partial::accounts_w(array@),
            };
            match r {
                Ok(out) => resolve_error_w(c) is None && accounts_ok_w(raw_accounts_w(c), out@),
                Err(e) => err_r(e) is Some && resolve_error_w(c) == err_r(e),
            }
        }),
{
    let ghost c = ConfigW {
        log_level: None,
        health_socket: None,
        defaults: Seq::empty(),
        account: flat.view_w(),
        accounts: crate::indexed::partial::accounts_w(array@),
    };
    let ghost aw = c.accounts;
    let ghost raws = raw_accounts_w(c);
    let ghost flat_part = if trim_opt(c.account.scalars[0]) is Some {
        seq![c.account]
    } else {
        Seq::<AccountW>::empty()
    };
    let mut out: Vec<AccountConfig> = Vec::new();
    if token_set(&flat.token) {
        assert(raws[0] == c.account);
        assert(flat_part == seq![c.account]);
        assert(flat_part.drop_last() =~= Seq::<AccountW>::empty());
        assert(accounts_error_w(Seq::<AccountW>::empty()) is None);
        match resolve_indexed_account(0, flat) {
            Ok(cfg) => {
                out.push(cfg);
                assert(accounts_error_w(flat_part) is None);
                assert(accounts_ok_w(flat_part, out@));
            },
            Err(e) => {
                proof {
                    assert(raws.subrange(0, 1) =~= flat_part);
                    lemma_error_sticks(raws, 1);
                }
                return Err(e);
            },
        }
    } else {
        assert(flat_part =~= Seq::<AccountW>::empty());
    }
    assert(aw.subrange(0, 0) =~= Seq::<AccountW>::empty());
    assert(flat_part + configured_accounts(aw.subrange(0, 0)) =~= flat_part);
    let n = array.len();
    let mut rev: Vec<PartialAccount> = Vec::new();
    let mut rest = array;
    while rest.len() > 0
        invariant
            rest@.len() + rev@.len() == n,
            n == aw.len(),
            forall|k: int| 0 <= k < rest@.len() ==> #[trigger] rest@[k].view_w() == aw[k],
            forall|k: int| 0 <= k < rev@.len() ==> #[trigger] rev@[k].view_w() == aw[n - 1 - k],
        decreases rest@.len(),
    {
        let x = rest.pop().unwrap();
        rev.push(x);
    }
    let mut i: usize = 0;
    let mut failed: Option<ConfigError> = None;
    while i < n && failed.is_none()
        invariant
            i <= n,
            n == aw.len(),
            rev@.len() == n - i,
            forall|k: int| 0 <= k < rev@.len() ==> #[trigger] rev@[k].view_w() == aw[n - 1 - k],
            raws == flat_part + configured_accounts(aw),
            match failed {
                Some(e) => err_r(e) is Some && raws.len() > 0 && accounts_error_w(raws) == err_r(e),
                None => {
                    let pre = flat_part + configured_accounts(aw.subrange(0, i as int));
                    accounts_error_w(pre) is None && accounts_ok_w(pre, out@)
                },
            },
        decreases n - i,
    {
        let x = rev.pop().unwrap();
        let ghost pre = flat_part + configured_accounts(aw.subrange(0, i as int));
        let ghost nxt = flat_part + configured_accounts(aw.subrange(0, i + 1));
        assert(x.view_w() == aw[i as int]);
        assert(aw.subrange(0, i + 1).drop_last() =~= aw.subrange(0, i as int));
        assert(aw.subrange(0, i + 1).last() == aw[i as int]);
        assert(configured_accounts(aw.subrange(0, i + 1)) == if slot_configured(aw[i as int]) {
            configured_accounts(aw.subrange(0, i as int)).push(aw[i as int])
        } else {
            configured_accounts(aw.subrange(0, i as int))
        });
        if account_slot_configured(&x) {
            assert(nxt =~= pre.push(x.view_w()));
            assert(nxt.drop_last() =~= pre);
            let idx = out.len();
            let ghost xw = x.view_w();
            match resolve_indexed_account(idx, x) {
                Ok(cfg) => {
                    out.push(cfg);
                },
                Err(e) => {
                    proof {
                        assert(nxt.last() == xw);
                        assert(accounts_error_w(nxt) == err_r(e));
                        lemma_configured_prefix(aw, i + 1);
                        let k = nxt.len() as int;
                        assert(raws.subrange(0, k) =~= nxt) by {
                            assert(configured_accounts(aw).subrange(0, configured_accounts(aw.subrange(0, i + 1)).len() as int) == configured_accounts(aw.subrange(0, i + 1)));
                        }
                        lemma_error_sticks(raws, k);
                    }
                    failed = Some(e);
                },
            }
        } else {
            assert(nxt =~= pre);
        }
        i = i + 1;
    }
    match failed {
        Some(e) => {
            return Err(e);
        },
        None => {},
    }
    assert(aw.subrange(0, n as int) =~= aw);
    if out.len() == 0 {
        return Err(ConfigError::NoAccounts);
    }
    Ok(out)
}

/// Lays a profile's set overrides onto resolved client properties: a blank
/// os is ignored, a blank browser or user agent clears it, the device is
/// taken as given.
pub fn apply_client_property_overrides(dst: &mut ClientProperties, src: PartialClientProperties)
    ensures
        props4_view(*final(dst)) == overrides_view(props4_view(*old(dst)), src@),
{
    let ghost sv = src@;
    let ghost p0 = props4_view(*dst);
    let PartialClientProperties { os, browser, device, user_agent } = src;
    match os {
        Some(v) => {
            if !is_empty_str(v.as_str()) {
                dst.os = v;
            }
        },
        None => {},
    }
    let ghost p1 = props4_view(*dst);
    assert(p1 =~= match sv[0] {
        Some(v) => crate::config::resolve::override_view(crate::config::fields::ClientPropField::Os, p0, v),
        None => p0,
    });
    match browser {
        Some(v) => {
            if is_empty_str(v.as_str()) {
                dst.browser = None;
            } else {
                dst.browser = Some(v);
            }
        },
        None => {},
    }
    let ghost p2 = props4_view(*dst);
    assert(p2 =~= match sv[1] {
        Some(v) => crate::config::resolve::override_view(crate::config::fields::ClientPropField::Browser, p1, v),
        None => p1,
    });
    match device {
        Some(v) => {
            dst.device = v;
        },
        None => {},
    }
    let ghost p3 = props4_view(*dst);
    assert(p3 =~= match sv[2] {
        Some(v) => crate::config::resolve::override_view(crate::config::fields::ClientPropField::Device, p2, v),
        None => p2,
    });
    match user_agent {
        Some(v) => {
            if is_empty_str(v.as_str()) {
                dst.user_agent = None;
            } else {
                dst.user_agent = Some(v);
            }
        },
        None => {},
    }
    assert(props4_view(*dst) =~= overrides_view(p0, sv));
}

/// The built-in properties with each profile's overrides.
pub fn resolve_defaults(raw: PartialDefaults) -> (r: Defaults)
    ensures
        defaults4_views(r) == Seq::new(4, |i: int| overrides_view(builtin4()[i], raw@[i])),
{
    let ghost rv = raw@;
    let mut d = crate::indexed::defaults::product_defaults();
    let PartialDefaults { bot, web, desktop, mobile } = raw;
    apply_client_property_overrides(&mut d.bot, bot);
    apply_client_property_overrides(&mut d.web, web);
    apply_client_property_overrides(&mut d.desktop, desktop);
    apply_client_property_overrides(&mut d.mobile, mobile);
    assert(defaults4_views(d) =~= Seq::new(4, |i: int| overrides_view(builtin4()[i], rv[i])));
    d
}

/// `r` holds what the layer `c` resolves to: the trimmed log level (else
/// `info`), the trimmed health socket, the overridden client properties and
/// the accounts.
pub open spec fn resolved_w(c: ConfigW, r: (String, Option<String>, Defaults, Vec<AccountConfig>)) -> bool {
    &&& r.0@ == or_default(trim_opt(c.log_level), "info"@)
    &&& opt_view(r.1) == trim_opt(c.health_socket)
    &&& defaults4_views(r.2) == Seq::new(4, |i: int| overrides_view(builtin4()[i], c.defaults[i]))
    &&& accounts_ok_w(raw_accounts_w(c), r.3@)
}

/// Resolves a merged indexed layer into its log level, health socket,
/// client properties and accounts.
pub fn resolve_config(partial: PartialConfig) -> (r: Result<(String, Option<String>, Defaults, Vec<AccountConfig>), ConfigError>)
    ensures
        match r {
            Ok(t) => resolve_error_w(partial.view_w()) is None && resolved_w(partial.view_w(), t),
            Err(e) => err_r(e) is Some && resolve_error_w(partial.view_w()) == err_r(e),
        },
{
    let ghost c = partial.view_w();
    let PartialConfig { log_level, health_socket, defaults, accounts, account } = partial;
    let log_level = match trim_owned(log_level) {
        Some(l) => l,
        None => String::from_str(DEFAULT_LOG_LEVEL),
    };
    proof {
        reveal_strlit("info");
    }
    let health_socket = trim_owned(health_socket);
    let defaults = resolve_defaults(defaults);
    let ghost c2 = ConfigW {
        log_level: None,
        health_socket: None,
        defaults: Seq::empty(),
        account: c.account,
        accounts: c.accounts,
    };
    assert(raw_accounts_w(c2) == raw_accounts_w(c));
    let accounts = match resolve_accounts(account, accounts) {
        Ok(a) => a,
        Err(e) => {
            return Err(e);
        },
    };
    Ok((log_level, health_socket, defaults, accounts))
}

} // verus!
