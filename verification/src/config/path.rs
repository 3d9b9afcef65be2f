//! Paths to a single leaf of a layer, and setting a leaf by its path.

use crate::config::error::ConfigError;
use crate::config::fields::{AccountScalarField, ActivityField, ClientPropField, CustomStatusField, DefaultsProfile};
use crate::config::id::{flat_id, parse_user_id, singular_id, user_id_error, ACCOUNT_FLAT, ACTIVITY_SINGULAR};
use crate::config::order::{ensure_id_in_order, with_id};
use crate::config::partial::{
    account_view, accounts_view, activities_view, config_view, empty_account, unset, AccountV, ConfigV,
    Leaves, PartialAccount, PartialActivity, PartialConfig, PartialCustomStatus,
};
use crate::text::str_eq;
use vstd::prelude::*;
use vstd::string::*;

verus! {

/// A leaf of a layer.
#[derive(Debug, Clone, PartialEq, Eq)]
pub enum ConfigPath {
    LogLevel,
    HealthSocket,
    Defaults(DefaultsProfile, ClientPropField),
    Account(String, AccountPath),
}

/// A leaf of an account.
#[derive(Debug, Clone, PartialEq, Eq)]
pub enum AccountPath {
    Scalar(AccountScalarField),
    CustomStatus(CustomStatusField),
    Activity(String, ActivityField),
}

/// A leaf path with its ids as character sequences.
pub enum PathV {
    LogLevel,
    HealthSocket,
    Defaults(DefaultsProfile, ClientPropField),
    Account(Seq<char>, AccountPathV),
}

/// An account leaf path with its ids as character sequences.
pub enum AccountPathV {
    Scalar(AccountScalarField),
    CustomStatus(CustomStatusField),
    Activity(Seq<char>, ActivityField),
}

pub open spec fn account_path_view(p: AccountPath) -> AccountPathV {
    match p {
        AccountPath::Scalar(f) => AccountPathV::Scalar(f),
        AccountPath::CustomStatus(f) => AccountPathV::CustomStatus(f),
        AccountPath::Activity(id, f) => AccountPathV::Activity(id@, f),
    }
}

pub open spec fn path_view(p: ConfigPath) -> PathV {
    match p {
        ConfigPath::LogLevel => PathV::LogLevel,
        ConfigPath::HealthSocket => PathV::HealthSocket,
        ConfigPath::Defaults(pr, f) => PathV::Defaults(pr, f),
        ConfigPath::Account(id, ap) => PathV::Account(id@, account_path_view(ap)),
    }
}

/// The account stored under `id`, or an empty one.
pub open spec fn account_or_empty(m: Map<Seq<char>, AccountV>, id: Seq<char>) -> AccountV {
    if m.dom().contains(id) {
        m[id]
    } else {
        empty_account()
    }
}

/// The activity stored under `id`, or an empty one.
pub open spec fn activity_or_empty(m: Map<Seq<char>, Leaves>, id: Seq<char>) -> Leaves {
    if m.dom().contains(id) {
        m[id]
    } else {
        unset(18)
    }
}

/// An account after setting one of its leaves.
pub open spec fn apply_account_v(a: AccountV, p: AccountPathV, v: Seq<char>) -> AccountV {
    match p {
        AccountPathV::Scalar(f) => AccountV { scalars: a.scalars.update(f.index(), Some(v)), ..a },
        AccountPathV::CustomStatus(f) => AccountV {
            custom: Some(
                match a.custom {
                    Some(c) => c,
                    None => unset(2),
                }.update(f.index(), Some(v)),
            ),
            ..a
        },
        AccountPathV::Activity(id, f) => AccountV {
            order: with_id(a.order, id),
            activities: a.activities.insert(id, activity_or_empty(a.activities, id).update(f.index(), Some(v))),
            ..a
        },
    }
}

/// A layer after setting one of its leaves.
#[verifier::opaque]
pub open spec fn apply_v(c: ConfigV, p: PathV, v: Seq<char>) -> ConfigV {
    match p {
        PathV::LogLevel => ConfigV { log_level: Some(v), ..c },
        PathV::HealthSocket => ConfigV { health_socket: Some(v), ..c },
        PathV::Defaults(pr, f) => ConfigV {
            defaults: c.defaults.update(pr.index(), c.defaults[pr.index()].update(f.index(), Some(v))),
            ..c
        },
        PathV::Account(id, ap) => ConfigV {
            order: with_id(c.order, id),
            accounts: c.accounts.insert(id, apply_account_v(account_or_empty(c.accounts, id), ap, v)),
            ..c
        },
    }
}

fn apply_account_path(account: &mut PartialAccount, path: &AccountPath, value: String)
    ensures
        account_view(*final(account)) == apply_account_v(account_view(*old(account)), account_path_view(*path), value@),
{
    let ghost before = account_view(*account);
    match path {
        AccountPath::Scalar(field) => {
            field.set(account, value);
            assert(account_view(*account) =~= apply_account_v(before, account_path_view(*path), value@));
        },
        AccountPath::CustomStatus(field) => {
            let mut cs = match account.custom_status.take() {
                Some(c) => c,
                None => PartialCustomStatus::default(),
            };
            let slot = field.get_mut(&mut cs);
            *slot = Some(value);
            account.custom_status = Some(cs);
            assert(account_view(*account) =~= apply_account_v(before, account_path_view(*path), value@));
        },
        AccountPath::Activity(activity_id, field) => {
            ensure_id_in_order(&mut account.activity_order, activity_id.as_str());
            let ghost acts_before = account.activities@;
            let mut act = match account.activities.remove(activity_id.as_str()) {
                Some(a) => a,
                None => PartialActivity::default(),
            };
            assert(act@ == activity_or_empty(before.activities, activity_id@));
            let slot = field.get_mut(&mut act);
            *slot = Some(value);
            account.activities.insert(activity_id.clone(), act);
            assert(activities_view(account.activities@) =~= activities_view(acts_before).insert(
                activity_id@,
                activity_or_empty(before.activities, activity_id@).update(field.index(), Some(value@)),
            ));
            assert(account_view(*account) =~= apply_account_v(before, account_path_view(*path), value@));
        },
    }
}

/// Sets the leaf at `path` to `value`; an account or activity path also
/// records its ids in the orders.
pub fn apply_path(partial: &mut PartialConfig, path: &ConfigPath, value: String)
    ensures
        config_view(*final(partial)) == apply_v(config_view(*old(partial)), path_view(*path), value@),
{
    let ghost before = config_view(*partial);
    reveal(apply_v);
    match path {
        ConfigPath::LogLevel => {
            partial.log_level = Some(value);
            assert(config_view(*partial) =~= apply_v(before, path_view(*path), value@));
        },
        ConfigPath::HealthSocket => {
            partial.health_socket = Some(value);
            assert(config_view(*partial) =~= apply_v(before, path_view(*path), value@));
        },
        ConfigPath::Defaults(profile, field) => {
            let props = profile.props_mut(&mut partial.defaults);
            let slot = field.get_mut(props);
            *slot = Some(value);
            assert(config_view(*partial) =~= apply_v(before, path_view(*path), value@));
        },
        ConfigPath::Account(account_id, account_path) => {
            ensure_id_in_order(&mut partial.account_order, account_id.as_str());
            let ghost accs_before = partial.accounts@;
            let mut account = match partial.accounts.remove(account_id.as_str()) {
                Some(a) => a,
                None => PartialAccount::default(),
            };
            assert(account_view(account) == account_or_empty(before.accounts, account_id@)) by {
                if !accs_before.dom().contains(account_id@) {
                    assert(activities_view(account.activities@) =~= Map::<Seq<char>, Leaves>::empty());
                    assert(crate::config::partial::strings_view(account.activity_order@) =~= Seq::<Seq<char>>::empty());
                    assert(account_view(account) =~= empty_account());
                }
            }
            apply_account_path(&mut account, account_path, value);
            let ghost after_account = account_view(account);
            partial.accounts.insert(account_id.clone(), account);
            assert(accounts_view(partial.accounts@) =~= accounts_view(accs_before).insert(account_id@, after_account));
            assert(config_view(*partial) =~= apply_v(before, path_view(*path), value@));
        },
    }
}

/// The leaf of an account at `p`, where it is set.
pub open spec fn account_leaf(a: AccountV, p: AccountPathV) -> Option<Seq<char>> {
    match p {
        AccountPathV::Scalar(f) => a.scalars[f.index()],
        AccountPathV::CustomStatus(f) => match a.custom {
            Some(c) => c[f.index()],
            None => None,
        },
        AccountPathV::Activity(id, f) => if a.activities.dom().contains(id) {
            a.activities[id][f.index()]
        } else {
            None
        },
    }
}

/// The leaf of a layer at `p`, where it is set.
pub open spec fn leaf_v(c: ConfigV, p: PathV) -> Option<Seq<char>> {
    match p {
        PathV::LogLevel => c.log_level,
        PathV::HealthSocket => c.health_socket,
        PathV::Defaults(pr, f) => c.defaults[pr.index()][f.index()],
        PathV::Account(id, ap) => if c.accounts.dom().contains(id) {
            account_leaf(c.accounts[id], ap)
        } else {
            None
        },
    }
}

/// Every record of an account has its full number of leaves.
pub open spec fn account_shape(a: AccountV) -> bool {
    &&& a.scalars.len() == 5
    &&& (a.custom matches Some(c) ==> c.len() == 2)
    &&& forall|k: Seq<char>| #[trigger] a.activities.dom().contains(k) ==> a.activities[k].len() == 18
}

/// Every record of a layer has its full number of leaves.
pub open spec fn layer_shape(c: ConfigV) -> bool {
    &&& c.defaults.len() == 4
    &&& forall|i: int| 0 <= i < 4 ==> (#[trigger] c.defaults[i]).len() == 4
    &&& forall|id: Seq<char>| #[trigger] c.accounts.dom().contains(id) ==> account_shape(c.accounts[id])
}

/// The records of a layer read from its parts have their full number of
/// leaves.
pub proof fn lemma_layer_shape(partial: PartialConfig)
    ensures
        layer_shape(config_view(partial)),
{
    let c = config_view(partial);
    assert forall|id: Seq<char>| #[trigger] c.accounts.dom().contains(id) implies account_shape(c.accounts[id]) by {
        let a = partial.accounts@[id];
        assert(c.accounts[id] == account_view(a));
        let acts = account_view(a).activities;
        assert forall|k: Seq<char>| #[trigger] acts.dom().contains(k) implies acts[k].len() == 18 by {
            assert(acts[k] == a.activities@[k]@);
        }
    }
}

/// A leaf read back after it was set gives the value that was set.
pub proof fn lemma_apply_path_reads_back(partial: PartialConfig, path: ConfigPath, value: Seq<char>)
    ensures
        leaf_v(apply_v(config_view(partial), path_view(path), value), path_view(path)) == Some(value),
{
    reveal(apply_v);
    lemma_layer_shape(partial);
}

/// Setting one leaf leaves every other leaf as it was.
pub proof fn lemma_apply_path_keeps_others(partial: PartialConfig, path: ConfigPath, other: ConfigPath, value: Seq<char>)
    requires
        path_view(path) != path_view(other),
    ensures
        leaf_v(apply_v(config_view(partial), path_view(path), value), path_view(other)) == leaf_v(
            config_view(partial),
            path_view(other),
        ),
{
    reveal(apply_v);
    lemma_layer_shape(partial);
    let c = config_view(partial);
    let p = path_view(path);
    let q = path_view(other);
    if let PathV::Account(id, ap) = p {
        if let PathV::Account(id2, aq) = q {
            if id == id2 {
                let a = account_or_empty(c.accounts, id);
                assert(account_shape(a));
                assert(ap != aq);
            }
        }
    }
}

/// Setting a leaf of a well-shaped layer keeps it well shaped, and the leaf
/// then reads back as the value set.
pub proof fn lemma_apply_v_reads_back(c: ConfigV, p: PathV, value: Seq<char>)
    requires
        layer_shape(c),
    ensures
        layer_shape(apply_v(c, p, value)),
        leaf_v(apply_v(c, p, value), p) == Some(value),
{
    reveal(apply_v);
    let r = apply_v(c, p, value);
    if let PathV::Account(id, ap) = p {
        let a = account_or_empty(c.accounts, id);
        assert(account_shape(a));
        let na = apply_account_v(a, ap, value);
        assert(account_shape(na)) by {
            if let AccountPathV::Activity(aid, f) = ap {
                assert forall|k: Seq<char>| #[trigger] na.activities.dom().contains(k) implies na.activities[k].len() == 18 by {
                    if k != aid {
                        assert(a.activities.dom().contains(k));
                    }
                }
            }
        }
        assert forall|k: Seq<char>| #[trigger] r.accounts.dom().contains(k) implies account_shape(r.accounts[k]) by {
            if k != id {
                assert(c.accounts.dom().contains(k));
            }
        }
    }
    if let PathV::Defaults(pr, f) = p {
        assert forall|i: int| 0 <= i < 4 implies (#[trigger] r.defaults[i]).len() == 4 by {
            assert(c.defaults[i].len() == 4);
        }
    }
}

pub fn account_scalar_path(account_id: String, field: AccountScalarField) -> (r: ConfigPath)
    ensures
        r == ConfigPath::Account(account_id, AccountPath::Scalar(field)),
{
    ConfigPath::Account(account_id, AccountPath::Scalar(field))
}

pub fn activity_field_path(account_id: String, activity_id: String, field: ActivityField) -> (r: ConfigPath)
    ensures
        r == ConfigPath::Account(account_id, AccountPath::Activity(activity_id, field)),
{
    ConfigPath::Account(account_id, AccountPath::Activity(activity_id, field))
}

pub fn custom_status_path(account_id: String, field: CustomStatusField) -> (r: ConfigPath)
    ensures
        r == ConfigPath::Account(account_id, AccountPath::CustomStatus(field)),
{
    ConfigPath::Account(account_id, AccountPath::CustomStatus(field))
}

/// An id accepted where `special` may also stand: the special id itself, or
/// a user id.
pub open spec fn id_ok(raw: Seq<char>, special: Seq<char>) -> bool {
    raw == special || user_id_error(raw) is None
}

/// An account id: the flat account's reserved id, or a user id.
pub fn parse_account_id(raw: &str) -> (r: Result<String, ConfigError>)
    ensures
        match r {
            Ok(s) => id_ok(raw@, flat_id()) && s@ == raw@,
            Err(e) => !id_ok(raw@, flat_id()) && e is InvalidId && user_id_error(raw@) == Some(e->InvalidId_0@),
        },
{
    if str_eq(raw, ACCOUNT_FLAT) {
        return Ok(String::from_str(ACCOUNT_FLAT));
    }
    parse_user_id(raw)
}

/// An activity id: the singular activity's reserved id, or a user id.
pub fn parse_activity_id(raw: &str) -> (r: Result<String, ConfigError>)
    ensures
        match r {
            Ok(s) => id_ok(raw@, singular_id()) && s@ == raw@,
            Err(e) => !id_ok(raw@, singular_id()) && e is InvalidId && user_id_error(raw@) == Some(e->InvalidId_0@),
        },
{
    if str_eq(raw, ACTIVITY_SINGULAR) {
        return Ok(String::from_str(ACTIVITY_SINGULAR));
    }
    parse_user_id(raw)
}

} // verus!
