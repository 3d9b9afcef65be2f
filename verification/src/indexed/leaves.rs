//! Reading single leaves of an indexed layer, and how merging and loading
//! decide each leaf.

use crate::config::load::first_set;
use crate::config::partial::{any_set, overlay, unset, Leaves};
use crate::indexed::load::{defaults_layer_w, merged_layers_w};
use crate::indexed::merge::{
    insert_activity_w, lemma_merge_by_position, merge_account_w, merge_accounts_w, merge_acts_w, merge_opt, merge_w,
};
use crate::indexed::partial::{account_set_w, AccountW, ConfigW, PartialAccount, PartialConfig};
use vstd::prelude::*;

verus! {

/// A leaf of an indexed account, by position in its record.
pub enum AccountLeafW {
    Scalar(int),
    Custom(int),
    /// A leaf of the singular activity.
    Activity(int),
    /// Leaf `f` of the activity at position `j`.
    Listed(int, int),
}

/// A leaf of an indexed layer.
pub enum PathW {
    LogLevel,
    HealthSocket,
    /// Leaf `f` of the client properties of profile `p`.
    Defaults(int, int),
    /// A leaf of the flat account.
    Flat(AccountLeafW),
    /// A leaf of the account at position `j`.
    Account(int, AccountLeafW),
}

/// Leaf `i` of a record, unset where the record has no such leaf.
pub open spec fn at(l: Leaves, i: int) -> Option<Seq<char>> {
    if 0 <= i < l.len() {
        l[i]
    } else {
        None
    }
}

/// Leaf `f` of the activity at position `j`, unset where there is none.
pub open spec fn listed_at(acts: Seq<Leaves>, j: int, f: int) -> Option<Seq<char>> {
    if 0 <= j < acts.len() {
        at(acts[j], f)
    } else {
        None
    }
}

pub open spec fn opt_at(o: Option<Leaves>, i: int) -> Option<Seq<char>> {
    match o {
        Some(l) => at(l, i),
        None => None,
    }
}

pub open spec fn account_leaf_w(a: AccountW, p: AccountLeafW) -> Option<Seq<char>> {
    match p {
        AccountLeafW::Scalar(i) => at(a.scalars, i),
        AccountLeafW::Custom(i) => opt_at(a.custom, i),
        AccountLeafW::Activity(i) => opt_at(a.activity, i),
        AccountLeafW::Listed(j, f) => listed_at(a.activities, j, f),
    }
}

/// The leaf of an indexed layer at `p`, where it is set.
pub open spec fn leaf_w(c: ConfigW, p: PathW) -> Option<Seq<char>> {
    match p {
        PathW::LogLevel => c.log_level,
        PathW::HealthSocket => c.health_socket,
        PathW::Defaults(pr, f) => if 0 <= pr < c.defaults.len() {
            at(c.defaults[pr], f)
        } else {
            None
        },
        PathW::Flat(ap) => account_leaf_w(c.account, ap),
        PathW::Account(j, ap) => if 0 <= j < c.accounts.len() {
            account_leaf_w(c.accounts[j], ap)
        } else {
            None
        },
    }
}

/// The later value where it is set, else the earlier one.
pub open spec fn later_wins(d: Option<Seq<char>>, s: Option<Seq<char>>) -> Option<Seq<char>> {
    if s is Some {
        s
    } else {
        d
    }
}

pub open spec fn acts_shape(acts: Seq<Leaves>) -> bool {
    forall|k: int| 0 <= k < acts.len() ==> (#[trigger] acts[k]).len() == 18
}

/// Every record of an indexed account has its full number of leaves.
pub open spec fn account_shape_w(a: AccountW) -> bool {
    &&& a.scalars.len() == 5
    &&& (a.custom matches Some(c) ==> c.len() == 2)
    &&& (a.activity matches Some(x) ==> x.len() == 18)
    &&& acts_shape(a.activities)
}

/// Every record of an indexed layer has its full number of leaves.
pub open spec fn layer_shape_w(c: ConfigW) -> bool {
    &&& c.defaults.len() == 4
    &&& forall|i: int| 0 <= i < 4 ==> (#[trigger] c.defaults[i]).len() == 4
    &&& account_shape_w(c.account)
    &&& forall|j: int| 0 <= j < c.accounts.len() ==> account_shape_w(#[trigger] c.accounts[j])
}

proof fn lemma_account_shape_w(a: PartialAccount)
    ensures
        account_shape_w(a.view_w()),
{
    assert forall|k: int| 0 <= k < a.view_w().activities.len() implies (#[trigger] a.view_w().activities[k]).len() == 18 by {
        assert(a.view_w().activities[k] == a.activities@[k]@);
    }
}

/// The records of an indexed layer read from its parts have their full
/// number of leaves.
pub proof fn lemma_layer_shape_w(p: PartialConfig)
    ensures
        layer_shape_w(p.view_w()),
{
    lemma_account_shape_w(p.account);
    let c = p.view_w();
    assert forall|j: int| 0 <= j < c.accounts.len() implies account_shape_w(#[trigger] c.accounts[j]) by {
        assert(c.accounts[j] == p.accounts@[j].view_w());
        lemma_account_shape_w(p.accounts@[j]);
    }
}

proof fn lemma_overlay_at(d: Leaves, s: Leaves, i: int)
    requires
        d.len() == s.len(),
    ensures
        at(overlay(d, s), i) == later_wins(at(d, i), at(s, i)),
{
}

proof fn lemma_merge_opt_at(d: Option<Leaves>, s: Option<Leaves>, n: nat, i: int)
    requires
        d matches Some(x) ==> x.len() == n,
        s matches Some(x) ==> x.len() == n,
    ensures
        opt_at(merge_opt(d, s, n), i) == later_wins(opt_at(d, i), opt_at(s, i)),
        merge_opt(d, s, n) matches Some(x) ==> x.len() == n,
{
}

/// Listed activities merge leaf by leaf, and the list never shrinks.
proof fn lemma_merge_acts_leafwise(d: Seq<Leaves>, s: Seq<Leaves>, j: int, f: int)
    requires
        acts_shape(d),
        acts_shape(s),
    ensures
        acts_shape(merge_acts_w(d, s)),
        merge_acts_w(d, s).len() >= d.len(),
        listed_at(merge_acts_w(d, s), j, f) == later_wins(listed_at(d, j, f), listed_at(s, j, f)),
    decreases s.len(),
{
    if s.len() > 0 {
        let t = s.drop_last();
        let n = s.len() - 1;
        let prev = merge_acts_w(d, t);
        lemma_merge_acts_leafwise(d, t, j, f);
        lemma_merge_acts_leafwise(d, t, n, f);
        assert(listed_at(t, n, f) is None);
        assert(j != n ==> listed_at(s, j, f) == listed_at(t, j, f));
        if any_set(s.last()) {
            let r = insert_activity_w(prev, n, s.last());
            if n < prev.len() {
                assert(prev[n].len() == 18);
                assert(acts_shape(r));
            } else {
                assert(acts_shape(r)) by {
                    assert forall|k: int| 0 <= k < r.len() implies (#[trigger] r[k]).len() == 18 by {
                        if k < prev.len() {
                            assert(r[k] == prev[k]);
                        }
                    }
                }
                if j != n && 0 <= j < r.len() {
                    if j >= prev.len() {
                        assert(r[j] == unset(18));
                        lemma_merge_acts_leafwise(d, t, j, f);
                    } else {
                        assert(r[j] == prev[j]);
                    }
                }
            }
        } else {
            if j == n {
                if 0 <= f < 18 {
                    assert(!(s.last()[f] is Some));
                }
            }
        }
    }
}

/// Merging an account is leaf by leaf.
proof fn lemma_merge_account_leafwise(d: AccountW, s: AccountW, p: AccountLeafW)
    requires
        account_shape_w(d),
        account_shape_w(s),
    ensures
        account_shape_w(merge_account_w(d, s)),
        account_leaf_w(merge_account_w(d, s), p) == later_wins(account_leaf_w(d, p), account_leaf_w(s, p)),
{
    lemma_merge_opt_at(d.custom, s.custom, 2, 0);
    lemma_merge_opt_at(d.activity, s.activity, 18, 0);
    lemma_merge_acts_leafwise(d.activities, s.activities, 0, 0);
    match p {
        AccountLeafW::Scalar(i) => {
            lemma_overlay_at(d.scalars, s.scalars, i);
        },
        AccountLeafW::Custom(i) => {
            lemma_merge_opt_at(d.custom, s.custom, 2, i);
        },
        AccountLeafW::Activity(i) => {
            lemma_merge_opt_at(d.activity, s.activity, 18, i);
        },
        AccountLeafW::Listed(j, f) => {
            lemma_merge_acts_leafwise(d.activities, s.activities, j, f);
        },
    }
}

/// An account that sets nothing has every leaf unset.
proof fn lemma_unset_account(s: AccountW, p: AccountLeafW)
    requires
        !account_set_w(s),
        account_shape_w(s),
    ensures
        account_leaf_w(s, p) is None,
{
    match p {
        AccountLeafW::Scalar(i) => {
            if 0 <= i < 5 {
                assert(!(s.scalars[i] is Some));
            }
        },
        AccountLeafW::Listed(j, f) => {
            if 0 <= j < s.activities.len() && 0 <= f < 18 {
                assert(!any_set(s.activities[j]));
                assert(!(s.activities[j][f] is Some));
            }
        },
        _ => {},
    }
}

/// Merging two well-shaped indexed layers gives a well-shaped layer.
pub proof fn lemma_merge_w_shape(d: ConfigW, s: ConfigW)
    requires
        layer_shape_w(d),
        layer_shape_w(s),
    ensures
        layer_shape_w(merge_w(d, s)),
{
    lemma_merge_account_leafwise(d.account, s.account, AccountLeafW::Scalar(0));
    lemma_accounts_shape(d.accounts, s.accounts);
}

proof fn lemma_accounts_shape(d: Seq<AccountW>, s: Seq<AccountW>)
    requires
        forall|j: int| 0 <= j < d.len() ==> account_shape_w(#[trigger] d[j]),
        forall|j: int| 0 <= j < s.len() ==> account_shape_w(#[trigger] s[j]),
    ensures
        forall|j: int| 0 <= j < merge_accounts_w(d, s).len() ==> account_shape_w(#[trigger] merge_accounts_w(d, s)[j]),
    decreases s.len(),
{
    if s.len() > 0 {
        let t = s.drop_last();
        let n = s.len() - 1;
        lemma_accounts_shape(d, t);
        let prev = merge_accounts_w(d, t);
        if account_set_w(s.last()) {
            if n < prev.len() {
                lemma_merge_account_leafwise(prev[n], s.last(), AccountLeafW::Scalar(0));
            }
        }
    }
}

/// Merging indexed layers is leaf by leaf for the log level, the health
/// socket, the client properties, the flat account, and every account at a
/// position the earlier layer already holds: the later layer's leaf where
/// it is set, else the earlier one's.
pub proof fn lemma_merge_w_leafwise(d: ConfigW, s: ConfigW, p: PathW)
    requires
        layer_shape_w(d),
        layer_shape_w(s),
        p matches PathW::Account(j, _) ==> j < d.accounts.len(),
    ensures
        leaf_w(merge_w(d, s), p) == later_wins(leaf_w(d, p), leaf_w(s, p)),
{
    match p {
        PathW::Defaults(pr, f) => {
            if 0 <= pr < 4 {
                lemma_overlay_at(d.defaults[pr], s.defaults[pr], f);
            }
        },
        PathW::Flat(ap) => {
            if account_set_w(s.account) {
                lemma_merge_account_leafwise(d.account, s.account, ap);
            } else {
                lemma_unset_account(s.account, ap);
            }
        },
        PathW::Account(j, ap) => {
            if 0 <= j {
                lemma_merge_by_position(d.accounts, s.accounts);
                let m = merge_accounts_w(d.accounts, s.accounts);
                assert(m[j] == if j < s.accounts.len() && account_set_w(s.accounts[j]) {
                    merge_account_w(d.accounts[j], s.accounts[j])
                } else {
                    d.accounts[j]
                });
                if j < s.accounts.len() {
                    if account_set_w(s.accounts[j]) {
                        lemma_merge_account_leafwise(d.accounts[j], s.accounts[j], ap);
                    } else {
                        lemma_unset_account(s.accounts[j], ap);
                    }
                }
            }
        },
        _ => {},
    }
}

/// Layer priority for the settings that every layer addresses the same way
/// (log level, health socket, client properties and the flat account): each
/// leaf of the merged layers is the command line's where it sets it, else
/// the environment's, else the file's, else the built-in default.
pub proof fn lemma_leaf_precedence_w(file: PartialConfig, env: PartialConfig, cli: PartialConfig, p: PathW)
    requires
        !(p is Account),
    ensures
        leaf_w(merged_layers_w(file.view_w(), env.view_w(), cli.view_w()), p) == first_set(
            leaf_w(cli.view_w(), p),
            leaf_w(env.view_w(), p),
            leaf_w(file.view_w(), p),
            leaf_w(defaults_layer_w(), p),
        ),
{
    let base = defaults_layer_w();
    let (f, e, c) = (file.view_w(), env.view_w(), cli.view_w());
    assert(layer_shape_w(base)) by {
        assert(forall|i: int| 0 <= i < 4 ==> (#[trigger] base.defaults[i]).len() == 4);
    }
    lemma_layer_shape_w(file);
    lemma_layer_shape_w(env);
    lemma_layer_shape_w(cli);
    let m1 = merge_w(base, f);
    lemma_merge_w_shape(base, f);
    lemma_merge_w_leafwise(base, f, p);
    let m2 = merge_w(m1, e);
    lemma_merge_w_shape(m1, e);
    lemma_merge_w_leafwise(m1, e, p);
    lemma_merge_w_leafwise(m2, c, p);
}

} // verus!
