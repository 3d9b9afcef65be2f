//! The file layer: the flat settings and the `[[accounts]]` and
//! `[[activities]]` arrays, with dense ids `0`, `1`, … for the entries that
//! set something.

use crate::config::id::{flat_id, singular_id, ACCOUNT_FLAT, ACTIVITY_SINGULAR};
use crate::config::keyed::KeyedMap;
use crate::config::merge::{account_set_v, lemma_account_set_view};
use crate::config::partial::{
    account_view, accounts_view, activities_view, any_account_field_set, any_activity_field_set, any_set, config_view,
    custom_view, secret_view, strings_view, AccountScalars, AccountV, ConfigV, Leaves, PartialAccount, PartialActivity,
    PartialConfig, PartialCustomStatus, PartialDefaults,
};
use crate::config::resolve::leaves_of;
use crate::config::token::SecretString;
use crate::config::fields::AccountScalarField;
use crate::config::path::{leaf_v, AccountPathV, PathV};
use crate::text::{digits_value, lemma_nat_decimal_value, nat_decimal, opt_view, u64_to_string};
use vstd::prelude::*;
use vstd::string::*;

verus! {

/// An account as the file writes it.
pub struct FileAccount {
    pub name: Option<String>,
    pub token: Option<SecretString>,
    pub kind: Option<String>,
    pub device: Option<String>,
    pub status: Option<String>,
    pub custom_status: Option<PartialCustomStatus>,
    pub activity: Option<PartialActivity>,
    pub activities: Vec<PartialActivity>,
}

/// The file: top-level settings, the flat account and `[[accounts]]`.
pub struct FileConfig {
    pub log_level: Option<String>,
    pub health_socket: Option<String>,
    pub defaults: PartialDefaults,
    pub accounts: Vec<FileAccount>,
    pub account: FileAccount,
}

impl Default for FileAccount {
    /// An account that sets nothing.
    fn default() -> (r: FileAccount)
        ensures
            r.name is None && r.token is None && r.kind is None && r.device is None && r.status is None,
            r.custom_status is None && r.activity is None && r.activities@.len() == 0,
    {
        FileAccount {
            name: None,
            token: None,
            kind: None,
            device: None,
            status: None,
            custom_status: None,
            activity: None,
            activities: Vec::new(),
        }
    }
}

impl Default for FileConfig {
    /// An empty file.
    fn default() -> (r: FileConfig)
        ensures
            r.log_level is None && r.health_socket is None,
            r.defaults@ == seq![crate::config::partial::unset(4), crate::config::partial::unset(4), crate::config::partial::unset(4), crate::config::partial::unset(4)],
            r.accounts@.len() == 0,
            r.account.name is None && r.account.token is None && r.account.kind is None,
            r.account.device is None && r.account.status is None,
            r.account.custom_status is None && r.account.activity is None && r.account.activities@.len() == 0,
    {
        FileConfig {
            log_level: None,
            health_socket: None,
            defaults: PartialDefaults::default(),
            accounts: Vec::new(),
            account: FileAccount::default(),
        }
    }
}

/// The entries of `s` that `keep` accepts, in order.
pub open spec fn kept_by<V>(s: Seq<V>, keep: spec_fn(V) -> bool) -> Seq<V>
    decreases s.len(),
{
    if s.len() == 0 {
        Seq::empty()
    } else if keep(s.last()) {
        kept_by(s.drop_last(), keep).push(s.last())
    } else {
        kept_by(s.drop_last(), keep)
    }
}

/// `base` with the `j`th of `ks` stored under the decimal id `j`.
pub open spec fn dense_from<V>(base: Map<Seq<char>, V>, ks: Seq<V>) -> Map<Seq<char>, V>
    decreases ks.len(),
{
    if ks.len() == 0 {
        base
    } else {
        dense_from(base, ks.drop_last()).insert(nat_decimal((ks.len() - 1) as nat), ks.last())
    }
}

/// The decimal ids `0` … `n - 1`.
pub open spec fn decimal_ids(n: nat) -> Seq<Seq<char>> {
    Seq::new(n, |j: int| nat_decimal(j as nat))
}

pub open spec fn leaves_set() -> spec_fn(Leaves) -> bool {
    |a: Leaves| any_set(a)
}

pub open spec fn singular_set(a: Option<PartialActivity>) -> bool {
    match a {
        Some(x) => any_set(x@),
        None => false,
    }
}

pub open spec fn activity_leaves(a: Option<PartialActivity>) -> Leaves {
    match a {
        Some(x) => x@,
        None => Seq::empty(),
    }
}

/// What a file account becomes in a layer.
pub open spec fn file_account_v(a: FileAccount) -> AccountV {
    let singular = match a.activity {
        Some(x) => any_set(x@),
        None => false,
    };
    let base = if singular {
        Map::<Seq<char>, Leaves>::empty().insert(singular_id(), a.activity.unwrap()@)
    } else {
        Map::<Seq<char>, Leaves>::empty()
    };
    let ks = kept_by(leaves_of(a.activities@), leaves_set());
    AccountV {
        scalars: seq![secret_view(a.token), opt_view(a.name), opt_view(a.kind), opt_view(a.device), opt_view(a.status)],
        custom: custom_view(a.custom_status),
        activities: dense_from(base, ks),
        order: (if singular {
            seq![singular_id()]
        } else {
            Seq::empty()
        }) + decimal_ids(ks.len()),
    }
}

pub open spec fn account_is_set() -> spec_fn(AccountV) -> bool {
    |a: AccountV| account_set_v(a)
}

/// What the file becomes as a layer.
pub open spec fn file_config_v(f: FileConfig) -> ConfigV {
    let flat = file_account_v(f.account);
    let base = if account_set_v(flat) {
        Map::<Seq<char>, AccountV>::empty().insert(flat_id(), flat)
    } else {
        Map::<Seq<char>, AccountV>::empty()
    };
    let ks = kept_by(f.accounts@.map_values(|a: FileAccount| file_account_v(a)), account_is_set());
    ConfigV {
        log_level: opt_view(f.log_level),
        health_socket: opt_view(f.health_socket),
        defaults: f.defaults@,
        accounts: dense_from(base, ks),
        order: (if account_set_v(flat) {
            seq![flat_id()]
        } else {
            Seq::empty()
        }) + decimal_ids(ks.len()),
    }
}

/// A file account as a layer account.
pub fn file_account_to_partial(acc: FileAccount) -> (r: PartialAccount)
    ensures
        account_view(r) == file_account_v(acc),
{
    let ghost av = file_account_v(acc);
    let ghost acts0 = leaves_of(acc.activities@);
    let FileAccount { name, token, kind, device, status, custom_status, activity, activities } = acc;
    let mut map: KeyedMap<PartialActivity> = KeyedMap::new();
    let mut order: Vec<String> = Vec::new();
    let ghost singular = singular_set(activity);
    let ghost act_v = activity_leaves(activity);
    match activity {
        Some(act) => {
            if any_activity_field_set(&act) {
                map.insert(String::from_str(ACTIVITY_SINGULAR), act);
                order.push(String::from_str(ACTIVITY_SINGULAR));
            }
        },
        None => {},
    }
    let ghost base = activities_view(map@);
    let ghost start = strings_view(order@);
    proof {
        assert(base =~= (if singular {
            Map::<Seq<char>, Leaves>::empty().insert(singular_id(), act_v)
        } else {
            Map::<Seq<char>, Leaves>::empty()
        }));
        assert(start =~= (if singular { seq![singular_id()] } else { Seq::<Seq<char>>::empty() }));
    }
    let n = activities.len();
    let mut rev: Vec<PartialActivity> = Vec::new();
    let mut rest = activities;
    while rest.len() > 0
        invariant
            rest@.len() + rev@.len() == n,
            n == acts0.len(),
            forall|k: int| 0 <= k < rest@.len() ==> #[trigger] rest@[k]@ == acts0[k],
            forall|k: int| 0 <= k < rev@.len() ==> #[trigger] rev@[k]@ == acts0[n - 1 - k],
        decreases rest@.len(),
    {
        let x = rest.pop().unwrap();
        rev.push(x);
    }
    let mut next: usize = 0;
    let mut i: usize = 0;
    assert(acts0.subrange(0, 0) =~= Seq::<Leaves>::empty());
    while i < n
        invariant
            i <= n,
            n == acts0.len(),
            rev@.len() == n - i,
            forall|k: int| 0 <= k < rev@.len() ==> #[trigger] rev@[k]@ == acts0[n - 1 - k],
            next == kept_by(acts0.subrange(0, i as int), leaves_set()).len(),
            next <= i,
            activities_view(map@) == dense_from(base, kept_by(acts0.subrange(0, i as int), leaves_set())),
            strings_view(order@) == start + decimal_ids(next as nat),
        decreases n - i,
    {
        let x = rev.pop().unwrap();
        assert(x@ == acts0[i as int]);
        let ghost pre = acts0.subrange(0, i as int);
        assert(acts0.subrange(0, i + 1).drop_last() =~= pre);
        if any_activity_field_set(&x) {
            let id = u64_to_string(next as u64);
            let ghost before = map@;
            let ghost order0 = order@;
            let ghost kp = kept_by(pre, leaves_set());
            map.insert(id.clone(), x);
            order.push(id);
            proof {
                assert(leaves_set()(acts0[i as int]));
                assert(kept_by(acts0.subrange(0, i + 1), leaves_set()) == kp.push(acts0[i as int]));
                assert(kp.push(acts0[i as int]).drop_last() =~= kp);
                assert(activities_view(map@) =~= activities_view(before).insert(nat_decimal(next as nat), acts0[i as int]));
                assert(strings_view(order@) =~= strings_view(order0).push(nat_decimal(next as nat)));
                assert(decimal_ids((next + 1) as nat) =~= decimal_ids(next as nat).push(nat_decimal(next as nat)));
                assert(strings_view(order@) =~= start + decimal_ids((next + 1) as nat));
            }
            next = next + 1;
        } else {
            assert(!leaves_set()(acts0[i as int]));
        }
        i = i + 1;
    }
    assert(acts0.subrange(0, n as int) =~= acts0);
    let r = PartialAccount {
        scalars: AccountScalars { name, token, kind, device, status },
        custom_status,
        activities: map,
        activity_order: order,
    };
    assert(account_view(r).scalars =~= av.scalars);
    assert(account_view(r) =~= av);
    r
}

/// The file as a layer: the flat account when it sets something, then each
/// `[[accounts]]` entry that sets something under ids `0`, `1`, …, and the
/// same for each account's `[activity]` and `[[activities]]`.
pub fn file_config_to_partial(file: FileConfig) -> (r: PartialConfig)
    ensures
        config_view(r) == file_config_v(file),
{
    let ghost fv = file_config_v(file);
    let ghost accs0 = file.accounts@.map_values(|a: FileAccount| file_account_v(a));
    let FileConfig { log_level, health_socket, defaults, accounts, account } = file;
    let mut map: KeyedMap<PartialAccount> = KeyedMap::new();
    let mut order: Vec<String> = Vec::new();
    let flat = file_account_to_partial(account);
    proof {
        lemma_account_set_view(flat);
    }
    let ghost flat_v = account_view(flat);
    let ghost flat_set = account_set_v(flat_v);
    if any_account_field_set(&flat) {
        map.insert(String::from_str(ACCOUNT_FLAT), flat);
        order.push(String::from_str(ACCOUNT_FLAT));
    }
    let ghost base = accounts_view(map@);
    let ghost start = strings_view(order@);
    proof {
        assert(base =~= (if flat_set {
            Map::<Seq<char>, AccountV>::empty().insert(flat_id(), flat_v)
        } else {
            Map::<Seq<char>, AccountV>::empty()
        }));
        assert(start =~= (if flat_set { seq![flat_id()] } else { Seq::<Seq<char>>::empty() }));
    }
    let n = accounts.len();
    let mut rev: Vec<FileAccount> = Vec::new();
    let mut rest = accounts;
    while rest.len() > 0
        invariant
            rest@.len() + rev@.len() == n,
            n == accs0.len(),
            forall|k: int| 0 <= k < rest@.len() ==> file_account_v(#[trigger] rest@[k]) == accs0[k],
            forall|k: int| 0 <= k < rev@.len() ==> file_account_v(#[trigger] rev@[k]) == accs0[n - 1 - k],
        decreases rest@.len(),
    {
        let x = rest.pop().unwrap();
        rev.push(x);
    }
    let mut next: usize = 0;
    let mut i: usize = 0;
    assert(accs0.subrange(0, 0) =~= Seq::<AccountV>::empty());
    while i < n
        invariant
            i <= n,
            n == accs0.len(),
            rev@.len() == n - i,
            forall|k: int| 0 <= k < rev@.len() ==> file_account_v(#[trigger] rev@[k]) == accs0[n - 1 - k],
            next == kept_by(accs0.subrange(0, i as int), account_is_set()).len(),
            next <= i,
            accounts_view(map@) == dense_from(base, kept_by(accs0.subrange(0, i as int), account_is_set())),
            strings_view(order@) == start + decimal_ids(next as nat),
        decreases n - i,
    {
        let fa = rev.pop().unwrap();
        let x = file_account_to_partial(fa);
        assert(account_view(x) == accs0[i as int]);
        proof {
            lemma_account_set_view(x);
        }
        let ghost pre = accs0.subrange(0, i as int);
        assert(accs0.subrange(0, i + 1).drop_last() =~= pre);
        if any_account_field_set(&x) {
            let id = u64_to_string(next as u64);
            let ghost before = map@;
            let ghost order0 = order@;
            let ghost kp = kept_by(pre, account_is_set());
            map.insert(id.clone(), x);
            order.push(id);
            proof {
                assert(account_is_set()(accs0[i as int]));
                assert(kept_by(accs0.subrange(0, i + 1), account_is_set()) == kp.push(accs0[i as int]));
                assert(kp.push(accs0[i as int]).drop_last() =~= kp);
                assert(accounts_view(map@) =~= accounts_view(before).insert(nat_decimal(next as nat), accs0[i as int]));
                assert(strings_view(order@) =~= strings_view(order0).push(nat_decimal(next as nat)));
                assert(decimal_ids((next + 1) as nat) =~= decimal_ids(next as nat).push(nat_decimal(next as nat)));
                assert(strings_view(order@) =~= start + decimal_ids((next + 1) as nat));
            }
            next = next + 1;
        } else {
            assert(!account_is_set()(accs0[i as int]));
        }
        i = i + 1;
    }
    assert(accs0.subrange(0, n as int) =~= accs0);
    let r = PartialConfig { log_level, health_socket, defaults, accounts: map, account_order: order };
    assert(config_view(r) =~= fv);
    r
}


/// The scalar leaves of the account `id` of layer `c` are those that the file
/// account `a` writes: token, name, kind, device and status.
pub open spec fn reads_file_scalars(c: ConfigV, id: Seq<char>, a: FileAccount) -> bool {
    &&& c.accounts.dom().contains(id)
    &&& leaf_v(c, PathV::Account(id, AccountPathV::Scalar(AccountScalarField::Token))) == secret_view(a.token)
    &&& leaf_v(c, PathV::Account(id, AccountPathV::Scalar(AccountScalarField::Name))) == opt_view(a.name)
    &&& leaf_v(c, PathV::Account(id, AccountPathV::Scalar(AccountScalarField::Kind))) == opt_view(a.kind)
    &&& leaf_v(c, PathV::Account(id, AccountPathV::Scalar(AccountScalarField::Device))) == opt_view(a.device)
    &&& leaf_v(c, PathV::Account(id, AccountPathV::Scalar(AccountScalarField::Status))) == opt_view(a.status)
}

/// A file account that writes at least one of its scalars.
pub open spec fn writes_a_scalar(a: FileAccount) -> bool {
    a.token is Some || a.name is Some || a.kind is Some || a.device is Some || a.status is Some
}

/// An id that does not start with a digit is never one of the dense ids.
proof fn lemma_dense_from_other(base: Map<Seq<char>, AccountV>, ks: Seq<AccountV>, k: Seq<char>)
    requires
        k.len() > 0,
        !('0' <= k[0] && k[0] <= '9'),
    ensures
        dense_from(base, ks).dom().contains(k) == base.dom().contains(k),
        base.dom().contains(k) ==> dense_from(base, ks)[k] == base[k],
    decreases ks.len(),
{
    if ks.len() > 0 {
        let j = (ks.len() - 1) as nat;
        lemma_nat_decimal_value(j);
        assert(nat_decimal(j) != k) by {
            assert('0' <= nat_decimal(j)[0] && nat_decimal(j)[0] <= '9');
        }
        lemma_dense_from_other(base, ks.drop_last(), k);
    }
}

/// The `j`th kept entry is stored under the decimal id `j`.
proof fn lemma_dense_from_at(base: Map<Seq<char>, AccountV>, ks: Seq<AccountV>, j: int)
    requires
        0 <= j < ks.len(),
    ensures
        dense_from(base, ks).dom().contains(nat_decimal(j as nat)),
        dense_from(base, ks)[nat_decimal(j as nat)] == ks[j],
    decreases ks.len(),
{
    let last = (ks.len() - 1) as nat;
    if j < last {
        lemma_nat_decimal_value(j as nat);
        lemma_nat_decimal_value(last);
        assert(nat_decimal(last) != nat_decimal(j as nat)) by {
            assert(digits_value(nat_decimal(last)) != digits_value(nat_decimal(j as nat)));
        }
        lemma_dense_from_at(base, ks.drop_last(), j);
        assert(ks.drop_last()[j] == ks[j]);
    }
}

/// An entry that `keep` accepts is among the kept entries.
proof fn lemma_kept_by_has<V>(s: Seq<V>, keep: spec_fn(V) -> bool, i: int) -> (j: int)
    requires
        0 <= i < s.len(),
        keep(s[i]),
    ensures
        0 <= j < kept_by(s, keep).len(),
        kept_by(s, keep)[j] == s[i],
    decreases s.len(),
{
    if i == s.len() - 1 {
        kept_by(s.drop_last(), keep).len() as int
    } else {
        assert(s.drop_last()[i] == s[i]);
        let j = lemma_kept_by_has(s.drop_last(), keep, i);
        if keep(s.last()) {
            assert(kept_by(s, keep)[j] == kept_by(s.drop_last(), keep)[j]);
        }
        j
    }
}

proof fn lemma_writes_a_scalar_is_set(a: FileAccount)
    requires
        writes_a_scalar(a),
    ensures
        account_set_v(file_account_v(a)),
{
    let sc = file_account_v(a).scalars;
    if a.token is Some {
        assert(sc[0] is Some);
    } else if a.name is Some {
        assert(sc[1] is Some);
    } else if a.kind is Some {
        assert(sc[2] is Some);
    } else if a.device is Some {
        assert(sc[3] is Some);
    } else {
        assert(sc[4] is Some);
    }
}

/// The flat account of the file, when it writes any scalar, is in the file
/// layer with each scalar leaf exactly as the file writes it.
pub proof fn lemma_file_flat_scalars(file: FileConfig)
    requires
        writes_a_scalar(file.account),
    ensures
        reads_file_scalars(file_config_v(file), flat_id(), file.account),
{
    lemma_writes_a_scalar_is_set(file.account);
    let flat = file_account_v(file.account);
    let base = Map::<Seq<char>, AccountV>::empty().insert(flat_id(), flat);
    let ks = kept_by(file.accounts@.map_values(|a: FileAccount| file_account_v(a)), account_is_set());
    reveal_strlit("__flat__");
    lemma_dense_from_other(base, ks, flat_id());
}

/// Each `[[accounts]]` entry that writes any scalar is in the file layer
/// under an id of its own, with each scalar leaf exactly as the entry writes
/// it.
pub proof fn lemma_file_entry_scalars(file: FileConfig, i: int)
    requires
        0 <= i < file.accounts@.len(),
        writes_a_scalar(file.accounts@[i]),
    ensures
        exists|id: Seq<char>| id != flat_id() && reads_file_scalars(file_config_v(file), id, #[trigger] file.accounts@[i]),
{
    let a = file.accounts@[i];
    lemma_writes_a_scalar_is_set(a);
    let flat = file_account_v(file.account);
    let base = if account_set_v(flat) {
        Map::<Seq<char>, AccountV>::empty().insert(flat_id(), flat)
    } else {
        Map::<Seq<char>, AccountV>::empty()
    };
    let all = file.accounts@.map_values(|a: FileAccount| file_account_v(a));
    assert(all[i] == file_account_v(a));
    assert(account_is_set()(all[i]));
    let j = lemma_kept_by_has(all, account_is_set(), i);
    let ks = kept_by(all, account_is_set());
    lemma_dense_from_at(base, ks, j);
    let id = nat_decimal(j as nat);
    lemma_nat_decimal_value(j as nat);
    reveal_strlit("__flat__");
    assert(id != flat_id()) by {
        assert('0' <= id[0] && id[0] <= '9');
    }
    assert(reads_file_scalars(file_config_v(file), id, a));
}

} // verus!
