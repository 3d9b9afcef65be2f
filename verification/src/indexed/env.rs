//! The indexed environment layer: flat variables, `ACCOUNT_{i}_…` accounts
//! found by their token, and `…ACTIVITY_{j}` activities found by their name.

use crate::config::cli::all_activities;
use crate::config::env::{all_profiles, all_props, pairs_view};
use crate::config::partial::{any_set, unset, Leaves};
use crate::indexed::merge::{insert_account_w, insert_activity_w, insert_indexed_account, insert_indexed_activity};
use crate::indexed::partial::{
    accounts_w, acts_view, activity_view, any_activity_field_set, any_client_prop_set, any_custom_status_field_set,
    AccountW, ConfigW, PartialAccount, PartialActivity, PartialClientProperties, PartialConfig, PartialCustomStatus,
    PartialDefaults,
};
use crate::indexed::schema::{
    indexed_account_env_key, indexed_account_key_spec, indexed_activity_env_key, indexed_activity_key_spec,
    indexed_key_spec, parse_indexed_key, singular_account_env_key, singular_account_key_spec,
    singular_activity_env_key, singular_activity_key_spec, AccountScalarField, ActivityField, ClientPropField,
    CustomStatusField, DefaultsProfile, ACCOUNT_INDEX_PREFIX, ACCOUNT_INDEX_TOKEN_SUFFIX, ACTIVITY_INDEX_PREFIX,
    ENV_HEALTH_SOCKET, ENV_LOG_LEVEL,
};
use crate::text::{ends_with, nat_decimal, opt_view, str_eq, trim_nonempty, trim_nonempty_str, u64_to_string};
use vstd::prelude::*;
use vstd::string::*;

verus! {

pub open spec fn all_scalars() -> Seq<AccountScalarField> {
    seq![AccountScalarField::Token, AccountScalarField::Name, AccountScalarField::Kind, AccountScalarField::Device, AccountScalarField::Status]
}

/// The value of the first variable named `key`.
pub open spec fn lookup(pairs: Seq<(Seq<char>, Seq<char>)>, key: Seq<char>) -> Option<Seq<char>>
    decreases pairs.len(),
{
    if pairs.len() == 0 {
        None
    } else if pairs[0].0 == key {
        Some(pairs[0].1)
    } else {
        lookup(pairs.drop_first(), key)
    }
}

/// The trimmed value of `key`, unless missing or blank.
pub open spec fn env_opt(pairs: Seq<(Seq<char>, Seq<char>)>, key: Seq<char>) -> Option<Seq<char>> {
    match lookup(pairs, key) {
        Some(v) => trim_nonempty(v),
        None => None,
    }
}

/// The trimmed value of `key`, unless missing or blank.
pub fn env_value(pairs: &Vec<(String, String)>, key: &str) -> (r: Option<String>)
    ensures
        opt_view(r) == env_opt(pairs_view(pairs@), key@),
{
    let ghost pv = pairs_view(pairs@);
    let mut i: usize = 0;
    assert(pv.skip(0) =~= pv);
    while i < pairs.len()
        invariant
            i <= pairs@.len(),
            pv == pairs_view(pairs@),
            lookup(pv, key@) == lookup(pv.skip(i as int), key@),
        decreases pairs@.len() - i,
    {
        assert(pv.skip(i as int).drop_first() =~= pv.skip(i + 1));
        assert(pv.skip(i as int)[0] == (pairs@[i as int].0@, pairs@[i as int].1@));
        if str_eq(pairs[i].0.as_str(), key) {
            return trim_nonempty_str(pairs[i].1.as_str());
        }
        i = i + 1;
    }
    None
}

/// Index `i` is named by some variable with a non-empty value.
pub open spec fn index_found(pairs: Seq<(Seq<char>, Seq<char>)>, prefix: Seq<char>, suffix: Seq<char>, i: nat) -> bool {
    exists|k: int| 0 <= k < pairs.len() && pairs[k].1.len() > 0 && indexed_key_spec(#[trigger] pairs[k].0, prefix, suffix) == Some(i)
}

pub open spec fn strictly_increasing(s: Seq<usize>) -> bool {
    forall|a: int, b: int| 0 <= a < b < s.len() ==> s[a] < s[b]
}

fn insert_sorted_unique(found: &mut Vec<usize>, idx: usize)
    requires
        strictly_increasing(old(found)@),
    ensures
        strictly_increasing(final(found)@),
        forall|x: usize| final(found)@.contains(x) <==> old(found)@.contains(x) || x == idx,
{
    let mut p: usize = 0;
    while p < found.len() && found[p] < idx
        invariant
            p <= found@.len(),
            found@ == old(found)@,
            forall|q: int| 0 <= q < p ==> found@[q] < idx,
        decreases found@.len() - p,
    {
        p = p + 1;
    }
    if p < found.len() && found[p] == idx {
        assert(found@.contains(idx));
    } else {
        let ghost before = found@;
        found.insert(p, idx);
        assert forall|a: int, b: int| 0 <= a < b < found@.len() implies found@[a] < found@[b] by {
            if b < p {
                assert(found@[a] == before[a] && found@[b] == before[b]);
            } else if b == p {
            } else if a < p {
                assert(found@[b] == before[b - 1]);
                assert(before[p as int] > idx);
                if b - 1 > p {
                    assert(before[p as int] < before[b - 1]);
                }
            } else if a == p {
                assert(found@[b] == before[b - 1]);
                if b - 1 > p {
                    assert(before[p as int] < before[b - 1]);
                }
            } else {
                assert(found@[a] == before[a - 1] && found@[b] == before[b - 1]);
            }
        }
        assert forall|x: usize| found@.contains(x) <==> before.contains(x) || x == idx by {
            if found@.contains(x) {
                let q = choose|q: int| 0 <= q < found@.len() && found@[q] == x;
                if q < p {
                    assert(before[q] == x);
                } else if q > p {
                    assert(before[q - 1] == x);
                }
            }
            if before.contains(x) {
                let q = choose|q: int| 0 <= q < before.len() && before[q] == x;
                if q < p {
                    assert(found@[q] == x);
                } else {
                    assert(found@[q + 1] == x);
                }
            }
            if x == idx {
                assert(found@[p as int] == x);
            }
        }
    }
}

/// The indices of `{prefix}{index}{suffix}` variables with non-empty
/// values, ascending and without repeats.
pub fn collect_indices_from(pairs: &Vec<(String, String)>, prefix: &str, suffix: &str) -> (r: Vec<usize>)
    ensures
        strictly_increasing(r@),
        forall|x: usize| #[trigger] r@.contains(x) <==> index_found(pairs_view(pairs@), prefix@, suffix@, x as nat),
{
    let ghost pv = pairs_view(pairs@);
    let mut found: Vec<usize> = Vec::new();
    let mut k: usize = 0;
    while k < pairs.len()
        invariant
            k <= pairs@.len(),
            pv == pairs_view(pairs@),
            strictly_increasing(found@),
            forall|x: usize| #[trigger] found@.contains(x) <==> exists|m: int| 0 <= m < k && pv[m].1.len() > 0 && indexed_key_spec(#[trigger] pv[m].0, prefix@, suffix@) == Some(x as nat),
        decreases pairs@.len() - k,
    {
        assert(pv[k as int] == (pairs@[k as int].0@, pairs@[k as int].1@));
        let ghost f0 = found@;
        let ghost mut hit: Option<usize> = None;
        if pairs[k].1.unicode_len() > 0 {
            match parse_indexed_key(pairs[k].0.as_str(), prefix, suffix) {
                Some(idx) => {
                    proof {
                        hit = Some(idx);
                    }
                    insert_sorted_unique(&mut found, idx);
                },
                None => {},
            }
        }
        proof {
            assert(hit is Some ==> pv[k as int].1.len() > 0 && indexed_key_spec(pv[k as int].0, prefix@, suffix@) == Some(hit.unwrap() as nat));
            assert(hit is None ==> !(pv[k as int].1.len() > 0 && indexed_key_spec(pv[k as int].0, prefix@, suffix@) is Some));
            assert(forall|x: usize| found@.contains(x) <==> f0.contains(x) || hit == Some(x));
            assert forall|x: usize| #[trigger] found@.contains(x) <==> exists|m: int| 0 <= m < k + 1 && pv[m].1.len() > 0 && indexed_key_spec(#[trigger] pv[m].0, prefix@, suffix@) == Some(x as nat) by {
                if exists|m: int| 0 <= m < k + 1 && pv[m].1.len() > 0 && indexed_key_spec(#[trigger] pv[m].0, prefix@, suffix@) == Some(x as nat) {
                    let m = choose|m: int| 0 <= m < k + 1 && pv[m].1.len() > 0 && indexed_key_spec(#[trigger] pv[m].0, prefix@, suffix@) == Some(x as nat);
                    if m < k {
                        assert(f0.contains(x));
                    } else {
                        assert(hit == Some(x));
                    }
                }
                if f0.contains(x) {
                    let m = choose|m: int| 0 <= m < k && pv[m].1.len() > 0 && indexed_key_spec(#[trigger] pv[m].0, prefix@, suffix@) == Some(x as nat);
                    assert(m < k + 1);
                }
                if hit == Some(x) {
                    assert(pv[k as int].1.len() > 0 && indexed_key_spec(pv[k as int].0, prefix@, suffix@) == Some(x as nat));
                }
            }
        }
        k = k + 1;
    }
    assert forall|x: usize| #[trigger] found@.contains(x) <==> index_found(pv, prefix@, suffix@, x as nat) by {}
    found
}

/// Two ascending sequences of the same indices are equal.
pub proof fn lemma_increasing_unique(a: Seq<usize>, b: Seq<usize>)
    requires
        strictly_increasing(a),
        strictly_increasing(b),
        forall|x: usize| a.contains(x) <==> b.contains(x),
    ensures
        a == b,
    decreases a.len(),
{
    if a.len() == 0 {
        if b.len() > 0 {
            assert(b.contains(b[0]));
        }
        assert(a =~= b);
    } else {
        assert(a.contains(a[0]));
        assert(b.contains(a[0]));
        assert(b.len() > 0);
        assert(b.contains(b[0]));
        assert(a.contains(b[0]));
        let i = choose|i: int| 0 <= i < a.len() && a[i] == b[0];
        let j = choose|j: int| 0 <= j < b.len() && b[j] == a[0];
        if i > 0 {
            assert(a[0] < a[i]);
        }
        if j > 0 {
            assert(b[0] < b[j]);
        }
        assert(a[0] == b[0]);
        let a1 = a.drop_first();
        let b1 = b.drop_first();
        assert forall|x: usize| a1.contains(x) <==> b1.contains(x) by {
            if a1.contains(x) {
                let q = choose|q: int| 0 <= q < a1.len() && a1[q] == x;
                assert(a[q + 1] == x && a[0] < a[q + 1]);
                assert(b.contains(x));
                let r = choose|r: int| 0 <= r < b.len() && b[r] == x;
                assert(r != 0);
                assert(b1[r - 1] == x);
            }
            if b1.contains(x) {
                let q = choose|q: int| 0 <= q < b1.len() && b1[q] == x;
                assert(b[q + 1] == x && b[0] < b[q + 1]);
                assert(a.contains(x));
                let r = choose|r: int| 0 <= r < a.len() && a[r] == x;
                assert(r != 0);
                assert(a1[r - 1] == x);
            }
        }
        lemma_increasing_unique(a1, b1);
        assert(a =~= seq![a[0]] + a1);
        assert(b =~= seq![b[0]] + b1);
    }
}

/// The indices named by `{prefix}{index}{suffix}` variables, ascending.
pub open spec fn indices(pv: Seq<(Seq<char>, Seq<char>)>, prefix: Seq<char>, suffix: Seq<char>) -> Seq<usize> {
    choose|s: Seq<usize>| strictly_increasing(s) && forall|x: usize| #[trigger] s.contains(x) <==> index_found(pv, prefix, suffix, x as nat)
}

fn discover(pairs: &Vec<(String, String)>, prefix: &str, suffix: &str) -> (r: Vec<usize>)
    ensures
        r@ == indices(pairs_view(pairs@), prefix@, suffix@),
        forall|x: usize| #[trigger] r@.contains(x) ==> index_found(pairs_view(pairs@), prefix@, suffix@, x as nat),
{
    let r = collect_indices_from(pairs, prefix, suffix);
    proof {
        let c = indices(pairs_view(pairs@), prefix@, suffix@);
        assert(strictly_increasing(c) && forall|x: usize| #[trigger] c.contains(x) <==> index_found(pairs_view(pairs@), prefix@, suffix@, x as nat));
        lemma_increasing_unique(r@, c);
    }
    r
}

pub open spec fn profile_props_w(pv: Seq<(Seq<char>, Seq<char>)>, prefix: Seq<char>) -> Leaves {
    Seq::new(4, |i: int| env_opt(pv, prefix + all_props()[i].names().env_suffix.unwrap()))
}

pub open spec fn custom_w(pv: Seq<(Seq<char>, Seq<char>)>, prefix: Seq<char>) -> Option<Leaves> {
    let c = seq![env_opt(pv, prefix + "CUSTOM_STATUS_TEXT"@), env_opt(pv, prefix + "CUSTOM_STATUS_EMOJI"@)];
    if any_set(c) {
        Some(c)
    } else {
        None
    }
}

pub open spec fn singular_activity_w(pv: Seq<(Seq<char>, Seq<char>)>, prefix: Seq<char>) -> Option<Leaves> {
    let a = Seq::new(18, |f: int| env_opt(pv, singular_activity_key_spec(prefix, all_activities()[f])));
    if any_set(a) {
        Some(a)
    } else {
        None
    }
}

pub open spec fn indexed_activity_w(pv: Seq<(Seq<char>, Seq<char>)>, prefix: Seq<char>, j: nat) -> Leaves {
    Seq::new(18, |f: int| env_opt(pv, indexed_activity_key_spec(prefix, j, all_activities()[f])))
}

pub open spec fn fold_activities(pv: Seq<(Seq<char>, Seq<char>)>, prefix: Seq<char>, js: Seq<usize>) -> Seq<Leaves>
    decreases js.len(),
{
    if js.len() == 0 {
        Seq::empty()
    } else {
        let prev = fold_activities(pv, prefix, js.drop_last());
        let a = indexed_activity_w(pv, prefix, js.last() as nat);
        if any_set(a) {
            insert_activity_w(prev, js.last() as int, a)
        } else {
            prev
        }
    }
}

pub open spec fn activities_w(pv: Seq<(Seq<char>, Seq<char>)>, prefix: Seq<char>) -> Seq<Leaves> {
    fold_activities(pv, prefix, indices(pv, prefix + "ACTIVITY_"@, Seq::empty()))
}

pub open spec fn flat_account_w(pv: Seq<(Seq<char>, Seq<char>)>) -> AccountW {
    AccountW {
        scalars: Seq::new(5, |f: int| env_opt(pv, singular_account_key_spec(all_scalars()[f]))),
        custom: custom_w(pv, Seq::empty()),
        activity: singular_activity_w(pv, Seq::empty()),
        activities: activities_w(pv, Seq::empty()),
    }
}

/// `ACCOUNT_{i}_`.
pub open spec fn account_prefix(i: nat) -> Seq<char> {
    "ACCOUNT_"@ + nat_decimal(i) + "_"@
}

pub open spec fn indexed_account_w(pv: Seq<(Seq<char>, Seq<char>)>, i: nat) -> AccountW {
    AccountW {
        scalars: Seq::new(5, |f: int| env_opt(pv, indexed_account_key_spec(i, all_scalars()[f]))),
        custom: custom_w(pv, account_prefix(i)),
        activity: singular_activity_w(pv, account_prefix(i)),
        activities: activities_w(pv, account_prefix(i)),
    }
}

pub open spec fn fold_accounts(pv: Seq<(Seq<char>, Seq<char>)>, is: Seq<usize>) -> Seq<AccountW>
    decreases is.len(),
{
    if is.len() == 0 {
        Seq::empty()
    } else {
        let prev = fold_accounts(pv, is.drop_last());
        let i = is.last() as nat;
        if env_opt(pv, indexed_account_key_spec(i, AccountScalarField::Token)) is Some {
            insert_account_w(prev, i as int, indexed_account_w(pv, i))
        } else {
            prev
        }
    }
}

/// The indexed layer of the given variables.
pub open spec fn env_layer_w(pv: Seq<(Seq<char>, Seq<char>)>) -> ConfigW {
    ConfigW {
        log_level: env_opt(pv, "LOG_LEVEL"@),
        health_socket: env_opt(pv, "HEALTH_SOCKET"@),
        defaults: Seq::new(4, |p: int| profile_props_w(pv, all_profiles()[p].prefix_spec())),
        account: flat_account_w(pv),
        accounts: fold_accounts(pv, indices(pv, "ACCOUNT_"@, "_TOKEN"@)),
    }
}

/// No activity variable names the index `usize::MAX`, which no list can
/// hold.
pub open spec fn activity_indices_fit(pv: Seq<(Seq<char>, Seq<char>)>) -> bool {
    forall|p: Seq<char>| !index_found(pv, p + "ACTIVITY_"@, Seq::empty(), usize::MAX as nat)
}

fn client_props_from_env(pairs: &Vec<(String, String)>, prefix: &str) -> (r: PartialClientProperties)
    ensures
        r@ == profile_props_w(pairs_view(pairs@), prefix@),
{
    let mut set = PartialClientProperties::default();
    let fields = ClientPropField::all();
    let ghost pv = pairs_view(pairs@);
    let mut i: usize = 0;
    while i < fields.len()
        invariant
            fields@ == all_props(),
            pv == pairs_view(pairs@),
            i <= 4,
            set@.len() == 4,
            forall|j: int| 0 <= j < 4 ==> #[trigger] set@[j] == (if j < i { profile_props_w(pv, prefix@)[j] } else { None }),
        decreases 4 - i,
    {
        let field = fields[i];
        assert(field.index() == i);
        let key = String::from_str(prefix).concat(field.env_suffix());
        match env_value(pairs, key.as_str()) {
            Some(v) => {
                let slot = field.get_mut(&mut set);
                *slot = Some(v);
            },
            None => {},
        }
        i = i + 1;
    }
    assert(set@ =~= profile_props_w(pv, prefix@));
    set
}

fn defaults_from_env(pairs: &Vec<(String, String)>) -> (r: PartialDefaults)
    ensures
        r@ == Seq::new(4, |p: int| profile_props_w(pairs_view(pairs@), all_profiles()[p].prefix_spec())),
{
    let mut defaults = PartialDefaults::default();
    let profiles = DefaultsProfile::all();
    let ghost pv = pairs_view(pairs@);
    let mut i: usize = 0;
    while i < profiles.len()
        invariant
            profiles@ == all_profiles(),
            pv == pairs_view(pairs@),
            i <= 4,
            defaults@.len() == 4,
            forall|j: int| 0 <= j < 4 ==> #[trigger] defaults@[j] == (if j < i { profile_props_w(pv, all_profiles()[j].prefix_spec()) } else { unset(4) }),
        decreases 4 - i,
    {
        let profile = profiles[i];
        assert(profile.index() == i);
        let props = client_props_from_env(pairs, profile.env_prefix());
        if any_client_prop_set(&props) {
            *profile.props_mut(&mut defaults) = props;
        } else {
            assert(props@ =~= unset(4));
        }
        i = i + 1;
    }
    assert(defaults@ =~= Seq::new(4, |p: int| profile_props_w(pv, all_profiles()[p].prefix_spec())));
    defaults
}

fn custom_status_from_env(pairs: &Vec<(String, String)>, prefix: &str) -> (r: Option<PartialCustomStatus>)
    ensures
        crate::config::partial::custom_view(r) == custom_w(pairs_view(pairs@), prefix@),
{
    let text_key = String::from_str(prefix).concat(CustomStatusField::Text.env_suffix());
    let emoji_key = String::from_str(prefix).concat(CustomStatusField::Emoji.env_suffix());
    let custom = PartialCustomStatus { text: env_value(pairs, text_key.as_str()), emoji: env_value(pairs, emoji_key.as_str()) };
    if any_custom_status_field_set(&custom) {
        Some(custom)
    } else {
        None
    }
}

fn singular_activity_from_env(pairs: &Vec<(String, String)>, prefix: &str) -> (r: Option<PartialActivity>)
    ensures
        activity_view(r) == singular_activity_w(pairs_view(pairs@), prefix@),
{
    let mut act = PartialActivity::default();
    let fields = ActivityField::all();
    let ghost pv = pairs_view(pairs@);
    let ghost want = Seq::new(18, |f: int| env_opt(pv, singular_activity_key_spec(prefix@, all_activities()[f])));
    let mut i: usize = 0;
    while i < fields.len()
        invariant
            fields@ == all_activities(),
            pv == pairs_view(pairs@),
            want == Seq::new(18, |f: int| env_opt(pv, singular_activity_key_spec(prefix@, all_activities()[f]))),
            i <= 18,
            act@.len() == 18,
            forall|j: int| 0 <= j < 18 ==> #[trigger] act@[j] == (if j < i { want[j] } else { None }),
        decreases 18 - i,
    {
        let field = fields[i];
        assert(field.index() == i);
        let key = singular_activity_env_key(prefix, field);
        match env_value(pairs, key.as_str()) {
            Some(v) => {
                let slot = field.get_mut(&mut act);
                *slot = Some(v);
            },
            None => {},
        }
        i = i + 1;
    }
    assert(act@ =~= want);
    if any_activity_field_set(&act) {
        Some(act)
    } else {
        None
    }
}

fn indexed_activity_from_env(pairs: &Vec<(String, String)>, prefix: &str, index: usize) -> (r: PartialActivity)
    ensures
        r@ == indexed_activity_w(pairs_view(pairs@), prefix@, index as nat),
{
    let mut act = PartialActivity::default();
    let fields = ActivityField::all();
    let ghost pv = pairs_view(pairs@);
    let ghost want = indexed_activity_w(pv, prefix@, index as nat);
    let mut i: usize = 0;
    while i < fields.len()
        invariant
            fields@ == all_activities(),
            pv == pairs_view(pairs@),
            want == indexed_activity_w(pv, prefix@, index as nat),
            i <= 18,
            act@.len() == 18,
            forall|j: int| 0 <= j < 18 ==> #[trigger] act@[j] == (if j < i { want[j] } else { None }),
        decreases 18 - i,
    {
        let field = fields[i];
        assert(field.index() == i);
        let key = indexed_activity_env_key(prefix, index, field);
        match env_value(pairs, key.as_str()) {
            Some(v) => {
                let slot = field.get_mut(&mut act);
                *slot = Some(v);
            },
            None => {},
        }
        i = i + 1;
    }
    assert(act@ =~= want);
    act
}

fn indexed_activities_from_env(pairs: &Vec<(String, String)>, prefix: &str) -> (r: Vec<PartialActivity>)
    requires
        activity_indices_fit(pairs_view(pairs@)),
    ensures
        acts_view(r@) == activities_w(pairs_view(pairs@), prefix@),
{
    let base = String::from_str(prefix).concat(ACTIVITY_INDEX_PREFIX);
    let js = discover(pairs, base.as_str(), "");
    let ghost pv = pairs_view(pairs@);
    let mut activities: Vec<PartialActivity> = Vec::new();
    let mut k: usize = 0;
    assert(js@.subrange(0, 0) =~= Seq::<usize>::empty());
    assert(acts_view(activities@) =~= Seq::<Leaves>::empty());
    while k < js.len()
        invariant
            k <= js@.len(),
            pv == pairs_view(pairs@),
            activity_indices_fit(pv),
            forall|x: usize| #[trigger] js@.contains(x) ==> index_found(pv, base@, ""@, x as nat),
            base@ == prefix@ + "ACTIVITY_"@,
            acts_view(activities@) == fold_activities(pv, prefix@, js@.subrange(0, k as int)),
        decreases js@.len() - k,
    {
        let j = js[k];
        proof {
            assert(js@.contains(j));
            assert(js@.subrange(0, k + 1).drop_last() =~= js@.subrange(0, k as int));
            reveal_strlit("");
            assert(""@ == Seq::<char>::empty());
            assert(!index_found(pv, prefix@ + "ACTIVITY_"@, Seq::empty(), usize::MAX as nat));
        }
        let act = indexed_activity_from_env(pairs, prefix, j);
        if any_activity_field_set(&act) {
            insert_indexed_activity(&mut activities, j, act);
        }
        k = k + 1;
    }
    assert(js@.subrange(0, js@.len() as int) =~= js@);
    proof {
        reveal_strlit("");
        assert(""@ == Seq::<char>::empty());
    }
    activities
}

fn account_scalars_from_env(pairs: &Vec<(String, String)>, index: Option<usize>) -> (r: PartialAccount)
    ensures
        r.scalars_view() == match index {
            None => Seq::new(5, |f: int| env_opt(pairs_view(pairs@), singular_account_key_spec(all_scalars()[f]))),
            Some(i) => Seq::new(5, |f: int| env_opt(pairs_view(pairs@), indexed_account_key_spec(i as nat, all_scalars()[f]))),
        },
        r.custom_status is None && r.activity is None && r.activities@.len() == 0,
{
    let mut acc = PartialAccount::default();
    assert(acc.activities@.len() == acts_view(acc.activities@).len());
    assert(acc.custom_status is None && acc.activity is None);
    let fields = AccountScalarField::all();
    let ghost pv = pairs_view(pairs@);
    let ghost want = match index {
        None => Seq::new(5, |f: int| env_opt(pv, singular_account_key_spec(all_scalars()[f]))),
        Some(i) => Seq::new(5, |f: int| env_opt(pv, indexed_account_key_spec(i as nat, all_scalars()[f]))),
    };
    let mut i: usize = 0;
    while i < fields.len()
        invariant
            fields@ == all_scalars(),
            pv == pairs_view(pairs@),
            want == match index {
                None => Seq::new(5, |f: int| env_opt(pv, singular_account_key_spec(all_scalars()[f]))),
                Some(i) => Seq::new(5, |f: int| env_opt(pv, indexed_account_key_spec(i as nat, all_scalars()[f]))),
            },
            i <= 5,
            acc.scalars_view().len() == 5,
            forall|j: int| 0 <= j < 5 ==> #[trigger] acc.scalars_view()[j] == (if j < i { want[j] } else { None }),
            acc.custom_status is None && acc.activity is None && acc.activities@.len() == 0,
        decreases 5 - i,
    {
        let field = fields[i];
        assert(field.index() == i);
        let key = match index {
            None => singular_account_env_key(field),
            Some(n) => indexed_account_env_key(n, field),
        };
        match env_value(pairs, key.as_str()) {
            Some(v) => field.set(&mut acc, v),
            None => {},
        }
        i = i + 1;
    }
    assert(acc.scalars_view() =~= want);
    acc
}

fn account_from_env(pairs: &Vec<(String, String)>, index: Option<usize>) -> (r: PartialAccount)
    requires
        activity_indices_fit(pairs_view(pairs@)),
    ensures
        r.view_w() == match index {
            None => flat_account_w(pairs_view(pairs@)),
            Some(i) => indexed_account_w(pairs_view(pairs@), i as nat),
        },
{
    let mut acc = account_scalars_from_env(pairs, index);
    let prefix = match index {
        None => String::new(),
        Some(n) => String::from_str(ACCOUNT_INDEX_PREFIX).concat(u64_to_string(n as u64).as_str()).concat("_"),
    };
    proof {
        reveal_strlit("_");
        match index {
            None => assert(prefix@ =~= Seq::<char>::empty()),
            Some(n) => assert(prefix@ =~= account_prefix(n as nat)),
        }
    }
    acc.custom_status = custom_status_from_env(pairs, prefix.as_str());
    acc.activity = singular_activity_from_env(pairs, prefix.as_str());
    acc.activities = indexed_activities_from_env(pairs, prefix.as_str());
    acc
}

fn indexed_accounts_from_env(pairs: &Vec<(String, String)>) -> (r: Vec<PartialAccount>)
    requires
        activity_indices_fit(pairs_view(pairs@)),
    ensures
        accounts_w(r@) == fold_accounts(pairs_view(pairs@), indices(pairs_view(pairs@), "ACCOUNT_"@, "_TOKEN"@)),
{
    let is = discover(pairs, ACCOUNT_INDEX_PREFIX, ACCOUNT_INDEX_TOKEN_SUFFIX);
    let ghost pv = pairs_view(pairs@);
    let mut accounts: Vec<PartialAccount> = Vec::new();
    let mut k: usize = 0;
    assert(is@.subrange(0, 0) =~= Seq::<usize>::empty());
    assert(accounts_w(accounts@) =~= Seq::<AccountW>::empty());
    while k < is.len()
        invariant
            k <= is@.len(),
            pv == pairs_view(pairs@),
            activity_indices_fit(pv),
            accounts_w(accounts@) == fold_accounts(pv, is@.subrange(0, k as int)),
        decreases is@.len() - k,
    {
        let i = is[k];
        assert(is@.subrange(0, k + 1).drop_last() =~= is@.subrange(0, k as int));
        let token_key = indexed_account_env_key(i, AccountScalarField::Token);
        match env_value(pairs, token_key.as_str()) {
            Some(_) => {
                let acc = account_from_env(pairs, Some(i));
                insert_indexed_account(&mut accounts, i, acc);
            },
            None => {},
        }
        k = k + 1;
    }
    assert(is@.subrange(0, is@.len() as int) =~= is@);
    accounts
}

/// The indexed layer of the given variables: log level and health socket,
/// client-property overrides, the flat account (`TOKEN`, `ACCOUNT`, …),
/// and each `ACCOUNT_{i}` with a non-blank token, with activities by index.
pub fn from_env_map(pairs: &Vec<(String, String)>) -> (r: PartialConfig)
    requires
        activity_indices_fit(pairs_view(pairs@)),
    ensures
        r.view_w() == env_layer_w(pairs_view(pairs@)),
{
    let mut partial = PartialConfig::default();
    partial.log_level = env_value(pairs, ENV_LOG_LEVEL);
    partial.health_socket = env_value(pairs, ENV_HEALTH_SOCKET);
    partial.defaults = defaults_from_env(pairs);
    partial.account = account_from_env(pairs, None);
    partial.accounts = indexed_accounts_from_env(pairs);
    assert(partial.view_w() =~= env_layer_w(pairs_view(pairs@)));
    partial
}

} // verus!
