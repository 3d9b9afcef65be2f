//! Merging a layer onto another: a set leaf overwrites, an unset leaf keeps
//! what was there, maps merge by id and orders only append missing ids.

use crate::config::fields::{AccountScalarField, ActivityField, ClientPropField, CustomStatusField, DefaultsProfile};
use crate::config::keyed::{sorted_keys, KeyedMap};
use crate::config::order::{append_missing, append_missing_keys, merge_order};
use crate::config::partial::{
    account_set, any_client_prop_set, account_view, accounts_view, activities_view, any_account_field_set, any_activity_field_set,
    any_activity_set, any_set, config_view, custom_view, overlay, strings_view, unset, AccountV, ConfigV, Leaves,
    PartialAccount, PartialActivity, PartialClientProperties, PartialConfig, PartialCustomStatus, PartialDefaults,
};
use crate::config::path::{account_shape, layer_shape, leaf_v, AccountPathV, PathV};
use crate::text::opt_view;
use vstd::prelude::*;

verus! {

/// Some activity of an account view sets a field.
pub open spec fn account_set_v(a: AccountV) -> bool {
    any_set(a.scalars) || a.custom is Some || exists|k: Seq<char>| a.activities.dom().contains(k) && any_set(#[trigger] a.activities[k])
}

/// Activities merged by id: a source activity that sets nothing is skipped.
pub open spec fn merge_activities_v(d: Map<Seq<char>, Leaves>, s: Map<Seq<char>, Leaves>) -> Map<Seq<char>, Leaves> {
    Map::new(
        |k: Seq<char>| d.dom().contains(k) || (s.dom().contains(k) && any_set(s[k])),
        |k: Seq<char>|
            if s.dom().contains(k) && any_set(s[k]) {
                if d.dom().contains(k) {
                    overlay(d[k], s[k])
                } else {
                    s[k]
                }
            } else {
                d[k]
            },
    )
}

/// An account after merging `s` onto `d`.
pub open spec fn merge_account_v(d: AccountV, s: AccountV) -> AccountV {
    let acts = merge_activities_v(d.activities, s.activities);
    AccountV {
        scalars: overlay(d.scalars, s.scalars),
        custom: match s.custom {
            Some(c) => Some(
                overlay(
                    match d.custom {
                        Some(x) => x,
                        None => unset(2),
                    },
                    c,
                ),
            ),
            None => d.custom,
        },
        activities: acts,
        order: append_missing(append_missing(d.order, s.order), sorted_keys(acts.dom())),
    }
}

/// Accounts merged by id: a source account that sets nothing is skipped.
pub open spec fn merge_accounts_v(d: Map<Seq<char>, AccountV>, s: Map<Seq<char>, AccountV>) -> Map<Seq<char>, AccountV> {
    Map::new(
        |k: Seq<char>| d.dom().contains(k) || (s.dom().contains(k) && account_set_v(s[k])),
        |k: Seq<char>|
            if s.dom().contains(k) && account_set_v(s[k]) {
                if d.dom().contains(k) {
                    merge_account_v(d[k], s[k])
                } else {
                    s[k]
                }
            } else {
                d[k]
            },
    )
}

/// A layer after merging `s` onto `d`.
pub open spec fn merge_v(d: ConfigV, s: ConfigV) -> ConfigV {
    let accs = merge_accounts_v(d.accounts, s.accounts);
    ConfigV {
        log_level: if s.log_level is Some {
            s.log_level
        } else {
            d.log_level
        },
        health_socket: if s.health_socket is Some {
            s.health_socket
        } else {
            d.health_socket
        },
        defaults: Seq::new(4, |i: int| overlay(d.defaults[i], s.defaults[i])),
        accounts: accs,
        order: append_missing(append_missing(d.order, s.order), sorted_keys(accs.dom())),
    }
}

pub proof fn lemma_account_set_view(a: PartialAccount)
    ensures
        account_set_v(account_view(a)) == account_set(a),
{
    let v = account_view(a);
    if any_activity_set(a.activities@) {
        let k = choose|k: Seq<char>| a.activities@.dom().contains(k) && any_set(#[trigger] a.activities@[k]@);
        assert(v.activities.dom().contains(k) && any_set(v.activities[k]));
    }
    if exists|k: Seq<char>| v.activities.dom().contains(k) && any_set(#[trigger] v.activities[k]) {
        let k = choose|k: Seq<char>| v.activities.dom().contains(k) && any_set(#[trigger] v.activities[k]);
        assert(a.activities@.dom().contains(k) && any_set(a.activities@[k]@));
    }
}

/// Merging keeps every id: the accounts of the earlier layer all remain,
/// under the same ids; the only ids added are those of later-layer accounts
/// that set something; and the earlier account order stays a prefix of the
/// merged order.
pub proof fn lemma_merge_keeps_ids(d: ConfigV, s: ConfigV)
    ensures
        forall|k: Seq<char>| #[trigger] merge_v(d, s).accounts.dom().contains(k)
            <==> d.accounts.dom().contains(k) || (s.accounts.dom().contains(k) && account_set_v(s.accounts[k])),
        merge_v(d, s).order.len() >= d.order.len(),
        merge_v(d, s).order.subrange(0, d.order.len() as int) == d.order,
{
    let accs = merge_accounts_v(d.accounts, s.accounts);
    let mid = append_missing(d.order, s.order);
    crate::config::order::lemma_merge_order_appends_missing_only(d.order, s.order);
    crate::config::order::lemma_merge_order_appends_missing_only(mid, sorted_keys(accs.dom()));
    assert(merge_v(d, s).order.subrange(0, d.order.len() as int) =~= mid.subrange(0, d.order.len() as int));
}

/// Merging is field by field: in an account that both layers hold, each
/// scalar leaf and each leaf of an activity the earlier layer holds takes
/// the later value when the later layer sets it and keeps the earlier value
/// otherwise; no activity of the earlier layer is dropped.
pub proof fn lemma_merge_field_level(d: ConfigV, s: ConfigV, id: Seq<char>, act: Seq<char>, i: int)
    requires
        d.accounts.dom().contains(id),
        s.accounts.dom().contains(id),
        account_set_v(s.accounts[id]),
        d.accounts[id].activities.dom().contains(act) && s.accounts[id].activities.dom().contains(act)
            ==> s.accounts[id].activities[act].len() == d.accounts[id].activities[act].len(),
    ensures
        0 <= i < d.accounts[id].scalars.len() ==> merge_v(d, s).accounts[id].scalars[i] == if s.accounts[id].scalars[i] is Some {
            s.accounts[id].scalars[i]
        } else {
            d.accounts[id].scalars[i]
        },
        d.accounts[id].activities.dom().contains(act) ==> merge_v(d, s).accounts[id].activities.dom().contains(act),
        d.accounts[id].activities.dom().contains(act) && 0 <= i < d.accounts[id].activities[act].len()
            ==> merge_v(d, s).accounts[id].activities[act][i] == if s.accounts[id].activities.dom().contains(act)
            && s.accounts[id].activities[act][i] is Some {
            s.accounts[id].activities[act][i]
        } else {
            d.accounts[id].activities[act][i]
        },
{
    let da = d.accounts[id];
    let sa = s.accounts[id];
    assert(merge_v(d, s).accounts[id] == merge_account_v(da, sa));
    if da.activities.dom().contains(act) && 0 <= i < da.activities[act].len() {
        if sa.activities.dom().contains(act) && any_set(sa.activities[act]) {
        } else if sa.activities.dom().contains(act) {
            assert(!(sa.activities[act][i] is Some));
        }
    }
}

/// A layer that sets nothing changes no setting: merging it keeps the log
/// level, the health socket, the client-property overrides and every
/// account.
pub proof fn lemma_merge_empty_layer(d: ConfigV)
    requires
        d.defaults.len() == 4,
        forall|i: int| 0 <= i < 4 ==> (#[trigger] d.defaults[i]).len() == 4,
    ensures
        merge_v(d, crate::config::partial::empty_config()).log_level == d.log_level,
        merge_v(d, crate::config::partial::empty_config()).health_socket == d.health_socket,
        merge_v(d, crate::config::partial::empty_config()).defaults == d.defaults,
        merge_v(d, crate::config::partial::empty_config()).accounts == d.accounts,
{
    let e = crate::config::partial::empty_config();
    let m = merge_v(d, e);
    assert forall|i: int| 0 <= i < 4 implies #[trigger] m.defaults[i] == d.defaults[i] by {
        assert(e.defaults[i] == unset(4));
        assert(overlay(d.defaults[i], unset(4)) =~= d.defaults[i]);
    }
    assert(m.defaults =~= d.defaults);
    assert(m.accounts =~= d.accounts);
}

/// Merging two well-shaped layers gives a well-shaped layer.
pub proof fn lemma_merge_shape(d: ConfigV, s: ConfigV)
    requires
        layer_shape(d),
        layer_shape(s),
    ensures
        layer_shape(merge_v(d, s)),
{
    let m = merge_v(d, s);
    assert forall|id: Seq<char>| #[trigger] m.accounts.dom().contains(id) implies account_shape(m.accounts[id]) by {
        if s.accounts.dom().contains(id) && account_set_v(s.accounts[id]) && d.accounts.dom().contains(id) {
            let da = d.accounts[id];
            let sa = s.accounts[id];
            assert(account_shape(da));
            assert(account_shape(sa));
            let acts = merge_activities_v(da.activities, sa.activities);
            assert forall|k: Seq<char>| #[trigger] acts.dom().contains(k) implies acts[k].len() == 18 by {
                if sa.activities.dom().contains(k) && any_set(sa.activities[k]) && da.activities.dom().contains(k) {
                    assert(da.activities[k].len() == 18);
                } else if sa.activities.dom().contains(k) && any_set(sa.activities[k]) {
                    assert(sa.activities[k].len() == 18);
                } else {
                    assert(da.activities[k].len() == 18);
                }
            }
        } else if s.accounts.dom().contains(id) && account_set_v(s.accounts[id]) {
            assert(account_shape(s.accounts[id]));
        } else {
            assert(account_shape(d.accounts[id]));
        }
    }
}

/// Merging is leaf by leaf: every leaf of the merged layer is the later
/// layer's where that one sets it, and the earlier layer's otherwise.
pub proof fn lemma_merge_leafwise(d: ConfigV, s: ConfigV, p: PathV)
    requires
        layer_shape(d),
        layer_shape(s),
    ensures
        leaf_v(merge_v(d, s), p) == if leaf_v(s, p) is Some {
            leaf_v(s, p)
        } else {
            leaf_v(d, p)
        },
{
    let m = merge_v(d, s);
    match p {
        PathV::Defaults(pr, f) => {
            assert(d.defaults[pr.index()].len() == 4);
        },
        PathV::Account(id, ap) => {
            if s.accounts.dom().contains(id) && account_set_v(s.accounts[id]) {
                let sa = s.accounts[id];
                assert(account_shape(sa));
                if d.accounts.dom().contains(id) {
                    let da = d.accounts[id];
                    assert(account_shape(da));
                    assert(m.accounts[id] == merge_account_v(da, sa));
                    match ap {
                        AccountPathV::Scalar(f) => {},
                        AccountPathV::CustomStatus(f) => {},
                        AccountPathV::Activity(aid, f) => {
                            if sa.activities.dom().contains(aid) && any_set(sa.activities[aid]) {
                                if da.activities.dom().contains(aid) {
                                    assert(da.activities[aid].len() == 18);
                                }
                                assert(sa.activities[aid].len() == 18);
                            } else if sa.activities.dom().contains(aid) {
                                assert(!(sa.activities[aid][f.index()] is Some));
                            }
                        },
                    }
                }
            } else if s.accounts.dom().contains(id) {
                let sa = s.accounts[id];
                assert(!any_set(sa.scalars));
                match ap {
                    AccountPathV::Scalar(f) => {
                        assert(!(sa.scalars[f.index()] is Some));
                    },
                    AccountPathV::CustomStatus(f) => {},
                    AccountPathV::Activity(aid, f) => {
                        if sa.activities.dom().contains(aid) {
                            assert(!any_set(sa.activities[aid]));
                            assert(sa.activities[aid].len() == 18);
                            assert(!(sa.activities[aid][f.index()] is Some));
                        }
                    },
                }
            }
        },
        _ => {},
    }
}

proof fn lemma_overlay_twice(d: Leaves, s: Leaves)
    requires
        d.len() == s.len(),
    ensures
        overlay(overlay(d, s), s) == overlay(d, s),
        overlay(s, s) == s,
{
    assert(overlay(overlay(d, s), s) =~= overlay(d, s));
    assert(overlay(s, s) =~= s);
}

/// Appending ids that are all present already changes nothing.
proof fn lemma_append_present(order: Seq<Seq<char>>, keys: Seq<Seq<char>>)
    requires
        forall|i: int| 0 <= i < keys.len() ==> order.contains(#[trigger] keys[i]),
    ensures
        append_missing(order, keys) == order,
    decreases keys.len(),
{
    if keys.len() > 0 {
        let init = keys.drop_last();
        assert forall|i: int| 0 <= i < init.len() implies order.contains(#[trigger] init[i]) by {
            assert(init[i] == keys[i]);
        }
        lemma_append_present(order, init);
        assert(order.contains(keys[keys.len() - 1]));
    }
}

/// An order that has gone through `append_missing` holds every id appended.
proof fn lemma_append_holds(order: Seq<Seq<char>>, keys: Seq<Seq<char>>)
    ensures
        forall|i: int| 0 <= i < keys.len() ==> append_missing(order, keys).contains(#[trigger] keys[i]),
        forall|i: int| 0 <= i < order.len() ==> append_missing(order, keys).contains(#[trigger] order[i]),
{
    crate::config::order::lemma_merge_order_appends_missing_only(order, keys);
    assert forall|i: int| 0 <= i < keys.len() implies append_missing(order, keys).contains(#[trigger] keys[i]) by {
        assert(keys.contains(keys[i]));
    }
    assert forall|i: int| 0 <= i < order.len() implies append_missing(order, keys).contains(#[trigger] order[i]) by {
        assert(order.contains(order[i]));
    }
}

proof fn lemma_activities_twice(d: Map<Seq<char>, Leaves>, s: Map<Seq<char>, Leaves>)
    requires
        forall|k: Seq<char>| #[trigger] d.dom().contains(k) && s.dom().contains(k) ==> d[k].len() == s[k].len(),
    ensures
        merge_activities_v(merge_activities_v(d, s), s) == merge_activities_v(d, s),
        merge_activities_v(s, s) == s,
{
    let m = merge_activities_v(d, s);
    assert forall|k: Seq<char>| #[trigger] m.dom().contains(k) && s.dom().contains(k) && any_set(s[k]) implies overlay(m[k], s[k]) == m[k] by {
        if d.dom().contains(k) {
            lemma_overlay_twice(d[k], s[k]);
        } else {
            lemma_overlay_twice(s[k], s[k]);
        }
    }
    assert(merge_activities_v(m, s) =~= m);
    assert forall|k: Seq<char>| #[trigger] s.dom().contains(k) && any_set(s[k]) implies overlay(s[k], s[k]) == s[k] by {
        lemma_overlay_twice(s[k], s[k]);
    }
    assert(merge_activities_v(s, s) =~= s);
}

proof fn lemma_account_twice(x: AccountV, y: AccountV)
    requires
        account_shape(x),
        account_shape(y),
    ensures
        merge_account_v(merge_account_v(x, y), y) == merge_account_v(x, y),
{
    let m = merge_account_v(x, y);
    lemma_overlay_twice(x.scalars, y.scalars);
    if let Some(c) = y.custom {
        let base = match x.custom {
            Some(b) => b,
            None => unset(2),
        };
        lemma_overlay_twice(base, c);
    }
    lemma_activities_twice(x.activities, y.activities);
    let acts = merge_activities_v(x.activities, y.activities);
    let keys = sorted_keys(acts.dom());
    let mid = append_missing(x.order, y.order);
    lemma_append_holds(x.order, y.order);
    lemma_append_holds(mid, keys);
    assert forall|i: int| 0 <= i < y.order.len() implies m.order.contains(#[trigger] y.order[i]) by {
        assert(mid.contains(y.order[i]));
        let j = choose|j: int| 0 <= j < mid.len() && mid[j] == y.order[i];
        assert(m.order.contains(mid[j]));
    }
    lemma_append_present(m.order, y.order);
    lemma_append_present(m.order, keys);
}

proof fn lemma_account_onto_itself(y: AccountV)
    requires
        account_shape(y),
        y.activities.dom().finite(),
        forall|k: Seq<char>| #[trigger] y.activities.dom().contains(k) ==> y.order.contains(k),
    ensures
        merge_account_v(y, y) == y,
{
    lemma_overlay_twice(y.scalars, y.scalars);
    if let Some(c) = y.custom {
        lemma_overlay_twice(c, c);
    }
    lemma_activities_twice(y.activities, y.activities);
    assert forall|i: int| 0 <= i < y.order.len() implies y.order.contains(#[trigger] y.order[i]) by {}
    lemma_append_present(y.order, y.order);
    let keys = sorted_keys(y.activities.dom());
    crate::config::keyed::lemma_sorted_keys_exist(y.activities.dom());
    assert forall|i: int| 0 <= i < keys.len() implies y.order.contains(#[trigger] keys[i]) by {
        assert(keys.contains(keys[i]));
    }
    lemma_append_present(y.order, keys);
}

/// Every account of a layer lists each of its activities in its order.
pub open spec fn orders_list_activities(c: ConfigV) -> bool {
    forall|id: Seq<char>, k: Seq<char>|
        #[trigger] c.accounts.dom().contains(id) && #[trigger] c.accounts[id].activities.dom().contains(k)
            ==> c.accounts[id].order.contains(k)
}

/// Applying a layer twice is applying it once, for a layer whose accounts
/// list each of their activities in their order (as every source builds
/// them).
pub proof fn lemma_merge_twice_is_once(d: PartialConfig, s: PartialConfig)
    requires
        orders_list_activities(config_view(s)),
    ensures
        merge_v(merge_v(config_view(d), config_view(s)), config_view(s)) == merge_v(config_view(d), config_view(s)),
{
    let dv = config_view(d);
    let sv = config_view(s);
    crate::config::path::lemma_layer_shape(d);
    crate::config::path::lemma_layer_shape(s);
    let m = merge_v(dv, sv);
    let accs = merge_accounts_v(dv.accounts, sv.accounts);
    assert forall|k: Seq<char>| #[trigger] accs.dom().contains(k) && sv.accounts.dom().contains(k)
        && account_set_v(sv.accounts[k]) implies merge_account_v(accs[k], sv.accounts[k]) == accs[k] by {
        assert(account_shape(sv.accounts[k]));
        if dv.accounts.dom().contains(k) {
            assert(account_shape(dv.accounts[k]));
            lemma_account_twice(dv.accounts[k], sv.accounts[k]);
        } else {
            let a = s.accounts@[k];
            a.activities.lemma_dom_finite();
            assert(sv.accounts[k].activities.dom() =~= a.activities@.dom());
            assert forall|x: Seq<char>| #[trigger] sv.accounts[k].activities.dom().contains(x) implies sv.accounts[k].order.contains(x) by {
                assert(sv.accounts.dom().contains(k) && sv.accounts[k].activities.dom().contains(x));
            }
            lemma_account_onto_itself(sv.accounts[k]);
        }
    }
    let accs2 = merge_accounts_v(accs, sv.accounts);
    assert(accs2 =~= accs);
    assert forall|i: int| 0 <= i < 4 implies #[trigger] overlay(m.defaults[i], sv.defaults[i]) == m.defaults[i] by {
        lemma_overlay_twice(dv.defaults[i], sv.defaults[i]);
    }
    assert(merge_v(m, sv).defaults =~= m.defaults);
    let keys = sorted_keys(accs.dom());
    let mid = append_missing(dv.order, sv.order);
    lemma_append_holds(dv.order, sv.order);
    lemma_append_holds(mid, keys);
    assert forall|i: int| 0 <= i < sv.order.len() implies m.order.contains(#[trigger] sv.order[i]) by {
        assert(mid.contains(sv.order[i]));
        let j = choose|j: int| 0 <= j < mid.len() && mid[j] == sv.order[i];
        assert(m.order.contains(mid[j]));
    }
    lemma_append_present(m.order, sv.order);
    lemma_append_present(m.order, keys);
}

proof fn lemma_overlay_unset(d: Leaves, s: Leaves)
    requires
        !any_set(s),
        d.len() == s.len(),
    ensures
        overlay(d, s) == d,
{
    assert forall|i: int| 0 <= i < d.len() implies overlay(d, s)[i] == d[i] by {
        assert(!(s[i] is Some));
    }
    assert(overlay(d, s) =~= d);
}

/// Overlays the set leaves of `src` onto `dst`.
pub fn merge_custom_status(dst: &mut PartialCustomStatus, src: PartialCustomStatus)
    ensures
        final(dst)@ == overlay(old(dst)@, src@),
{
    let ghost s0 = src@;
    let ghost d0 = dst@;
    let mut src = src;
    let fields = CustomStatusField::all();
    let mut i: usize = 0;
    while i < fields.len()
        invariant
            fields@ == seq![CustomStatusField::Text, CustomStatusField::Emoji],
            i <= 2,
            dst@.len() == 2 && src@.len() == 2 && s0.len() == 2 && d0.len() == 2,
            forall|j: int| 0 <= j < 2 ==> #[trigger] dst@[j] == (if j < i { overlay(d0, s0)[j] } else { d0[j] }),
            forall|j: int| 0 <= j < 2 ==> #[trigger] src@[j] == (if j < i { None } else { s0[j] }),
        decreases 2 - i,
    {
        let field = fields[i];
        assert(field.index() == i);
        let v = field.get_mut(&mut src).take();
        if v.is_some() {
            let slot = field.get_mut(dst);
            *slot = v;
        }
        i = i + 1;
    }
    assert(dst@ =~= overlay(d0, s0));
}

/// Overlays the set leaves of `src` onto `dst`.
pub fn merge_activity(dst: &mut PartialActivity, src: PartialActivity)
    ensures
        final(dst)@ == overlay(old(dst)@, src@),
{
    let ghost s0 = src@;
    let ghost d0 = dst@;
    let mut src = src;
    let fields = ActivityField::all();
    let mut i: usize = 0;
    while i < fields.len()
        invariant
            fields@ == seq![ActivityField::Name, ActivityField::Type, ActivityField::Platform, ActivityField::Timestamp, ActivityField::ApplicationId, ActivityField::Details, ActivityField::Url, ActivityField::LargeImage, ActivityField::LargeImageText, ActivityField::SmallImage, ActivityField::SmallImageText, ActivityField::Button, ActivityField::ButtonUrl, ActivityField::Button2, ActivityField::Button2Url, ActivityField::PartyId, ActivityField::PartyCurrent, ActivityField::PartyMax],
            i <= 18,
            dst@.len() == 18 && src@.len() == 18 && s0.len() == 18 && d0.len() == 18,
            forall|j: int| 0 <= j < 18 ==> #[trigger] dst@[j] == (if j < i { overlay(d0, s0)[j] } else { d0[j] }),
            forall|j: int| 0 <= j < 18 ==> #[trigger] src@[j] == (if j < i { None } else { s0[j] }),
        decreases 18 - i,
    {
        let field = fields[i];
        assert(field.index() == i);
        let v = field.get_mut(&mut src).take();
        if v.is_some() {
            let slot = field.get_mut(dst);
            *slot = v;
        }
        i = i + 1;
    }
    assert(dst@ =~= overlay(d0, s0));
}

/// Overlays the set leaves of `src` onto `dst`.
pub fn merge_client_properties(dst: &mut PartialClientProperties, src: PartialClientProperties)
    ensures
        final(dst)@ == overlay(old(dst)@, src@),
{
    let ghost s0 = src@;
    let ghost d0 = dst@;
    let mut src = src;
    let fields = ClientPropField::all();
    let mut i: usize = 0;
    while i < fields.len()
        invariant
            fields@ == seq![ClientPropField::Os, ClientPropField::Browser, ClientPropField::Device, ClientPropField::UserAgent],
            i <= 4,
            dst@.len() == 4 && src@.len() == 4 && s0.len() == 4 && d0.len() == 4,
            forall|j: int| 0 <= j < 4 ==> #[trigger] dst@[j] == (if j < i { overlay(d0, s0)[j] } else { d0[j] }),
            forall|j: int| 0 <= j < 4 ==> #[trigger] src@[j] == (if j < i { None } else { s0[j] }),
        decreases 4 - i,
    {
        let field = fields[i];
        assert(field.index() == i);
        let v = field.get_mut(&mut src).take();
        if v.is_some() {
            let slot = field.get_mut(dst);
            *slot = v;
        }
        i = i + 1;
    }
    assert(dst@ =~= overlay(d0, s0));
}

fn merge_profile(dst: &mut PartialDefaults, profile: DefaultsProfile, props: PartialClientProperties)
    ensures
        final(dst)@ == old(dst)@.update(profile.index(), overlay(old(dst)@[profile.index()], props@)),
{
    if any_client_prop_set(&props) {
        merge_client_properties(profile.props_mut(dst), props);
    } else {
        proof {
            lemma_overlay_unset(old(dst)@[profile.index()], props@);
            assert(dst@ =~= old(dst)@.update(profile.index(), overlay(old(dst)@[profile.index()], props@)));
        }
    }
}

/// Overlays each profile's set overrides.
pub fn merge_defaults(dst: &mut PartialDefaults, src: PartialDefaults)
    ensures
        final(dst)@ == Seq::new(4, |i: int| overlay(old(dst)@[i], src@[i])),
{
    let ghost s0 = src@;
    let PartialDefaults { bot, web, desktop, mobile } = src;
    merge_profile(dst, DefaultsProfile::Bot, bot);
    merge_profile(dst, DefaultsProfile::Web, web);
    merge_profile(dst, DefaultsProfile::Desktop, desktop);
    merge_profile(dst, DefaultsProfile::Mobile, mobile);
    assert(dst@ =~= Seq::new(4, |i: int| overlay(old(dst)@[i], s0[i])));
}

/// The source ids already merged.
pub open spec fn merged_ids<V>(e: Seq<(String, V)>, from: int) -> Set<Seq<char>> {
    Set::new(|k: Seq<char>| exists|j: int| from <= j < e.len() && (#[trigger] e[j]).0@ == k)
}

proof fn lemma_replace_view(
    before: Map<Seq<char>, PartialActivity>,
    after: Map<Seq<char>, PartialActivity>,
    id: Seq<char>,
    target: Map<Seq<char>, Leaves>,
)
    requires
        before.dom().contains(id),
        after.dom() == before.dom(),
        forall|k: Seq<char>| k != id && before.dom().contains(k) ==> after[k] == before[k],
        target.dom() == before.dom(),
        target[id] == after[id]@,
        forall|k: Seq<char>| k != id && before.dom().contains(k) ==> target[k] == before[k]@,
    ensures
        activities_view(after) == target,
{
    assert(activities_view(after) =~= target);
}

fn merge_activity_map(dst: &mut KeyedMap<PartialActivity>, src: KeyedMap<PartialActivity>)
    ensures
        activities_view(final(dst)@) == merge_activities_v(activities_view(old(dst)@), activities_view(src@)),
{
    let ghost d0 = activities_view(dst@);
    let ghost s0 = activities_view(src@);
    let ghost src_keys = src.keys_view();
    let mut entries = src.into_entries();
    let ghost e0 = entries@;
    let ghost n = e0.len() as int;
    proof {
        assert(merged_ids(e0, n) =~= Set::<Seq<char>>::empty());
        assert(s0.restrict(merged_ids(e0, n)) =~= Map::<Seq<char>, Leaves>::empty());
        assert(merge_activities_v(d0, Map::<Seq<char>, Leaves>::empty()) =~= d0);
    }
    while entries.len() > 0
        invariant
            entries@ == e0.subrange(0, entries@.len() as int),
            entries@.len() <= n,
            n == e0.len(),
            n == src_keys.len(),
            crate::config::keyed::strictly_sorted(src_keys),
            forall|i: int| 0 <= i < n ==> #[trigger] e0[i].0@ == src_keys[i] && s0.dom().contains(e0[i].0@) && s0[e0[i].0@] == e0[i].1@,
            forall|k: Seq<char>| s0.dom().contains(k) ==> src_keys.contains(k),
            activities_view(dst@) == merge_activities_v(d0, s0.restrict(merged_ids(e0, entries@.len() as int))),
        decreases entries@.len(),
    {
        let ghost m = entries@.len() - 1;
        let ghost done = merged_ids(e0, m + 1);
        let (id, val) = entries.pop().unwrap();
        let ghost done2 = merged_ids(e0, m);
        proof {
            assert(e0[m] == (id, val));
            assert(!done.contains(id@)) by {
                if done.contains(id@) {
                    let j = choose|j: int| m + 1 <= j < e0.len() && (#[trigger] e0[j]).0@ == id@;
                    assert(crate::text::seq_lt(src_keys[m], src_keys[j]));
                    crate::text::lemma_seq_lt_irreflexive(id@);
                }
            }
            assert(done2 =~= done.insert(id@));
        }
        let ghost before = activities_view(dst@);
        let ghost target = merge_activities_v(d0, s0.restrict(done2));
        proof {
            assert(val@ == s0[id@]);
            assert(before.dom().contains(id@) == d0.dom().contains(id@));
            assert(d0.dom().contains(id@) ==> before[id@] == d0[id@]);
            assert forall|k: Seq<char>| k != id@ implies (before.dom().contains(k) == target.dom().contains(k) && (
            before.dom().contains(k) ==> before[k] == target[k])) by {}
        }
        let ghost raw_before = dst@;
        if any_activity_field_set(&val) {
            match dst.remove(id.as_str()) {
                Some(existing) => {
                    assert(raw_before.dom().contains(id@));
                    assert(existing@ == before[id@]);
                    assert(d0.dom().contains(id@));
                    let mut existing = existing;
                    let ghost val_v = val@;
                    merge_activity(&mut existing, val);
                    assert(existing@ == overlay(before[id@], val_v));
                    let ghost mid = dst@;
                    dst.insert(id, existing);
                    proof {
                        assert(target[id@] == overlay(d0[id@], s0[id@]));
                        assert forall|k: Seq<char>| target.dom().contains(k) <==> raw_before.dom().contains(k) by {
                            if k != id@ {
                                assert(before.dom().contains(k) == target.dom().contains(k));
                            }
                        }
                        assert(target.dom() =~= raw_before.dom());
                        lemma_replace_view(raw_before, dst@, id@, target);
                    }
                },
                None => {
                    dst.insert(id, val);
                    proof {
                        assert(target[id@] == s0[id@]);
                        assert forall|k: Seq<char>| target.dom().contains(k) <==> dst@.dom().contains(k) by {
                            if k != id@ {
                                assert(before.dom().contains(k) == target.dom().contains(k));
                            }
                        }
                        assert(target.dom() =~= dst@.dom());
                        lemma_replace_view(dst@, dst@, id@, target);
                    }
                },
            }
        } else {
            proof {
                assert(!target.dom().contains(id@) || target[id@] == d0[id@]);
                assert(activities_view(dst@) =~= target);
            }
        }
    }
    proof {
        assert forall|k: Seq<char>| s0.dom().contains(k) implies merged_ids(e0, 0).contains(k) by {
            let j = choose|j: int| 0 <= j < src_keys.len() && src_keys[j] == k;
            assert(e0[j].0@ == k);
        }
        assert(s0.restrict(merged_ids(e0, 0)) =~= s0);
    }
}

proof fn lemma_replace_account_view(
    before: Map<Seq<char>, PartialAccount>,
    after: Map<Seq<char>, PartialAccount>,
    id: Seq<char>,
    target: Map<Seq<char>, AccountV>,
)
    requires
        before.dom().contains(id),
        after.dom() == before.dom(),
        forall|k: Seq<char>| k != id && before.dom().contains(k) ==> after[k] == before[k],
        target.dom() == before.dom(),
        target[id] == account_view(after[id]),
        forall|k: Seq<char>| k != id && before.dom().contains(k) ==> target[k] == account_view(before[k]),
    ensures
        accounts_view(after) == target,
{
    assert(accounts_view(after) =~= target);
}

fn merge_account_map(dst: &mut KeyedMap<PartialAccount>, src: KeyedMap<PartialAccount>)
    ensures
        accounts_view(final(dst)@) == merge_accounts_v(accounts_view(old(dst)@), accounts_view(src@)),
{
    let ghost d0 = accounts_view(dst@);
    let ghost s0 = accounts_view(src@);
    let ghost src_keys = src.keys_view();
    let mut entries = src.into_entries();
    let ghost e0 = entries@;
    let ghost n = e0.len() as int;
    proof {
        assert(merged_ids(e0, n) =~= Set::<Seq<char>>::empty());
        assert(s0.restrict(merged_ids(e0, n)) =~= Map::<Seq<char>, AccountV>::empty());
        assert(merge_accounts_v(d0, Map::<Seq<char>, AccountV>::empty()) =~= d0);
    }
    while entries.len() > 0
        invariant
            entries@ == e0.subrange(0, entries@.len() as int),
            entries@.len() <= n,
            n == e0.len(),
            n == src_keys.len(),
            crate::config::keyed::strictly_sorted(src_keys),
            forall|i: int| 0 <= i < n ==> #[trigger] e0[i].0@ == src_keys[i] && s0.dom().contains(e0[i].0@) && s0[e0[i].0@] == account_view(e0[i].1),
            forall|k: Seq<char>| s0.dom().contains(k) ==> src_keys.contains(k),
            accounts_view(dst@) == merge_accounts_v(d0, s0.restrict(merged_ids(e0, entries@.len() as int))),
        decreases entries@.len(),
    {
        let ghost m = entries@.len() - 1;
        let ghost done = merged_ids(e0, m + 1);
        let (id, val) = entries.pop().unwrap();
        let ghost done2 = merged_ids(e0, m);
        proof {
            assert(e0[m] == (id, val));
            assert(!done.contains(id@)) by {
                if done.contains(id@) {
                    let j = choose|j: int| m + 1 <= j < e0.len() && (#[trigger] e0[j]).0@ == id@;
                    assert(crate::text::seq_lt(src_keys[m], src_keys[j]));
                    crate::text::lemma_seq_lt_irreflexive(id@);
                }
            }
            assert(done2 =~= done.insert(id@));
        }
        let ghost before = accounts_view(dst@);
        let ghost target = merge_accounts_v(d0, s0.restrict(done2));
        proof {
            assert(account_view(val) == s0[id@]);
            lemma_account_set_view(val);
            assert(before.dom().contains(id@) == d0.dom().contains(id@));
            assert(d0.dom().contains(id@) ==> before[id@] == d0[id@]);
            assert forall|k: Seq<char>| k != id@ implies (before.dom().contains(k) == target.dom().contains(k) && (
            before.dom().contains(k) ==> before[k] == target[k])) by {}
        }
        let ghost raw_before = dst@;
        if any_account_field_set(&val) {
            match dst.remove(id.as_str()) {
                Some(existing) => {
                    assert(raw_before.dom().contains(id@));
                    assert(account_view(existing) == before[id@]);
                    assert(d0.dom().contains(id@));
                    let mut existing = existing;
                    let ghost val_v = account_view(val);
                    merge_account(&mut existing, val);
                    assert(account_view(existing) == merge_account_v(before[id@], val_v));
                    let ghost mid = dst@;
                    dst.insert(id, existing);
                    proof {
                        assert(target[id@] == merge_account_v(d0[id@], s0[id@]));
                        assert forall|k: Seq<char>| target.dom().contains(k) <==> raw_before.dom().contains(k) by {
                            if k != id@ {
                                assert(before.dom().contains(k) == target.dom().contains(k));
                            }
                        }
                        assert(target.dom() =~= raw_before.dom());
                        lemma_replace_account_view(raw_before, dst@, id@, target);
                    }
                },
                None => {
                    dst.insert(id, val);
                    proof {
                        assert(target[id@] == s0[id@]);
                        assert forall|k: Seq<char>| target.dom().contains(k) <==> dst@.dom().contains(k) by {
                            if k != id@ {
                                assert(before.dom().contains(k) == target.dom().contains(k));
                            }
                        }
                        assert(target.dom() =~= dst@.dom());
                        lemma_replace_account_view(dst@, dst@, id@, target);
                    }
                },
            }
        } else {
            proof {
                assert(!target.dom().contains(id@) || target[id@] == d0[id@]);
                assert(accounts_view(dst@) =~= target);
            }
        }
    }
    proof {
        assert forall|k: Seq<char>| s0.dom().contains(k) implies merged_ids(e0, 0).contains(k) by {
            let j = choose|j: int| 0 <= j < src_keys.len() && src_keys[j] == k;
            assert(e0[j].0@ == k);
        }
        assert(s0.restrict(merged_ids(e0, 0)) =~= s0);
    }
}

/// Merges every set leaf of `src` onto `dst`: accounts and activities by
/// id, orders by appending missing ids.
pub fn merge_account(dst: &mut PartialAccount, src: PartialAccount)
    ensures
        account_view(*final(dst)) == merge_account_v(account_view(*old(dst)), account_view(src)),
{
    let ghost d0 = account_view(*dst);
    let ghost s0 = account_view(src);
    let mut src = src;
    let fields = AccountScalarField::all();
    let mut i: usize = 0;
    while i < fields.len()
        invariant
            fields@ == seq![AccountScalarField::Token, AccountScalarField::Name, AccountScalarField::Kind, AccountScalarField::Device, AccountScalarField::Status],
            i <= 5,
            dst.scalars@.len() == 5 && src.scalars@.len() == 5 && s0.scalars.len() == 5 && d0.scalars.len() == 5,
            forall|j: int| 0 <= j < 5 ==> #[trigger] dst.scalars@[j] == (if j < i { overlay(d0.scalars, s0.scalars)[j] } else { d0.scalars[j] }),
            forall|j: int| 0 <= j < 5 ==> #[trigger] src.scalars@[j] == (if j < i { None } else { s0.scalars[j] }),
            custom_view(dst.custom_status) == d0.custom,
            activities_view(dst.activities@) == d0.activities,
            strings_view(dst.activity_order@) == d0.order,
            custom_view(src.custom_status) == s0.custom,
            activities_view(src.activities@) == s0.activities,
            strings_view(src.activity_order@) == s0.order,
        decreases 5 - i,
    {
        let field = fields[i];
        assert(field.index() == i);
        match field.take(&mut src) {
            Some(v) => field.set(dst, v),
            None => {},
        }
        i = i + 1;
    }
    assert(dst.scalars@ =~= overlay(d0.scalars, s0.scalars));
    let PartialAccount { scalars: _, custom_status, activities, activity_order } = src;
    match custom_status {
        Some(src_cs) => {
            let mut cs = match dst.custom_status.take() {
                Some(c) => c,
                None => PartialCustomStatus::default(),
            };
            merge_custom_status(&mut cs, src_cs);
            dst.custom_status = Some(cs);
        },
        None => {},
    }
    merge_activity_map(&mut dst.activities, activities);
    merge_order(&mut dst.activity_order, activity_order.as_slice());
    let keys = dst.activities.keys();
    assert(strings_view(keys@) =~= dst.activities.keys_view());
    append_missing_keys(&mut dst.activity_order, keys.as_slice());
    let ghost want = merge_account_v(d0, s0);
    assert(activities_view(dst.activities@).dom() =~= dst.activities@.dom());
    assert(activities_view(dst.activities@) == want.activities);
    assert(strings_view(dst.activity_order@) == want.order);
    assert(custom_view(dst.custom_status) == want.custom);
    assert(account_view(*dst) =~= want);
}

/// Merges every set leaf of `src` onto `dst`: a set scalar overwrites,
/// defaults merge per leaf, accounts merge by id and the account order only
/// gains the ids it lacks.
pub fn merge_partial(dst: &mut PartialConfig, src: PartialConfig)
    ensures
        config_view(*final(dst)) == merge_v(config_view(*old(dst)), config_view(src)),
{
    let ghost d0 = config_view(*dst);
    let ghost s0 = config_view(src);
    let PartialConfig { log_level, health_socket, defaults, accounts, account_order } = src;
    if log_level.is_some() {
        dst.log_level = log_level;
    }
    if health_socket.is_some() {
        dst.health_socket = health_socket;
    }
    merge_defaults(&mut dst.defaults, defaults);
    merge_account_map(&mut dst.accounts, accounts);
    merge_order(&mut dst.account_order, account_order.as_slice());
    let keys = dst.accounts.keys();
    assert(strings_view(keys@) =~= dst.accounts.keys_view());
    append_missing_keys(&mut dst.account_order, keys.as_slice());
    let ghost want = merge_v(d0, s0);
    assert(accounts_view(dst.accounts@).dom() =~= dst.accounts@.dom());
    assert(accounts_view(dst.accounts@) == want.accounts);
    assert(strings_view(dst.account_order@) == want.order);
    assert(dst.defaults@ =~= want.defaults);
    assert(opt_view(dst.log_level) == want.log_level);
    assert(config_view(*dst) =~= want);
}

} // verus!
