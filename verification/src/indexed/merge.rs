//! Merging indexed layers: set leaves overwrite, accounts and activities
//! merge by position.

pub use crate::config::merge::{merge_activity, merge_client_properties, merge_custom_status, merge_defaults};
use crate::config::partial::{any_set, overlay, unset, Leaves};
use crate::indexed::partial::{
    account_set_w, accounts_w, acts_view, activity_view, any_account_field_set, any_activity_field_set, AccountW,
    ConfigW, PartialAccount, PartialActivity, PartialConfig, PartialCustomStatus,
};
use crate::indexed::schema::AccountScalarField;
use crate::text::opt_view;
use vstd::prelude::*;

verus! {

/// An optional record after merging `s` onto `d`.
pub open spec fn merge_opt(d: Option<Leaves>, s: Option<Leaves>, n: nat) -> Option<Leaves> {
    match s {
        Some(c) => Some(
            overlay(
                match d {
                    Some(x) => x,
                    None => unset(n),
                },
                c,
            ),
        ),
        None => d,
    }
}

/// Activities after storing `a` at position `i`: merged onto the activity
/// there, else placed at `i` with empty activities padding the gap.
pub open spec fn insert_activity_w(acts: Seq<Leaves>, i: int, a: Leaves) -> Seq<Leaves> {
    if i < acts.len() {
        acts.update(i, overlay(acts[i], a))
    } else {
        Seq::new((i + 1) as nat, |k: int| if k < acts.len() { acts[k] } else if k == i { a } else { unset(18) })
    }
}

/// Activities after merging each set activity of `s` at its position.
pub open spec fn merge_acts_w(d: Seq<Leaves>, s: Seq<Leaves>) -> Seq<Leaves>
    decreases s.len(),
{
    if s.len() == 0 {
        d
    } else {
        let prev = merge_acts_w(d, s.drop_last());
        if any_set(s.last()) {
            insert_activity_w(prev, s.len() - 1, s.last())
        } else {
            prev
        }
    }
}

pub open spec fn merge_account_w(d: AccountW, s: AccountW) -> AccountW {
    AccountW {
        scalars: overlay(d.scalars, s.scalars),
        custom: merge_opt(d.custom, s.custom, 2),
        activity: merge_opt(d.activity, s.activity, 18),
        activities: merge_acts_w(d.activities, s.activities),
    }
}

/// Accounts after storing `a` at position `i`: merged onto the account there,
/// else appended (a gap is not kept).
pub open spec fn insert_account_w(accs: Seq<AccountW>, i: int, a: AccountW) -> Seq<AccountW> {
    if i < accs.len() {
        accs.update(i, merge_account_w(accs[i], a))
    } else {
        accs.push(a)
    }
}

pub open spec fn merge_accounts_w(d: Seq<AccountW>, s: Seq<AccountW>) -> Seq<AccountW>
    decreases s.len(),
{
    if s.len() == 0 {
        d
    } else {
        let prev = merge_accounts_w(d, s.drop_last());
        if account_set_w(s.last()) {
            insert_account_w(prev, s.len() - 1, s.last())
        } else {
            prev
        }
    }
}

pub open spec fn merge_w(d: ConfigW, s: ConfigW) -> ConfigW {
    ConfigW {
        log_level: if s.log_level is Some {
            s.log_level
        } else {
            d.log_level
        },
        health_socket: if s.health_socket is Some {
            s.health_socket
        } else {
            d.health_socket
        },
        defaults: Seq::new(4, |i: int| overlay(d.defaults[i], s.defaults[i])),
        account: if account_set_w(s.account) {
            merge_account_w(d.account, s.account)
        } else {
            d.account
        },
        accounts: merge_accounts_w(d.accounts, s.accounts),
    }
}

/// Merges `act` onto the activity at `index`, or places it there, padding
/// the gap with empty activities so the index keeps its slot.
pub fn insert_indexed_activity(activities: &mut Vec<PartialActivity>, index: usize, act: PartialActivity)
    requires
        index < usize::MAX,
    ensures
        acts_view(final(activities)@) == insert_activity_w(acts_view(old(activities)@), index as int, act@),
{
    let ghost a0 = acts_view(activities@);
    if index < activities.len() {
        let mut cur = activities.remove(index);
        merge_activity(&mut cur, act);
        activities.insert(index, cur);
        assert(acts_view(activities@) =~= insert_activity_w(a0, index as int, act@));
    } else {
        let ghost av = act@;
        while activities.len() < index
            invariant
                index >= a0.len(),
                activities@.len() <= index,
                activities@.len() >= a0.len(),
                forall|k: int| 0 <= k < activities@.len() ==> (#[trigger] activities@[k])@ == (if k < a0.len() { a0[k] } else { unset(18) }),
            decreases index - activities@.len(),
        {
            activities.push(PartialActivity::default());
        }
        activities.push(act);
        assert(acts_view(activities@) =~= insert_activity_w(a0, index as int, av));
    }
}

fn merge_opt_custom(dst: &mut Option<PartialCustomStatus>, src: Option<PartialCustomStatus>)
    ensures
        crate::config::partial::custom_view(*final(dst)) == merge_opt(crate::config::partial::custom_view(*old(dst)), crate::config::partial::custom_view(src), 2),
{
    match src {
        Some(s) => {
            let mut cs = match dst.take() {
                Some(c) => c,
                None => PartialCustomStatus::default(),
            };
            merge_custom_status(&mut cs, s);
            *dst = Some(cs);
        },
        None => {},
    }
}

fn merge_opt_activity(dst: &mut Option<PartialActivity>, src: Option<PartialActivity>)
    ensures
        activity_view(*final(dst)) == merge_opt(activity_view(*old(dst)), activity_view(src), 18),
{
    match src {
        Some(s) => {
            let mut a = match dst.take() {
                Some(c) => c,
                None => PartialActivity::default(),
            };
            merge_activity(&mut a, s);
            *dst = Some(a);
        },
        None => {},
    }
}

/// Merges every set leaf of `src` onto `dst`; activities by position.
pub fn merge_account(dst: &mut PartialAccount, src: PartialAccount)
    ensures
        final(dst).view_w() == merge_account_w(old(dst).view_w(), src.view_w()),
{
    let ghost d0 = dst.view_w();
    let ghost s0 = src.view_w();
    let mut src = src;
    let fields = AccountScalarField::all();
    let mut i: usize = 0;
    while i < fields.len()
        invariant
            fields@ == seq![AccountScalarField::Token, AccountScalarField::Name, AccountScalarField::Kind, AccountScalarField::Device, AccountScalarField::Status],
            i <= 5,
            dst.scalars_view().len() == 5 && src.scalars_view().len() == 5 && s0.scalars.len() == 5 && d0.scalars.len() == 5,
            forall|j: int| 0 <= j < 5 ==> #[trigger] dst.scalars_view()[j] == (if j < i { overlay(d0.scalars, s0.scalars)[j] } else { d0.scalars[j] }),
            forall|j: int| 0 <= j < 5 ==> #[trigger] src.scalars_view()[j] == (if j < i { None } else { s0.scalars[j] }),
            crate::config::partial::custom_view(dst.custom_status) == d0.custom,
            activity_view(dst.activity) == d0.activity,
            acts_view(dst.activities@) == d0.activities,
            crate::config::partial::custom_view(src.custom_status) == s0.custom,
            activity_view(src.activity) == s0.activity,
            acts_view(src.activities@) == s0.activities,
        decreases 5 - i,
    {
        let field = fields[i];
        assert(field.index() == i);
        match field.take(&mut src) {
            Some(v) => field.set(dst, v),
            None => {},
        }
        i = i + 1;
    }
    assert(dst.scalars_view() =~= overlay(d0.scalars, s0.scalars));
    let PartialAccount { name: _, token: _, kind: _, device: _, status: _, custom_status, activity, activities } = src;
    merge_opt_custom(&mut dst.custom_status, custom_status);
    merge_opt_activity(&mut dst.activity, activity);
    let n = activities.len();
    let mut rev: Vec<PartialActivity> = Vec::new();
    let mut rest = activities;
    while rest.len() > 0
        invariant
            rest@.len() + rev@.len() == n,
            n == s0.activities.len(),
            forall|k: int| 0 <= k < rest@.len() ==> #[trigger] rest@[k]@ == s0.activities[k],
            forall|k: int| 0 <= k < rev@.len() ==> #[trigger] rev@[k]@ == s0.activities[n - 1 - k],
        decreases rest@.len(),
    {
        let x = rest.pop().unwrap();
        rev.push(x);
    }
    let mut k: usize = 0;
    assert(s0.activities.subrange(0, 0) =~= Seq::<Leaves>::empty());
    let ghost mid = dst.view_w();
    while k < n
        invariant
            k <= n,
            dst.scalars_view() == mid.scalars,
            crate::config::partial::custom_view(dst.custom_status) == mid.custom,
            activity_view(dst.activity) == mid.activity,
            n == s0.activities.len(),
            rev@.len() == n - k,
            forall|m: int| 0 <= m < rev@.len() ==> #[trigger] rev@[m]@ == s0.activities[n - 1 - m],
            acts_view(dst.activities@) == merge_acts_w(d0.activities, s0.activities.subrange(0, k as int)),
        decreases n - k,
    {
        let act = rev.pop().unwrap();
        assert(act@ == s0.activities[k as int]);
        assert(s0.activities.subrange(0, k + 1).drop_last() =~= s0.activities.subrange(0, k as int));
        if any_activity_field_set(&act) {
            insert_indexed_activity(&mut dst.activities, k, act);
        }
        k = k + 1;
    }
    assert(s0.activities.subrange(0, n as int) =~= s0.activities);
    assert(dst.view_w() =~= merge_account_w(d0, s0));
}

/// Merges `acc` onto the account at `index`, or appends it (a gap is not
/// kept).
pub fn insert_indexed_account(accounts: &mut Vec<PartialAccount>, index: usize, acc: PartialAccount)
    ensures
        accounts_w(final(accounts)@) == insert_account_w(accounts_w(old(accounts)@), index as int, acc.view_w()),
{
    let ghost a0 = accounts_w(accounts@);
    if index < accounts.len() {
        let mut cur = accounts.remove(index);
        merge_account(&mut cur, acc);
        accounts.insert(index, cur);
        assert(accounts_w(accounts@) =~= insert_account_w(a0, index as int, acc.view_w()));
    } else {
        let ghost av = acc.view_w();
        accounts.push(acc);
        assert(accounts_w(accounts@) =~= insert_account_w(a0, index as int, av));
    }
}

/// Merges every set leaf of `src` onto `dst`: scalars when set, the flat
/// account when it sets anything, accounts by position.
pub fn merge_partial(dst: &mut PartialConfig, src: PartialConfig)
    ensures
        final(dst).view_w() == merge_w(old(dst).view_w(), src.view_w()),
{
    let ghost d0 = dst.view_w();
    let ghost s0 = src.view_w();
    let PartialConfig { log_level, health_socket, defaults, accounts, account } = src;
    if log_level.is_some() {
        dst.log_level = log_level;
    }
    if health_socket.is_some() {
        dst.health_socket = health_socket;
    }
    merge_defaults(&mut dst.defaults, defaults);
    if any_account_field_set(&account) {
        merge_account(&mut dst.account, account);
    }
    let n = accounts.len();
    let mut rev: Vec<PartialAccount> = Vec::new();
    let mut rest = accounts;
    while rest.len() > 0
        invariant
            rest@.len() + rev@.len() == n,
            n == s0.accounts.len(),
            forall|k: int| 0 <= k < rest@.len() ==> (#[trigger] rest@[k]).view_w() == s0.accounts[k],
            forall|k: int| 0 <= k < rev@.len() ==> (#[trigger] rev@[k]).view_w() == s0.accounts[n - 1 - k],
        decreases rest@.len(),
    {
        let x = rest.pop().unwrap();
        rev.push(x);
    }
    let mut k: usize = 0;
    assert(s0.accounts.subrange(0, 0) =~= Seq::<AccountW>::empty());
    let ghost mid = dst.view_w();
    while k < n
        invariant
            k <= n,
            opt_view(dst.log_level) == mid.log_level,
            opt_view(dst.health_socket) == mid.health_socket,
            dst.defaults@ == mid.defaults,
            dst.account.view_w() == mid.account,
            n == s0.accounts.len(),
            rev@.len() == n - k,
            forall|m: int| 0 <= m < rev@.len() ==> (#[trigger] rev@[m]).view_w() == s0.accounts[n - 1 - m],
            accounts_w(dst.accounts@) == merge_accounts_w(d0.accounts, s0.accounts.subrange(0, k as int)),
        decreases n - k,
    {
        let acc = rev.pop().unwrap();
        assert(acc.view_w() == s0.accounts[k as int]);
        assert(s0.accounts.subrange(0, k + 1).drop_last() =~= s0.accounts.subrange(0, k as int));
        if any_account_field_set(&acc) {
            insert_indexed_account(&mut dst.accounts, k, acc);
        }
        k = k + 1;
    }
    assert(s0.accounts.subrange(0, n as int) =~= s0.accounts);
    assert(dst.defaults@ =~= merge_w(d0, s0).defaults);
    assert(dst.view_w() =~= merge_w(d0, s0));
}

/// Accounts merge by position: every earlier account keeps its position,
/// and each is merged field by field with the later layer's account at the
/// same position when that one sets anything, else left as it was.
pub proof fn lemma_merge_by_position(d: Seq<AccountW>, s: Seq<AccountW>)
    ensures
        merge_accounts_w(d, s).len() >= d.len(),
        forall|j: int| 0 <= j < d.len() ==> #[trigger] merge_accounts_w(d, s)[j] == if j < s.len() && account_set_w(s[j]) {
            merge_account_w(d[j], s[j])
        } else {
            d[j]
        },
    decreases s.len(),
{
    if s.len() > 0 {
        let t = s.drop_last();
        lemma_merge_by_position(d, t);
        let prev = merge_accounts_w(d, t);
        let n = s.len() - 1;
        assert forall|j: int| 0 <= j < d.len() implies #[trigger] merge_accounts_w(d, s)[j] == if j < s.len() && account_set_w(s[j]) {
            merge_account_w(d[j], s[j])
        } else {
            d[j]
        } by {
            assert(prev[j] == if j < t.len() && account_set_w(t[j]) {
                merge_account_w(d[j], t[j])
            } else {
                d[j]
            });
            if j < t.len() {
                assert(t[j] == s[j]);
            }
        }
    }
}

} // verus!
