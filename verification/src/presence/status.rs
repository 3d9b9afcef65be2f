//! The presence payload: status, activities, idle flag and idle time.

use crate::json::{ev, iv, jv, push_entry, push_item, Json, JV};
use crate::presence::activity::{ActivityConfig, CustomStatusConfig};
use crate::presence::kinds::{AccountKind, Status};
use crate::text::own;
use vstd::prelude::*;

verus! {

/// The activity objects of a user account's activities, in order, skipping
/// activities without a name.
pub open spec fn user_activity_views(acts: Seq<ActivityConfig>) -> Seq<JV>
    decreases acts.len(),
{
    if acts.len() == 0 {
        Seq::empty()
    } else {
        let prev = user_activity_views(acts.subrange(0, acts.len() - 1));
        match acts[acts.len() - 1].activity_spec(AccountKind::User) {
            Some(j) => prev.push(j),
            None => prev,
        }
    }
}

/// The first activity object a bot can send.
pub open spec fn first_bot_activity(acts: Seq<ActivityConfig>) -> Option<JV>
    decreases acts.len(),
{
    if acts.len() == 0 {
        None
    } else {
        match acts[0].activity_spec(AccountKind::Bot) {
            Some(j) => Some(j),
            None => first_bot_activity(acts.subrange(1, acts.len() as int)),
        }
    }
}

/// The activity objects of a presence: for users the custom status first,
/// then every named activity; for bots only the first named activity.
pub open spec fn presence_activities(
    custom: Option<CustomStatusConfig>,
    acts: Seq<ActivityConfig>,
    kind: AccountKind,
) -> Seq<JV> {
    match kind {
        AccountKind::User => (match custom {
            Some(c) => match c.activity_spec() {
                Some(j) => seq![j],
                None => Seq::empty(),
            },
            None => Seq::empty(),
        }) + user_activity_views(acts),
        AccountKind::Bot => match first_bot_activity(acts) {
            Some(j) => seq![j],
            None => Seq::empty(),
        },
    }
}

/// The presence object; the status defaults to online.
pub open spec fn presence_spec(
    status: Option<Status>,
    custom: Option<CustomStatusConfig>,
    acts: Seq<ActivityConfig>,
    afk: bool,
    since: Option<i64>,
    kind: AccountKind,
) -> JV {
    JV::Object(
        seq![
            (
                "since"@,
                match since {
                    Some(n) => JV::Num(n as int),
                    None => JV::Null,
                },
            ),
            ("activities"@, JV::Array(presence_activities(custom, acts, kind))),
            (
                "status"@,
                JV::Str(
                    match status {
                        Some(s) => s.name(),
                        None => Status::Online.name(),
                    },
                ),
            ),
            ("afk"@, JV::Bool(afk)),
        ],
    )
}

fn user_activities(out: &mut Vec<Json>, activities: &[ActivityConfig])
    ensures
        iv(final(out)@) == iv(old(out)@) + user_activity_views(activities@),
{
    let n = activities.len();
    let mut i: usize = 0;
    assert(activities@.subrange(0, 0) =~= Seq::<ActivityConfig>::empty());
    assert(iv(out@) =~= iv(old(out)@) + user_activity_views(activities@.subrange(0, 0)));
    while i < n
        invariant
            n == activities@.len(),
            i <= n,
            iv(out@) == iv(old(out)@) + user_activity_views(activities@.subrange(0, i as int)),
        decreases n - i,
    {
        let ghost pre = activities@.subrange(0, i as int);
        let ghost nxt = activities@.subrange(0, (i + 1) as int);
        assert(nxt.subrange(0, nxt.len() - 1) =~= pre);
        match activities[i].to_activity(AccountKind::User) {
            Some(j) => {
                push_item(out, j);
            },
            None => {},
        }
        i = i + 1;
        assert(iv(out@) =~= iv(old(out)@) + user_activity_views(nxt));
    }
    assert(activities@.subrange(0, n as int) =~= activities@);
}

fn first_bot(out: &mut Vec<Json>, activities: &[ActivityConfig])
    ensures
        iv(final(out)@) == iv(old(out)@) + match first_bot_activity(activities@) {
            Some(j) => seq![j],
            None => Seq::empty(),
        },
{
    let n = activities.len();
    let mut i: usize = 0;
    assert(activities@.subrange(0, n as int) =~= activities@);
    while i < n
        invariant
            n == activities@.len(),
            i <= n,
            out@ == old(out)@,
            first_bot_activity(activities@) == first_bot_activity(
                activities@.subrange(i as int, n as int),
            ),
        decreases n - i,
    {
        let ghost rest = activities@.subrange(i as int, n as int);
        assert(rest[0] == activities@[i as int]);
        match activities[i].to_activity(AccountKind::Bot) {
            Some(j) => {
                push_item(out, j);
                return ;
            },
            None => {},
        }
        assert(rest.subrange(1, rest.len() as int) =~= activities@.subrange(i + 1, n as int));
        i = i + 1;
    }
    assert(iv(out@) =~= iv(old(out)@) + Seq::empty());
}

/// Builds the presence payload sent to the gateway.
pub fn build_presence_data(
    status: Option<Status>,
    custom: Option<&CustomStatusConfig>,
    activities: &[ActivityConfig],
    afk: bool,
    since: Option<i64>,
    kind: AccountKind,
) -> (r: Json)
    ensures
        jv(r) == presence_spec(
            status,
            match custom {
                Some(c) => Some(*c),
                None => None,
            },
            activities@,
            afk,
            since,
            kind,
        ),
{
    let mut out: Vec<Json> = Vec::new();
    match kind {
        AccountKind::User => {
            match custom {
                Some(c) => match c.to_activity() {
                    Some(v) => {
                        push_item(&mut out, v);
                    },
                    None => {},
                },
                None => {},
            }
            let ghost first = iv(out@);
            user_activities(&mut out, activities);
        },
        AccountKind::Bot => {
            first_bot(&mut out, activities);
        },
    }
    let ghost custom_v = match custom {
        Some(c) => Some(*c),
        None => None,
    };
    assert(iv(out@) =~= presence_activities(custom_v, activities@, kind));
    let mut e: Vec<(String, Json)> = Vec::new();
    push_entry(
        &mut e,
        "since",
        match since {
            Some(n) => Json::Int(n),
            None => Json::Null,
        },
    );
    push_entry(&mut e, "activities", Json::Array(out));
    let st = match status {
        Some(s) => s,
        None => Status::Online,
    };
    push_entry(&mut e, "status", Json::Str(own(st.as_str())));
    push_entry(&mut e, "afk", Json::Bool(afk));
    assert(ev(e@) =~= match presence_spec(status, custom_v, activities@, afk, since, kind) {
        JV::Object(x) => x,
        _ => Seq::empty(),
    });
    Json::Object(e)
}

/// A bot's presence carries at most one activity.
pub proof fn lemma_bot_presence_single_activity(
    custom: Option<CustomStatusConfig>,
    acts: Seq<ActivityConfig>,
)
    ensures
        presence_activities(custom, acts, AccountKind::Bot).len() <= 1,
{
}

} // verus!
