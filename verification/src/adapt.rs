//! From a resolved account to what its gateway session needs, and the
//! one-line summary of its presence.

use crate::config::resolve::AccountConfig;
use crate::gateway::properties::{ClientProperties, Defaults};
use crate::gateway::session::SessionParams;
use crate::json::jv;
use crate::presence::activity::{pin_default_activity_timestamps, pinned_by, ActivityConfig, CustomStatusConfig};
use crate::presence::kinds::{AccountKind, ActivityType, Device, Status};
use crate::presence::status::{build_presence_data, presence_spec};
use crate::text::opt_view;
use vstd::prelude::*;
use vstd::string::*;

verus! {

fn copy_opt(o: &Option<String>) -> (r: Option<String>)
    ensures
        r == *o,
{
    match o {
        Some(s) => Some(s.clone()),
        None => None,
    }
}

/// A copy of a set of client properties.
pub fn copy_properties(p: &ClientProperties) -> (r: ClientProperties)
    ensures
        r == *p,
{
    ClientProperties {
        os: p.os.clone(),
        browser: copy_opt(&p.browser),
        device: p.device.clone(),
        user_agent: copy_opt(&p.user_agent),
        client_version: copy_opt(&p.client_version),
        os_version: copy_opt(&p.os_version),
        os_arch: copy_opt(&p.os_arch),
        app_arch: copy_opt(&p.app_arch),
        system_locale: copy_opt(&p.system_locale),
        release_channel: copy_opt(&p.release_channel),
        browser_version: copy_opt(&p.browser_version),
        os_sdk_version: copy_opt(&p.os_sdk_version),
        client_build_number: copy_opt(&p.client_build_number),
        native_build_number: copy_opt(&p.native_build_number),
    }
}

/// The session parameters of an account: activities without a start time
/// start at `now` (Unix seconds), the presence is built from the account's
/// settings, and the client properties are those of its kind and device.
pub fn session_params(account: AccountConfig, defaults: &Defaults, now: i64) -> (r: SessionParams)
    ensures
        r.name == account.name,
        r.token@ == account.token@,
        r.kind == account.kind,
        exists|pinned: Seq<ActivityConfig>|
            pinned_by(account.activities@, pinned, now as int) && jv(r.presence) == presence_spec(
                account.status,
                account.custom_status,
                pinned,
                false,
                None,
                account.kind,
            ),
        r.properties == defaults.properties_for(account.kind, account.device),
{
    let AccountConfig { name, token, kind, device, status, custom_status, activities } = account;
    let ghost before = activities@;
    let mut activities = activities;
    pin_default_activity_timestamps(&mut activities, now);
    let custom = match &custom_status {
        Some(c) => Some(c),
        None => None,
    };
    let presence = build_presence_data(status, custom, activities.as_slice(), false, None, kind);
    let properties = copy_properties(defaults.client_properties(kind, device));
    assert(pinned_by(before, activities@, now as int));
    SessionParams { name, token: token.into_inner(), kind, presence, properties }
}

/// `Some(x)`'s text, else `-`.
pub open spec fn or_dash(o: Option<Seq<char>>) -> Seq<char> {
    match o {
        Some(x) => x,
        None => "-"@,
    }
}

/// `<type> <name>` for each activity with a non-empty name; `unknown` when
/// it has no type.
pub open spec fn rich_items(acts: Seq<ActivityConfig>) -> Seq<Seq<char>>
    decreases acts.len(),
{
    if acts.len() == 0 {
        Seq::empty()
    } else {
        let prev = rich_items(acts.drop_last());
        let a = acts.last();
        match opt_view(a.name) {
            Some(n) => if n.len() > 0 {
                prev.push(
                    match a.activity_type {
                        Some(t) => t.name(),
                        None => "unknown"@,
                    } + " "@ + n,
                )
            } else {
                prev
            },
            None => prev,
        }
    }
}

/// Texts joined by `, `.
pub open spec fn comma_joined(items: Seq<Seq<char>>) -> Seq<char>
    decreases items.len(),
{
    if items.len() == 0 {
        Seq::empty()
    } else if items.len() == 1 {
        items[0]
    } else {
        comma_joined(items.drop_last()) + ", "@ + items.last()
    }
}

/// `presence config: <status> (<kind>/<device>)`, then `, custom <text>`
/// for a non-empty custom-status text, then `, ` and the named activities.
pub open spec fn presence_summary_spec(a: AccountConfig) -> Seq<char> {
    let head = "presence config: "@ + or_dash(
        match a.status {
            Some(s) => Some(s.name()),
            None => None,
        },
    ) + " ("@ + a.kind.name() + "/"@ + or_dash(
        match a.device {
            Some(d) => Some(d.name()),
            None => None,
        },
    ) + ")"@;
    let custom = match a.custom_status {
        Some(c) => match opt_view(c.text) {
            Some(t) => if t.len() > 0 {
                ", custom "@ + t
            } else {
                Seq::empty()
            },
            None => Seq::empty(),
        },
        None => Seq::empty(),
    };
    let rich = rich_items(a.activities@);
    head + custom + if rich.len() > 0 {
        ", "@ + comma_joined(rich)
    } else {
        Seq::empty()
    }
}

fn rich_summary(acts: &Vec<ActivityConfig>) -> (r: Vec<String>)
    ensures
        r@.map_values(|s: String| s@) == rich_items(acts@),
{
    let mut out: Vec<String> = Vec::new();
    let mut i: usize = 0;
    assert(acts@.subrange(0, 0) =~= Seq::<ActivityConfig>::empty());
    while i < acts.len()
        invariant
            i <= acts@.len(),
            out@.map_values(|s: String| s@) == rich_items(acts@.subrange(0, i as int)),
        decreases acts@.len() - i,
    {
        let a = &acts[i];
        let ghost pre = acts@.subrange(0, i as int);
        assert(acts@.subrange(0, i + 1).drop_last() =~= pre);
        assert(acts@.subrange(0, i + 1).last() == acts@[i as int]);
        match &a.name {
            Some(n) => {
                if n.unicode_len() > 0 {
                    let ty = match a.activity_type {
                        Some(t) => t.as_str(),
                        None => "unknown",
                    };
                    let item = String::from_str(ty).concat(" ").concat(n.as_str());
                    let ghost o0 = out@;
                    out.push(item);
                    assert(out@.map_values(|s: String| s@) =~= o0.map_values(|s: String| s@).push(item@));
                }
            },
            None => {},
        }
        i = i + 1;
    }
    assert(acts@.subrange(0, acts@.len() as int) =~= acts@);
    out
}

fn join_comma(items: &Vec<String>) -> (r: String)
    ensures
        r@ == comma_joined(items@.map_values(|s: String| s@)),
{
    let ghost iv = items@.map_values(|s: String| s@);
    let mut out = String::new();
    let mut i: usize = 0;
    assert(iv.subrange(0, 0) =~= Seq::<Seq<char>>::empty());
    while i < items.len()
        invariant
            i <= items@.len(),
            iv == items@.map_values(|s: String| s@),
            out@ == comma_joined(iv.subrange(0, i as int)),
        decreases items@.len() - i,
    {
        let ghost nxt = iv.subrange(0, i + 1);
        assert(nxt.drop_last() =~= iv.subrange(0, i as int));
        assert(nxt.last() == iv[i as int]);
        if i > 0 {
            out.append(", ");
        }
        out.append(items[i].as_str());
        i = i + 1;
        assert(out@ =~= comma_joined(nxt));
    }
    assert(iv.subrange(0, items@.len() as int) =~= iv);
    out
}

/// The one-line summary of an account's presence settings.
pub fn presence_summary(account: &AccountConfig) -> (r: String)
    ensures
        r@ == presence_summary_spec(*account),
{
    let status = match account.status {
        Some(s) => s.as_str(),
        None => "-",
    };
    let device = match account.device {
        Some(d) => d.as_str(),
        None => "-",
    };
    let mut summary = String::from_str("presence config: ").concat(status).concat(" (").concat(
        account.kind.as_str(),
    ).concat("/").concat(device).concat(")");
    match &account.custom_status {
        Some(c) => match &c.text {
            Some(t) => {
                if t.unicode_len() > 0 {
                    summary.append(", custom ");
                    summary.append(t.as_str());
                }
            },
            None => {},
        },
        None => {},
    }
    let rich = rich_summary(&account.activities);
    if rich.len() > 0 {
        summary.append(", ");
        let joined = join_comma(&rich);
        summary.append(joined.as_str());
    }
    proof {
        reveal_strlit("-");
    }
    summary
}

/// The account sets a non-empty custom-status text.
pub open spec fn has_custom_text(a: AccountConfig) -> bool {
    match a.custom_status {
        Some(c) => match opt_view(c.text) {
            Some(t) => t.len() > 0,
            None => false,
        },
        None => false,
    }
}

/// Whether the per-field presence details of an account are worth showing:
/// it has a non-empty custom-status text or a named activity.
pub fn has_presence_details(account: &AccountConfig) -> (r: bool)
    ensures
        r == (has_custom_text(*account) || rich_items(account.activities@).len() > 0),
{
    let custom = match &account.custom_status {
        Some(c) => match &c.text {
            Some(t) => t.unicode_len() > 0,
            None => false,
        },
        None => false,
    };
    let rich = rich_summary(&account.activities);
    custom || rich.len() > 0
}

} // verus!
