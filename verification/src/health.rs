//! Liveness of each account, and the status line that the health endpoint
//! answers with.

use crate::text::{chars, eq_ignore_ascii_case, eq_ignore_case, starts_with, str_eq, trim, trim_str, vec_starts_with};
use vstd::string::*;
use vstd::prelude::*;
use vstd::utf8::{decode_utf8, valid_utf8};

verus! {

/// Liveness per account name.
pub struct HealthState {
    live: Vec<(String, bool)>,
}

/// No account name occurs twice.
pub open spec fn distinct_names(v: Seq<(String, bool)>) -> bool {
    forall|i: int, j: int| 0 <= i < v.len() && 0 <= j < v.len() && i != j ==> v[i].0@ != v[j].0@
}

/// The position of account `k`.
pub open spec fn index_of(v: Seq<(String, bool)>, k: Seq<char>) -> int {
    choose|i: int| 0 <= i < v.len() && v[i].0@ == k
}

/// Whether account `k` is tracked.
pub open spec fn tracks(v: Seq<(String, bool)>, k: Seq<char>) -> bool {
    exists|i: int| 0 <= i < v.len() && v[i].0@ == k
}

/// Liveness after tracking `names` (none live) and then recording each of
/// `calls` in order; a call for an untracked name changes nothing.
pub open spec fn replay(names: Seq<Seq<char>>, calls: Seq<(Seq<char>, bool)>) -> Map<Seq<char>, bool>
    decreases calls.len(),
{
    if calls.len() == 0 {
        Map::new(|k: Seq<char>| names.contains(k), |k: Seq<char>| false)
    } else {
        let m = replay(names, calls.drop_last());
        let c = calls.last();
        if m.dom().contains(c.0) {
            m.insert(c.0, c.1)
        } else {
            m
        }
    }
}

/// The value last recorded for `k`, or not live when none was.
pub open spec fn latest(calls: Seq<(Seq<char>, bool)>, k: Seq<char>) -> bool
    decreases calls.len(),
{
    if calls.len() == 0 {
        false
    } else if calls.last().0 == k {
        calls.last().1
    } else {
        latest(calls.drop_last(), k)
    }
}

/// Replaying tracks exactly the names, each with the value last recorded.
pub proof fn lemma_replay_latest(names: Seq<Seq<char>>, calls: Seq<(Seq<char>, bool)>)
    ensures
        forall|k: Seq<char>| #[trigger] replay(names, calls).dom().contains(k) <==> names.contains(k),
        forall|k: Seq<char>| names.contains(k) ==> #[trigger] replay(names, calls)[k] == latest(calls, k),
    decreases calls.len(),
{
    let m = replay(names, calls);
    if calls.len() == 0 {
        assert forall|k: Seq<char>| names.contains(k) implies #[trigger] m[k] == latest(calls, k) by {}
    } else {
        let prev = calls.drop_last();
        lemma_replay_latest(names, prev);
        let pm = replay(names, prev);
        let c = calls.last();
        assert forall|k: Seq<char>| #[trigger] m.dom().contains(k) <==> names.contains(k) by {
            assert(pm.dom().contains(k) <==> names.contains(k));
        }
        assert forall|k: Seq<char>| names.contains(k) implies #[trigger] m[k] == latest(calls, k) by {
            assert(pm.dom().contains(k));
            assert(pm[k] == latest(prev, k));
            if c.0 == k {
                assert(pm.dom().contains(c.0));
            }
        }
    }
}

/// Recording one more call is one `set_live` step: a tracked name takes the
/// new value, an untracked one changes nothing.
pub proof fn lemma_replay_push(names: Seq<Seq<char>>, calls: Seq<(Seq<char>, bool)>, account: Seq<char>, live: bool)
    ensures
        replay(names, calls.push((account, live))) == if replay(names, calls).dom().contains(account) {
            replay(names, calls).insert(account, live)
        } else {
            replay(names, calls)
        },
{
    assert(calls.push((account, live)).drop_last() =~= calls);
}

/// Healthy exactly when there is an account and every account's latest
/// recorded value is live: after `new(names)` and any series of `set_live`
/// calls, whose liveness is `replay(names, calls)`, the status line is ok
/// just in that case.
pub proof fn lemma_healthy_when_all_live(h: HealthState, names: Seq<Seq<char>>, calls: Seq<(Seq<char>, bool)>)
    requires
        h.view() == replay(names, calls),
    ensures
        h.healthy() <==> (names.len() > 0 && forall|i: int| 0 <= i < names.len() ==> latest(calls, #[trigger] names[i])),
{
    lemma_replay_latest(names, calls);
    let m = replay(names, calls);
    if h.healthy() {
        let k = choose|k: Seq<char>| h.view().dom().contains(k);
        assert(names.contains(k));
        assert forall|i: int| 0 <= i < names.len() implies latest(calls, #[trigger] names[i]) by {
            assert(names.contains(names[i]));
            assert(m.dom().contains(names[i]));
            assert(h.view()[names[i]]);
            assert(m[names[i]] == latest(calls, names[i]));
        }
    }
    if names.len() > 0 && forall|i: int| 0 <= i < names.len() ==> latest(calls, #[trigger] names[i]) {
        assert(names.contains(names[0]));
        assert(h.view().dom().contains(names[0]));
        assert forall|k: Seq<char>| h.view().dom().contains(k) implies h.view()[k] by {
            assert(names.contains(k));
            let i = choose|i: int| 0 <= i < names.len() && names[i] == k;
            assert(latest(calls, names[i]));
        }
    }
}

impl HealthState {
    #[verifier::type_invariant]
    spec fn wf(self) -> bool {
        distinct_names(self.live@)
    }

    /// Liveness by account name.
    pub closed spec fn view(self) -> Map<Seq<char>, bool> {
        Map::new(|k: Seq<char>| tracks(self.live@, k), |k: Seq<char>| self.live@[index_of(self.live@, k)].1)
    }

    /// Healthy: at least one account, and every account live.
    pub open spec fn healthy(self) -> bool {
        &&& exists|k: Seq<char>| self.view().dom().contains(k)
        &&& forall|k: Seq<char>| self.view().dom().contains(k) ==> self.view()[k]
    }

    /// Tracks every named account, none live yet.
    pub fn new(accounts: Vec<String>) -> (r: HealthState)
        ensures
            forall|k: Seq<char>|
                #![trigger r.view().dom().contains(k)]
                r.view().dom().contains(k) <==> exists|i: int| 0 <= i < accounts@.len() && accounts@[i]@ == k,
            forall|k: Seq<char>| r.view().dom().contains(k) ==> !r.view()[k],
            r.view() == replay(accounts@.map_values(|a: String| a@), Seq::empty()),
    {
        let mut live: Vec<(String, bool)> = Vec::new();
        let mut i: usize = 0;
        while i < accounts.len()
            invariant
                i <= accounts@.len(),
                distinct_names(live@),
                forall|j: int| 0 <= j < live@.len() ==> !(#[trigger] live@[j]).1,
                forall|k: Seq<char>|
                    tracks(live@, k) <==> exists|j: int| 0 <= j < i && accounts@[j]@ == k,
            decreases accounts@.len() - i,
        {
            let name = &accounts[i];
            let mut found = false;
            let mut j: usize = 0;
            while j < live.len()
                invariant
                    j <= live@.len(),
                    found == exists|m: int| 0 <= m < j && live@[m].0@ == name@,
                decreases live@.len() - j,
            {
                if str_eq(live[j].0.as_str(), name.as_str()) {
                    found = true;
                }
                j = j + 1;
            }
            if !found {
                let ghost old_live = live@;
                live.push((name.clone(), false));
                assert forall|k: Seq<char>| tracks(live@, k) <==> exists|m: int| 0 <= m < i + 1 && accounts@[m]@ == k by {
                    if tracks(live@, k) {
                        let p = choose|p: int| 0 <= p < live@.len() && live@[p].0@ == k;
                        if p < old_live.len() {
                            assert(old_live[p] == live@[p]);
                            assert(tracks(old_live, k));
                            let m2 = choose|m2: int| 0 <= m2 < i && accounts@[m2]@ == k;
                            assert(accounts@[m2]@ == k);
                        } else {
                            assert(accounts@[i as int]@ == k);
                        }
                    }
                    if exists|m: int| 0 <= m < i + 1 && accounts@[m]@ == k {
                        let m = choose|m: int| 0 <= m < i + 1 && accounts@[m]@ == k;
                        if m < i {
                            assert(exists|m2: int| 0 <= m2 < i && accounts@[m2]@ == k);
                            assert(tracks(old_live, k));
                            let p = choose|p: int| 0 <= p < old_live.len() && old_live[p].0@ == k;
                            assert(live@[p] == old_live[p]);
                            assert(tracks(live@, k));
                        } else {
                            assert(live@[old_live.len() as int].0@ == k);
                        }
                    }
                }
            } else {
                assert forall|k: Seq<char>| tracks(live@, k) <==> exists|m: int| 0 <= m < i + 1 && accounts@[m]@ == k by {
                    if exists|m: int| 0 <= m < i + 1 && accounts@[m]@ == k {
                        let m = choose|m: int| 0 <= m < i + 1 && accounts@[m]@ == k;
                        if m == i {
                            let p = choose|p: int| 0 <= p < live@.len() && live@[p].0@ == name@;
                            assert(live@[p].0@ == k);
                        }
                    }
                }
            }
            i = i + 1;
        }
        let r = HealthState { live };
        assert forall|k: Seq<char>| r.view().dom().contains(k) implies !r.view()[k] by {
            let p = index_of(r.live@, k);
            assert(!r.live@[p].1);
        }
        let ghost names = accounts@.map_values(|a: String| a@);
        assert forall|k: Seq<char>| r.view().dom().contains(k) <==> names.contains(k) by {
            if r.view().dom().contains(k) {
                let i = choose|i: int| 0 <= i < accounts@.len() && accounts@[i]@ == k;
                assert(names[i] == k);
            }
            if names.contains(k) {
                let i = choose|i: int| 0 <= i < names.len() && names[i] == k;
                assert(accounts@[i]@ == k);
            }
        }
        assert(r.view() =~= replay(names, Seq::empty()));
        r
    }

    /// Records an account's liveness; unknown accounts are ignored.
    pub fn set_live(&mut self, account: &str, live: bool)
        ensures
            final(self).view() == if old(self).view().dom().contains(account@) {
                old(self).view().insert(account@, live)
            } else {
                old(self).view()
            },
    {
        proof {
            use_type_invariant(&*self);
        }
        let ghost before = self.live@;
        let mut v: Vec<(String, bool)> = Vec::new();
        std::mem::swap(&mut v, &mut self.live);
        let mut j: usize = 0;
        let mut at: Option<usize> = None;
        while j < v.len()
            invariant
                j <= v@.len(),
                before == v@,
                distinct_names(before),
                at.is_none() ==> forall|m: int| 0 <= m < j ==> v@[m].0@ != account@,
                at.is_some() ==> at.unwrap() < v@.len() && v@[at.unwrap() as int].0@ == account@,
            decreases v@.len() - j,
        {
            if at.is_none() && str_eq(v[j].0.as_str(), account) {
                at = Some(j);
            }
            j = j + 1;
        }
        let ghost old_map = Map::new(|k: Seq<char>| tracks(before, k), |k: Seq<char>| before[index_of(before, k)].1);
        match at {
            Some(idx) => {
                let name = v[idx].0.clone();
                v.set(idx, (name, live));
                assert forall|a: int, b: int|
                    0 <= a < v@.len() && 0 <= b < v@.len() && a != b implies v@[a].0@ != v@[b].0@ by {
                    assert(before[a].0@ != before[b].0@);
                }
                assert forall|k: Seq<char>| tracks(v@, k) <==> tracks(before, k) by {
                    if tracks(before, k) {
                        let p = choose|p: int| 0 <= p < before.len() && before[p].0@ == k;
                        assert(v@[p].0@ == k);
                    }
                    if tracks(v@, k) {
                        let p = choose|p: int| 0 <= p < v@.len() && v@[p].0@ == k;
                        assert(before[p].0@ == k);
                    }
                }
                assert forall|k: Seq<char>| tracks(v@, k) implies v@[index_of(v@, k)].1 == (if k == account@ { live } else { before[index_of(before, k)].1 }) by {
                    let p = index_of(v@, k);
                    let q = index_of(before, k);
                    assert(before[p].0@ == k);
                    assert(p == q);
                    if k == account@ {
                        assert(p == idx as int);
                    }
                }
                assert(tracks(before, account@));
            },
            None => {
                assert(!tracks(before, account@));
            },
        }
        self.live = v;
        assert(old(self).view() == old_map);
        assert(self.view() =~= if old_map.dom().contains(account@) { old_map.insert(account@, live) } else { old_map });
    }

    /// `"ok\n"` when healthy, else `"fail\n"`.
    pub fn status_line(&self) -> (s: &'static str)
        ensures
            s@ == if self.healthy() {
                "ok\n"@
            } else {
                "fail\n"@
            },
    {
        proof {
            use_type_invariant(self);
        }
        let n = self.live.len();
        let mut all = true;
        let mut j: usize = 0;
        while j < n
            invariant
                n == self.live@.len(),
                j <= n,
                all == forall|m: int| 0 <= m < j ==> self.live@[m].1,
            decreases n - j,
        {
            if !self.live[j].1 {
                all = false;
            }
            j = j + 1;
        }
        if n > 0 && all {
            assert(self.healthy()) by {
                assert(self.view().dom().contains(self.live@[0].0@));
                assert forall|k: Seq<char>| self.view().dom().contains(k) implies self.view()[k] by {
                    let p = index_of(self.live@, k);
                    assert(self.live@[p].1);
                }
            }
            "ok\n"
        } else {
            assert(!self.healthy()) by {
                if n > 0 {
                    let m = choose|m: int| 0 <= m < n && !self.live@[m].1;
                    let k = self.live@[m].0@;
                    assert(tracks(self.live@, k));
                    assert(self.view().dom().contains(k));
                    let p = index_of(self.live@, k);
                    assert(p == m);
                    assert(!self.view()[k]);
                } else {
                    assert forall|k: Seq<char>| !self.view().dom().contains(k) by {}
                }
            }
            "fail\n"
        }
    }
}

/// `std::str::from_utf8`: the text of UTF-8 bytes, or `None` when they are
/// not valid UTF-8.
#[verifier::external_body]
fn utf8_text(b: &[u8]) -> (r: Option<String>)
    ensures
        match r {
            Some(s) => valid_utf8(b@) && s@ == decode_utf8(b@),
            None => !valid_utf8(b@),
        },
{
    match std::str::from_utf8(b) {
        Ok(s) => Some(s.to_string()),
        Err(_) => None,
    }
}

/// A probe's reading of the endpoint's answer: `ok`, ignoring case and
/// surrounding whitespace; bytes that are not UTF-8 read as failure.
pub open spec fn parse_status_spec(b: Seq<u8>) -> bool {
    valid_utf8(b) && eq_ignore_ascii_case(trim(decode_utf8(b)), "ok"@)
}

pub fn parse_status(buf: &[u8]) -> (r: bool)
    ensures
        r == parse_status_spec(buf@),
{
    match utf8_text(buf) {
        Some(s) => eq_ignore_case(trim_str(s.as_str()).as_str(), "ok"),
        None => false,
    }
}

/// The named-pipe path of a health endpoint: the trimmed endpoint when it
/// already is a pipe path, else the trimmed name under `\\.\pipe\`.
pub open spec fn pipe_path_spec(endpoint: Seq<char>) -> Seq<char> {
    let t = trim(endpoint);
    if starts_with(t, "\\\\.\\pipe\\"@) || starts_with(t, "//./pipe/"@) {
        t
    } else {
        "\\\\.\\pipe\\"@ + t
    }
}

pub fn pipe_path(endpoint: &str) -> (r: String)
    ensures
        r@ == pipe_path_spec(endpoint@),
{
    let t = trim_str(endpoint);
    let tv = chars(t.as_str());
    let p1 = chars("\\\\.\\pipe\\");
    let p2 = chars("//./pipe/");
    if vec_starts_with(&tv, &p1) || vec_starts_with(&tv, &p2) {
        t
    } else {
        String::from_str("\\\\.\\pipe\\").concat(t.as_str())
    }
}

} // verus!
