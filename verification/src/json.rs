//! A JSON value built by the library, with a mathematical view.
//!
//! Objects keep their entries in insertion order; readers look a key up by
//! its first entry.

use crate::text::{is_empty_str, own, str_eq};
use vstd::prelude::*;

verus! {

pub enum Json {
    Null,
    Bool(bool),
    Int(i64),
    UInt(u64),
    Str(String),
    Array(Vec<Json>),
    Object(Vec<(String, Json)>),
}

/// Mathematical JSON value.
pub enum JV {
    Null,
    Bool(bool),
    Num(int),
    Str(Seq<char>),
    Array(Seq<JV>),
    Object(Seq<(Seq<char>, JV)>),
}

/// The view of a JSON value.
pub open spec fn jv(j: Json) -> JV
    decreases j, 0nat,
{
    match j {
        Json::Null => JV::Null,
        Json::Bool(b) => JV::Bool(b),
        Json::Int(n) => JV::Num(n as int),
        Json::UInt(n) => JV::Num(n as int),
        Json::Str(s) => JV::Str(s@),
        Json::Array(v) => JV::Array(jv_items(v@, v@.len())),
        Json::Object(v) => JV::Object(jv_entries(v@, v@.len())),
    }
}

/// Views of the first `n` array items.
pub open spec fn jv_items(v: Seq<Json>, n: nat) -> Seq<JV>
    decreases v, n,
{
    if n == 0 || n > v.len() {
        Seq::empty()
    } else {
        jv_items(v, (n - 1) as nat).push(jv(v[n - 1]))
    }
}

/// Views of the first `n` object entries.
pub open spec fn jv_entries(v: Seq<(String, Json)>, n: nat) -> Seq<(Seq<char>, JV)>
    decreases v, n,
{
    if n == 0 || n > v.len() {
        Seq::empty()
    } else {
        jv_entries(v, (n - 1) as nat).push((v[n - 1].0@, jv(v[n - 1].1)))
    }
}

/// View of a whole entry list.
pub open spec fn ev(v: Seq<(String, Json)>) -> Seq<(Seq<char>, JV)> {
    jv_entries(v, v.len())
}

/// View of a whole item list.
pub open spec fn iv(v: Seq<Json>) -> Seq<JV> {
    jv_items(v, v.len())
}

/// One entry when the value is present, none otherwise.
pub open spec fn opt_entry(k: Seq<char>, v: Option<JV>) -> Seq<(Seq<char>, JV)> {
    match v {
        Some(x) => seq![(k, x)],
        None => Seq::empty(),
    }
}

/// The value of the first entry named `k`.
pub open spec fn lookup(e: Seq<(Seq<char>, JV)>, k: Seq<char>) -> Option<JV>
    decreases e.len(),
{
    if e.len() == 0 {
        None
    } else if e[0].0 == k {
        Some(e[0].1)
    } else {
        lookup(e.subrange(1, e.len() as int), k)
    }
}

/// Looking a key up in two runs of entries finds it in the first run, and
/// only failing that in the second.
pub proof fn lemma_lookup_append(a: Seq<(Seq<char>, JV)>, b: Seq<(Seq<char>, JV)>, k: Seq<char>)
    ensures
        lookup(a + b, k) == if lookup(a, k) is Some {
            lookup(a, k)
        } else {
            lookup(b, k)
        },
    decreases a.len(),
{
    if a.len() > 0 {
        let ab = a + b;
        assert(ab[0] == a[0]);
        assert(ab.subrange(1, ab.len() as int) =~= a.subrange(1, a.len() as int) + b);
        lemma_lookup_append(a.subrange(1, a.len() as int), b, k);
    } else {
        assert(a + b =~= b);
    }
}

/// An optional entry under another key holds nothing for `k`; under `k` it
/// holds its value.
pub proof fn lemma_lookup_opt_entry(key: Seq<char>, v: Option<JV>, k: Seq<char>)
    ensures
        lookup(opt_entry(key, v), k) == if key == k {
            v
        } else {
            None
        },
{
    let e = opt_entry(key, v);
    if let Some(x) = v {
        assert(e.len() == 1 && e[0] == (key, x));
        assert(e.subrange(1, 1) =~= Seq::<(Seq<char>, JV)>::empty());
        assert(lookup(Seq::<(Seq<char>, JV)>::empty(), k) is None);
    } else {
        assert(e.len() == 0);
    }
}

/// The value of key `k` of an object view.
pub open spec fn field(j: JV, k: Seq<char>) -> Option<JV> {
    match j {
        JV::Object(e) => lookup(e, k),
        _ => None,
    }
}

proof fn lemma_items_prefix(a: Seq<Json>, b: Seq<Json>, n: nat)
    requires
        n <= a.len(),
        n <= b.len(),
        a.subrange(0, n as int) == b.subrange(0, n as int),
    ensures
        jv_items(a, n) == jv_items(b, n),
    decreases n,
{
    if n > 0 {
        assert(a.subrange(0, n - 1) == a.subrange(0, n as int).subrange(0, n - 1));
        assert(b.subrange(0, n - 1) == b.subrange(0, n as int).subrange(0, n - 1));
        assert(a[n - 1] == a.subrange(0, n as int)[n - 1]);
        assert(b[n - 1] == b.subrange(0, n as int)[n - 1]);
        lemma_items_prefix(a, b, (n - 1) as nat);
    }
}

proof fn lemma_entries_prefix(a: Seq<(String, Json)>, b: Seq<(String, Json)>, n: nat)
    requires
        n <= a.len(),
        n <= b.len(),
        a.subrange(0, n as int) == b.subrange(0, n as int),
    ensures
        jv_entries(a, n) == jv_entries(b, n),
    decreases n,
{
    if n > 0 {
        assert(a.subrange(0, n - 1) == a.subrange(0, n as int).subrange(0, n - 1));
        assert(b.subrange(0, n - 1) == b.subrange(0, n as int).subrange(0, n - 1));
        assert(a[n - 1] == a.subrange(0, n as int)[n - 1]);
        assert(b[n - 1] == b.subrange(0, n as int)[n - 1]);
        lemma_entries_prefix(a, b, (n - 1) as nat);
    }
}

proof fn lemma_items_len(a: Seq<Json>, n: nat)
    requires
        n <= a.len(),
    ensures
        jv_items(a, n).len() == n,
    decreases n,
{
    if n > 0 {
        lemma_items_len(a, (n - 1) as nat);
    }
}

proof fn lemma_entries_len(a: Seq<(String, Json)>, n: nat)
    requires
        n <= a.len(),
    ensures
        jv_entries(a, n).len() == n,
    decreases n,
{
    if n > 0 {
        lemma_entries_len(a, (n - 1) as nat);
    }
}

/// An entry view has one entry per entry.
pub proof fn lemma_ev_len(a: Seq<(String, Json)>)
    ensures
        ev(a).len() == a.len(),
{
    lemma_entries_len(a, a.len());
}

/// Element `i` of an item view is the view of item `i`.
pub proof fn lemma_iv_index(a: Seq<Json>, i: int)
    requires
        0 <= i < a.len(),
    ensures
        iv(a).len() == a.len(),
        iv(a)[i] == jv(a[i]),
{
    lemma_items_index(a, a.len(), i);
    lemma_items_len(a, a.len());
}

proof fn lemma_items_index(a: Seq<Json>, n: nat, i: int)
    requires
        0 <= i < n <= a.len(),
    ensures
        jv_items(a, n)[i] == jv(a[i]),
    decreases n,
{
    lemma_items_len(a, (n - 1) as nat);
    if i < n - 1 {
        lemma_items_index(a, (n - 1) as nat, i);
    }
}

/// Entry `i` of an entry view is the view of entry `i`.
pub proof fn lemma_ev_index(a: Seq<(String, Json)>, i: int)
    requires
        0 <= i < a.len(),
    ensures
        ev(a).len() == a.len(),
        ev(a)[i] == (a[i].0@, jv(a[i].1)),
{
    lemma_entries_index(a, a.len(), i);
    lemma_entries_len(a, a.len());
}

proof fn lemma_entries_index(a: Seq<(String, Json)>, n: nat, i: int)
    requires
        0 <= i < n <= a.len(),
    ensures
        jv_entries(a, n)[i] == (a[i].0@, jv(a[i].1)),
    decreases n,
{
    lemma_entries_len(a, (n - 1) as nat);
    if i < n - 1 {
        lemma_entries_index(a, (n - 1) as nat, i);
    }
}

/// Appends an item.
pub fn push_item(v: &mut Vec<Json>, x: Json)
    ensures
        iv(final(v)@) == iv(old(v)@).push(jv(x)),
{
    let ghost old_v = v@;
    v.push(x);
    proof {
        assert(v@.subrange(0, old_v.len() as int) =~= old_v.subrange(0, old_v.len() as int));
        lemma_items_prefix(v@, old_v, old_v.len());
        assert(v@[old_v.len() as int] == x);
    }
}

/// Appends an entry named `k`.
pub fn push_entry(v: &mut Vec<(String, Json)>, k: &str, x: Json)
    ensures
        ev(final(v)@) == ev(old(v)@).push((k@, jv(x))),
{
    let ghost old_v = v@;
    v.push((own(k), x));
    proof {
        assert(v@.subrange(0, old_v.len() as int) =~= old_v.subrange(0, old_v.len() as int));
        lemma_entries_prefix(v@, old_v, old_v.len());
    }
}

/// Appends a string entry when the value is present and not empty.
pub fn push_nonempty(v: &mut Vec<(String, Json)>, k: &str, x: Option<&str>)
    ensures
        ev(final(v)@) == ev(old(v)@) + opt_entry(k@, nonempty_str(opt_ref_view(x))),
{
    match x {
        Some(s) => {
            if !is_empty_str(s) {
                push_entry(v, k, Json::Str(own(s)));
                assert(ev(v@) =~= ev(old(v)@) + opt_entry(k@, nonempty_str(opt_ref_view(x))));
            } else {
                assert(ev(v@) =~= ev(old(v)@) + opt_entry(k@, nonempty_str(opt_ref_view(x))));
            }
        },
        None => {
            assert(ev(v@) =~= ev(old(v)@) + opt_entry(k@, nonempty_str(opt_ref_view(x))));
        },
    }
}

/// View of an optional string slice.
pub open spec fn opt_ref_view(x: Option<&str>) -> Option<Seq<char>> {
    match x {
        Some(s) => Some(s@),
        None => None,
    }
}

/// A string JSON value for a present, non-empty string.
pub open spec fn nonempty_str(x: Option<Seq<char>>) -> Option<JV> {
    match x {
        Some(s) => if s.len() > 0 {
            Some(JV::Str(s))
        } else {
            None
        },
        None => None,
    }
}

/// A copy of a JSON value.
pub fn clone_json(j: &Json) -> (r: Json)
    ensures
        jv(r) == jv(*j),
    decreases j,
{
    match j {
        Json::Null => Json::Null,
        Json::Bool(b) => Json::Bool(*b),
        Json::Int(n) => Json::Int(*n),
        Json::UInt(n) => Json::UInt(*n),
        Json::Str(s) => Json::Str(s.clone()),
        Json::Array(v) => {
            let mut out: Vec<Json> = Vec::new();
            let mut i: usize = 0;
            proof {
                lemma_items_len(v@, v@.len());
                assert(iv(out@) =~= iv(v@).subrange(0, 0));
            }
            while i < v.len()
                invariant
                    i <= v@.len(),
                    iv(v@).len() == v@.len(),
                    *j == Json::Array(*v),
                    iv(out@) == iv(v@).subrange(0, i as int),
                decreases v@.len() - i,
            {
                proof {
                    lemma_iv_index(v@, i as int);
                    assert(decreases_to!(*j => (*j)->Array_0));
                    assert(decreases_to!(*v => v@));
                    assert(decreases_to!(v@ => v@[i as int]));
                }
                let x = clone_json(&v[i]);
                push_item(&mut out, x);
                i = i + 1;
                assert(iv(out@) =~= iv(v@).subrange(0, i as int));
            }
            assert(iv(out@) =~= iv(v@));
            Json::Array(out)
        },
        Json::Object(v) => {
            let mut out: Vec<(String, Json)> = Vec::new();
            let mut i: usize = 0;
            proof {
                lemma_entries_len(v@, v@.len());
                assert(ev(out@) =~= ev(v@).subrange(0, 0));
            }
            while i < v.len()
                invariant
                    i <= v@.len(),
                    ev(v@).len() == v@.len(),
                    *j == Json::Object(*v),
                    ev(out@) == ev(v@).subrange(0, i as int),
                decreases v@.len() - i,
            {
                proof {
                    lemma_ev_index(v@, i as int);
                    assert(decreases_to!(*j => (*j)->Object_0));
                    assert(decreases_to!(*v => v@));
                    assert(decreases_to!(v@ => v@[i as int]));
                    assert(decreases_to!(v@[i as int] => v@[i as int].1));
                }
                let x = clone_json(&v[i].1);
                push_entry(&mut out, v[i].0.as_str(), x);
                i = i + 1;
                assert(ev(out@) =~= ev(v@).subrange(0, i as int));
            }
            assert(ev(out@) =~= ev(v@));
            Json::Object(out)
        },
    }
}

impl Json {
    /// The value of the first entry named `key` of an object.
    pub fn get(&self, key: &str) -> (r: Option<&Json>)
        ensures
            match r {
                Some(x) => field(jv(*self), key@) == Some(jv(*x)),
                None => field(jv(*self), key@) is None,
            },
    {
        match self {
            Json::Object(v) => {
                let mut i: usize = 0;
                let ghost e = ev(v@);
                assert(jv(*self) == JV::Object(e));
                proof {
                    lemma_entries_len(v@, v@.len());
                    assert(e.subrange(0, e.len() as int) =~= e);
                }
                while i < v.len()
                    invariant
                        i <= v@.len(),
                        e == ev(v@),
                        jv(*self) == JV::Object(e),
                        e.len() == v@.len(),
                        lookup(e, key@) == lookup(e.subrange(i as int, e.len() as int), key@),
                    decreases v@.len() - i,
                {
                    proof {
                        lemma_ev_index(v@, i as int);
                    }
                    let ghost rest = e.subrange(i as int, e.len() as int);
                    if str_eq(v[i].0.as_str(), key) {
                        assert(rest[0] == e[i as int]);
                        assert(rest[0].0 == key@);
                        assert(lookup(rest, key@) == Some(rest[0].1));
                        let r = &v[i].1;
                        assert(*r == v@[i as int].1);
                        return Some(r);
                    }
                    assert(rest.subrange(1, rest.len() as int) =~= e.subrange(
                        i + 1,
                        e.len() as int,
                    ));
                    i = i + 1;
                }
                None
            },
            _ => None,
        }
    }

    /// The string of a string value.
    pub fn as_str(&self) -> (r: Option<&str>)
        ensures
            match r {
                Some(s) => jv(*self) == JV::Str(s@),
                None => !(jv(*self) is Str),
            },
    {
        match self {
            Json::Str(s) => Some(s.as_str()),
            _ => None,
        }
    }

    /// The number of a number value that fits in an `i64`.
    pub fn as_i64(&self) -> (r: Option<i64>)
        ensures
            match r {
                Some(n) => jv(*self) == JV::Num(n as int),
                None => !(jv(*self) is Num) || jv(*self)->Num_0 > i64::MAX,
            },
    {
        match self {
            Json::Int(n) => Some(*n),
            Json::UInt(n) => {
                if *n <= i64::MAX as u64 {
                    Some(*n as i64)
                } else {
                    None
                }
            },
            _ => None,
        }
    }

    /// The boolean of a boolean value.
    pub fn as_bool(&self) -> (r: Option<bool>)
        ensures
            match r {
                Some(b) => jv(*self) == JV::Bool(b),
                None => !(jv(*self) is Bool),
            },
    {
        match self {
            Json::Bool(b) => Some(*b),
            _ => None,
        }
    }

    pub fn is_null(&self) -> (r: bool)
        ensures
            r == (jv(*self) is Null),
    {
        match self {
            Json::Null => true,
            _ => false,
        }
    }

    /// The items of an array value.
    pub fn as_array(&self) -> (r: Option<&Vec<Json>>)
        ensures
            match r {
                Some(v) => jv(*self) == JV::Array(iv(v@)),
                None => !(jv(*self) is Array),
            },
    {
        match self {
            Json::Array(v) => Some(v),
            _ => None,
        }
    }

    /// The entries of an object value.
    pub fn as_object(&self) -> (r: Option<&Vec<(String, Json)>>)
        ensures
            match r {
                Some(v) => jv(*self) == JV::Object(ev(v@)),
                None => !(jv(*self) is Object),
            },
    {
        match self {
            Json::Object(v) => Some(v),
            _ => None,
        }
    }
}

} // verus!
