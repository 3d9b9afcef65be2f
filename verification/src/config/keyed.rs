//! A map from string ids to values, kept in sorted key order.

use crate::text::{lemma_seq_lt_asymmetric, lemma_seq_lt_irreflexive, lemma_seq_lt_total, lemma_seq_lt_transitive, seq_lt, str_eq, str_lt};
use vstd::prelude::*;

verus! {

/// Every key sorts strictly before the keys after it.
pub open spec fn strictly_sorted(k: Seq<Seq<char>>) -> bool {
    forall|i: int, j: int| 0 <= i < j < k.len() ==> seq_lt(k[i], k[j])
}

/// The ids of a set in ascending order.
pub open spec fn sorted_keys(s: Set<Seq<char>>) -> Seq<Seq<char>> {
    choose|k: Seq<Seq<char>>| strictly_sorted(k) && k.to_set() == s
}

/// Two sorted sequences of the same ids are equal.
pub proof fn lemma_sorted_unique(a: Seq<Seq<char>>, b: Seq<Seq<char>>)
    requires
        strictly_sorted(a),
        strictly_sorted(b),
        a.to_set() == b.to_set(),
    ensures
        a == b,
    decreases a.len(),
{
    if a.len() == 0 {
        if b.len() > 0 {
            assert(b.to_set().contains(b[0]));
        }
        assert(a =~= b);
    } else {
        assert(a.to_set().contains(a[0]));
        assert(b.len() > 0) by {
            if b.len() == 0 {
                assert(b.to_set().contains(a[0]));
            }
        }
        assert(b.to_set().contains(b[0]));
        if a[0] != b[0] {
            assert(b.to_set().contains(a[0]));
            let j = choose|j: int| 0 <= j < b.len() && b[j] == a[0];
            assert(a.to_set().contains(b[0]));
            let i = choose|i: int| 0 <= i < a.len() && a[i] == b[0];
            assert(j > 0 && i > 0);
            assert(seq_lt(b[0], b[j]));
            assert(seq_lt(a[0], a[i]));
            lemma_seq_lt_asymmetric(a[0], b[0]);
        }
        let a1 = a.drop_first();
        let b1 = b.drop_first();
        assert(strictly_sorted(a1)) by {
            assert forall|i: int, j: int| 0 <= i < j < a1.len() implies seq_lt(a1[i], a1[j]) by {
                assert(a1[i] == a[i + 1] && a1[j] == a[j + 1]);
            }
        }
        assert(strictly_sorted(b1)) by {
            assert forall|i: int, j: int| 0 <= i < j < b1.len() implies seq_lt(b1[i], b1[j]) by {
                assert(b1[i] == b[i + 1] && b1[j] == b[j + 1]);
            }
        }
        assert(a1.to_set() =~= b1.to_set()) by {
            assert forall|x: Seq<char>| a1.to_set().contains(x) implies b1.to_set().contains(x) by {
                let i = choose|i: int| 0 <= i < a1.len() && a1[i] == x;
                assert(a[i + 1] == x);
                assert(seq_lt(a[0], a[i + 1]));
                assert(b.to_set().contains(x));
                let j = choose|j: int| 0 <= j < b.len() && b[j] == x;
                if j == 0 {
                    lemma_seq_lt_irreflexive(x);
                }
                assert(b1[j - 1] == x);
            }
            assert forall|x: Seq<char>| b1.to_set().contains(x) implies a1.to_set().contains(x) by {
                let i = choose|i: int| 0 <= i < b1.len() && b1[i] == x;
                assert(b[i + 1] == x);
                assert(seq_lt(b[0], b[i + 1]));
                assert(a.to_set().contains(x));
                let j = choose|j: int| 0 <= j < a.len() && a[j] == x;
                if j == 0 {
                    lemma_seq_lt_irreflexive(x);
                }
                assert(a1[j - 1] == x);
            }
        }
        lemma_sorted_unique(a1, b1);
        assert(a =~= seq![a[0]] + a1);
        assert(b =~= seq![b[0]] + b1);
    }
}

/// A finite non-empty set of ids has a greatest one.
proof fn lemma_greatest_id(s: Set<Seq<char>>) -> (m: Seq<char>)
    requires
        s.finite(),
        s.len() > 0,
    ensures
        s.contains(m),
        forall|y: Seq<char>| #[trigger] s.contains(y) && y != m ==> seq_lt(y, m),
    decreases s.len(),
{
    let x = s.choose();
    let rest = s.remove(x);
    if rest.len() == 0 {
        assert forall|y: Seq<char>| #[trigger] s.contains(y) && y != x implies seq_lt(y, x) by {
            assert(rest.contains(y));
        }
        x
    } else {
        let m1 = lemma_greatest_id(rest);
        lemma_seq_lt_total(x, m1);
        if seq_lt(x, m1) {
            assert forall|y: Seq<char>| #[trigger] s.contains(y) && y != m1 implies seq_lt(y, m1) by {
                if y != x {
                    assert(rest.contains(y));
                }
            }
            m1
        } else {
            assert(x != m1 ==> seq_lt(m1, x));
            assert(x != m1) by {
                assert(rest.contains(m1));
            }
            assert forall|y: Seq<char>| #[trigger] s.contains(y) && y != x implies seq_lt(y, x) by {
                assert(rest.contains(y));
                if y != m1 {
                    lemma_seq_lt_transitive(y, m1, x);
                }
            }
            x
        }
    }
}

/// The ids of a finite set, in ascending order, are exactly the set.
pub proof fn lemma_sorted_keys_exist(s: Set<Seq<char>>)
    requires
        s.finite(),
    ensures
        strictly_sorted(sorted_keys(s)),
        sorted_keys(s).to_set() == s,
        forall|k: Seq<char>| #[trigger] sorted_keys(s).contains(k) <==> s.contains(k),
    decreases s.len(),
{
    if s.len() == 0 {
        let e = Seq::<Seq<char>>::empty();
        assert(e.to_set() =~= s);
        assert(strictly_sorted(e) && e.to_set() == s);
    } else {
        let m = lemma_greatest_id(s);
        let rest = s.remove(m);
        lemma_sorted_keys_exist(rest);
        let k0 = sorted_keys(rest);
        let k = k0.push(m);
        assert(strictly_sorted(k)) by {
            assert forall|i: int, j: int| 0 <= i < j < k.len() implies seq_lt(k[i], k[j]) by {
                if j == k.len() - 1 {
                    assert(k0.to_set().contains(k0[i]));
                    assert(rest.contains(k[i]));
                } else {
                    assert(k[i] == k0[i] && k[j] == k0[j]);
                }
            }
        }
        assert(k.to_set() =~= s) by {
            assert forall|x: Seq<char>| k.to_set().contains(x) implies s.contains(x) by {
                let i = choose|i: int| 0 <= i < k.len() && k[i] == x;
                if i < k0.len() {
                    assert(k0[i] == x);
                    assert(k0.to_set().contains(x));
                }
            }
            assert forall|x: Seq<char>| s.contains(x) implies k.to_set().contains(x) by {
                if x == m {
                    assert(k[k.len() - 1] == x);
                } else {
                    assert(rest.contains(x));
                    assert(k0.to_set().contains(x));
                    let i = choose|i: int| 0 <= i < k0.len() && k0[i] == x;
                    assert(k[i] == x);
                }
            }
        }
    }
    let c = sorted_keys(s);
    assert forall|k: Seq<char>| #[trigger] c.contains(k) <==> s.contains(k) by {
        assert(c.to_set().contains(k) <==> c.contains(k));
    }
}

/// Entries keyed by string id, iterated in ascending key order.
pub struct KeyedMap<V> {
    entries: Vec<(String, V)>,
}

impl<V> KeyedMap<V> {
    #[verifier::type_invariant]
    spec fn sorted(self) -> bool {
        strictly_sorted(self.keys_view())
    }

    /// The keys, in ascending order.
    pub closed spec fn keys_view(self) -> Seq<Seq<char>> {
        self.entries@.map_values(|e: (String, V)| e.0@)
    }

    /// The value stored under each key.
    pub closed spec fn view(self) -> Map<Seq<char>, V> {
        Map::new(|k: Seq<char>| self.keys_view().contains(k), |k: Seq<char>| self.entries@[self.position(k)].1)
    }

    spec fn position(self, k: Seq<char>) -> int {
        choose|i: int| 0 <= i < self.entries@.len() && self.entries@[i].0@ == k
    }

    /// The keys are sorted and are exactly the domain.
    pub open spec fn laid_out(self) -> bool {
        &&& strictly_sorted(self.keys_view())
        &&& forall|k: Seq<char>| #[trigger] self@.dom().contains(k) <==> self.keys_view().contains(k)
        &&& self.keys_view() == sorted_keys(self@.dom())
    }

    proof fn lemma_at(self, i: int)
        requires
            strictly_sorted(self.keys_view()),
            0 <= i < self.entries@.len(),
        ensures
            self@.dom().contains(self.entries@[i].0@),
            self@[self.entries@[i].0@] == self.entries@[i].1,
            self.keys_view()[i] == self.entries@[i].0@,
    {
        let k = self.entries@[i].0@;
        assert(self.keys_view()[i] == k);
        assert(self.keys_view().contains(k));
        let j = self.position(k);
        assert(0 <= j < self.entries@.len() && self.entries@[j].0@ == k);
        if j != i {
            assert(self.keys_view()[j] == k);
            if j < i {
                assert(seq_lt(self.keys_view()[j], self.keys_view()[i]));
            } else {
                assert(seq_lt(self.keys_view()[i], self.keys_view()[j]));
            }
            lemma_seq_lt_irreflexive(k);
        }
        assert(j == i);
        assert(self@[k] == self.entries@[j].1);
    }

    proof fn lemma_laid_out(self)
        requires
            strictly_sorted(self.keys_view()),
        ensures
            self.laid_out(),
    {
        assert forall|k: Seq<char>| #[trigger] self@.dom().contains(k) <==> self.keys_view().contains(k) by {}
        assert(self.keys_view().to_set() =~= self@.dom());
        let c = sorted_keys(self@.dom());
        assert(strictly_sorted(c) && c.to_set() == self@.dom());
        lemma_sorted_unique(self.keys_view(), c);
    }

    pub fn new() -> (m: KeyedMap<V>)
        ensures
            m@ == Map::<Seq<char>, V>::empty(),
            m.keys_view() == Seq::<Seq<char>>::empty(),
            m.laid_out(),
    {
        let m = KeyedMap { entries: Vec::new() };
        assert(m.keys_view() =~= Seq::<Seq<char>>::empty());
        assert(m@ =~= Map::<Seq<char>, V>::empty());
        proof {
            m.lemma_laid_out();
        }
        m
    }

    pub fn len(&self) -> (n: usize)
        ensures
            n == self.keys_view().len(),
            n == self@.dom().len(),
            self.laid_out(),
    {
        proof {
            use_type_invariant(self);
            self.lemma_laid_out();
            self.lemma_dom_len();
        }
        self.entries.len()
    }

    /// A map holds finitely many ids.
    pub proof fn lemma_dom_finite(self)
        ensures
            self@.dom().finite(),
    {
        let ks = self.keys_view();
        assert(self@.dom() =~= ks.to_set());
        vstd::seq_lib::seq_to_set_is_finite(ks);
    }

    proof fn lemma_dom_len(self)
        requires
            strictly_sorted(self.keys_view()),
        ensures
            self@.dom().len() == self.keys_view().len(),
            self@.dom().finite(),
    {
        let ks = self.keys_view();
        assert(ks.no_duplicates()) by {
            assert forall|i: int, j: int| 0 <= i < ks.len() && 0 <= j < ks.len() && i != j implies ks[i] != ks[j] by {
                if i < j {
                    assert(seq_lt(ks[i], ks[j]));
                    if ks[i] == ks[j] {
                        lemma_seq_lt_irreflexive(ks[i]);
                    }
                } else {
                    assert(seq_lt(ks[j], ks[i]));
                    if ks[i] == ks[j] {
                        lemma_seq_lt_irreflexive(ks[i]);
                    }
                }
            }
        }
        assert(self@.dom() =~= ks.to_set());
        ks.unique_seq_to_set();
    }

    pub fn is_empty(&self) -> (b: bool)
        ensures
            b == (self@.dom().len() == 0),
            b == (self.keys_view().len() == 0),
            self.laid_out(),
    {
        self.len() == 0
    }

    /// The position of `key`, if present.
    fn find(&self, key: &str) -> (r: Option<usize>)
        ensures
            match r {
                Some(i) => i < self.entries@.len() && self.entries@[i as int].0@ == key@,
                None => !self.keys_view().contains(key@),
            },
    {
        let mut i: usize = 0;
        while i < self.entries.len()
            invariant
                i <= self.entries@.len(),
                forall|j: int| 0 <= j < i ==> self.entries@[j].0@ != key@,
            decreases self.entries@.len() - i,
        {
            if str_eq(self.entries[i].0.as_str(), key) {
                return Some(i);
            }
            i = i + 1;
        }
        assert forall|j: int| 0 <= j < self.keys_view().len() implies self.keys_view()[j] != key@ by {
            assert(self.keys_view()[j] == self.entries@[j].0@);
        }
        None
    }

    pub fn get(&self, key: &str) -> (r: Option<&V>)
        ensures
            match r {
                Some(v) => self@.dom().contains(key@) && *v == self@[key@],
                None => !self@.dom().contains(key@),
            },
            self.laid_out(),
    {
        proof {
            use_type_invariant(self);
            self.lemma_laid_out();
        }
        match self.find(key) {
            Some(i) => {
                proof {
                    self.lemma_at(i as int);
                }
                Some(&self.entries[i].1)
            },
            None => None,
        }
    }

    pub fn contains_key(&self, key: &str) -> (b: bool)
        ensures
            b == self@.dom().contains(key@),
            self.laid_out(),
    {
        match self.get(key) {
            Some(_) => true,
            None => false,
        }
    }

    /// The keys in ascending order.
    pub fn keys(&self) -> (r: Vec<String>)
        ensures
            r@.len() == self.keys_view().len(),
            forall|i: int| 0 <= i < r@.len() ==> #[trigger] r@[i]@ == self.keys_view()[i],
            self.laid_out(),
    {
        proof {
            use_type_invariant(self);
            self.lemma_laid_out();
        }
        let mut r: Vec<String> = Vec::new();
        let mut i: usize = 0;
        while i < self.entries.len()
            invariant
                i <= self.entries@.len(),
                r@.len() == i,
                forall|j: int| 0 <= j < i ==> #[trigger] r@[j]@ == self.keys_view()[j],
            decreases self.entries@.len() - i,
        {
            r.push(self.entries[i].0.clone());
            i = i + 1;
        }
        r
    }

    /// The entries in ascending key order.
    pub fn into_entries(self) -> (r: Vec<(String, V)>)
        ensures
            r@.len() == self.keys_view().len(),
            forall|i: int|
                0 <= i < r@.len() ==> #[trigger] r@[i].0@ == self.keys_view()[i] && self@.dom().contains(
                    r@[i].0@,
                ) && self@[r@[i].0@] == r@[i].1,
            self.laid_out(),
    {
        proof {
            use_type_invariant(&self);
            self.lemma_laid_out();
            assert forall|i: int| 0 <= i < self.entries@.len() implies self.entries@[i].0@ == self.keys_view()[i] && self@.dom().contains(
                self.entries@[i].0@,
            ) && self@[self.entries@[i].0@] == self.entries@[i].1 by {
                self.lemma_at(i);
            }
        }
        self.entries
    }

    /// Takes the value stored under `key` out of the map.
    pub fn remove(&mut self, key: &str) -> (r: Option<V>)
        ensures
            r == if old(self)@.dom().contains(key@) {
                Some(old(self)@[key@])
            } else {
                None::<V>
            },
            final(self)@ == old(self)@.remove(key@),
            final(self).laid_out(),
    {
        proof {
            use_type_invariant(&*self);
            self.lemma_laid_out();
        }
        match self.find(key) {
            None => {
                proof {
                    assert(self@ =~= self@.remove(key@));
                }
                None
            },
            Some(i) => {
                let ghost before = *self;
                proof {
                    before.lemma_at(i as int);
                }
                let mut v: Vec<(String, V)> = Vec::new();
                std::mem::swap(&mut v, &mut self.entries);
                let (_, val) = v.remove(i);
                let ghost after = KeyedMap { entries: v };
                proof {
                    assert(after.keys_view() =~= before.keys_view().remove(i as int));
                    assert(strictly_sorted(after.keys_view())) by {
                        assert forall|a: int, b: int| 0 <= a < b < after.keys_view().len() implies seq_lt(
                            after.keys_view()[a],
                            after.keys_view()[b],
                        ) by {
                            let a2 = if a < i { a } else { a + 1 };
                            let b2 = if b < i { b } else { b + 1 };
                            assert(after.keys_view()[a] == before.keys_view()[a2]);
                            assert(after.keys_view()[b] == before.keys_view()[b2]);
                        }
                    }
                    assert forall|k: Seq<char>| after@.dom().contains(k) <==> before@.remove(key@).dom().contains(k) by {
                        if after.keys_view().contains(k) {
                            let a = choose|a: int| 0 <= a < after.keys_view().len() && after.keys_view()[a] == k;
                            let a2 = if a < i { a } else { a + 1 };
                            assert(before.keys_view()[a2] == k);
                            assert(a2 != i);
                            if k == key@ {
                                assert(before.keys_view()[i as int] == key@);
                                if a2 < i {
                                    assert(seq_lt(before.keys_view()[a2], before.keys_view()[i as int]));
                                } else {
                                    assert(seq_lt(before.keys_view()[i as int], before.keys_view()[a2]));
                                }
                                lemma_seq_lt_irreflexive(k);
                            }
                        }
                        if before.keys_view().contains(k) && k != key@ {
                            let a = choose|a: int| 0 <= a < before.keys_view().len() && before.keys_view()[a] == k;
                            assert(a != i);
                            let a2 = if a < i { a } else { a - 1 };
                            assert(after.keys_view()[a2] == k);
                        }
                    }
                    assert forall|k: Seq<char>| after@.dom().contains(k) implies after@[k] == before@[k] by {
                        let a = choose|a: int| 0 <= a < after.keys_view().len() && after.keys_view()[a] == k;
                        assert(after.keys_view()[a] == after.entries@[a].0@);
                        after.lemma_at(a);
                        let a2 = if a < i { a } else { a + 1 };
                        assert(before.entries@[a2] == after.entries@[a]);
                        before.lemma_at(a2);
                    }
                    assert(after@ =~= before@.remove(key@));
                    after.lemma_laid_out();
                }
                self.entries = v;
                Some(val)
            },
        }
    }

    /// Stores `value` under `key`, replacing any value there.
    pub fn insert(&mut self, key: String, value: V)
        ensures
            final(self)@ == old(self)@.insert(key@, value),
            final(self).laid_out(),
    {
        proof {
            use_type_invariant(&*self);
            self.lemma_laid_out();
        }
        let ghost before = *self;
        let mut v: Vec<(String, V)> = Vec::new();
        std::mem::swap(&mut v, &mut self.entries);
        let n = v.len();
        let mut p: usize = 0;
        while p < n && str_lt(v[p].0.as_str(), key.as_str())
            invariant
                n == v@.len(),
                v@ == before.entries@,
                p <= n,
                forall|j: int| 0 <= j < p ==> seq_lt(#[trigger] before.keys_view()[j], key@),
            decreases n - p,
        {
            assert(before.keys_view()[p as int] == v@[p as int].0@);
            p = p + 1;
        }
        let ghost ks = before.keys_view();
        if p < n && str_eq(v[p].0.as_str(), key.as_str()) {
            let ghost kp = v@[p as int].0@;
            v.set(p, (key, value));
            let ghost after = KeyedMap { entries: v };
            proof {
                assert(after.keys_view() =~= ks);
                assert forall|k: Seq<char>| after@.dom().contains(k) implies after@[k] == before@.insert(key@, value)[k] by {
                    let a = choose|a: int| 0 <= a < after.keys_view().len() && after.keys_view()[a] == k;
                    assert(after.keys_view()[a] == after.entries@[a].0@);
                    after.lemma_at(a);
                    if a != p {
                        before.lemma_at(a);
                        assert(after.entries@[a] == before.entries@[a]);
                        if k == key@ {
                            assert(ks[p as int] == key@);
                            if a < p {
                                assert(seq_lt(ks[a], ks[p as int]));
                            } else {
                                assert(seq_lt(ks[p as int], ks[a]));
                            }
                            lemma_seq_lt_irreflexive(k);
                        }
                    }
                }
                assert forall|k: Seq<char>| after@.dom().contains(k) <==> before@.insert(key@, value).dom().contains(k) by {
                    if k == key@ {
                        assert(after.keys_view()[p as int] == k);
                    }
                }
                assert(after@ =~= before@.insert(key@, value));
                after.lemma_laid_out();
            }
            self.entries = v;
        } else {
            proof {
                if p < n {
                    assert(ks[p as int] == v@[p as int].0@);
                    lemma_seq_lt_total(ks[p as int], key@);
                    assert(seq_lt(key@, ks[p as int]));
                }
            }
            v.insert(p, (key, value));
            let ghost after = KeyedMap { entries: v };
            proof {
                assert(after.keys_view() =~= ks.insert(p as int, key@));
                assert(strictly_sorted(after.keys_view())) by {
                    assert forall|a: int, b: int| 0 <= a < b < after.keys_view().len() implies seq_lt(
                        after.keys_view()[a],
                        after.keys_view()[b],
                    ) by {
                        if b < p {
                        } else if b == p {
                            assert(seq_lt(ks[a], key@));
                        } else if a < p {
                            assert(seq_lt(ks[a], key@));
                            assert(after.keys_view()[b] == ks[b - 1]);
                            if b - 1 == p {
                                lemma_seq_lt_transitive(ks[a], key@, ks[b - 1]);
                            } else {
                                assert(seq_lt(ks[p as int], ks[b - 1]));
                                lemma_seq_lt_transitive(key@, ks[p as int], ks[b - 1]);
                                lemma_seq_lt_transitive(ks[a], key@, ks[b - 1]);
                            }
                        } else if a == p {
                            assert(after.keys_view()[b] == ks[b - 1]);
                            if b - 1 > p {
                                assert(seq_lt(ks[p as int], ks[b - 1]));
                                lemma_seq_lt_transitive(key@, ks[p as int], ks[b - 1]);
                            }
                        } else {
                            assert(after.keys_view()[a] == ks[a - 1]);
                            assert(after.keys_view()[b] == ks[b - 1]);
                        }
                    }
                }
                assert forall|k: Seq<char>| after@.dom().contains(k) <==> before@.insert(key@, value).dom().contains(k) by {
                    if after.keys_view().contains(k) {
                        let a = choose|a: int| 0 <= a < after.keys_view().len() && after.keys_view()[a] == k;
                        if a < p {
                            assert(ks[a] == k);
                        } else if a > p {
                            assert(ks[a - 1] == k);
                        }
                    }
                    if before.keys_view().contains(k) {
                        let a = choose|a: int| 0 <= a < ks.len() && ks[a] == k;
                        if a < p {
                            assert(after.keys_view()[a] == k);
                        } else {
                            assert(after.keys_view()[a + 1] == k);
                        }
                    }
                    if k == key@ {
                        assert(after.keys_view()[p as int] == k);
                    }
                }
                assert forall|k: Seq<char>| after@.dom().contains(k) implies after@[k] == before@.insert(key@, value)[k] by {
                    let a = choose|a: int| 0 <= a < after.keys_view().len() && after.keys_view()[a] == k;
                    assert(after.keys_view()[a] == after.entries@[a].0@);
                    after.lemma_at(a);
                    if a < p {
                        before.lemma_at(a);
                        assert(seq_lt(ks[a], key@));
                        if k == key@ {
                            lemma_seq_lt_irreflexive(k);
                        }
                    } else if a > p {
                        before.lemma_at(a - 1);
                        assert(after.entries@[a] == before.entries@[a - 1]);
                        if k == key@ {
                            assert(seq_lt(after.keys_view()[p as int], after.keys_view()[a]));
                            lemma_seq_lt_irreflexive(k);
                        }
                    }
                }
                assert(after@ =~= before@.insert(key@, value));
                after.lemma_laid_out();
            }
            self.entries = v;
        }
    }
}

} // verus!
