//! Id orders: lists of ids that only ever grow at the end.

use crate::config::partial::strings_view;
use crate::text::str_eq;
use vstd::prelude::*;
use vstd::string::*;

verus! {

/// `order` with `id` appended unless already present.
pub open spec fn with_id(order: Seq<Seq<char>>, id: Seq<char>) -> Seq<Seq<char>> {
    if order.contains(id) {
        order
    } else {
        order.push(id)
    }
}

/// `order` with each of `keys` appended, in turn, unless already present.
pub open spec fn append_missing(order: Seq<Seq<char>>, keys: Seq<Seq<char>>) -> Seq<Seq<char>>
    decreases keys.len(),
{
    if keys.len() == 0 {
        order
    } else {
        with_id(append_missing(order, keys.drop_last()), keys.last())
    }
}

/// Appends `id` to `order` unless it is already there.
pub fn ensure_id_in_order(order: &mut Vec<String>, id: &str)
    ensures
        strings_view(final(order)@) == with_id(strings_view(old(order)@), id@),
{
    let mut i: usize = 0;
    let mut found = false;
    while i < order.len()
        invariant
            i <= order@.len(),
            order@ == old(order)@,
            found == exists|j: int| 0 <= j < i && (#[trigger] order@[j])@ == id@,
        decreases order@.len() - i,
    {
        if str_eq(order[i].as_str(), id) {
            found = true;
        }
        i = i + 1;
    }
    let ghost before = strings_view(order@);
    proof {
        if found {
            let j = choose|j: int| 0 <= j < i && (#[trigger] order@[j])@ == id@;
            assert(before[j] == id@);
        } else {
            assert forall|j: int| 0 <= j < before.len() implies before[j] != id@ by {
                assert(before[j] == order@[j]@);
            }
        }
    }
    if !found {
        order.push(String::from_str(id));
        assert(strings_view(order@) =~= before.push(id@));
    }
}

/// Appends each of `keys` that `order` lacks, in turn.
pub fn append_missing_keys(order: &mut Vec<String>, keys: &[String])
    ensures
        strings_view(final(order)@) == append_missing(strings_view(old(order)@), strings_view(keys@)),
{
    let mut i: usize = 0;
    while i < keys.len()
        invariant
            i <= keys@.len(),
            strings_view(order@) == append_missing(strings_view(old(order)@), strings_view(keys@.subrange(0, i as int))),
        decreases keys@.len() - i,
    {
        ensure_id_in_order(order, keys[i].as_str());
        assert(strings_view(keys@.subrange(0, i + 1)).drop_last() =~= strings_view(keys@.subrange(0, i as int)));
        i = i + 1;
    }
    assert(keys@.subrange(0, keys@.len() as int) =~= keys@);
}

/// Appends the ids of `src` that `dst` lacks, keeping the order of both.
pub fn merge_order(dst: &mut Vec<String>, src: &[String])
    ensures
        strings_view(final(dst)@) == append_missing(strings_view(old(dst)@), strings_view(src@)),
{
    append_missing_keys(dst, src);
}

/// Merging an order only appends: the old order stays a prefix, the ids of
/// the result are those of either order, and an order without repeats
/// stays without repeats.
pub proof fn lemma_merge_order_appends_missing_only(dst: Seq<Seq<char>>, src: Seq<Seq<char>>)
    ensures
        append_missing(dst, src).len() >= dst.len(),
        append_missing(dst, src).subrange(0, dst.len() as int) == dst,
        forall|x: Seq<char>| #[trigger] append_missing(dst, src).contains(x) <==> dst.contains(x) || src.contains(x),
        dst.no_duplicates() ==> append_missing(dst, src).no_duplicates(),
    decreases src.len(),
{
    if src.len() > 0 {
        let prev = append_missing(dst, src.drop_last());
        lemma_merge_order_appends_missing_only(dst, src.drop_last());
        let r = append_missing(dst, src);
        assert(r == with_id(prev, src.last()));
        if !prev.contains(src.last()) {
            assert(r.subrange(0, dst.len() as int) =~= prev.subrange(0, dst.len() as int));
        }
        assert forall|x: Seq<char>| #[trigger] r.contains(x) <==> dst.contains(x) || src.contains(x) by {
            if src.contains(x) && !dst.contains(x) {
                let k = choose|k: int| 0 <= k < src.len() && src[k] == x;
                if k < src.len() - 1 {
                    assert(src.drop_last()[k] == x);
                }
            }
            if src.drop_last().contains(x) {
                let k = choose|k: int| 0 <= k < src.drop_last().len() && src.drop_last()[k] == x;
                assert(src[k] == x);
            }
            if r.contains(x) && !prev.contains(x) {
                assert(x == src.last());
                assert(src[src.len() - 1] == x);
            }
            if prev.contains(x) {
                let k = choose|k: int| 0 <= k < prev.len() && prev[k] == x;
                if !prev.contains(src.last()) {
                    assert(r[k] == x);
                }
            }
            if x == src.last() && !prev.contains(x) {
                assert(r[prev.len() as int] == x);
            }
        }
    } else {
        assert(dst.subrange(0, dst.len() as int) =~= dst);
    }
}

} // verus!
