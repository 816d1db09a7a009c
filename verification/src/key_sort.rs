//! Sorting of ranking keys.
//!
//! A key is a pair of an attribution value and the position the record had in
//! the record set it came from. Keys are ordered by value, larger first, and
//! among equal values by position, later first. Two keys of one record set
//! never have the same position, so this order leaves no freedom.

use vstd::prelude::*;
use vstd::relations::*;
use vstd::seq_lib::*;

verus! {

/// `a` stands at or before `b` in a ranking: its value is larger, or the
/// values are equal and `a` came at or after `b` in the record set.
pub open spec fn key_precedes(a: (u64, usize), b: (u64, usize)) -> bool {
    a.0 > b.0 || (a.0 == b.0 && a.1 >= b.1)
}

/// [`key_precedes`] as a relation.
pub open spec fn key_order() -> spec_fn((u64, usize), (u64, usize)) -> bool {
    |a: (u64, usize), b: (u64, usize)| key_precedes(a, b)
}

/// The order of keys is total: any two keys compare, and only equal keys
/// compare both ways.
pub proof fn lemma_key_order_total()
    ensures
        total_ordering(key_order()),
{
    let r = key_order();
    assert(reflexive(r));
    assert(antisymmetric(r)) by {
        assert forall|x: (u64, usize), y: (u64, usize)| #[trigger] r(x, y) && #[trigger] r(y, x) implies x == y by {}
    }
    assert(transitive(r));
    assert(strongly_connected(r));
}

fn precedes(a: &(u64, usize), b: &(u64, usize)) -> (r: bool)
    ensures
        r == key_precedes(*a, *b),
{
    a.0 > b.0 || (a.0 == b.0 && a.1 >= b.1)
}

/// Merges two sorted runs of keys into one.
fn merge_runs(left: &Vec<(u64, usize)>, right: &Vec<(u64, usize)>) -> (out: Vec<(u64, usize)>)
    requires
        sorted_by(left@, key_order()),
        sorted_by(right@, key_order()),
    ensures
        sorted_by(out@, key_order()),
        out@.to_multiset() == left@.to_multiset().add(right@.to_multiset()),
{
    broadcast use group_to_multiset_ensures;
    let mut out: Vec<(u64, usize)> = Vec::new();
    let mut i: usize = 0;
    let mut j: usize = 0;
    assert(left@.take(0) =~= Seq::empty());
    assert(right@.take(0) =~= Seq::empty());
    while i < left.len() || j < right.len()
        invariant
            i <= left.len(),
            j <= right.len(),
            sorted_by(left@, key_order()),
            sorted_by(right@, key_order()),
            sorted_by(out@, key_order()),
            out@.to_multiset() == left@.take(i as int).to_multiset().add(
                right@.take(j as int).to_multiset(),
            ),
            forall|k: int|
                0 <= k < out@.len() && i < left.len() ==> key_precedes(
                    #[trigger] out@[k],
                    left@[i as int],
                ),
            forall|k: int|
                0 <= k < out@.len() && j < right.len() ==> key_precedes(
                    #[trigger] out@[k],
                    right@[j as int],
                ),
        decreases left.len() - i + right.len() - j,
    {
        let from_left = if i < left.len() && j < right.len() {
            precedes(&left[i], &right[j])
        } else {
            i < left.len()
        };
        let ghost before = out@;
        if from_left {
            let x = left[i];
            out.push(x);
            proof {
                assert(left@.take(i + 1) =~= left@.take(i as int).push(x));
                to_multiset_build(before, x);
                to_multiset_build(left@.take(i as int), x);
                assert(out@ =~= before.push(x));
                assert(out@.to_multiset() =~= left@.take(i + 1).to_multiset().add(
                    right@.take(j as int).to_multiset(),
                ));
                assert(i + 1 < left.len() ==> key_order()(left@[i as int], left@[i + 1]));
            }
            i = i + 1;
        } else {
            let x = right[j];
            out.push(x);
            proof {
                assert(right@.take(j + 1) =~= right@.take(j as int).push(x));
                to_multiset_build(before, x);
                to_multiset_build(right@.take(j as int), x);
                assert(out@ =~= before.push(x));
                assert(out@.to_multiset() =~= left@.take(i as int).to_multiset().add(
                    right@.take(j + 1).to_multiset(),
                ));
                assert(j + 1 < right.len() ==> key_order()(right@[j as int], right@[j + 1]));
            }
            j = j + 1;
        }
        proof {
            assert forall|a: int, b: int| 0 <= a < b < out@.len() implies #[trigger] key_order()(
                out@[a],
                out@[b],
            ) by {
                if b < before.len() {
                    assert(key_order()(before[a], before[b]));
                }
            }
        }
    }
    proof {
        assert(left@.take(i as int) =~= left@);
        assert(right@.take(j as int) =~= right@);
    }
    out
}

/// Sorts the keys at positions `lo..hi`.
fn sort_range(keys: &Vec<(u64, usize)>, lo: usize, hi: usize) -> (out: Vec<(u64, usize)>)
    requires
        lo <= hi <= keys.len(),
    ensures
        sorted_by(out@, key_order()),
        out@.to_multiset() == keys@.subrange(lo as int, hi as int).to_multiset(),
    decreases hi - lo,
{
    broadcast use group_to_multiset_ensures;
    if hi - lo <= 1 {
        let mut out: Vec<(u64, usize)> = Vec::new();
        if lo < hi {
            out.push(keys[lo]);
        }
        proof {
            assert(out@ =~= keys@.subrange(lo as int, hi as int));
        }
        out
    } else {
        let mid: usize = lo + (hi - lo) / 2;
        let left = sort_range(keys, lo, mid);
        let right = sort_range(keys, mid, hi);
        proof {
            let a = keys@.subrange(lo as int, mid as int);
            let b = keys@.subrange(mid as int, hi as int);
            assert(a + b =~= keys@.subrange(lo as int, hi as int));
            lemma_multiset_commutative(a, b);
        }
        merge_runs(&left, &right)
    }
}

/// Sorts keys by [`key_order`]: larger values first, and among equal values
/// the later position first.
pub fn sort_keys(keys: &Vec<(u64, usize)>) -> (out: Vec<(u64, usize)>)
    ensures
        out@ == keys@.sort_by(key_order()),
{
    let out = sort_range(keys, 0, keys.len());
    proof {
        assert(keys@.subrange(0, keys@.len() as int) =~= keys@);
        lemma_key_order_total();
        keys@.lemma_sort_by_ensures(key_order());
        lemma_sorted_unique(out@, keys@.sort_by(key_order()), key_order());
    }
    out
}

} // verus!
