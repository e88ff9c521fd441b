//! Samples in ascending order: what that means, and a merge sort that
//! brings them into it.

use vstd::multiset::lemma_multiset_empty_len;
use vstd::prelude::*;
use vstd::relations::sorted_by;
use vstd::relations::total_ordering;
use vstd::seq_lib::lemma_multiset_commutative;
use vstd::seq_lib::lemma_sorted_unique;
use vstd::seq_lib::to_multiset_build;
use vstd::seq_lib::to_multiset_len;

verus! {

/// The order samples are sorted by: numeric, smallest first.
pub open spec fn at_most() -> spec_fn(u128, u128) -> bool {
    |a: u128, b: u128| a <= b
}

/// Whether `s` is in ascending order.
pub open spec fn is_ascending(s: Seq<u128>) -> bool {
    forall|i: int, j: int| 0 <= i < j < s.len() ==> s[i] <= s[j]
}

/// The samples in ascending order.
pub open spec fn ascending(s: Seq<u128>) -> Seq<u128> {
    s.sort_by(at_most())
}

/// Numeric order is a total order.
pub proof fn lemma_at_most_is_total()
    ensures
        total_ordering(at_most()),
{
    let leq = at_most();
    assert forall|x: u128, y: u128| #[trigger] leq(x, y) && #[trigger] leq(y, x) implies x == y by {}
    assert forall|x: u128, y: u128, z: u128| #[trigger] leq(x, y) && #[trigger] leq(y, z) implies leq(
        x,
        z,
    ) by {}
}

/// `ascending(s)` holds the samples of `s`, each as often as `s` does, in
/// ascending order; and it is the only sequence that does.
pub proof fn lemma_ascending(s: Seq<u128>)
    ensures
        is_ascending(ascending(s)),
        ascending(s).to_multiset() == s.to_multiset(),
        ascending(s).len() == s.len(),
        forall|t: Seq<u128>|
            #[trigger] is_ascending(t) && t.to_multiset() == s.to_multiset() ==> t == ascending(s),
{
    broadcast use vstd::seq_lib::group_to_multiset_ensures;

    lemma_at_most_is_total();
    s.lemma_sort_by_ensures(at_most());
    let a = ascending(s);
    assert forall|i: int, j: int| 0 <= i < j < a.len() implies a[i] <= a[j] by {
        assert(at_most()(a[i], a[j]));
    }
    assert(a.len() == a.to_multiset().len());
    assert(s.len() == s.to_multiset().len());
    assert forall|t: Seq<u128>|
        #[trigger] is_ascending(t) && t.to_multiset() == s.to_multiset() implies t == ascending(
        s,
    ) by {
        lemma_ascending_unique(t, s);
    }
}

/// A sequence in ascending order with the samples of `s` is `ascending(s)`.
pub proof fn lemma_ascending_unique(t: Seq<u128>, s: Seq<u128>)
    requires
        is_ascending(t),
        t.to_multiset() == s.to_multiset(),
    ensures
        t == ascending(s),
{
    lemma_at_most_is_total();
    s.lemma_sort_by_ensures(at_most());
    assert(sorted_by(t, at_most()));
    lemma_sorted_unique(t, ascending(s), at_most());
}

/// Merges two ascending vectors into one.
fn merge(left: &Vec<u128>, right: &Vec<u128>) -> (out: Vec<u128>)
    requires
        is_ascending(left@),
        is_ascending(right@),
    ensures
        is_ascending(out@),
        out@.to_multiset() == left@.to_multiset().add(right@.to_multiset()),
{
    broadcast use vstd::multiset::group_multiset_axioms;

    let mut out: Vec<u128> = Vec::new();
    let mut i: usize = 0;
    let mut j: usize = 0;
    proof {
        let nothing = Seq::<u128>::empty();
        assert(out@ =~= nothing);
        assert(left@.subrange(0, 0) =~= nothing);
        assert(right@.subrange(0, 0) =~= nothing);
        to_multiset_len(nothing);
        lemma_multiset_empty_len(nothing.to_multiset());
        assert(nothing.to_multiset() =~= nothing.to_multiset().add(nothing.to_multiset()));
    }
    while i < left.len() || j < right.len()
        invariant
            i <= left.len(),
            j <= right.len(),
            is_ascending(left@),
            is_ascending(right@),
            is_ascending(out@),
            out@.to_multiset() == left@.subrange(0, i as int).to_multiset().add(
                right@.subrange(0, j as int).to_multiset(),
            ),
            forall|k: int| 0 <= k < out@.len() && i < left.len() ==> out@[k] <= left@[i as int],
            forall|k: int| 0 <= k < out@.len() && j < right.len() ==> out@[k] <= right@[j as int],
        decreases left.len() - i + right.len() - j,
    {
        let ghost before = out@;
        let from_left = if i == left.len() {
            false
        } else if j == right.len() {
            true
        } else {
            left[i] <= right[j]
        };
        if from_left {
            let x = left[i];
            out.push(x);
            proof {
                let taken = left@.subrange(0, i as int);
                assert(left@.subrange(0, i as int + 1) =~= taken.push(x));
                to_multiset_build(taken, x);
                to_multiset_build(before, x);
                assert(out@.to_multiset() =~= left@.subrange(0, i as int + 1).to_multiset().add(
                    right@.subrange(0, j as int).to_multiset(),
                ));
            }
            i = i + 1;
        } else {
            let x = right[j];
            out.push(x);
            proof {
                let taken = right@.subrange(0, j as int);
                assert(right@.subrange(0, j as int + 1) =~= taken.push(x));
                to_multiset_build(taken, x);
                to_multiset_build(before, x);
                assert(out@.to_multiset() =~= left@.subrange(0, i as int).to_multiset().add(
                    right@.subrange(0, j as int + 1).to_multiset(),
                ));
            }
            j = j + 1;
        }
    }
    assert(left@.subrange(0, i as int) =~= left@);
    assert(right@.subrange(0, j as int) =~= right@);
    out
}

/// Sorts the samples `samples[lo..hi]` into a new vector.
fn sort_range(samples: &Vec<u128>, lo: usize, hi: usize) -> (out: Vec<u128>)
    requires
        lo <= hi <= samples.len(),
    ensures
        is_ascending(out@),
        out@.to_multiset() == samples@.subrange(lo as int, hi as int).to_multiset(),
    decreases hi - lo,
{
    let mut out: Vec<u128> = Vec::new();
    if hi - lo == 0 {
        assert(samples@.subrange(lo as int, hi as int) =~= out@);
        out
    } else if hi - lo == 1 {
        out.push(samples[lo]);
        assert(samples@.subrange(lo as int, hi as int) =~= out@);
        out
    } else {
        let mid = lo + (hi - lo) / 2;
        let left = sort_range(samples, lo, mid);
        let right = sort_range(samples, mid, hi);
        proof {
            let a = samples@.subrange(lo as int, mid as int);
            let b = samples@.subrange(mid as int, hi as int);
            assert(samples@.subrange(lo as int, hi as int) =~= a + b);
            lemma_multiset_commutative(a, b);
        }
        merge(&left, &right)
    }
}

/// A copy of the samples in ascending order. The samples themselves are
/// left as they are.
pub fn sorted_copy(samples: &Vec<u128>) -> (sorted: Vec<u128>)
    ensures
        sorted@ == ascending(samples@),
{
    let sorted = sort_range(samples, 0, samples.len());
    proof {
        assert(samples@.subrange(0, samples.len() as int) =~= samples@);
        lemma_ascending_unique(sorted@, samples@);
    }
    sorted
}

} // verus!
