//! The sorted multiset column: the table interleaved with the queried
//! entries, each table position repeated once per reference, in table order.
//!
//! `sorted_multiset_seq` is the specification of that column;
//! `lemma_sorted_to_multiset` shows it is exactly the multiset union of the
//! table and the gathered query values, and `lemma_sorted_len` gives its
//! length.

use vstd::prelude::*;

use crate::counting::{
    count_in_seq, lemma_count_concat, lemma_count_is_multiset_count, lemma_count_repeat,
    lemma_count_take_step, repeat_elem,
};

verus! {

/// Projection of `v` through an index list: element `i` of the result is
/// `v[index[i]]`.
pub open spec fn gather_spec<T>(v: Seq<T>, index: Seq<usize>) -> Seq<T> {
    Seq::new(index.len(), |i: int| v[index[i] as int])
}

/// How often table position `j` appears in the sorted multiset: once as the
/// baseline, plus once per query index pointing at it.
pub open spec fn freq_at(index: Seq<usize>, j: usize) -> nat {
    1 + count_in_seq(index, j)
}

/// The sorted multiset restricted to the first `k` table positions.
pub open spec fn sorted_prefix<F>(set: Seq<F>, index: Seq<usize>, k: int) -> Seq<F>
    decreases k,
{
    if k <= 0 {
        Seq::empty()
    } else {
        sorted_prefix(set, index, k - 1) + repeat_elem(
            set[k - 1],
            freq_at(index, (k - 1) as usize),
        )
    }
}

/// The sorted multiset column: each table entry, in table order, repeated
/// `freq_at` times.
pub open spec fn sorted_multiset_seq<F>(set: Seq<F>, index: Seq<usize>) -> Seq<F> {
    sorted_prefix(set, index, set.len() as int)
}

/// Occurrences of `e` among the first `k` table positions, weighted by how
/// often each position is referenced in `index`.
spec fn weighted_count<F>(set: Seq<F>, index: Seq<usize>, e: F, k: int) -> nat
    decreases k,
{
    if k <= 0 {
        0
    } else {
        weighted_count(set, index, e, k - 1) + (if set[k - 1] == e {
            count_in_seq(index, (k - 1) as usize)
        } else {
            0nat
        })
    }
}

proof fn lemma_sorted_prefix_count<F>(set: Seq<F>, index: Seq<usize>, e: F, k: int)
    requires
        0 <= k <= set.len(),
    ensures
        count_in_seq(sorted_prefix(set, index, k), e) == count_in_seq(set.take(k), e)
            + weighted_count(set, index, e, k),
    decreases k,
{
    if k == 0 {
        assert(sorted_prefix(set, index, 0) =~= Seq::<F>::empty());
        assert(set.take(0) =~= Seq::<F>::empty());
    } else {
        lemma_sorted_prefix_count(set, index, e, k - 1);
        lemma_count_concat(
            sorted_prefix(set, index, k - 1),
            repeat_elem(set[k - 1], freq_at(index, (k - 1) as usize)),
            e,
        );
        lemma_count_repeat(set[k - 1], freq_at(index, (k - 1) as usize), e);
        lemma_count_take_step(set, e, k);
    }
}

proof fn lemma_weighted_empty<F>(set: Seq<F>, index: Seq<usize>, e: F, k: int)
    requires
        index.len() == 0,
    ensures
        weighted_count(set, index, e, k) == 0,
    decreases k,
{
    if k > 0 {
        lemma_weighted_empty(set, index, e, k - 1);
    }
}

proof fn lemma_weighted_drop_last<F>(set: Seq<F>, index: Seq<usize>, e: F, k: int)
    requires
        index.len() > 0,
        k <= usize::MAX + 1,
    ensures
        weighted_count(set, index, e, k) == weighted_count(set, index.drop_last(), e, k) + (if (
        index.last() as int) < k && set[index.last() as int] == e {
            1nat
        } else {
            0nat
        }),
    decreases k,
{
    if k > 0 {
        lemma_weighted_drop_last(set, index, e, k - 1);
    }
}

proof fn lemma_weighted_is_gather_count<F>(set: Seq<F>, index: Seq<usize>, e: F)
    requires
        forall|i: int| 0 <= i < index.len() ==> (index[i] as int) < set.len(),
        set.len() <= usize::MAX,
    ensures
        weighted_count(set, index, e, set.len() as int) == count_in_seq(
            gather_spec(set, index),
            e,
        ),
    decreases index.len(),
{
    if index.len() == 0 {
        lemma_weighted_empty(set, index, e, set.len() as int);
        assert(gather_spec(set, index) =~= Seq::<F>::empty());
    } else {
        let shorter = index.drop_last();
        lemma_weighted_is_gather_count(set, shorter, e);
        lemma_weighted_drop_last(set, index, e, set.len() as int);
        assert(gather_spec(set, index).drop_last() =~= gather_spec(set, shorter));
        assert(gather_spec(set, index).last() == set[index.last() as int]);
    }
}

/// The sorted multiset contains each value exactly as often as the table and
/// the gathered query values together do.
pub proof fn lemma_sorted_multiset_union<F>(set: Seq<F>, index: Seq<usize>, e: F)
    requires
        forall|i: int| 0 <= i < index.len() ==> (index[i] as int) < set.len(),
        set.len() <= usize::MAX,
    ensures
        count_in_seq(sorted_multiset_seq(set, index), e) == count_in_seq(set, e) + count_in_seq(
            gather_spec(set, index),
            e,
        ),
{
    lemma_sorted_prefix_count(set, index, e, set.len() as int);
    assert(set.take(set.len() as int) =~= set);
    lemma_weighted_is_gather_count(set, index, e);
}

/// The sorted column, read as a multiset, is the multiset union of the table
/// and the table values gathered through `index`.
pub proof fn lemma_sorted_to_multiset<F>(set: Seq<F>, index: Seq<usize>)
    requires
        forall|i: int| 0 <= i < index.len() ==> (index[i] as int) < set.len(),
        set.len() <= usize::MAX,
    ensures
        sorted_multiset_seq(set, index).to_multiset() == set.to_multiset().add(
            gather_spec(set, index).to_multiset(),
        ),
{
    broadcast use vstd::multiset::group_multiset_axioms;

    let srt = sorted_multiset_seq(set, index);
    let gathered = gather_spec(set, index);
    assert forall|e: F| srt.to_multiset().count(e) == set.to_multiset().add(
        gathered.to_multiset(),
    ).count(e) by {
        lemma_sorted_multiset_union(set, index, e);
        lemma_count_is_multiset_count(srt, e);
        lemma_count_is_multiset_count(set, e);
        lemma_count_is_multiset_count(gathered, e);
    }
    assert(srt.to_multiset() =~= set.to_multiset().add(gathered.to_multiset()));
}

/// The sorted multiset has one entry per table position plus one per query.
pub proof fn lemma_sorted_len<F>(set: Seq<F>, index: Seq<usize>)
    requires
        forall|i: int| 0 <= i < index.len() ==> (index[i] as int) < set.len(),
        set.len() <= usize::MAX,
    ensures
        sorted_multiset_seq(set, index).len() == set.len() + index.len(),
{
    broadcast use vstd::multiset::group_multiset_axioms;
    broadcast use vstd::seq_lib::group_to_multiset_ensures;

    lemma_sorted_to_multiset(set, index);
    let srt = sorted_multiset_seq(set, index);
    let gathered = gather_spec(set, index);
    assert(gathered.len() == index.len());
    assert(srt.to_multiset().len() == srt.len());
    assert(set.to_multiset().len() == set.len());
    assert(gathered.to_multiset().len() == gathered.len());
    assert(set.to_multiset().add(gathered.to_multiset()).len() == set.to_multiset().len()
        + gathered.to_multiset().len());
}

} // verus!
