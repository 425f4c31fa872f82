//! Occurrence counts in sequences, and the small lemmas about them that the
//! sorted-multiset construction needs.

use vstd::multiset::Multiset;
use vstd::prelude::*;

verus! {

/// How many positions of `s` hold exactly `e`.
pub open spec fn count_in_seq<T>(s: Seq<T>, e: T) -> nat
    decreases s.len(),
{
    if s.len() == 0 {
        0
    } else {
        count_in_seq(s.drop_last(), e) + (if s.last() == e {
            1nat
        } else {
            0nat
        })
    }
}

/// A count never exceeds the length of the sequence.
pub proof fn lemma_count_le_len<T>(s: Seq<T>, e: T)
    ensures
        count_in_seq(s, e) <= s.len(),
    decreases s.len(),
{
    if s.len() > 0 {
        lemma_count_le_len(s.drop_last(), e);
    }
}

/// Extending a prefix by one element adds one to the count of that element.
pub proof fn lemma_count_take_step<T>(s: Seq<T>, e: T, k: int)
    requires
        0 < k <= s.len(),
    ensures
        count_in_seq(s.take(k), e) == count_in_seq(s.take(k - 1), e) + (if s[k - 1] == e {
            1nat
        } else {
            0nat
        }),
{
    assert(s.take(k).drop_last() =~= s.take(k - 1));
    assert(s.take(k).last() == s[k - 1]);
}

/// Counts add up over concatenation.
pub proof fn lemma_count_concat<T>(a: Seq<T>, b: Seq<T>, e: T)
    ensures
        count_in_seq(a + b, e) == count_in_seq(a, e) + count_in_seq(b, e),
    decreases b.len(),
{
    if b.len() == 0 {
        assert(a + b =~= a);
    } else {
        lemma_count_concat(a, b.drop_last(), e);
        assert((a + b).drop_last() =~= a + b.drop_last());
        assert((a + b).last() == b.last());
    }
}

/// `e` repeated `n` times, as a sequence.
pub open spec fn repeat_elem<T>(e: T, n: nat) -> Seq<T> {
    Seq::new(n, |i: int| e)
}

/// Counting in a constant sequence.
pub proof fn lemma_count_repeat<T>(x: T, n: nat, e: T)
    ensures
        count_in_seq(repeat_elem(x, n), e) == if x == e {
            n
        } else {
            0nat
        },
    decreases n,
{
    if n > 0 {
        lemma_count_repeat(x, (n - 1) as nat, e);
        assert(repeat_elem(x, n).drop_last() =~= repeat_elem(x, (n - 1) as nat));
        assert(repeat_elem(x, n).last() == x);
    }
}

/// `count_in_seq` agrees with the multiset reading of the sequence.
pub proof fn lemma_count_is_multiset_count<T>(s: Seq<T>, e: T)
    ensures
        count_in_seq(s, e) == s.to_multiset().count(e),
    decreases s.len(),
{
    broadcast use vstd::seq_lib::group_to_multiset_ensures;

    if s.len() == 0 {
        assert(s.to_multiset() =~= Multiset::<T>::empty());
    } else {
        lemma_count_is_multiset_count(s.drop_last(), e);
        assert(s.drop_last().push(s.last()) =~= s);
        assert(s.drop_last().push(s.last()).to_multiset() =~= s.drop_last().to_multiset().insert(
            s.last(),
        ));
    }
}

} // verus!
