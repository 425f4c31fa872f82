//! The plookup prover gadget: randomized column compression, running
//! products, and the entry point that assembles them.

use vstd::prelude::*;

use crate::counting::{lemma_count_le_len, lemma_count_take_step, repeat_elem};
use crate::field::Field;
use crate::sorted::{freq_at, gather_spec, lemma_sorted_len, sorted_multiset_seq, sorted_prefix};

verus! {

/// Every element of the sequence is a well-formed field element.
pub open spec fn all_wf<F: Field>(s: Seq<F>) -> bool {
    forall|i: int| 0 <= i < s.len() ==> s[i].wf()
}

/// An element tagged with its position: `e + from(i) * zeta`.
pub open spec fn pos_tag<F: Field>(e: F, i: int, zeta: F) -> F {
    e.spec_add(F::spec_from_u64(i as u64).spec_mul(zeta))
}

/// The constant additive mask of the shift compression: `(1 + chi) * gamma`.
pub open spec fn shift_mask<F: Field>(gamma: F, chi: F) -> F {
    F::spec_one().spec_add(chi).spec_mul(gamma)
}

/// The cyclic predecessor of position `i`, position-tagged. Position 0 wraps
/// to the last element, tagged with the out-of-range position `len` as a
/// sentinel for the wrap boundary.
pub open spec fn shift_prev<F: Field>(v: Seq<F>, i: int, zeta: F) -> F {
    if i == 0 {
        pos_tag(v[v.len() - 1], v.len() as int, zeta)
    } else {
        pos_tag(v[i - 1], i - 1, zeta)
    }
}

/// One entry of the shift-compressed column:
/// `(1 + chi) * gamma + (v[i] + i * zeta) + prev_i * chi`.
pub open spec fn shift_compress_at<F: Field>(v: Seq<F>, i: int, gamma: F, chi: F, zeta: F) -> F {
    shift_mask(gamma, chi).spec_add(pos_tag(v[i], i, zeta)).spec_add(
        shift_prev(v, i, zeta).spec_mul(chi),
    )
}

/// The whole shift-compressed column of `v`.
pub open spec fn shift_compressed<F: Field>(v: Seq<F>, gamma: F, chi: F, zeta: F) -> Seq<F> {
    Seq::new(v.len(), |i: int| shift_compress_at(v, i, gamma, chi, zeta))
}

/// One entry of the compressed subset column: `e + zeta * f + gamma`, where
/// `e` is the query value and `f` the table value it claims to match.
pub open spec fn subset_compress_at<F: Field>(e: F, f: F, gamma: F, zeta: F) -> F {
    e.spec_add(zeta.spec_mul(f)).spec_add(gamma)
}

/// The whole compressed subset column.
pub open spec fn subset_compressed<F: Field>(
    subset: Seq<F>,
    index_f: Seq<F>,
    gamma: F,
    zeta: F,
) -> Seq<F> {
    Seq::new(subset.len(), |i: int| subset_compress_at(subset[i], index_f[i], gamma, zeta))
}

/// The running product of `s` up to and including position `i`.
pub open spec fn running_prod<F: Field>(s: Seq<F>, i: int) -> F
    decreases i,
{
    if i <= 0 {
        s[0]
    } else {
        running_prod(s, i - 1).spec_mul(s[i])
    }
}

/// The prefix-product column of `s`: element `i` is the product of
/// `s[0..=i]`.
pub open spec fn accumulated<F: Field>(s: Seq<F>) -> Seq<F> {
    Seq::new(s.len(), |i: int| running_prod(s, i))
}

/// The accumulated column really is the running product of its source:
/// it starts at the first element and each later entry multiplies the
/// previous one by the matching source entry.
pub proof fn lemma_accumulated_is_running_product<F: Field>(s: Seq<F>)
    ensures
        accumulated(s).len() == s.len(),
        s.len() > 0 ==> accumulated(s)[0] == s[0],
        forall|i: int|
            0 < i < s.len() ==> accumulated(s)[i] == accumulated(s)[i - 1].spec_mul(s[i]),
{
    assert forall|i: int| 0 < i < s.len() implies accumulated(s)[i] == accumulated(s)[i
        - 1].spec_mul(s[i]) by {
        assert(running_prod(s, i) == running_prod(s, i - 1).spec_mul(s[i]));
    }
}

/// Projects `v` through `index`: element `i` of the result is `v[index[i]]`.
///
/// Every index must be a valid position of `v`; the caller validates that.
pub fn lookup<T: Copy>(v: &[T], index: &Vec<usize>) -> (r: Vec<T>)
    requires
        forall|i: int| 0 <= i < index@.len() ==> (index@[i] as int) < v@.len(),
    ensures
        r@ == gather_spec(v@, index@),
{
    let mut r: Vec<T> = Vec::new();
    let mut i: usize = 0;
    while i < index.len()
        invariant
            i <= index@.len(),
            forall|k: int| 0 <= k < index@.len() ==> (index@[k] as int) < v@.len(),
            r@.len() == i,
            forall|k: int| 0 <= k < i ==> r@[k] == v@[index@[k] as int],
        decreases index@.len() - i,
    {
        r.push(v[index[i]]);
        i = i + 1;
    }
    assert(r@ =~= gather_spec(v@, index@));
    r
}

/// Elementwise randomized linear combination of two equal-length columns:
/// element `i` of the result is `v[i] + w[i] * chal`.
///
/// A standalone utility; the plookup entry point does not use it.
pub fn alg_hash<F: Field>(v: &[F], w: &[F], chal: &F) -> (r: Vec<F>)
    requires
        v@.len() == w@.len(),
        all_wf(v@),
        all_wf(w@),
        chal.wf(),
    ensures
        r@.len() == v@.len(),
        forall|i: int| 0 <= i < r@.len() ==> r@[i] == v@[i].spec_add(w@[i].spec_mul(*chal)),
        all_wf(r@),
{
    let mut r: Vec<F> = Vec::new();
    let mut i: usize = 0;
    while i < v.len()
        invariant
            i <= v@.len(),
            v@.len() == w@.len(),
            all_wf(v@),
            all_wf(w@),
            chal.wf(),
            r@.len() == i,
            forall|k: int| 0 <= k < i ==> r@[k] == v@[k].spec_add(w@[k].spec_mul(*chal)),
            all_wf(r@),
        decreases v@.len() - i,
    {
        r.push(v[i].add(w[i].mul(*chal)));
        i = i + 1;
    }
    r
}

/// Shift-compresses a non-empty column: entangles each element with its
/// position (via `zeta`) and its cyclic predecessor (via `chi`), plus the
/// constant mask `(1 + chi) * gamma`. The predecessor of the first element
/// is the last element, tagged with the sentinel position `v.len()`.
pub fn compute_lookup_vector_with_shift<F: Field>(v: &[F], gamma: &F, chi: &F, zeta: &F) -> (res:
    Vec<F>)
    requires
        v@.len() > 0,
        all_wf(v@),
        gamma.wf(),
        chi.wf(),
        zeta.wf(),
    ensures
        res@ == shift_compressed(v@, *gamma, *chi, *zeta),
        all_wf(res@),
{
    let len = v.len();
    let mask = F::one().add(*chi).mul(*gamma);
    let mut prev = v[len - 1].add(F::from_u64(len as u64).mul(*zeta));
    let mut res: Vec<F> = Vec::new();
    let mut i: usize = 0;
    while i < len
        invariant
            0 < len == v@.len(),
            i <= len,
            all_wf(v@),
            gamma.wf(),
            chi.wf(),
            zeta.wf(),
            mask == shift_mask(*gamma, *chi),
            mask.wf(),
            prev == shift_prev(v@, i as int, *zeta),
            prev.wf(),
            res@.len() == i,
            forall|k: int| 0 <= k < i ==> res@[k] == shift_compress_at(v@, k, *gamma, *chi, *zeta),
            all_wf(res@),
        decreases len - i,
    {
        let curr = v[i].add(F::from_u64(i as u64).mul(*zeta));
        assert(curr == pos_tag(v@[i as int], i as int, *zeta));
        res.push(mask.add(curr).add(prev.mul(*chi)));
        prev = curr;
        i = i + 1;
    }
    assert(res@ =~= shift_compressed(v@, *gamma, *chi, *zeta));
    res
}

/// Computes the prefix-product column of `xs` and the product of all of its
/// entries; the product of an empty column is the multiplicative identity.
fn accumulate<F: Field>(xs: &Vec<F>) -> (res: (Vec<F>, F))
    requires
        all_wf(xs@),
    ensures
        res.0@ == accumulated(xs@),
        all_wf(res.0@),
        res.1.wf(),
        xs@.len() == 0 ==> res.1 == F::spec_one(),
        xs@.len() > 0 ==> res.1 == running_prod(xs@, xs@.len() - 1),
{
    let mut acc: Vec<F> = Vec::new();
    let mut tmp = F::one();
    let mut i: usize = 0;
    while i < xs.len()
        invariant
            i <= xs@.len(),
            all_wf(xs@),
            tmp == if i == 0 {
                F::spec_one()
            } else {
                running_prod(xs@, i - 1)
            },
            tmp.wf(),
            acc@.len() == i,
            forall|k: int| 0 <= k < i ==> acc@[k] == running_prod(xs@, k),
            all_wf(acc@),
        decreases xs@.len() - i,
    {
        proof {
            if i == 0 {
                F::mul_one_left(xs@[0]);
            }
        }
        tmp = tmp.mul(xs[i]);
        acc.push(tmp);
        i = i + 1;
    }
    assert(acc@ =~= accumulated(xs@));
    (acc, tmp)
}

/// Why a plookup precondition was violated.
#[derive(Clone, Copy, Debug, PartialEq, Eq, Structural)]
pub enum PlookupError {
    /// `subset`, `index` and `index_f` do not all have the same length.
    LengthMismatch,
    /// An entry of `index` is not a valid position of `set`.
    IndexOutOfRange,
    /// `set` is empty, so the cyclic shift compression has no seed.
    EmptySet,
}

/// Everything `plookup` returns on success: the three compressed columns,
/// their three prefix-product columns, the three scalar products, and the
/// sorted multiset column itself.
pub type PlookupOutput<F> = (Vec<Vec<F>>, Vec<Vec<F>>, F, F, F, Vec<F>);

/// The query-side sequences agree in length.
pub open spec fn lengths_match<F>(subset: Seq<F>, index_f: Seq<F>, index: Seq<usize>) -> bool {
    subset.len() == index.len() && subset.len() == index_f.len()
}

/// Every entry of `index` is a valid position of a table of length `n`.
pub open spec fn indices_in_range(index: Seq<usize>, n: int) -> bool {
    forall|i: int| 0 <= i < index.len() ==> (index[i] as int) < n
}

/// What a successful `plookup` call returns, as a function of its inputs:
/// the compressed subset, table and sorted columns in that order, their
/// prefix-product columns, the last accumulated products of the subset and
/// table columns (the empty subset product being the multiplicative
/// identity), the last raw compressed entry of the sorted column, and the
/// sorted multiset itself.
pub open spec fn plookup_ok<F: Field>(
    subset: Seq<F>,
    set: Seq<F>,
    index_f: Seq<F>,
    index: Seq<usize>,
    gamma: F,
    chi: F,
    zeta: F,
    out: PlookupOutput<F>,
) -> bool {
    let comp_subset = subset_compressed(subset, index_f, gamma, zeta);
    let comp_set = shift_compressed(set, gamma, chi, zeta);
    let srt = sorted_multiset_seq(set, index);
    let comp_sorted = shift_compressed(srt, gamma, chi, zeta);
    &&& out.0@.len() == 3
    &&& out.1@.len() == 3
    &&& out.5@.len() == set.len() + index.len()
    &&& out.0@[0]@.len() == subset.len()
    &&& out.0@[1]@.len() == set.len()
    &&& out.0@[2]@.len() == out.5@.len()
    &&& forall|k: int| 0 <= k < 3 ==> (#[trigger] out.1@[k]@).len() == out.0@[k]@.len()
    &&& out.0@[0]@ == comp_subset
    &&& out.0@[1]@ == comp_set
    &&& out.0@[2]@ == comp_sorted
    &&& out.1@[0]@ == accumulated(comp_subset)
    &&& out.1@[1]@ == accumulated(comp_set)
    &&& out.1@[2]@ == accumulated(comp_sorted)
    &&& out.2 == if subset.len() == 0 {
        F::spec_one()
    } else {
        running_prod(comp_subset, subset.len() - 1)
    }
    &&& out.3 == running_prod(comp_set, set.len() - 1)
    &&& out.4 == comp_sorted.last()
    &&& out.5@ == srt
    &&& forall|k: int| 0 <= k < 3 ==> all_wf(#[trigger] out.0@[k]@) && all_wf(out.1@[k]@)
    &&& out.2.wf()
    &&& out.3.wf()
    &&& out.4.wf()
    &&& all_wf(out.5@)
}

/// Builds the prover-side plookup data.
///
/// On success the result is pinned down by [`plookup_ok`]; the structural
/// preconditions are validated first and each violation is reported as the
/// matching error, exactly when it holds.
pub fn plookup<F: Field>(
    subset: &[F],
    set: &[F],
    index_f: &[F],
    index: &[usize],
    gamma: &F,
    chi: &F,
    zeta: &F,
) -> (r: Result<PlookupOutput<F>, PlookupError>)
    requires
        all_wf(subset@),
        all_wf(set@),
        all_wf(index_f@),
        gamma.wf(),
        chi.wf(),
        zeta.wf(),
        set@.len() + index@.len() <= usize::MAX,
    ensures
        r is Ok <==> (lengths_match(subset@, index_f@, index@) && set@.len() > 0
            && indices_in_range(index@, set@.len() as int)),
        r matches Ok(out) ==> plookup_ok(
            subset@,
            set@,
            index_f@,
            index@,
            *gamma,
            *chi,
            *zeta,
            out,
        ),
        (r matches Err(PlookupError::LengthMismatch)) <==> !lengths_match(
            subset@,
            index_f@,
            index@,
        ),
        (r matches Err(PlookupError::EmptySet)) <==> (lengths_match(subset@, index_f@, index@)
            && set@.len() == 0),
        (r matches Err(PlookupError::IndexOutOfRange)) <==> (lengths_match(
            subset@,
            index_f@,
            index@,
        ) && set@.len() > 0 && !indices_in_range(index@, set@.len() as int)),
{
    if subset.len() != index.len() || subset.len() != index_f.len() {
        return Err(PlookupError::LengthMismatch);
    }
    if set.len() == 0 {
        return Err(PlookupError::EmptySet);
    }
    let n = set.len();
    let m = index.len();
    let mut t: usize = 0;
    while t < m
        invariant
            t <= m == index@.len(),
            0 < n == set@.len(),
            lengths_match(subset@, index_f@, index@),
            forall|k: int| 0 <= k < t ==> (index@[k] as int) < n,
        decreases m - t,
    {
        if index[t] >= n {
            assert(!indices_in_range(index@, set@.len() as int)) by {
                assert((index@[t as int] as int) >= set@.len());
            }
            return Err(PlookupError::IndexOutOfRange);
        }
        t = t + 1;
    }

    // Compress the subset column and accumulate its running product.
    let mut lookup_subset: Vec<F> = Vec::new();
    let mut i: usize = 0;
    while i < subset.len()
        invariant
            i <= subset@.len(),
            index_f@.len() == subset@.len(),
            all_wf(subset@),
            all_wf(index_f@),
            gamma.wf(),
            zeta.wf(),
            lookup_subset@.len() == i,
            forall|k: int|
                0 <= k < i ==> lookup_subset@[k] == subset_compress_at(
                    subset@[k],
                    index_f@[k],
                    *gamma,
                    *zeta,
                ),
            all_wf(lookup_subset@),
        decreases subset@.len() - i,
    {
        lookup_subset.push(subset[i].add(zeta.mul(index_f[i])).add(*gamma));
        i = i + 1;
    }
    assert(lookup_subset@ =~= subset_compressed(subset@, index_f@, *gamma, *zeta));
    let (accumulated_subset, subset_prod) = accumulate(&lookup_subset);

    // Compress the table column and accumulate its running product.
    let lookup_set = compute_lookup_vector_with_shift(set, gamma, chi, zeta);
    let (accumulated_set, set_prod) = accumulate(&lookup_set);

    // Count how often each table position is referenced: once as a baseline,
    // once more per query index pointing at it.
    let mut frequency: Vec<usize> = Vec::new();
    let mut j: usize = 0;
    while j < n
        invariant
            j <= n,
            frequency@.len() == j,
            forall|k: int| 0 <= k < j ==> frequency@[k] == 1usize,
        decreases n - j,
    {
        frequency.push(1);
        j = j + 1;
    }
    proof {
        assert(index@.take(0) =~= Seq::<usize>::empty());
        assert forall|k: usize| k < n implies frequency@[k as int] as nat == freq_at(
            index@.take(0),
            k,
        ) by {}
    }
    let mut t: usize = 0;
    while t < m
        invariant
            t <= m == index@.len(),
            0 < n == set@.len(),
            n + m <= usize::MAX,
            forall|k: int| 0 <= k < index@.len() ==> (index@[k] as int) < n,
            frequency@.len() == n,
            forall|k: usize| k < n ==> frequency@[k as int] as nat == freq_at(index@.take(t as int), k),
        decreases m - t,
    {
        let ix = index[t];
        proof {
            lemma_count_le_len(index@.take(t as int), ix);
        }
        let fcur = frequency[ix];
        frequency[ix] = fcur + 1;
        proof {
            assert forall|k: usize| k < n implies frequency@[k as int] as nat == freq_at(
                index@.take(t as int + 1),
                k,
            ) by {
                lemma_count_take_step(index@, k, t as int + 1);
            }
        }
        t = t + 1;
    }
    proof {
        assert(index@.take(m as int) =~= index@);
    }

    // Build the sorted multiset: each table entry, in table order, repeated
    // according to its frequency.
    let mut sorted: Vec<F> = Vec::new();
    let mut j: usize = 0;
    while j < n
        invariant
            j <= n == set@.len(),
            all_wf(set@),
            frequency@.len() == n,
            forall|k: usize| k < n ==> frequency@[k as int] as nat == freq_at(index@, k),
            sorted@ == sorted_prefix(set@, index@, j as int),
            all_wf(sorted@),
        decreases n - j,
    {
        let f = frequency[j];
        let e = set[j];
        let mut c: usize = 0;
        while c < f
            invariant
                c <= f,
                e == set@[j as int],
                e.wf(),
                j < set@.len(),
                sorted@ == sorted_prefix(set@, index@, j as int) + repeat_elem(e, c as nat),
                all_wf(sorted@),
            decreases f - c,
        {
            proof {
                assert(sorted@.push(e) =~= sorted_prefix(set@, index@, j as int) + repeat_elem(
                    e,
                    c as nat + 1,
                ));
            }
            sorted.push(e);
            c = c + 1;
        }
        proof {
            assert(f as nat == freq_at(index@, j));
            assert(sorted@ == sorted_prefix(set@, index@, j as int + 1));
        }
        j = j + 1;
    }
    assert(sorted@ == sorted_multiset_seq(set@, index@));
    proof {
        lemma_sorted_len(set@, index@);
    }

    // Compress the sorted column; its scalar product is the last raw
    // compressed entry, not the accumulated product.
    let lookup_sorted = compute_lookup_vector_with_shift(sorted.as_slice(), gamma, chi, zeta);
    let (accumulated_sorted, _) = accumulate(&lookup_sorted);
    let sorted_prod = lookup_sorted[lookup_sorted.len() - 1];

    let mut lookup_vec: Vec<Vec<F>> = Vec::new();
    lookup_vec.push(lookup_subset);
    lookup_vec.push(lookup_set);
    lookup_vec.push(lookup_sorted);
    let mut accumulated_vec: Vec<Vec<F>> = Vec::new();
    accumulated_vec.push(accumulated_subset);
    accumulated_vec.push(accumulated_set);
    accumulated_vec.push(accumulated_sorted);
    Ok((lookup_vec, accumulated_vec, subset_prod, set_prod, sorted_prod, sorted))
}

/// The contract of `plookup` pins every output down: two successful results
/// on the same inputs agree on every column and every scalar.
pub proof fn lemma_plookup_deterministic<F: Field>(
    subset: Seq<F>,
    set: Seq<F>,
    index_f: Seq<F>,
    index: Seq<usize>,
    gamma: F,
    chi: F,
    zeta: F,
    out1: PlookupOutput<F>,
    out2: PlookupOutput<F>,
)
    requires
        plookup_ok(subset, set, index_f, index, gamma, chi, zeta, out1),
        plookup_ok(subset, set, index_f, index, gamma, chi, zeta, out2),
    ensures
        out1.0@.len() == out2.0@.len(),
        out1.1@.len() == out2.1@.len(),
        forall|k: int| 0 <= k < 3 ==> #[trigger] out1.0@[k]@ == out2.0@[k]@,
        forall|k: int| 0 <= k < 3 ==> #[trigger] out1.1@[k]@ == out2.1@[k]@,
        out1.2 == out2.2,
        out1.3 == out2.3,
        out1.4 == out2.4,
        out1.5@ == out2.5@,
{
    assert forall|k: int| 0 <= k < 3 implies #[trigger] out1.0@[k]@ == out2.0@[k]@ by {
        assert(k == 0 || k == 1 || k == 2);
    }
    assert forall|k: int| 0 <= k < 3 implies #[trigger] out1.1@[k]@ == out2.1@[k]@ by {
        assert(k == 0 || k == 1 || k == 2);
    }
}

} // verus!
