use plookup::{
    alg_hash, compute_lookup_vector_with_shift, lookup, plookup, Field, PlookupError, M61,
};

fn f(n: u64) -> M61 {
    M61::new(n)
}

fn fv(xs: &[u64]) -> Vec<M61> {
    xs.iter().map(|&x| M61::new(x)).collect()
}

#[test]
fn gather_basic() {
    let set = fv(&[5, 7, 9]);
    assert_eq!(lookup(&set, &vec![1]), fv(&[7]));
    let table = fv(&[10, 20, 30]);
    assert_eq!(lookup(&table, &vec![2, 0, 2]), fv(&[30, 10, 30]));
}

#[test]
fn alg_hash_combines_columns() {
    let v = fv(&[1, 2]);
    let w = fv(&[3, 4]);
    assert_eq!(alg_hash(&v, &w, &f(10)), fv(&[31, 42]));
}

#[test]
fn shift_compressor_values() {
    let set = fv(&[5, 7, 9]);
    let out = compute_lookup_vector_with_shift(&set, &f(10), &f(20), &f(30));
    assert_eq!(out, fv(&[2195, 347, 1019]));
}

#[test]
fn shift_compressor_single_element_wraps() {
    // The lone element is both current entry and cyclic predecessor; the
    // predecessor carries the sentinel position tag len == 1.
    let set = fv(&[4]);
    let out = compute_lookup_vector_with_shift(&set, &f(10), &f(20), &f(30));
    // (1 + 20) * 10 + (4 + 0 * 30) + (4 + 1 * 30) * 20 = 210 + 4 + 680
    assert_eq!(out, fv(&[894]));
}

#[test]
fn plookup_scenario_sorted() {
    let set = fv(&[5, 7, 9]);
    let subset = fv(&[7]);
    let index_f = fv(&[7]);
    let index = vec![1usize];
    let (_, _, _, _, _, sorted) =
        plookup(&subset, &set, &index_f, &index, &f(10), &f(20), &f(30)).unwrap();
    assert_eq!(sorted, fv(&[5, 7, 7, 9]));
}

#[test]
fn plookup_rejects_out_of_range_index() {
    let set = fv(&[5, 7, 9]);
    let subset = fv(&[7]);
    let index_f = fv(&[7]);
    let index = vec![3usize];
    let r = plookup(&subset, &set, &index_f, &index, &f(10), &f(20), &f(30));
    assert_eq!(r.unwrap_err(), PlookupError::IndexOutOfRange);
}

#[test]
fn plookup_rejects_length_mismatch() {
    let set = fv(&[5, 7, 9]);
    let subset = fv(&[7]);
    let index_f = fv(&[7, 9]);
    let index = vec![1usize];
    let r = plookup(&subset, &set, &index_f, &index, &f(10), &f(20), &f(30));
    assert_eq!(r.unwrap_err(), PlookupError::LengthMismatch);

    let index_long = vec![1usize, 2usize];
    let index_f_short = fv(&[7]);
    let r = plookup(&subset, &set, &index_f_short, &index_long, &f(10), &f(20), &f(30));
    assert_eq!(r.unwrap_err(), PlookupError::LengthMismatch);
}

#[test]
fn plookup_rejects_empty_set() {
    let set: Vec<M61> = Vec::new();
    let subset: Vec<M61> = Vec::new();
    let index_f: Vec<M61> = Vec::new();
    let index: Vec<usize> = Vec::new();
    let r = plookup(&subset, &set, &index_f, &index, &f(10), &f(20), &f(30));
    assert_eq!(r.unwrap_err(), PlookupError::EmptySet);
}

#[test]
fn plookup_singleton_set_empty_subset() {
    let set = fv(&[4]);
    let subset: Vec<M61> = Vec::new();
    let index_f: Vec<M61> = Vec::new();
    let index: Vec<usize> = Vec::new();
    let (lookup_vec, accumulated_vec, subset_prod, set_prod, sorted_prod, sorted) =
        plookup(&subset, &set, &index_f, &index, &f(10), &f(20), &f(30)).unwrap();
    assert!(lookup_vec[0].is_empty());
    assert!(accumulated_vec[0].is_empty());
    // Empty-product convention: the subset product is the identity.
    assert_eq!(subset_prod, M61::one());
    assert_eq!(sorted, fv(&[4]));
    assert_eq!(lookup_vec[1], fv(&[894]));
    assert_eq!(lookup_vec[2], fv(&[894]));
    assert_eq!(set_prod, f(894));
    assert_eq!(sorted_prod, f(894));
}

#[test]
fn plookup_output_lengths() {
    let set = fv(&[5, 7, 9]);
    let subset = fv(&[7]);
    let index_f = fv(&[7]);
    let index = vec![1usize];
    let (lookup_vec, accumulated_vec, _, _, _, sorted) =
        plookup(&subset, &set, &index_f, &index, &f(10), &f(20), &f(30)).unwrap();
    assert_eq!(sorted.len(), set.len() + subset.len());
    assert_eq!(lookup_vec.len(), 3);
    assert_eq!(accumulated_vec.len(), 3);
    assert_eq!(lookup_vec[0].len(), subset.len());
    assert_eq!(lookup_vec[1].len(), set.len());
    assert_eq!(lookup_vec[2].len(), sorted.len());
    for k in 0..3 {
        assert_eq!(accumulated_vec[k].len(), lookup_vec[k].len());
    }
}

#[test]
fn accumulated_is_running_product() {
    let set = fv(&[5, 7, 9]);
    let subset = fv(&[7, 9]);
    let index_f = fv(&[7, 9]);
    let index = vec![1usize, 2usize];
    let (lookup_vec, accumulated_vec, _, _, _, _) =
        plookup(&subset, &set, &index_f, &index, &f(10), &f(20), &f(30)).unwrap();
    for k in 0..3 {
        let comp = &lookup_vec[k];
        let acc = &accumulated_vec[k];
        assert_eq!(acc[0], comp[0]);
        for i in 1..comp.len() {
            assert_eq!(acc[i], acc[i - 1].mul(comp[i]));
        }
    }
}

#[test]
fn products_match_columns() {
    let set = fv(&[5, 7, 9]);
    let subset = fv(&[7]);
    let index_f = fv(&[7]);
    let index = vec![1usize];
    let (lookup_vec, accumulated_vec, subset_prod, set_prod, sorted_prod, _) =
        plookup(&subset, &set, &index_f, &index, &f(10), &f(20), &f(30)).unwrap();
    assert_eq!(subset_prod, *accumulated_vec[0].last().unwrap());
    assert_eq!(set_prod, *accumulated_vec[1].last().unwrap());
    // The sorted product is the last raw compressed value, not the last
    // accumulated product.
    assert_eq!(sorted_prod, *lookup_vec[2].last().unwrap());
    assert_ne!(sorted_prod, *accumulated_vec[2].last().unwrap());
}

#[test]
fn plookup_exact_column_values() {
    let set = fv(&[5, 7, 9]);
    let subset = fv(&[7]);
    let index_f = fv(&[7]);
    let index = vec![1usize];
    let (lookup_vec, accumulated_vec, subset_prod, set_prod, sorted_prod, _) =
        plookup(&subset, &set, &index_f, &index, &f(10), &f(20), &f(30)).unwrap();
    // Subset column: 7 + 30 * 7 + 10 = 227.
    assert_eq!(lookup_vec[0], fv(&[227]));
    assert_eq!(accumulated_vec[0], fv(&[227]));
    assert_eq!(subset_prod, f(227));
    // Table column, shift-compressed.
    assert_eq!(lookup_vec[1], fv(&[2195, 347, 1019]));
    assert_eq!(accumulated_vec[1], fv(&[2195, 761665, 776136635]));
    assert_eq!(set_prod, f(776136635));
    // Sorted column [5, 7, 7, 9], shift-compressed.
    assert_eq!(lookup_vec[2], fv(&[2795, 347, 1017, 1649]));
    assert_eq!(accumulated_vec[2], fv(&[2795, 969865, 986352705, 1626495610545]));
    assert_eq!(sorted_prod, f(1649));
}

#[test]
fn sorted_multiset_counts() {
    let set = fv(&[5, 7, 9]);
    let subset = fv(&[7, 7, 9]);
    let index_f = fv(&[7, 7, 9]);
    let index = vec![1usize, 1usize, 2usize];
    let (_, _, _, _, _, sorted) =
        plookup(&subset, &set, &index_f, &index, &f(10), &f(20), &f(30)).unwrap();
    assert_eq!(sorted, fv(&[5, 7, 7, 7, 9, 9]));
    let gathered = lookup(&set, &index);
    for value in [5u64, 7, 9] {
        let e = f(value);
        let in_sorted = sorted.iter().filter(|&&x| x == e).count();
        let in_set = set.iter().filter(|&&x| x == e).count();
        let in_gathered = gathered.iter().filter(|&&x| x == e).count();
        assert_eq!(in_sorted, in_set + in_gathered);
    }
}

#[test]
fn plookup_is_deterministic() {
    let set = fv(&[5, 7, 9]);
    let subset = fv(&[7, 9]);
    let index_f = fv(&[7, 9]);
    let index = vec![1usize, 2usize];
    let a = plookup(&subset, &set, &index_f, &index, &f(10), &f(20), &f(30)).unwrap();
    let b = plookup(&subset, &set, &index_f, &index, &f(10), &f(20), &f(30)).unwrap();
    assert_eq!(a.0, b.0);
    assert_eq!(a.1, b.1);
    assert_eq!(a.2, b.2);
    assert_eq!(a.3, b.3);
    assert_eq!(a.4, b.4);
    assert_eq!(a.5, b.5);
}

#[test]
fn m61_arithmetic() {
    let p = plookup::m61::M61_MODULUS;
    assert_eq!(M61::new(p), M61::new(0));
    assert_eq!(M61::new(p - 1).add(M61::new(5)), M61::new(4));
    // 2^31 * 2^31 = 2^62 = 2 * (2^61 - 1) + 2.
    assert_eq!(M61::new(1 << 31).mul(M61::new(1 << 31)), M61::new(2));
    assert_eq!(M61::one(), M61::new(1));
    assert_eq!(M61::one().mul(M61::new(12345)), M61::new(12345));
    assert_eq!(M61::from_u64(7), M61::new(7));
}
