//! Integer coefficient directions for the wavefunction-superposition scan:
//! every nonzero integer vector in a box, one per sign class.

use vstd::prelude::*;

verus! {

/// `p` put in front of each sequence of `tails`.
pub open spec fn prefix_all(p: Seq<int>, tails: Seq<Seq<int>>) -> Seq<Seq<int>> {
    tails.map_values(|t: Seq<int>| p + t)
}

/// Each sequence of `tails` behind a first element `v`, for `v` from `lo` up
/// to `hi`; the first element varies slowest.
pub open spec fn with_first_upto(lo: int, hi: int, tails: Seq<Seq<int>>) -> Seq<Seq<int>>
    decreases hi - lo + 1,
{
    if hi < lo {
        Seq::<Seq<int>>::empty()
    } else {
        with_first_upto(lo, hi - 1, tails) + prefix_all(seq![hi], tails)
    }
}

/// All integer vectors of length `dim` with entries in `[-levels, levels]`,
/// in lexicographic order.
pub open spec fn box_vectors(dim: nat, levels: int) -> Seq<Seq<int>>
    decreases dim,
{
    if dim == 0 {
        seq![Seq::<int>::empty()]
    } else {
        with_first_upto(-levels, levels, box_vectors((dim - 1) as nat, levels))
    }
}

/// The first nonzero entry of `v` exists and is positive.
pub open spec fn first_nonzero_positive(v: Seq<int>) -> bool
    decreases v.len(),
{
    if v.len() == 0 {
        false
    } else if v[0] != 0 {
        v[0] > 0
    } else {
        first_nonzero_positive(v.drop_first())
    }
}

/// The vectors of `s` whose first nonzero entry is positive, in order.
pub open spec fn keep_canonical(s: Seq<Seq<int>>) -> Seq<Seq<int>>
    decreases s.len(),
{
    if s.len() == 0 {
        s
    } else {
        let r = keep_canonical(s.drop_last());
        if first_nonzero_positive(s.last()) {
            r.push(s.last())
        } else {
            r
        }
    }
}

/// The scan's coefficient vectors: the vectors of the box whose first
/// nonzero entry is positive, in lexicographic order.
pub open spec fn coeff_vectors_of(dim: nat, levels: int) -> Seq<Seq<int>> {
    keep_canonical(box_vectors(dim, levels))
}

/// The entries as integers.
pub open spec fn ints(v: Seq<i32>) -> Seq<int> {
    v.map_values(|x: i32| x as int)
}

/// Each row's entries as integers.
pub open spec fn int_rows(v: Seq<Vec<i32>>) -> Seq<Seq<int>> {
    v.map_values(|r: Vec<i32>| ints(r@))
}

proof fn lemma_keep_add(a: Seq<Seq<int>>, b: Seq<Seq<int>>)
    ensures
        keep_canonical(a + b) == keep_canonical(a) + keep_canonical(b),
    decreases b.len(),
{
    if b.len() == 0 {
        assert(a + b =~= a);
        assert(keep_canonical(a) + keep_canonical(b) =~= keep_canonical(a));
    } else {
        lemma_keep_add(a, b.drop_last());
        assert((a + b).drop_last() =~= a + b.drop_last());
        assert((a + b).last() == b.last());
        if first_nonzero_positive(b.last()) {
            assert(keep_canonical(a) + keep_canonical(b) =~= (keep_canonical(a) + keep_canonical(
                b.drop_last(),
            )).push(b.last()));
        }
    }
}

proof fn lemma_prefix_push(p: Seq<int>, v: int, tails: Seq<Seq<int>>)
    ensures
        prefix_all(p.push(v), tails) == prefix_all(p, prefix_all(seq![v], tails)),
{
    assert forall|k: int| 0 <= k < tails.len() implies #[trigger] prefix_all(p.push(v), tails)[k]
        == prefix_all(p, prefix_all(seq![v], tails))[k] by {
        assert(p.push(v) + tails[k] =~= p + (seq![v] + tails[k]));
    }
    assert(prefix_all(p.push(v), tails) =~= prefix_all(p, prefix_all(seq![v], tails)));
}

proof fn lemma_prefix_add(p: Seq<int>, a: Seq<Seq<int>>, b: Seq<Seq<int>>)
    ensures
        prefix_all(p, a + b) == prefix_all(p, a) + prefix_all(p, b),
{
    assert(prefix_all(p, a + b) =~= prefix_all(p, a) + prefix_all(p, b));
}

proof fn lemma_prefix_empty(tails: Seq<Seq<int>>)
    ensures
        prefix_all(Seq::<int>::empty(), tails) == tails,
{
    assert forall|k: int| 0 <= k < tails.len() implies #[trigger] prefix_all(
        Seq::<int>::empty(),
        tails,
    )[k] == tails[k] by {
        assert(Seq::<int>::empty() + tails[k] =~= tails[k]);
    }
    assert(prefix_all(Seq::<int>::empty(), tails) =~= tails);
}

fn first_nonzero_is_positive(v: &Vec<i32>) -> (r: bool)
    ensures
        r == first_nonzero_positive(ints(v@)),
{
    let ghost s = ints(v@);
    let mut j: usize = 0;
    assert(s.subrange(0, s.len() as int) =~= s);
    while j < v.len() && v[j] == 0
        invariant
            j <= v.len(),
            s == ints(v@),
            first_nonzero_positive(s) == first_nonzero_positive(s.subrange(j as int, s.len() as int)),
        decreases v.len() - j,
    {
        let ghost t = s.subrange(j as int, s.len() as int);
        assert(t.drop_first() =~= s.subrange(j + 1, s.len() as int));
        j = j + 1;
    }
    if j < v.len() {
        v[j] > 0
    } else {
        false
    }
}

fn copy_row(v: &Vec<i32>) -> (r: Vec<i32>)
    ensures
        r@ == v@,
{
    let mut r: Vec<i32> = Vec::new();
    let mut i: usize = 0;
    while i < v.len()
        invariant
            i <= v.len(),
            r@ == v@.take(i as int),
        decreases v.len() - i,
    {
        r.push(v[i]);
        i = i + 1;
        assert(r@ =~= v@.take(i as int));
    }
    assert(v@.take(i as int) =~= v@);
    r
}

fn enumerate_from(i: usize, dim: usize, levels: i32, cur: &mut Vec<i32>, raw: &mut Vec<Vec<i32>>)
    requires
        old(cur).len() == dim,
        i <= dim,
        levels > i32::MIN,
    ensures
        final(cur).len() == dim,
        final(cur)@.take(i as int) == old(cur)@.take(i as int),
        int_rows(final(raw)@) == int_rows(old(raw)@) + keep_canonical(
            prefix_all(ints(old(cur)@.take(i as int)), box_vectors((dim - i) as nat, levels as int)),
        ),
    decreases dim - i,
{
    let ghost p = ints(cur@.take(i as int));
    if i == dim {
        proof {
            assert(cur@.take(i as int) =~= cur@);
            assert(box_vectors(0, levels as int) == seq![Seq::<int>::empty()]);
            assert(p + Seq::<int>::empty() =~= p);
            assert(prefix_all(p, seq![Seq::<int>::empty()]) =~= seq![p]);
            assert(seq![p].drop_last() =~= Seq::<Seq<int>>::empty());
            assert(keep_canonical(Seq::<Seq<int>>::empty()) == Seq::<Seq<int>>::empty());
        }
        if first_nonzero_is_positive(cur) {
            let row = copy_row(cur);
            let ghost before = raw@;
            raw.push(row);
            proof {
                assert(int_rows(raw@) =~= int_rows(before) + seq![p]);
                assert(keep_canonical(seq![p]) =~= seq![p]);
            }
        } else {
            proof {
                assert(int_rows(raw@) =~= int_rows(raw@) + Seq::<Seq<int>>::empty());
            }
        }
        return;
    }
    let ghost tails = box_vectors((dim - i - 1) as nat, levels as int);
    let ghost raw0 = int_rows(raw@);
    let ghost cur0 = cur@;
    proof {
        assert(box_vectors((dim - i) as nat, levels as int) == with_first_upto(
            -levels,
            levels as int,
            tails,
        ));
    }
    let lo: i64 = -(levels as i64);
    let hi: i64 = levels as i64;
    let mut v: i64 = lo;
    while v <= hi
        invariant
            lo == -levels,
            hi == levels,
            lo <= v,
            v <= hi + 1 || v == lo,
            i < dim,
            cur@.len() == dim,
            cur@.take(i as int) == cur0.take(i as int),
            p == ints(cur0.take(i as int)),
            tails == box_vectors((dim - i - 1) as nat, levels as int),
            int_rows(raw@) == raw0 + keep_canonical(prefix_all(p, with_first_upto(lo as int, v - 1, tails))),
        decreases hi + 1 - v,
    {
        let ghost before = int_rows(raw@);
        cur.set(i, v as i32);
        proof {
            assert(cur@.take(i as int) =~= cur0.take(i as int));
            assert(ints(cur@.take(i + 1)) =~= p.push(v as int));
        }
        enumerate_from(i + 1, dim, levels, cur, raw);
        proof {
            assert(cur@.take(i as int) =~= cur@.take(i + 1).take(i as int));
            assert(cur0.take(i as int) =~= cur0.take(i as int));
            lemma_prefix_push(p, v as int, tails);
            lemma_prefix_add(p, with_first_upto(lo as int, v - 1, tails), prefix_all(seq![v as int], tails));
            lemma_keep_add(
                prefix_all(p, with_first_upto(lo as int, v - 1, tails)),
                prefix_all(p, prefix_all(seq![v as int], tails)),
            );
            assert(with_first_upto(lo as int, v as int, tails) == with_first_upto(lo as int, v - 1, tails)
                + prefix_all(seq![v as int], tails));
        }
        v = v + 1;
    }
    proof {
        if hi < lo {
            assert(with_first_upto(lo as int, v - 1, tails) == Seq::<Seq<int>>::empty());
            assert(with_first_upto(lo as int, hi as int, tails) == Seq::<Seq<int>>::empty());
        }
    }
}

/// Every integer vector of length `dim` with entries in `[-levels, levels]`
/// whose first nonzero entry is positive, in lexicographic order. The zero
/// vector is left out, and of `v` and `-v` only one is kept.
pub fn integer_coeff_vectors(dim: usize, levels: i32) -> (out: Vec<Vec<i32>>)
    requires
        levels > i32::MIN,
    ensures
        int_rows(out@) == coeff_vectors_of(dim as nat, levels as int),
{
    let mut cur: Vec<i32> = Vec::new();
    let mut k: usize = 0;
    while k < dim
        invariant
            k <= dim,
            cur@.len() == k,
        decreases dim - k,
    {
        cur.push(0);
        k = k + 1;
    }
    let mut raw: Vec<Vec<i32>> = Vec::new();
    enumerate_from(0, dim, levels, &mut cur, &mut raw);
    proof {
        assert(ints(Seq::<i32>::empty()) =~= Seq::<int>::empty());
        assert(cur@.take(0) =~= Seq::<i32>::empty());
        lemma_prefix_empty(box_vectors(dim as nat, levels as int));
        assert(int_rows(Seq::<Vec<i32>>::empty()) =~= Seq::<Seq<int>>::empty());
        assert(Seq::<Seq<int>>::empty() + coeff_vectors_of(dim as nat, levels as int) =~= coeff_vectors_of(dim as nat, levels as int));
    }
    raw
}


/// `v` has length `dim` and its entries lie in `[-levels, levels]`.
pub open spec fn in_box(v: Seq<int>, dim: nat, levels: int) -> bool {
    &&& v.len() == dim
    &&& forall|k: int| 0 <= k < v.len() ==> -levels <= #[trigger] v[k] <= levels
}

/// Every entry of `v` is zero.
pub open spec fn is_zero(v: Seq<int>) -> bool {
    forall|k: int| 0 <= k < v.len() ==> #[trigger] v[k] == 0
}

/// `-v`.
pub open spec fn negate(v: Seq<int>) -> Seq<int> {
    v.map_values(|x: int| -x)
}

proof fn lemma_prefix_single_contains(h: int, tails: Seq<Seq<int>>, v: Seq<int>)
    ensures
        prefix_all(seq![h], tails).contains(v) <==> (v.len() >= 1 && v[0] == h && tails.contains(
            v.drop_first(),
        )),
{
    if prefix_all(seq![h], tails).contains(v) {
        let k = choose|k: int| 0 <= k < tails.len() && prefix_all(seq![h], tails)[k] == v;
        assert((seq![h] + tails[k]).drop_first() =~= tails[k]);
    }
    if v.len() >= 1 && v[0] == h && tails.contains(v.drop_first()) {
        let k = choose|k: int| 0 <= k < tails.len() && tails[k] == v.drop_first();
        assert(seq![h] + tails[k] =~= v);
        assert(prefix_all(seq![h], tails)[k] == v);
    }
}

proof fn lemma_with_first_upto_contains(lo: int, hi: int, tails: Seq<Seq<int>>, v: Seq<int>)
    ensures
        with_first_upto(lo, hi, tails).contains(v) <==> (v.len() >= 1 && lo <= v[0] <= hi
            && tails.contains(v.drop_first())),
    decreases hi - lo + 1,
{
    if hi >= lo {
        lemma_with_first_upto_contains(lo, hi - 1, tails, v);
        lemma_prefix_single_contains(hi, tails, v);
        let a = with_first_upto(lo, hi - 1, tails);
        let b = prefix_all(seq![hi], tails);
        if (a + b).contains(v) {
            let k = choose|k: int| 0 <= k < (a + b).len() && (a + b)[k] == v;
            if k < a.len() {
                assert(a[k] == v);
            } else {
                assert(b[k - a.len()] == v);
            }
        }
        if a.contains(v) {
            let k = choose|k: int| 0 <= k < a.len() && a[k] == v;
            assert((a + b)[k] == v);
        }
        if b.contains(v) {
            let k = choose|k: int| 0 <= k < b.len() && b[k] == v;
            assert((a + b)[k + a.len()] == v);
        }
    }
}

/// The box enumeration holds exactly the vectors of the box.
pub proof fn lemma_box_vectors_contains(dim: nat, levels: int, v: Seq<int>)
    ensures
        box_vectors(dim, levels).contains(v) <==> in_box(v, dim, levels),
    decreases dim,
{
    if dim == 0 {
        if in_box(v, dim, levels) {
            assert(v =~= Seq::<int>::empty());
            assert(box_vectors(dim, levels)[0] == v);
        }
    } else {
        let tails = box_vectors((dim - 1) as nat, levels);
        lemma_with_first_upto_contains(-levels, levels, tails, v);
        if v.len() >= 1 {
            lemma_box_vectors_contains((dim - 1) as nat, levels, v.drop_first());
            if in_box(v.drop_first(), (dim - 1) as nat, levels) && -levels <= v[0] <= levels {
                assert forall|k: int| 0 <= k < v.len() implies -levels <= #[trigger] v[k]
                    <= levels by {
                    if k > 0 {
                        assert(v[k] == v.drop_first()[k - 1]);
                    }
                }
            }
            if in_box(v, dim, levels) {
                assert forall|k: int| 0 <= k < v.drop_first().len() implies -levels
                    <= #[trigger] v.drop_first()[k] <= levels by {
                    assert(v.drop_first()[k] == v[k + 1]);
                }
            }
        }
    }
}

proof fn lemma_keep_contains(s: Seq<Seq<int>>, v: Seq<int>)
    ensures
        keep_canonical(s).contains(v) <==> (s.contains(v) && first_nonzero_positive(v)),
    decreases s.len(),
{
    if s.len() > 0 {
        let d = s.drop_last();
        lemma_keep_contains(d, v);
        let r = keep_canonical(d);
        if keep_canonical(s).contains(v) {
            let k = choose|k: int| 0 <= k < keep_canonical(s).len() && keep_canonical(s)[k] == v;
            if k < r.len() {
                assert(r[k] == v);
                let j = choose|j: int| 0 <= j < d.len() && d[j] == v;
                assert(s[j] == v);
            } else {
                assert(s[s.len() - 1] == v);
            }
        }
        if s.contains(v) && first_nonzero_positive(v) {
            let j = choose|j: int| 0 <= j < s.len() && s[j] == v;
            if j < d.len() {
                assert(d[j] == v);
                let k = choose|k: int| 0 <= k < r.len() && r[k] == v;
                if first_nonzero_positive(s.last()) {
                    assert(r.push(s.last())[k] == v);
                }
            } else {
                assert(r.push(s.last())[r.len() as int] == v);
            }
        }
    }
}

proof fn lemma_fnp_negate(v: Seq<int>)
    ensures
        first_nonzero_positive(v) ==> !is_zero(v),
        !is_zero(v) ==> first_nonzero_positive(negate(v)) == !first_nonzero_positive(v),
    decreases v.len(),
{
    if v.len() > 0 {
        let t = v.drop_first();
        lemma_fnp_negate(t);
        assert(negate(v).drop_first() =~= negate(t));
        if v[0] == 0 {
            if !is_zero(v) {
                let k = choose|k: int| 0 <= k < v.len() && v[k] != 0;
                assert(t[k - 1] == v[k]);
            }
            if !is_zero(t) {
                let k = choose|k: int| 0 <= k < t.len() && t[k] != 0;
                assert(v[k + 1] == t[k]);
            }
        }
    }
}

/// Every vector of the scan is a nonzero vector of the box whose first
/// nonzero entry is positive.
pub proof fn lemma_coeff_vectors_members(dim: nat, levels: int, v: Seq<int>)
    requires
        coeff_vectors_of(dim, levels).contains(v),
    ensures
        in_box(v, dim, levels),
        !is_zero(v),
        first_nonzero_positive(v),
{
    lemma_keep_contains(box_vectors(dim, levels), v);
    lemma_box_vectors_contains(dim, levels, v);
    lemma_fnp_negate(v);
}

/// The scan covers each nonzero direction of the box once up to sign: of a
/// nonzero box vector `v` and `-v`, exactly one is among the coefficient
/// vectors.
pub proof fn lemma_coeff_vectors_one_per_sign_class(dim: nat, levels: int, v: Seq<int>)
    requires
        in_box(v, dim, levels),
        !is_zero(v),
    ensures
        coeff_vectors_of(dim, levels).contains(v) <==> !coeff_vectors_of(dim, levels).contains(
            negate(v),
        ),
{
    let w = negate(v);
    assert forall|k: int| 0 <= k < w.len() implies -levels <= #[trigger] w[k] <= levels by {
        assert(w[k] == -v[k]);
    }
    lemma_keep_contains(box_vectors(dim, levels), v);
    lemma_keep_contains(box_vectors(dim, levels), w);
    lemma_box_vectors_contains(dim, levels, v);
    lemma_box_vectors_contains(dim, levels, w);
    lemma_fnp_negate(v);
}


/// No vector occurs twice.
pub open spec fn no_repeats(s: Seq<Seq<int>>) -> bool {
    forall|i: int, j: int| 0 <= i < j < s.len() ==> s[i] != s[j]
}

proof fn lemma_prefix_single_no_repeats(h: int, tails: Seq<Seq<int>>)
    requires
        no_repeats(tails),
    ensures
        no_repeats(prefix_all(seq![h], tails)),
{
    let p = prefix_all(seq![h], tails);
    assert forall|i: int, j: int| 0 <= i < j < p.len() implies p[i] != p[j] by {
        assert((seq![h] + tails[i]).drop_first() =~= tails[i]);
        assert((seq![h] + tails[j]).drop_first() =~= tails[j]);
    }
}

proof fn lemma_with_first_upto_no_repeats(lo: int, hi: int, tails: Seq<Seq<int>>)
    requires
        no_repeats(tails),
    ensures
        no_repeats(with_first_upto(lo, hi, tails)),
    decreases hi - lo + 1,
{
    if hi >= lo {
        lemma_with_first_upto_no_repeats(lo, hi - 1, tails);
        lemma_prefix_single_no_repeats(hi, tails);
        let a = with_first_upto(lo, hi - 1, tails);
        let b = prefix_all(seq![hi], tails);
        let s = a + b;
        assert forall|i: int, j: int| 0 <= i < j < s.len() implies s[i] != s[j] by {
            if i < a.len() && j >= a.len() {
                assert(s[i] == a[i]);
                assert(s[j] == b[j - a.len()]);
                assert(a.contains(a[i]));
                lemma_with_first_upto_contains(lo, hi - 1, tails, a[i]);
                assert(b[j - a.len()] == seq![hi] + tails[j - a.len()]);
                assert((seq![hi] + tails[j - a.len()])[0] == hi);
            } else if j < a.len() {
                assert(s[i] == a[i] && s[j] == a[j]);
            } else {
                assert(s[i] == b[i - a.len()] && s[j] == b[j - a.len()]);
            }
        }
    }
}

proof fn lemma_box_vectors_no_repeats(dim: nat, levels: int)
    ensures
        no_repeats(box_vectors(dim, levels)),
    decreases dim,
{
    if dim > 0 {
        lemma_box_vectors_no_repeats((dim - 1) as nat, levels);
        lemma_with_first_upto_no_repeats(-levels, levels, box_vectors((dim - 1) as nat, levels));
    }
}

proof fn lemma_keep_no_repeats(s: Seq<Seq<int>>)
    requires
        no_repeats(s),
    ensures
        no_repeats(keep_canonical(s)),
    decreases s.len(),
{
    if s.len() > 0 {
        let d = s.drop_last();
        assert(no_repeats(d)) by {
            assert forall|i: int, j: int| 0 <= i < j < d.len() implies d[i] != d[j] by {
                assert(d[i] == s[i] && d[j] == s[j]);
            }
        }
        lemma_keep_no_repeats(d);
        if first_nonzero_positive(s.last()) {
            let r = keep_canonical(d);
            lemma_keep_contains(d, s.last());
            if d.contains(s.last()) {
                let k = choose|k: int| 0 <= k < d.len() && d[k] == s.last();
                assert(s[k] == s[s.len() - 1]);
            }
            let q = r.push(s.last());
            assert forall|i: int, j: int| 0 <= i < j < q.len() implies q[i] != q[j] by {
                if j == r.len() {
                    assert(q[i] == r[i]);
                    assert(r.contains(r[i]));
                }
            }
        }
    }
}

/// No coefficient vector is produced twice.
pub proof fn lemma_coeff_vectors_no_repeats(dim: nat, levels: int)
    ensures
        no_repeats(coeff_vectors_of(dim, levels)),
{
    lemma_box_vectors_no_repeats(dim, levels);
    lemma_keep_no_repeats(box_vectors(dim, levels));
}


/// The first nonzero entry exists and is positive, in plain terms.
pub proof fn lemma_first_nonzero_positive_plain(v: Seq<int>)
    ensures
        first_nonzero_positive(v) <==> exists|j: int|
            0 <= j < v.len() && #[trigger] v[j] > 0 && forall|k: int| 0 <= k < j ==> v[k] == 0,
    decreases v.len(),
{
    if v.len() > 0 {
        let t = v.drop_first();
        lemma_first_nonzero_positive_plain(t);
        if v[0] == 0 {
            if first_nonzero_positive(v) {
                let j = choose|j: int|
                    0 <= j < t.len() && #[trigger] t[j] > 0 && forall|k: int| 0 <= k < j ==> t[k]
                        == 0;
                assert(v[j + 1] > 0);
                assert forall|k: int| 0 <= k < j + 1 implies v[k] == 0 by {
                    if k > 0 {
                        assert(v[k] == t[k - 1]);
                    }
                }
            }
            if exists|j: int| 0 <= j < v.len() && #[trigger] v[j] > 0 && forall|k: int| 0 <= k < j ==> v[k] == 0 {
                let j = choose|j: int|
                    0 <= j < v.len() && #[trigger] v[j] > 0 && forall|k: int| 0 <= k < j ==> v[k]
                        == 0;
                assert(j > 0);
                assert(t[j - 1] > 0);
                assert forall|k: int| 0 <= k < j - 1 implies t[k] == 0 by {
                    assert(t[k] == v[k + 1]);
                }
            }
        } else if v[0] > 0 {
            assert(v[0] > 0);
        } else {
            if exists|j: int| 0 <= j < v.len() && #[trigger] v[j] > 0 && forall|k: int| 0 <= k < j ==> v[k] == 0 {
                let j = choose|j: int|
                    0 <= j < v.len() && #[trigger] v[j] > 0 && forall|k: int| 0 <= k < j ==> v[k]
                        == 0;
                assert(j == 0);
            }
        }
    }
}

/// `a` comes strictly before `b` in lexicographic order.
pub open spec fn lex_less(a: Seq<int>, b: Seq<int>) -> bool {
    exists|j: int|
        0 <= j < a.len() && j < b.len() && #[trigger] a[j] < b[j] && forall|k: int|
            0 <= k < j ==> a[k] == b[k]
}

/// Every earlier vector comes strictly before every later one.
pub open spec fn strictly_sorted(s: Seq<Seq<int>>) -> bool {
    forall|i: int, j: int| 0 <= i < j < s.len() ==> lex_less(#[trigger] s[i], #[trigger] s[j])
}

proof fn lemma_prefix_single_sorted(h: int, tails: Seq<Seq<int>>)
    requires
        strictly_sorted(tails),
    ensures
        strictly_sorted(prefix_all(seq![h], tails)),
{
    let p = prefix_all(seq![h], tails);
    assert forall|i: int, j: int| 0 <= i < j < p.len() implies lex_less(#[trigger] p[i], #[trigger] p[j]) by {
        assert(lex_less(tails[i], tails[j]));
        let a = tails[i];
        let b = tails[j];
        let x = choose|x: int|
            0 <= x < a.len() && x < b.len() && #[trigger] a[x] < b[x] && forall|k: int|
                0 <= k < x ==> a[k] == b[k];
        assert(p[i] == seq![h] + a);
        assert(p[j] == seq![h] + b);
        assert(p[i][x + 1] == a[x] && p[j][x + 1] == b[x]);
        assert forall|k: int| 0 <= k < x + 1 implies p[i][k] == p[j][k] by {
            if k > 0 {
                assert(p[i][k] == a[k - 1] && p[j][k] == b[k - 1]);
            }
        }
    }
}

proof fn lemma_with_first_upto_sorted(lo: int, hi: int, tails: Seq<Seq<int>>)
    requires
        strictly_sorted(tails),
    ensures
        strictly_sorted(with_first_upto(lo, hi, tails)),
    decreases hi - lo + 1,
{
    if hi >= lo {
        lemma_with_first_upto_sorted(lo, hi - 1, tails);
        lemma_prefix_single_sorted(hi, tails);
        let a = with_first_upto(lo, hi - 1, tails);
        let b = prefix_all(seq![hi], tails);
        let s = a + b;
        assert forall|i: int, j: int| 0 <= i < j < s.len() implies lex_less(#[trigger] s[i], #[trigger] s[j]) by {
            if i < a.len() && j >= a.len() {
                assert(s[i] == a[i]);
                assert(s[j] == b[j - a.len()]);
                assert(a.contains(a[i]));
                lemma_with_first_upto_contains(lo, hi - 1, tails, a[i]);
                assert(b[j - a.len()] == seq![hi] + tails[j - a.len()]);
                assert(s[j][0] == hi);
                assert(s[i][0] < s[j][0]);
            } else if j < a.len() {
                assert(s[i] == a[i] && s[j] == a[j]);
            } else {
                assert(s[i] == b[i - a.len()] && s[j] == b[j - a.len()]);
            }
        }
    }
}

proof fn lemma_box_vectors_sorted(dim: nat, levels: int)
    ensures
        strictly_sorted(box_vectors(dim, levels)),
    decreases dim,
{
    if dim > 0 {
        lemma_box_vectors_sorted((dim - 1) as nat, levels);
        lemma_with_first_upto_sorted(-levels, levels, box_vectors((dim - 1) as nat, levels));
    }
}

proof fn lemma_keep_sorted(s: Seq<Seq<int>>)
    requires
        strictly_sorted(s),
    ensures
        strictly_sorted(keep_canonical(s)),
    decreases s.len(),
{
    if s.len() > 0 {
        let d = s.drop_last();
        assert(strictly_sorted(d)) by {
            assert forall|i: int, j: int| 0 <= i < j < d.len() implies lex_less(#[trigger] d[i], #[trigger] d[j]) by {
                assert(d[i] == s[i] && d[j] == s[j]);
            }
        }
        lemma_keep_sorted(d);
        if first_nonzero_positive(s.last()) {
            let r = keep_canonical(d);
            let q = r.push(s.last());
            assert forall|i: int, j: int| 0 <= i < j < q.len() implies lex_less(#[trigger] q[i], #[trigger] q[j]) by {
                if j == r.len() {
                    assert(q[i] == r[i]);
                    assert(r.contains(r[i]));
                    lemma_keep_contains(d, r[i]);
                    let k = choose|k: int| 0 <= k < d.len() && d[k] == r[i];
                    assert(s[k] == r[i]);
                    assert(lex_less(s[k], s[s.len() - 1]));
                } else {
                    assert(q[i] == r[i] && q[j] == r[j]);
                }
            }
        }
    }
}

/// The coefficient vectors come in strictly increasing lexicographic order.
pub proof fn lemma_coeff_vectors_sorted(dim: nat, levels: int)
    ensures
        strictly_sorted(coeff_vectors_of(dim, levels)),
{
    lemma_box_vectors_sorted(dim, levels);
    lemma_keep_sorted(box_vectors(dim, levels));
}

/// Every nonzero box vector whose first nonzero entry is positive is among
/// the coefficient vectors, and each coefficient vector has such an entry.
pub proof fn lemma_coeff_vectors_complete(dim: nat, levels: int, v: Seq<int>)
    ensures
        coeff_vectors_of(dim, levels).contains(v) <==> (in_box(v, dim, levels) && exists|j: int|
            0 <= j < v.len() && #[trigger] v[j] > 0 && forall|k: int| 0 <= k < j ==> v[k] == 0),
{
    lemma_keep_contains(box_vectors(dim, levels), v);
    lemma_box_vectors_contains(dim, levels, v);
    lemma_first_nonzero_positive_plain(v);
}

} // verus!
