//! The grid of parameter combinations that a parameter sweep backtests.

use vstd::prelude::*;

verus! {

/// Position of `(i, j)` in the row-major enumeration of an `_ × nb` grid.
pub open spec fn pair_index(i: int, j: int, nb: int) -> int {
    i * nb + j
}

proof fn lemma_pair_index_bounds(i: int, j: int, na: int, nb: int)
    requires
        0 <= i < na,
        0 <= j < nb,
    ensures
        0 <= pair_index(i, j, nb) < na * nb,
{
    assert(0 <= i * nb) by (nonlinear_arith)
        requires
            0 <= i,
            0 <= nb,
    ;
    assert((i + 1) * nb <= na * nb) by (nonlinear_arith)
        requires
            i + 1 <= na,
            0 <= nb,
    ;
    assert((i + 1) * nb == i * nb + nb) by (nonlinear_arith);
}

/// Every pair `(a[i], b[j])`, `a` varying slowest: the element for `(i, j)`
/// stands at `i * b.len() + j`.
pub fn product<A: Copy, B: Copy>(a: &Vec<A>, b: &Vec<B>) -> (r: Vec<(A, B)>)
    ensures
        r@.len() == a@.len() * b@.len(),
        forall|i: int, j: int|
            0 <= i < a@.len() && 0 <= j < b@.len() ==> #[trigger] r@[pair_index(i, j, b@.len() as int)]
                == (a@[i], b@[j]),
{
    let na = a.len();
    let nb = b.len();
    let mut r: Vec<(A, B)> = Vec::new();
    let mut i: usize = 0;
    while i < na
        invariant
            na == a@.len(),
            nb == b@.len(),
            i <= na,
            r@.len() == i * nb,
            forall|i2: int, j2: int|
                0 <= i2 < i && 0 <= j2 < nb ==> #[trigger] r@[pair_index(i2, j2, nb as int)] == (
                    a@[i2],
                    b@[j2],
                ),
        decreases na - i,
    {
        let mut j: usize = 0;
        let ghost start = r@.len();
        assert(start == pair_index(i as int, 0, nb as int));
        while j < nb
            invariant
                na == a@.len(),
                nb == b@.len(),
                i < na,
                j <= nb,
                start == i * nb,
                r@.len() == start + j,
                forall|i2: int, j2: int|
                    0 <= i2 < i && 0 <= j2 < nb ==> #[trigger] r@[pair_index(i2, j2, nb as int)]
                        == (a@[i2], b@[j2]),
                forall|j2: int| 0 <= j2 < j ==> #[trigger] r@[start + j2] == (a@[i as int], b@[j2]),
            decreases nb - j,
        {
            proof {
                assert forall|i2: int, j2: int| 0 <= i2 < i && 0 <= j2 < nb implies pair_index(
                    i2,
                    j2,
                    nb as int,
                ) < start by {
                    lemma_pair_index_bounds(i2, j2, i as int, nb as int);
                }
            }
            r.push((a[i], b[j]));
            j = j + 1;
        }
        proof {
            assert((i + 1) * nb == i * nb + nb) by (nonlinear_arith);
            assert forall|i2: int, j2: int| 0 <= i2 < i + 1 && 0 <= j2 < nb implies #[trigger] r@[pair_index(
                i2,
                j2,
                nb as int,
            )] == (a@[i2], b@[j2]) by {
                if i2 == i {
                    assert(pair_index(i2, j2, nb as int) == start + j2);
                }
            }
        }
        i = i + 1;
    }
    r
}

/// Position of the combination `(i, j, k, l, m)` in the enumeration of an
/// `_ × nb × nc × nd × ne` grid by nested loops, the first index varying
/// slowest (a mixed-radix number with digits `i, j, k, l, m`).
pub open spec fn grid_index(i: int, j: int, k: int, l: int, m: int, nb: int, nc: int, nd: int, ne: int) -> int {
    pair_index(i, pair_index(j, pair_index(k, pair_index(l, m, ne), nd * ne), nc * (nd * ne)), nb * (nc * (nd * ne)))
}

/// Every combination of one value from each of five ranges, in the order
/// of five nested loops over `a`, `b`, `c`, `d`, `e` (the loop over `a`
/// outermost): the combination `(a[i], b[j], c[k], d[l], e[m])` stands at
/// [`grid_index`]`(i, j, k, l, m, ..)`, and there are no others.
pub fn sweep_grid<A: Copy, B: Copy, C: Copy, D: Copy, E: Copy>(
    a: &Vec<A>,
    b: &Vec<B>,
    c: &Vec<C>,
    d: &Vec<D>,
    e: &Vec<E>,
) -> (r: Vec<(A, B, C, D, E)>)
    ensures
        r@.len() == a@.len() * (b@.len() * (c@.len() * (d@.len() * e@.len()))),
        forall|i: int, j: int, k: int, l: int, m: int|
            0 <= i < a@.len() && 0 <= j < b@.len() && 0 <= k < c@.len() && 0 <= l < d@.len() && 0
                <= m < e@.len() ==> #[trigger] r@[grid_index(
                i,
                j,
                k,
                l,
                m,
                b@.len() as int,
                c@.len() as int,
                d@.len() as int,
                e@.len() as int,
            )] == (a@[i], b@[j], c@[k], d@[l], e@[m]),
{
    let de = product(d, e);
    let cde = product(c, &de);
    let bcde = product(b, &cde);
    let abcde = product(a, &bcde);
    let n = abcde.len();
    let mut r: Vec<(A, B, C, D, E)> = Vec::with_capacity(n);
    let mut x: usize = 0;
    while x < n
        invariant
            n == abcde@.len(),
            x <= n,
            r@.len() == x,
            forall|y: int|
                0 <= y < x ==> #[trigger] r@[y] == (
                    abcde@[y].0,
                    abcde@[y].1.0,
                    abcde@[y].1.1.0,
                    abcde@[y].1.1.1.0,
                    abcde@[y].1.1.1.1,
                ),
        decreases n - x,
    {
        let t = abcde[x];
        r.push((t.0, t.1.0, t.1.1.0, t.1.1.1.0, t.1.1.1.1));
        x = x + 1;
    }
    proof {
        let nb = b@.len() as int;
        let nc = c@.len() as int;
        let nd = d@.len() as int;
        let ne = e@.len() as int;
        assert forall|i: int, j: int, k: int, l: int, m: int|
            0 <= i < a@.len() && 0 <= j < nb && 0 <= k < nc && 0 <= l < nd && 0 <= m < ne implies #[trigger] r@[grid_index(
            i,
            j,
            k,
            l,
            m,
            nb,
            nc,
            nd,
            ne,
        )] == (a@[i], b@[j], c@[k], d@[l], e@[m]) by {
            let q4 = pair_index(l, m, ne);
            lemma_pair_index_bounds(l, m, nd, ne);
            assert(de@[q4] == (d@[l], e@[m]));
            let q3 = pair_index(k, q4, nd * ne);
            lemma_pair_index_bounds(k, q4, nc, nd * ne);
            assert(cde@[q3] == (c@[k], de@[q4]));
            let q2 = pair_index(j, q3, nc * (nd * ne));
            lemma_pair_index_bounds(j, q3, nb, nc * (nd * ne));
            assert(bcde@[q2] == (b@[j], cde@[q3]));
            let q1 = pair_index(i, q2, nb * (nc * (nd * ne)));
            lemma_pair_index_bounds(i, q2, a@.len() as int, nb * (nc * (nd * ne)));
            assert(abcde@[q1] == (a@[i], bcde@[q2]));
        }
    }
    r
}

proof fn lemma_pair_index_injective(i1: int, j1: int, i2: int, j2: int, nb: int)
    requires
        0 <= j1 < nb,
        0 <= j2 < nb,
        pair_index(i1, j1, nb) == pair_index(i2, j2, nb),
    ensures
        i1 == i2,
        j1 == j2,
{
    if i1 < i2 {
        assert(i1 * nb + nb <= i2 * nb) by (nonlinear_arith)
            requires
                i1 < i2,
                0 <= nb,
        ;
    } else if i2 < i1 {
        assert(i2 * nb + nb <= i1 * nb) by (nonlinear_arith)
            requires
                i2 < i1,
                0 <= nb,
        ;
    }
}

/// Each combination of a sweep has its own place in the grid, and every
/// place lies within it: the grid lists each combination exactly once.
pub proof fn law_grid_places_distinct(
    i1: int, j1: int, k1: int, l1: int, m1: int,
    i2: int, j2: int, k2: int, l2: int, m2: int,
    na: int, nb: int, nc: int, nd: int, ne: int,
)
    requires
        0 <= i1 < na && 0 <= j1 < nb && 0 <= k1 < nc && 0 <= l1 < nd && 0 <= m1 < ne,
        0 <= i2 < na && 0 <= j2 < nb && 0 <= k2 < nc && 0 <= l2 < nd && 0 <= m2 < ne,
    ensures
        0 <= grid_index(i1, j1, k1, l1, m1, nb, nc, nd, ne) < na * (nb * (nc * (nd * ne))),
        grid_index(i1, j1, k1, l1, m1, nb, nc, nd, ne) == grid_index(i2, j2, k2, l2, m2, nb, nc, nd, ne)
            ==> i1 == i2 && j1 == j2 && k1 == k2 && l1 == l2 && m1 == m2,
{
    let q4 = pair_index(l1, m1, ne);
    let r4 = pair_index(l2, m2, ne);
    lemma_pair_index_bounds(l1, m1, nd, ne);
    lemma_pair_index_bounds(l2, m2, nd, ne);
    let q3 = pair_index(k1, q4, nd * ne);
    let r3 = pair_index(k2, r4, nd * ne);
    lemma_pair_index_bounds(k1, q4, nc, nd * ne);
    lemma_pair_index_bounds(k2, r4, nc, nd * ne);
    let q2 = pair_index(j1, q3, nc * (nd * ne));
    let r2 = pair_index(j2, r3, nc * (nd * ne));
    lemma_pair_index_bounds(j1, q3, nb, nc * (nd * ne));
    lemma_pair_index_bounds(j2, r3, nb, nc * (nd * ne));
    lemma_pair_index_bounds(i1, q2, na, nb * (nc * (nd * ne)));
    if grid_index(i1, j1, k1, l1, m1, nb, nc, nd, ne) == grid_index(i2, j2, k2, l2, m2, nb, nc, nd, ne) {
        lemma_pair_index_injective(i1, q2, i2, r2, nb * (nc * (nd * ne)));
        lemma_pair_index_injective(j1, q3, j2, r3, nc * (nd * ne));
        lemma_pair_index_injective(k1, q4, k2, r4, nd * ne);
        lemma_pair_index_injective(l1, m1, l2, m2, ne);
    }
}

/// Result `a` ranks before result `b`: its key is higher, or the keys are
/// equal and it came first (a stable sort, highest first).
pub open spec fn ranked_before(keys: Seq<u64>, a: int, b: int) -> bool {
    keys[a] > keys[b] || (keys[a] == keys[b] && a < b)
}

/// The order in which to list results with sort keys `keys`, highest key
/// first, results with equal keys in their original order: a permutation
/// of the indices `0..keys.len()`.
pub fn ranking(keys: &Vec<u64>) -> (r: Vec<usize>)
    ensures
        r@.len() == keys@.len(),
        forall|i: int| 0 <= i < r@.len() ==> #[trigger] r@[i] < keys@.len(),
        forall|k: usize| k < keys@.len() ==> #[trigger] r@.contains(k),
        forall|i: int, j: int| 0 <= i < j < r@.len() ==> ranked_before(keys@, #[trigger] r@[i] as int, #[trigger] r@[j] as int),
{
    let n = keys.len();
    let mut r: Vec<usize> = Vec::new();
    let mut i: usize = 0;
    while i < n
        invariant
            n == keys@.len(),
            i <= n,
            r@.len() == i,
            forall|a: int| 0 <= a < r@.len() ==> #[trigger] r@[a] < i,
            forall|k: usize| k < i ==> #[trigger] r@.contains(k),
            forall|a: int, b: int| 0 <= a < b < r@.len() ==> ranked_before(keys@, #[trigger] r@[a] as int, #[trigger] r@[b] as int),
        decreases n - i,
    {
        let key = keys[i];
        let mut p: usize = 0;
        while p < r.len() && keys[r[p]] >= key
            invariant
                n == keys@.len(),
                i < n,
                key == keys@[i as int],
                p <= r@.len(),
                r@.len() == i,
                forall|a: int| 0 <= a < r@.len() ==> #[trigger] r@[a] < i,
                forall|a: int| 0 <= a < p ==> keys@[#[trigger] r@[a] as int] >= key,
            decreases r@.len() - p,
        {
            p = p + 1;
        }
        let ghost old_r = r@;
        r.insert(p, i);
        proof {
            assert forall|a: int| 0 <= a < r@.len() implies #[trigger] r@[a] < i + 1 by {
                if a < p {
                    assert(r@[a] == old_r[a]);
                } else if a > p {
                    assert(r@[a] == old_r[a - 1]);
                }
            }
            assert forall|k: usize| k < i + 1 implies #[trigger] r@.contains(k) by {
                if k < i {
                    assert(old_r.contains(k));
                    let w = choose|w: int| 0 <= w < old_r.len() && old_r[w] == k;
                    if w < p {
                        assert(r@[w] == old_r[w]);
                    } else {
                        assert(r@[w + 1] == old_r[w]);
                    }
                } else {
                    assert(r@[p as int] == i);
                }
            }
            if p < old_r.len() {
                assert(keys@[old_r[p as int] as int] < key);
            }
            assert forall|a: int, b: int| 0 <= a < b < r@.len() implies ranked_before(keys@, #[trigger] r@[a] as int, #[trigger] r@[b] as int) by {
                let ra = r@[a];
                let rb = r@[b];
                if b < p {
                    assert(ra == old_r[a] && rb == old_r[b]);
                } else if b == p {
                    assert(ra == old_r[a]);
                    assert(keys@[old_r[a] as int] >= key);
                } else if a < p {
                    assert(ra == old_r[a] && rb == old_r[b - 1]);
                    assert(a < b - 1 || a == b - 1);
                } else if a == p {
                    assert(rb == old_r[b - 1]);
                    assert(p < old_r.len());
                    if b - 1 > p {
                        assert(ranked_before(keys@, old_r[p as int] as int, old_r[b - 1] as int));
                    }
                } else {
                    assert(ra == old_r[a - 1] && rb == old_r[b - 1]);
                }
            }
        }
        i = i + 1;
    }
    r
}

} // verus!
