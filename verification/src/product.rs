use vstd::arithmetic::div_mod::{
    lemma_fundamental_div_mod, lemma_fundamental_div_mod_converse,
};
use vstd::prelude::*;

verus! {

/// The Cartesian product of two sequences in lexicographic order: the first
/// component varies slowest, the second fastest.
pub open spec fn product<A, B>(a: Seq<A>, b: Seq<B>) -> Seq<(A, B)> {
    Seq::new(
        a.len() * b.len(),
        |k: int| (a[k / (b.len() as int)], b[k % (b.len() as int)]),
    )
}

/// The Cartesian product of three sequences in lexicographic order.
pub open spec fn product3<A, B, C>(a: Seq<A>, b: Seq<B>, c: Seq<C>) -> Seq<(A, B, C)> {
    Seq::new(
        a.len() * b.len() * c.len(),
        |k: int|
            (
                a[(k / (c.len() as int)) / (b.len() as int)],
                b[(k / (c.len() as int)) % (b.len() as int)],
                c[k % (c.len() as int)],
            ),
    )
}

/// The place of the pair of digits `(i, j)` in a two-digit counter whose
/// second digit has `n` values.
pub open spec fn rank2(i: int, j: int, n: int) -> int {
    i * n + j
}

/// The place of the digits `(i, j, l)` in a three-digit counter whose second
/// and third digits have `m` and `n` values.
pub open spec fn rank3(i: int, j: int, l: int, m: int, n: int) -> int {
    (i * m + j) * n + l
}

/// A pair of digits within their ranges has a rank within the product of
/// the ranges, from which both digits can be read back.
pub proof fn lemma_rank2(i: int, j: int, m: int, n: int)
    requires
        0 <= i < m,
        0 <= j < n,
    ensures
        0 <= rank2(i, j, n) < m * n,
        rank2(i, j, n) / n == i,
        rank2(i, j, n) % n == j,
{
    assert(0 <= i * n && i * n + n <= m * n) by (nonlinear_arith)
        requires
            0 <= i < m,
            0 < n,
    ;
    lemma_fundamental_div_mod_converse(rank2(i, j, n), n, i, j);
}

/// Every place below `m * n` is the rank of exactly the digits that
/// division and remainder by `n` give.
pub proof fn lemma_unrank2(k: int, m: int, n: int)
    requires
        0 <= k < m * n,
        0 < n,
    ensures
        0 <= k / n < m,
        0 <= k % n < n,
        rank2(k / n, k % n, n) == k,
{
    lemma_fundamental_div_mod(k, n);
    let q = k / n;
    assert(0 <= q < m) by (nonlinear_arith)
        requires
            0 <= k < m * n,
            0 < n,
            k == n * q + k % n,
            0 <= k % n < n,
    ;
    assert(q * n == n * q) by (nonlinear_arith);
}

/// Three digits within their ranges have a rank within the product of the
/// ranges, from which each digit can be read back.
pub proof fn lemma_rank3(i: int, j: int, l: int, p: int, m: int, n: int)
    requires
        0 <= i < p,
        0 <= j < m,
        0 <= l < n,
    ensures
        0 <= rank3(i, j, l, m, n) < p * m * n,
        (rank3(i, j, l, m, n) / n) / m == i,
        (rank3(i, j, l, m, n) / n) % m == j,
        rank3(i, j, l, m, n) % n == l,
{
    lemma_rank2(i, j, p, m);
    lemma_rank2(rank2(i, j, m), l, p * m, n);
}

/// The product is as long as the product of the lengths, and the value at
/// place `k` pairs the first sequence at `k / b.len()` with the second at
/// `k % b.len()`.
pub proof fn lemma_product_index<A, B>(a: Seq<A>, b: Seq<B>, k: int)
    requires
        0 <= k < a.len() * b.len(),
    ensures
        product(a, b).len() == a.len() * b.len(),
        b.len() > 0,
        0 <= k / (b.len() as int) < a.len(),
        0 <= k % (b.len() as int) < b.len(),
        product(a, b)[k] == (a[k / (b.len() as int)], b[k % (b.len() as int)]),
{
    assert(b.len() > 0) by (nonlinear_arith)
        requires
            0 <= k < a.len() * b.len(),
    ;
    lemma_unrank2(k, a.len() as int, b.len() as int);
}

/// The pair of the `i`-th and the `j`-th value stands at place
/// `i * b.len() + j` of the product.
pub proof fn lemma_product_at<A, B>(a: Seq<A>, b: Seq<B>, i: int, j: int)
    requires
        0 <= i < a.len(),
        0 <= j < b.len(),
    ensures
        0 <= rank2(i, j, b.len() as int) < product(a, b).len(),
        product(a, b)[rank2(i, j, b.len() as int)] == (a[i], b[j]),
{
    lemma_rank2(i, j, a.len() as int, b.len() as int);
}

/// The triple of the `i`-th, `j`-th and `l`-th value stands at place
/// `(i * b.len() + j) * c.len() + l` of the three-way product.
pub proof fn lemma_product3_at<A, B, C>(a: Seq<A>, b: Seq<B>, c: Seq<C>, i: int, j: int, l: int)
    requires
        0 <= i < a.len(),
        0 <= j < b.len(),
        0 <= l < c.len(),
    ensures
        0 <= rank3(i, j, l, b.len() as int, c.len() as int) < product3(a, b, c).len(),
        product3(a, b, c)[rank3(i, j, l, b.len() as int, c.len() as int)] == (a[i], b[j], c[l]),
{
    lemma_rank3(i, j, l, a.len() as int, b.len() as int, c.len() as int);
}

/// A pair belongs to the product exactly when each component belongs to
/// its own sequence.
pub proof fn lemma_product_contains<A, B>(a: Seq<A>, b: Seq<B>, x: A, y: B)
    ensures
        product(a, b).contains((x, y)) <==> a.contains(x) && b.contains(y),
{
    if product(a, b).contains((x, y)) {
        let k = choose|k: int| 0 <= k < product(a, b).len() && product(a, b)[k] == (x, y);
        lemma_product_index(a, b, k);
        assert(a[k / (b.len() as int)] == x);
        assert(b[k % (b.len() as int)] == y);
    }
    if a.contains(x) && b.contains(y) {
        let i = choose|i: int| 0 <= i < a.len() && a[i] == x;
        let j = choose|j: int| 0 <= j < b.len() && b[j] == y;
        lemma_product_at(a, b, i, j);
    }
}

/// A triple belongs to the three-way product exactly when each component
/// belongs to its own sequence.
pub proof fn lemma_product3_contains<A, B, C>(a: Seq<A>, b: Seq<B>, c: Seq<C>, x: A, y: B, z: C)
    ensures
        product3(a, b, c).contains((x, y, z)) <==> a.contains(x) && b.contains(y) && c.contains(z),
{
    if product3(a, b, c).contains((x, y, z)) {
        let k = choose|k: int| 0 <= k < product3(a, b, c).len() && product3(a, b, c)[k] == (x, y, z);
        lemma_product3_index(a, b, c, k);
        assert(a[(k / (c.len() as int)) / (b.len() as int)] == x);
        assert(b[(k / (c.len() as int)) % (b.len() as int)] == y);
        assert(c[k % (c.len() as int)] == z);
    }
    if a.contains(x) && b.contains(y) && c.contains(z) {
        let i = choose|i: int| 0 <= i < a.len() && a[i] == x;
        let j = choose|j: int| 0 <= j < b.len() && b[j] == y;
        let l = choose|l: int| 0 <= l < c.len() && c[l] == z;
        lemma_product3_at(a, b, c, i, j, l);
    }
}

/// Every place of the three-way product reads its digits within range.
pub proof fn lemma_product3_index<A, B, C>(a: Seq<A>, b: Seq<B>, c: Seq<C>, k: int)
    requires
        0 <= k < a.len() * b.len() * c.len(),
    ensures
        product3(a, b, c).len() == a.len() * b.len() * c.len(),
        b.len() > 0,
        c.len() > 0,
        0 <= (k / (c.len() as int)) / (b.len() as int) < a.len(),
        0 <= (k / (c.len() as int)) % (b.len() as int) < b.len(),
        0 <= k % (c.len() as int) < c.len(),
        product3(a, b, c)[k] == (
            a[(k / (c.len() as int)) / (b.len() as int)],
            b[(k / (c.len() as int)) % (b.len() as int)],
            c[k % (c.len() as int)],
        ),
{
    let p = a.len() as int;
    let m = b.len() as int;
    let n = c.len() as int;
    assert(m > 0 && n > 0) by (nonlinear_arith)
        requires
            0 <= k < p * m * n,
            0 <= p,
            0 <= m,
            0 <= n,
    ;
    lemma_unrank2(k, p * m, n);
    lemma_unrank2(k / n, p, m);
    let i = (k / n) / m;
    let j = (k / n) % m;
    let l = k % n;
    lemma_rank3(i, j, l, p, m, n);
}

/// Nesting is associative in content: at every place, the left-nested and
/// the right-nested product of three sequences hold the same three values,
/// and these are the values of the three-way product at that place.
pub proof fn lemma_product_assoc<A, B, C>(a: Seq<A>, b: Seq<B>, c: Seq<C>, k: int)
    requires
        0 <= k < a.len() * b.len() * c.len(),
    ensures
        product(product(a, b), c).len() == a.len() * b.len() * c.len(),
        product(a, product(b, c)).len() == a.len() * b.len() * c.len(),
        product3(a, b, c).len() == a.len() * b.len() * c.len(),
        product(product(a, b), c)[k].0.0 == product3(a, b, c)[k].0,
        product(product(a, b), c)[k].0.1 == product3(a, b, c)[k].1,
        product(product(a, b), c)[k].1 == product3(a, b, c)[k].2,
        product(a, product(b, c))[k].0 == product3(a, b, c)[k].0,
        product(a, product(b, c))[k].1.0 == product3(a, b, c)[k].1,
        product(a, product(b, c))[k].1.1 == product3(a, b, c)[k].2,
{
    let p = a.len() as int;
    let m = b.len() as int;
    let n = c.len() as int;
    lemma_product3_index(a, b, c, k);
    let i = (k / n) / m;
    let j = (k / n) % m;
    let l = k % n;
    lemma_unrank2(k, p * m, n);
    lemma_unrank2(k / n, p, m);
    lemma_rank3(i, j, l, p, m, n);
    assert(p * (m * n) == p * m * n) by (nonlinear_arith);
    // left-nested: the place splits into (k / n, k % n), then k / n into (i, j)
    lemma_product_index(product(a, b), c, k);
    lemma_product_index(a, b, k / n);
    // right-nested: the place splits into (i, j * n + l)
    lemma_rank2(j, l, m, n);
    assert(k == i * (m * n) + rank2(j, l, n)) by (nonlinear_arith)
        requires
            k == (i * m + j) * n + l,
            rank2(j, l, n) == j * n + l,
    ;
    lemma_rank2(i, rank2(j, l, n), p, m * n);
    lemma_product_index(a, product(b, c), k);
    lemma_product_index(b, c, rank2(j, l, n));
}

} // verus!
