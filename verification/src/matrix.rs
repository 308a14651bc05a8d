//! Dense product of square integer matrices by the textbook triple loop.
//!
//! A matrix is a `Vec` of rows, each row a `Vec<i32>`. Contracts speak of its
//! mathematical model, a sequence of sequences of unbounded integers.

use vstd::prelude::*;

verus! {

/// The mathematical model of a matrix held as a vector of rows.
pub open spec fn model(m: Seq<Vec<i32>>) -> Seq<Seq<int>> {
    Seq::new(m.len(), |i: int| Seq::new(m[i]@.len(), |j: int| m[i]@[j] as int))
}

/// `m` has `n` rows of `n` entries each.
pub open spec fn is_square(m: Seq<Seq<int>>, n: nat) -> bool {
    &&& m.len() == n
    &&& forall|i: int| 0 <= i < n ==> (#[trigger] m[i]).len() == n
}

/// `m` is the `n` by `n` matrix whose every entry is `v`.
pub open spec fn is_filled(m: Seq<Seq<int>>, n: nat, v: int) -> bool {
    &&& is_square(m, n)
    &&& forall|i: int, j: int| 0 <= i < n && 0 <= j < n ==> (#[trigger] m[i][j]) == v
}

/// The sum of the first `len` products of row `i` of `a` with column `j` of
/// `b`. With `len` the common dimension this is entry `(i, j)` of the product.
pub open spec fn dot(a: Seq<Seq<int>>, b: Seq<Seq<int>>, i: int, j: int, len: nat) -> int
    decreases len,
{
    if len == 0 {
        0
    } else {
        dot(a, b, i, j, (len - 1) as nat) + a[i][len - 1] * b[len - 1][j]
    }
}

/// `c` is the product of the `n` by `n` matrices `a` and `b`.
pub open spec fn is_product(
    c: Seq<Seq<int>>,
    a: Seq<Seq<int>>,
    b: Seq<Seq<int>>,
    n: nat,
) -> bool {
    &&& is_square(c, n)
    &&& forall|i: int, j: int|
        0 <= i < n && 0 <= j < n ==> (#[trigger] c[i][j]) == dot(a, b, i, j, n)
}

/// `x` is representable as an `i32`.
pub open spec fn fits_i32(x: int) -> bool {
    i32::MIN <= x <= i32::MAX
}

/// The `k`-th accumulation step for entry `(i, j)` stays within `i32`: both
/// the product that is added and the sum that results.
pub open spec fn step_fits(a: Seq<Seq<int>>, b: Seq<Seq<int>>, i: int, j: int, k: int) -> bool {
    &&& fits_i32(a[i][k] * b[k][j])
    &&& fits_i32(dot(a, b, i, j, (k + 1) as nat))
}

/// Every accumulation step of the product of `a` and `b` stays within `i32`.
pub open spec fn product_fits(a: Seq<Seq<int>>, b: Seq<Seq<int>>, n: nat) -> bool {
    forall|i: int, j: int, k: int|
        0 <= i < n && 0 <= j < n && 0 <= k < n ==> #[trigger] step_fits(a, b, i, j, k)
}

/// Builds the `n` by `n` matrix whose every entry is `v`.
pub fn filled(n: usize, v: i32) -> (m: Vec<Vec<i32>>)
    ensures
        is_filled(model(m@), n as nat, v as int),
{
    let mut m: Vec<Vec<i32>> = Vec::new();
    let mut i: usize = 0;
    while i < n
        invariant
            i <= n,
            m.len() == i,
            forall|r: int| 0 <= r < i ==> (#[trigger] m[r]).len() == n,
            forall|r: int, j: int| 0 <= r < i && 0 <= j < n ==> (#[trigger] m[r][j]) == v,
        decreases n - i,
    {
        let row: Vec<i32> = vec![v; n];
        m.push(row);
        i += 1;
    }
    m
}

/// Multiplies two square matrices of the same dimension.
///
/// The loops run over the row, then the inner dimension, then the column, so
/// that each pass of the innermost loop accumulates into one output row from
/// one row of `b`. No accumulation step may leave the range of `i32`.
pub fn multiply(a: &Vec<Vec<i32>>, b: &Vec<Vec<i32>>) -> (c: Vec<Vec<i32>>)
    requires
        is_square(model(a@), a.len() as nat),
        is_square(model(b@), a.len() as nat),
        product_fits(model(a@), model(b@), a.len() as nat),
    ensures
        is_product(model(c@), model(a@), model(b@), a.len() as nat),
{
    let n: usize = a.len();
    let ghost ma = model(a@);
    let ghost mb = model(b@);
    let mut c: Vec<Vec<i32>> = Vec::new();
    let mut i: usize = 0;
    while i < n
        invariant
            i <= n,
            n == a.len(),
            ma == model(a@),
            mb == model(b@),
            is_square(ma, n as nat),
            is_square(mb, n as nat),
            product_fits(ma, mb, n as nat),
            c.len() == i,
            forall|r: int| 0 <= r < i ==> (#[trigger] c[r]).len() == n,
            forall|r: int, j: int|
                0 <= r < i && 0 <= j < n ==> (#[trigger] c[r][j]) == dot(ma, mb, r, j, n as nat),
        decreases n - i,
    {
        let mut row: Vec<i32> = vec![0i32; n];
        let mut k: usize = 0;
        while k < n
            invariant
                i < n,
                k <= n,
                n == a.len(),
                ma == model(a@),
                mb == model(b@),
                is_square(ma, n as nat),
                is_square(mb, n as nat),
                product_fits(ma, mb, n as nat),
                row.len() == n,
                forall|j: int|
                    0 <= j < n ==> (#[trigger] row[j]) == dot(ma, mb, i as int, j, k as nat),
            decreases n - k,
        {
            let mut j: usize = 0;
            while j < n
                invariant
                    i < n,
                    k < n,
                    j <= n,
                    n == a.len(),
                    ma == model(a@),
                    mb == model(b@),
                    is_square(ma, n as nat),
                    is_square(mb, n as nat),
                    product_fits(ma, mb, n as nat),
                    row.len() == n,
                    forall|t: int|
                        0 <= t < j ==> (#[trigger] row[t])
                            == dot(ma, mb, i as int, t, (k + 1) as nat),
                    forall|t: int|
                        j <= t < n ==> (#[trigger] row[t]) == dot(ma, mb, i as int, t, k as nat),
                decreases n - j,
            {
                assert(step_fits(ma, mb, i as int, j as int, k as int));
                assert(ma[i as int].len() == n && mb[k as int].len() == n);
                let x: i32 = a[i][k] * b[k][j];
                let y: i32 = row[j] + x;
                row.set(j, y);
                j += 1;
            }
            k += 1;
        }
        c.push(row);
        i += 1;
    }
    c
}

/// For constant matrices, `a` filled with `p` and `b` filled with `q`, a sum of
/// `len` products is `len * p * q`.
pub proof fn lemma_filled_dot(
    a: Seq<Seq<int>>,
    b: Seq<Seq<int>>,
    n: nat,
    p: int,
    q: int,
    i: int,
    j: int,
    len: nat,
)
    requires
        is_filled(a, n, p),
        is_filled(b, n, q),
        0 <= i < n,
        0 <= j < n,
        len <= n,
    ensures
        dot(a, b, i, j, len) == len * p * q,
    decreases len,
{
    if len == 0 {
        assert(len * p * q == 0) by (nonlinear_arith)
            requires
                len == 0,
        ;
    } else {
        let shorter = (len - 1) as nat;
        lemma_filled_dot(a, b, n, p, q, i, j, shorter);
        assert(a[i][len - 1] == p);
        assert(b[len - 1][j] == q);
        assert(shorter * p * q + p * q == len * p * q) by (nonlinear_arith)
            requires
                shorter + 1 == len,
        ;
    }
}

/// The product of two constant matrices is itself constant: with `a` filled
/// with `p` and `b` filled with `q`, both of size `n`, every entry of the
/// product is `n * p * q`.
pub proof fn lemma_filled_product(
    c: Seq<Seq<int>>,
    a: Seq<Seq<int>>,
    b: Seq<Seq<int>>,
    n: nat,
    p: int,
    q: int,
)
    requires
        is_filled(a, n, p),
        is_filled(b, n, q),
        is_product(c, a, b, n),
    ensures
        is_filled(c, n, n * p * q),
{
    assert forall|i: int, j: int| 0 <= i < n && 0 <= j < n implies (#[trigger] c[i][j]) == n
        * p * q by {
        lemma_filled_dot(a, b, n, p, q, i, j, n);
    }
}

/// Two constant matrices can be multiplied within `i32` as soon as the
/// entries of their product fit: no accumulation step then leaves the range.
pub proof fn lemma_filled_product_fits(
    a: Seq<Seq<int>>,
    b: Seq<Seq<int>>,
    n: nat,
    p: int,
    q: int,
)
    requires
        is_filled(a, n, p),
        is_filled(b, n, q),
        fits_i32(n * p * q),
    ensures
        product_fits(a, b, n),
{
    assert forall|i: int, j: int, k: int|
        0 <= i < n && 0 <= j < n && 0 <= k < n implies #[trigger] step_fits(a, b, i, j, k) by {
        lemma_filled_dot(a, b, n, p, q, i, j, (k + 1) as nat);
        assert(a[i][k] == p);
        assert(b[k][j] == q);
        lemma_scaled_between(n as int, k + 1, p, q);
        lemma_scaled_between(n as int, 1, p, q);
        assert(1 * p * q == p * q) by (nonlinear_arith);
    }
}

/// A multiple `m * p * q` with `0 <= m <= n` lies between 0 and `n * p * q`.
proof fn lemma_scaled_between(n: int, m: int, p: int, q: int)
    requires
        0 <= m <= n,
    ensures
        n * p * q <= m * p * q <= 0 || 0 <= m * p * q <= n * p * q,
{
    assert(n * p * q <= m * p * q <= 0 || 0 <= m * p * q <= n * p * q) by (nonlinear_arith)
        requires
            0 <= m <= n,
    {
        assert(m * p * q == m * (p * q));
        assert(n * p * q == n * (p * q));
        if p * q >= 0 {
            assert(0 <= m * (p * q) <= n * (p * q));
        } else {
            assert(n * (p * q) <= m * (p * q) <= 0);
        }
    }
}

/// Every entry of the `n` by `n` matrix `m` lies between `-bound` and `bound`.
pub open spec fn is_bounded(m: Seq<Seq<int>>, n: nat, bound: nat) -> bool {
    forall|i: int, j: int|
        0 <= i < n && 0 <= j < n ==> -bound <= (#[trigger] m[i][j]) <= bound
}

/// With the entries of `a` bounded by `x` and those of `b` by `y`, a sum of
/// `len` products is bounded by `len * x * y`.
pub proof fn lemma_bounded_dot(
    a: Seq<Seq<int>>,
    b: Seq<Seq<int>>,
    n: nat,
    x: nat,
    y: nat,
    i: int,
    j: int,
    len: nat,
)
    requires
        is_bounded(a, n, x),
        is_bounded(b, n, y),
        0 <= i < n,
        0 <= j < n,
        len <= n,
    ensures
        -(len * x * y) <= dot(a, b, i, j, len) <= len * x * y,
    decreases len,
{
    if len == 0 {
        assert(len * x * y == 0) by (nonlinear_arith)
            requires
                len == 0,
        ;
    } else {
        let shorter = (len - 1) as nat;
        lemma_bounded_dot(a, b, n, x, y, i, j, shorter);
        let u = a[i][len - 1];
        let v = b[len - 1][j];
        assert(-(x * y) <= u * v <= x * y) by (nonlinear_arith)
            requires
                -x <= u <= x,
                -y <= v <= y,
        ;
        assert(shorter * x * y + x * y == len * x * y) by (nonlinear_arith)
            requires
                shorter + 1 == len,
        ;
    }
}

/// Two matrices can be multiplied within `i32` whenever their entries are
/// bounded by `x` and `y` and `n * x * y` does not exceed `i32::MAX`.
pub proof fn lemma_bounded_product_fits(
    a: Seq<Seq<int>>,
    b: Seq<Seq<int>>,
    n: nat,
    x: nat,
    y: nat,
)
    requires
        is_bounded(a, n, x),
        is_bounded(b, n, y),
        n * x * y <= i32::MAX,
    ensures
        product_fits(a, b, n),
{
    assert forall|i: int, j: int, k: int|
        0 <= i < n && 0 <= j < n && 0 <= k < n implies #[trigger] step_fits(a, b, i, j, k) by {
        let u = a[i][k];
        let v = b[k][j];
        let len = (k + 1) as nat;
        lemma_bounded_dot(a, b, n, x, y, i, j, len);
        assert(-(x * y) <= u * v <= x * y) by (nonlinear_arith)
            requires
                -x <= u <= x,
                -y <= v <= y,
        ;
        assert(x * y <= len * x * y <= n * x * y) by (nonlinear_arith)
            requires
                1 <= len <= n,
                0 <= x,
                0 <= y,
        ;
    }
}

/// The dimension of the matrices that the benchmark multiplies.
pub const BENCH_SIZE: usize = 150;

/// The value that fills the benchmark's left factor.
pub const BENCH_LEFT: i32 = 1;

/// The value that fills the benchmark's right factor.
pub const BENCH_RIGHT: i32 = 2;

/// Reads the bottom-right entry of a square matrix with at least one row.
pub fn corner(m: &Vec<Vec<i32>>) -> (r: i32)
    requires
        m.len() >= 1,
        is_square(model(m@), m.len() as nat),
    ensures
        r == model(m@)[m.len() - 1][m.len() - 1],
{
    let n: usize = m.len();
    assert(model(m@)[n - 1].len() == n);
    m[n - 1][n - 1]
}

/// Multiplies the `n` by `n` matrix filled with `p` by the one filled with `q`
/// and returns the bottom-right entry of the product.
pub fn benchmark_with(n: usize, p: i32, q: i32) -> (r: i32)
    requires
        n >= 1,
        fits_i32(n * p * q),
    ensures
        r == n * p * q,
{
    let a = filled(n, p);
    let b = filled(n, q);
    proof {
        lemma_filled_product_fits(model(a@), model(b@), n as nat, p as int, q as int);
    }
    let c = multiply(&a, &b);
    proof {
        lemma_filled_product(model(c@), model(a@), model(b@), n as nat, p as int, q as int);
    }
    corner(&c)
}

/// Runs the matrix benchmark: the bottom-right entry of the product of the
/// `BENCH_SIZE`-dimensional matrices filled with `BENCH_LEFT` and
/// `BENCH_RIGHT`.
pub fn benchmark() -> (r: i32)
    ensures
        r == 300,
        r == BENCH_SIZE * BENCH_LEFT * BENCH_RIGHT,
{
    benchmark_with(BENCH_SIZE, BENCH_LEFT, BENCH_RIGHT)
}

} // verus!
