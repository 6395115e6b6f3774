//! The mathematical model of a matrix: a sequence of columns, each a
//! sequence of four unbounded integers, together with the spec-level
//! arithmetic that the executable operations are proved against.

use vstd::prelude::*;

verus! {

/// The cells of one column, as unbounded integers, row 0 first.
pub open spec fn col_ints(c: [i64; 4]) -> Seq<int> {
    Seq::new(4, |i: int| c@[i] as int)
}

/// A sequence of machine integers, as unbounded integers.
pub open spec fn ints_of(s: Seq<i64>) -> Seq<int> {
    Seq::new(s.len(), |i: int| s[i] as int)
}

/// A well-formed matrix model: every column has exactly four entries.
pub open spec fn is_matrix(m: Seq<Seq<int>>) -> bool {
    forall|j: int| 0 <= j < m.len() ==> (#[trigger] m[j]).len() == 4
}

/// Row `i` of `m`: the `i`-th entry of each column, in column order.
pub open spec fn row_of(m: Seq<Seq<int>>, i: int) -> Seq<int> {
    Seq::new(m.len(), |j: int| m[j][i])
}

/// The all-zero matrix of width `w`.
pub open spec fn zero_matrix(w: nat) -> Seq<Seq<int>> {
    Seq::new(w, |j: int| Seq::new(4, |i: int| 0int))
}

/// The 4x4 identity matrix.
pub open spec fn identity_mat() -> Seq<Seq<int>> {
    Seq::new(4, |j: int| Seq::new(4, |i: int| if i == j { 1int } else { 0int }))
}

/// Elementwise sum of two columns, over the left column's length.
pub open spec fn add_cols(a: Seq<int>, b: Seq<int>) -> Seq<int> {
    Seq::new(a.len(), |i: int| a[i] + b[i])
}

/// Elementwise matrix sum. Column `j` is summed only while both operands
/// have a column `j`; the left operand's remaining columns are carried
/// through unchanged, so the result has the left operand's width.
pub open spec fn mat_add(a: Seq<Seq<int>>, b: Seq<Seq<int>>) -> Seq<Seq<int>> {
    Seq::new(a.len(), |j: int| if j < b.len() { add_cols(a[j], b[j]) } else { a[j] })
}

/// Every cell multiplied by the scalar `s`; the shape is kept.
pub open spec fn mat_scale(s: int, a: Seq<Seq<int>>) -> Seq<Seq<int>> {
    Seq::new(a.len(), |j: int| Seq::new(a[j].len(), |i: int| s * a[j][i]))
}

/// The sum of the first `k` pairwise products of `u` and `v`.
pub open spec fn dot_prefix(u: Seq<int>, v: Seq<int>, k: int) -> int
    decreases k,
{
    if k <= 0 {
        0
    } else {
        dot_prefix(u, v, k - 1) + u[k - 1] * v[k - 1]
    }
}

/// The smaller of two sequence lengths, as an `int`.
pub open spec fn min_len(a: nat, b: nat) -> int {
    if a <= b { a as int } else { b as int }
}

/// The matrix product: cell (i, j) is the dot product of row `i` of `a`
/// with column `j` of `b`. The dot product runs over the first
/// `min(a.len(), 4)` terms, so it is the standard 4x4 product exactly when
/// `a` has width 4.
pub open spec fn mat_mul(a: Seq<Seq<int>>, b: Seq<Seq<int>>) -> Seq<Seq<int>> {
    Seq::new(
        b.len(),
        |j: int| Seq::new(4, |i: int| dot_prefix(row_of(a, i), b[j], min_len(a.len(), 4))),
    )
}

/// The dot-product prefix over `k` terms of two sequences whose entries
/// all have magnitude at most `bound` has magnitude at most
/// `k * bound * bound`.
pub proof fn lemma_dot_prefix_bound(u: Seq<int>, v: Seq<int>, bound: int, k: int)
    requires
        0 <= k,
        bound >= 0,
        forall|t: int| 0 <= t < k ==> -bound <= #[trigger] u[t] <= bound,
        forall|t: int| 0 <= t < k ==> -bound <= #[trigger] v[t] <= bound,
    ensures
        -(k * bound * bound) <= dot_prefix(u, v, k) <= k * bound * bound,
    decreases k,
{
    if k > 0 {
        lemma_dot_prefix_bound(u, v, bound, k - 1);
        let x = u[k - 1];
        let y = v[k - 1];
        assert(-(bound * bound) <= x * y <= bound * bound) by (nonlinear_arith)
            requires
                -bound <= x <= bound,
                -bound <= y <= bound,
                bound >= 0,
        ;
        assert((k - 1) * bound * bound + bound * bound == k * bound * bound) by (nonlinear_arith);
    }
}

/// A sufficient condition for the matrix product to stay within machine
/// range: when every cell of the two well-formed operands has magnitude
/// at most `bound` and `4 * bound * bound` fits in an `i64`, every
/// pairwise product and every partial dot-product sum that `multiply`
/// computes fits as well.
pub proof fn lemma_multiply_in_range(a: Seq<Seq<int>>, b: Seq<Seq<int>>, bound: int)
    requires
        is_matrix(a),
        is_matrix(b),
        bound >= 0,
        4 * bound * bound <= i64::MAX,
        forall|j: int, i: int| 0 <= j < a.len() && 0 <= i < 4
            ==> -bound <= #[trigger] a[j][i] <= bound,
        forall|j: int, i: int| 0 <= j < b.len() && 0 <= i < 4
            ==> -bound <= #[trigger] b[j][i] <= bound,
    ensures
        forall|i: int, j: int, k: int|
            0 <= i < 4 && 0 <= j < b.len() && 0 <= k < min_len(a.len(), 4)
                ==> i64::MIN <= #[trigger] a[k][i] * #[trigger] b[j][k] <= i64::MAX,
        forall|i: int, j: int, k: int|
            0 <= i < 4 && 0 <= j < b.len() && 0 <= k <= min_len(a.len(), 4)
                ==> i64::MIN <= #[trigger] dot_prefix(row_of(a, i), b[j], k) <= i64::MAX,
{
    assert forall|i: int, j: int, k: int|
        0 <= i < 4 && 0 <= j < b.len() && 0 <= k < min_len(a.len(), 4)
            implies i64::MIN <= #[trigger] a[k][i] * #[trigger] b[j][k] <= i64::MAX by {
        let x = a[k][i];
        let y = b[j][k];
        assert(-bound <= x <= bound);
        assert(-bound <= y <= bound);
        assert(-(bound * bound) <= x * y <= bound * bound) by (nonlinear_arith)
            requires
                -bound <= x <= bound,
                -bound <= y <= bound,
                bound >= 0,
        ;
        assert(bound * bound <= 4 * bound * bound) by (nonlinear_arith)
            requires
                bound >= 0,
        ;
    }
    assert forall|i: int, j: int, k: int|
        0 <= i < 4 && 0 <= j < b.len() && 0 <= k <= min_len(a.len(), 4)
            implies i64::MIN <= #[trigger] dot_prefix(row_of(a, i), b[j], k) <= i64::MAX by {
        let u = row_of(a, i);
        let v = b[j];
        assert forall|t: int| 0 <= t < k implies -bound <= #[trigger] u[t] <= bound by {
            assert(u[t] == a[t][i]);
        }
        assert forall|t: int| 0 <= t < k implies -bound <= #[trigger] v[t] <= bound by {
            assert(v[t] == b[j][t]);
        }
        lemma_dot_prefix_bound(u, v, bound, k);
        assert(k * bound * bound <= 4 * bound * bound) by (nonlinear_arith)
            requires
                0 <= k <= 4,
                bound >= 0,
        ;
    }
}

} // verus!
