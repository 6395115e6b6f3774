//! The executable matrix type: a dense 4-row, variable-width column matrix
//! with bounds-checked accessors, in-place growth, and elementwise and
//! matrix arithmetic.

use vstd::prelude::*;
use crate::model::{add_cols, col_ints, ints_of, is_matrix, row_of, identity_mat, mat_add,
    mat_scale, mat_mul, dot_prefix, min_len};

verus! {

/// The error reported when a row or column index is outside its valid
/// range: rows live in `[0, 4)`, columns in `[0, width())`. An operation
/// that reports it has not mutated the matrix.
#[derive(Clone, Copy, Debug, PartialEq, Eq, Structural)]
pub struct BoundsError;

/// A 4xN matrix, stored as an ordered sequence of 4-entry columns. The
/// columns sit inline in one contiguous allocation, so appending a column
/// is a single buffer growth.
///
/// The abstract value (`self@`) is a sequence of columns, each a sequence
/// of four unbounded integers, row 0 first.
pub struct Matrix {
    v: Vec<[i64; 4]>,
}

impl View for Matrix {
    type V = Seq<Seq<int>>;

    closed spec fn view(&self) -> Seq<Seq<int>> {
        Seq::new(self.v@.len(), |j: int| col_ints(self.v@[j]))
    }
}

/// Every value of `Matrix` is well formed: each column has four entries.
pub broadcast proof fn lemma_matrix_view_wf(m: &Matrix)
    ensures
        #[trigger] is_matrix(m@),
{
}

impl Matrix {
    /// Make a 4xN matrix from an explicit ordered list of columns.
    pub fn new(columns: Vec<[i64; 4]>) -> (r: Matrix)
        ensures
            r@.len() == columns@.len(),
            forall|j: int| 0 <= j < columns@.len() ==> r@[j] == col_ints(columns@[j]),
    {
        Matrix { v: columns }
    }

    /// Make an empty (4x0) matrix.
    pub fn empty() -> (r: Matrix)
        ensures
            r@ == Seq::<Seq<int>>::empty(),
    {
        let r = Matrix::new(Vec::new());
        proof {
            assert(r@ =~= Seq::<Seq<int>>::empty());
        }
        r
    }

    /// Make the 4x1 column matrix representing the homogeneous origin
    /// point (0, 0, 0, 1).
    pub fn origin() -> (r: Matrix)
        ensures
            r@ == seq![seq![0int, 0int, 0int, 1int]],
    {
        let r = Matrix::new(vec![[0i64, 0i64, 0i64, 1i64]]);
        proof {
            assert(r@ =~~= seq![seq![0int, 0int, 0int, 1int]]);
        }
        r
    }

    /// Make a 4x4 matrix given each cell value, listed row by row: the
    /// first four values form row 0 left to right, the next four row 1,
    /// and so on.
    pub fn new4x4(
        a: i64, b: i64, c: i64, d: i64,
        e: i64, f: i64, g: i64, h: i64,
        i: i64, j: i64, k: i64, l: i64,
        m: i64, n: i64, o: i64, p: i64,
    ) -> (r: Matrix)
        ensures
            r@ == seq![
                seq![a as int, e as int, i as int, m as int],
                seq![b as int, f as int, j as int, n as int],
                seq![c as int, g as int, k as int, o as int],
                seq![d as int, h as int, l as int, p as int],
            ],
    {
        let r = Matrix::new(vec![
            [a, e, i, m],
            [b, f, j, n],
            [c, g, k, o],
            [d, h, l, p],
        ]);
        proof {
            assert(r@ =~~= seq![
                seq![a as int, e as int, i as int, m as int],
                seq![b as int, f as int, j as int, n as int],
                seq![c as int, g as int, k as int, o as int],
                seq![d as int, h as int, l as int, p as int],
            ]);
        }
        r
    }

    /// Make the 4x4 identity matrix.
    pub fn identity() -> (r: Matrix)
        ensures
            r@ == identity_mat(),
    {
        let r = Matrix::new(vec![
            [1i64, 0i64, 0i64, 0i64],
            [0i64, 1i64, 0i64, 0i64],
            [0i64, 0i64, 1i64, 0i64],
            [0i64, 0i64, 0i64, 1i64],
        ]);
        proof {
            assert(r@ =~~= identity_mat());
        }
        r
    }

    /// Make the 4x4 dilation matrix dilating by `s` in x, y, and z; the
    /// w row stays (0, 0, 0, 1).
    pub fn dilation(s: i64) -> (r: Matrix)
        ensures
            r@ == seq![
                seq![s as int, 0int, 0int, 0int],
                seq![0int, s as int, 0int, 0int],
                seq![0int, 0int, s as int, 0int],
                seq![0int, 0int, 0int, 1int],
            ],
    {
        Matrix::dilation_xyz(s, s, s)
    }

    /// Make the 4x4 dilation matrix dilating by `sx` in x, `sy` in y, and
    /// `sz` in z: diag(sx, sy, sz, 1).
    pub fn dilation_xyz(sx: i64, sy: i64, sz: i64) -> (r: Matrix)
        ensures
            r@ == seq![
                seq![sx as int, 0int, 0int, 0int],
                seq![0int, sy as int, 0int, 0int],
                seq![0int, 0int, sz as int, 0int],
                seq![0int, 0int, 0int, 1int],
            ],
    {
        Matrix::new4x4(
            sx, 0, 0, 0,
            0, sy, 0, 0,
            0, 0, sz, 0,
            0, 0, 0, 1,
        )
    }

    /// The current column count.
    pub fn width(&self) -> (w: usize)
        ensures
            w == self@.len(),
    {
        self.v.len()
    }

    /// Column `colnum` as one 4-entry column, by value. Cheap direct
    /// access for callers that have already established the bound.
    pub(crate) fn col_at(&self, colnum: usize) -> (c: [i64; 4])
        requires
            colnum < self@.len(),
        ensures
            col_ints(c) == self@[colnum as int],
    {
        self.v[colnum]
    }

    /// Column `colnum` as a fixed 4-entry column, or a `BoundsError` when
    /// `colnum >= width()`.
    pub fn col(&self, colnum: usize) -> (r: Result<[i64; 4], BoundsError>)
        ensures
            colnum < self@.len() ==> (r matches Ok(c) && col_ints(c) == self@[colnum as int]),
            colnum >= self@.len() ==> r is Err,
    {
        if colnum >= self.v.len() {
            Err(BoundsError)
        } else {
            Ok(self.col_at(colnum))
        }
    }

    /// Column `colnum` as a variable-length sequence of its four entries,
    /// or a `BoundsError` when `colnum >= width()`.
    pub fn col_vec(&self, colnum: usize) -> (r: Result<Vec<i64>, BoundsError>)
        ensures
            colnum < self@.len() ==> (r matches Ok(v) && ints_of(v@) == self@[colnum as int]),
            colnum >= self@.len() ==> r is Err,
    {
        if colnum >= self.v.len() {
            Err(BoundsError)
        } else {
            let c = self.col_at(colnum);
            let v = vec![c[0], c[1], c[2], c[3]];
            proof {
                assert(ints_of(v@) =~= self@[colnum as int]);
            }
            Ok(v)
        }
    }

    /// Row `rownum` as a sequence of `width()` values, in column order.
    /// Callers must have established `rownum < 4`.
    fn row_at(&self, rownum: usize) -> (r: Vec<i64>)
        requires
            rownum < 4,
        ensures
            ints_of(r@) == row_of(self@, rownum as int),
    {
        let mut items: Vec<i64> = Vec::new();
        let width = self.v.len();
        for column in 0..width
            invariant
                width == self@.len(),
                rownum < 4,
                items@.len() == column,
                forall|k: int| 0 <= k < column ==> items@[k] as int == self@[k][rownum as int],
        {
            let c = self.v[column];
            items.push(c[rownum]);
        }
        proof {
            assert(ints_of(items@) =~= row_of(self@, rownum as int));
        }
        items
    }

    /// Row `rownum` (rows are 0 through 3) as a sequence of `width()`
    /// values, or a `BoundsError` when `rownum >= 4`.
    pub fn row(&self, rownum: usize) -> (r: Result<Vec<i64>, BoundsError>)
        ensures
            rownum < 4 ==> (r matches Ok(v) && ints_of(v@) == row_of(self@, rownum as int)),
            rownum >= 4 ==> r is Err,
    {
        if rownum >= 4 {
            Err(BoundsError)
        } else {
            Ok(self.row_at(rownum))
        }
    }

    /// The single cell at (`row`, `col`), zero-based, or a `BoundsError`
    /// when `row >= 4` or `col >= width()`.
    pub fn get(&self, row: usize, col: usize) -> (r: Result<i64, BoundsError>)
        ensures
            row < 4 && col < self@.len() ==> (r matches Ok(x) && x as int == self@[col as int][row as int]),
            row >= 4 || col >= self@.len() ==> r is Err,
    {
        if row >= 4 || col >= self.v.len() {
            Err(BoundsError)
        } else {
            let c = self.col_at(col);
            Ok(c[row])
        }
    }

    /// Write `val` into the single cell at (`row`, `col`), zero-based. On
    /// a `BoundsError` (`row >= 4` or `col >= width()`) the matrix is left
    /// unchanged.
    pub fn set(&mut self, row: usize, col: usize, val: i64) -> (r: Result<(), BoundsError>)
        ensures
            row < 4 && col < old(self)@.len() ==> (
                r is Ok
                && final(self)@ == old(self)@.update(
                    col as int,
                    old(self)@[col as int].update(row as int, val as int),
                )
            ),
            row >= 4 || col >= old(self)@.len() ==> r is Err && final(self)@ == old(self)@,
    {
        if row >= 4 || col >= self.v.len() {
            Err(BoundsError)
        } else {
            let mut c = self.v[col];
            c[row] = val;
            self.v[col] = c;
            proof {
                assert(self@ =~~= old(self)@.update(
                    col as int,
                    old(self)@[col as int].update(row as int, val as int),
                ));
            }
            Ok(())
        }
    }

    /// Push a column onto the right side of `self`.
    pub fn push_col(&mut self, col: [i64; 4])
        ensures
            final(self)@ == old(self)@.push(col_ints(col)),
    {
        self.v.push(col);
        proof {
            assert(self@ =~= old(self)@.push(col_ints(col)));
        }
    }

    /// Push each column of `m`, in order, onto the right side of `self`.
    /// The width grows by `m.width()`, and the new columns read back
    /// exactly as the columns of `m`.
    pub fn append(&mut self, m: Matrix)
        ensures
            final(self)@ == old(self)@ + m@,
            final(self)@.len() == old(self)@.len() + m@.len(),
            forall|i: int| 0 <= i < m@.len()
                ==> final(self)@[old(self)@.len() + i] == m@[i],
    {
        let count = m.width();
        for col in 0..count
            invariant
                count == m@.len(),
                self@ == old(self)@ + m@.subrange(0, col as int),
        {
            self.push_col(m.col_at(col));
            proof {
                assert(self@ =~= old(self)@ + m@.subrange(0, col + 1));
            }
        }
        proof {
            assert(m@.subrange(0, m@.len() as int) =~= m@);
        }
    }

    /// Push an edge, i.e. two points, onto the right side of `self`
    /// (think of `self` as an edge list): first `a`, then `b`, as one
    /// logical operation growing the width by 2.
    pub fn push_edge(&mut self, a: [i64; 4], b: [i64; 4])
        ensures
            final(self)@ == old(self)@.push(col_ints(a)).push(col_ints(b)),
            final(self)@.len() == old(self)@.len() + 2,
            final(self)@[old(self)@.len() as int] == col_ints(a),
            final(self)@[old(self)@.len() + 1int] == col_ints(b),
    {
        self.push_col(a);
        self.push_col(b);
    }

    /// The elementwise sum of `self` and `rhs`. Column `j` of the result
    /// is the sum of the operands' columns `j` while both have one; any
    /// column of `self` beyond `rhs`'s width is carried through
    /// unchanged, so the result has `self`'s width.
    pub fn add(&self, rhs: &Matrix) -> (r: Matrix)
        requires
            forall|j: int, i: int|
                0 <= j < min_len(self@.len(), rhs@.len()) && 0 <= i < 4
                    ==> i64::MIN <= #[trigger] self@[j][i] + #[trigger] rhs@[j][i] <= i64::MAX,
        ensures
            r@ == mat_add(self@, rhs@),
    {
        let mut out = Matrix::empty();
        let width = self.width();
        let shared = rhs.width();
        for j in 0..width
            invariant
                width == self@.len(),
                shared == rhs@.len(),
                forall|j0: int, i: int|
                    0 <= j0 < min_len(self@.len(), rhs@.len()) && 0 <= i < 4
                        ==> i64::MIN <= #[trigger] self@[j0][i] + #[trigger] rhs@[j0][i] <= i64::MAX,
                out@ == mat_add(self@, rhs@).subrange(0, j as int),
        {
            let a = self.col_at(j);
            if j < shared {
                let b = rhs.col_at(j);
                proof {
                    assert forall|i: int| 0 <= i < 4
                        implies i64::MIN <= #[trigger] a@[i] + #[trigger] b@[i] <= i64::MAX by {
                        assert(a@[i] as int == self@[j as int][i]);
                        assert(b@[i] as int == rhs@[j as int][i]);
                    }
                }
                let c = [a[0] + b[0], a[1] + b[1], a[2] + b[2], a[3] + b[3]];
                proof {
                    assert(col_ints(c) =~= add_cols(self@[j as int], rhs@[j as int]));
                }
                out.push_col(c);
            } else {
                out.push_col(a);
            }
            proof {
                assert(out@ =~= mat_add(self@, rhs@).subrange(0, j + 1));
            }
        }
        proof {
            assert(out@ =~= mat_add(self@, rhs@));
        }
        out
    }

    /// Every cell of `self` multiplied by the scalar `s`; the shape is
    /// kept.
    pub fn scale(&self, s: i64) -> (r: Matrix)
        requires
            forall|j: int, i: int|
                0 <= j < self@.len() && 0 <= i < 4
                    ==> i64::MIN <= s * #[trigger] self@[j][i] <= i64::MAX,
        ensures
            r@ == mat_scale(s as int, self@),
    {
        let mut out = Matrix::empty();
        let width = self.width();
        for j in 0..width
            invariant
                width == self@.len(),
                forall|j0: int, i: int|
                    0 <= j0 < self@.len() && 0 <= i < 4
                        ==> i64::MIN <= s * #[trigger] self@[j0][i] <= i64::MAX,
                out@ == mat_scale(s as int, self@).subrange(0, j as int),
        {
            let a = self.col_at(j);
            proof {
                assert forall|i: int| 0 <= i < 4
                    implies i64::MIN <= s * #[trigger] a@[i] <= i64::MAX by {
                    assert(a@[i] as int == self@[j as int][i]);
                }
            }
            let c = [s * a[0], s * a[1], s * a[2], s * a[3]];
            proof {
                assert(col_ints(c) =~= mat_scale(s as int, self@)[j as int]);
            }
            out.push_col(c);
            proof {
                assert(out@ =~= mat_scale(s as int, self@).subrange(0, j + 1));
            }
        }
        proof {
            assert(out@ =~= mat_scale(s as int, self@));
        }
        out
    }

    /// The elementwise difference of `self` and `rhs`, defined as
    /// `self + (rhs scaled by -1)`, inheriting the asymmetric-width
    /// policy of `add`.
    pub fn subtract(&self, rhs: &Matrix) -> (r: Matrix)
        requires
            forall|j: int, i: int|
                0 <= j < rhs@.len() && 0 <= i < 4
                    ==> i64::MIN <= -(#[trigger] rhs@[j][i]) <= i64::MAX,
            forall|j: int, i: int|
                0 <= j < min_len(self@.len(), rhs@.len()) && 0 <= i < 4
                    ==> i64::MIN <= #[trigger] self@[j][i] - #[trigger] rhs@[j][i] <= i64::MAX,
        ensures
            r@ == mat_add(self@, mat_scale(-1, rhs@)),
    {
        let mrhs = rhs.scale(-1);
        self.add(&mrhs)
    }

    /// The matrix product of `self` and `rhs`: cell (i, j) is the dot
    /// product of row `i` of `self` with column `j` of `rhs`, for `i` in
    /// 0..4 and `j` in 0..rhs.width(). For a valid linear-transform
    /// composition `self` must be a 4x4 matrix; when `self.width() != 4`
    /// the product still executes, with each dot product running over the
    /// first `min(self.width(), 4)` terms, but the result is not a
    /// meaningful transform composition.
    pub fn multiply(&self, rhs: &Matrix) -> (r: Matrix)
        requires
            forall|i: int, j: int, k: int|
                0 <= i < 4 && 0 <= j < rhs@.len() && 0 <= k < min_len(self@.len(), 4)
                    ==> i64::MIN <= #[trigger] self@[k][i] * #[trigger] rhs@[j][k] <= i64::MAX,
            forall|i: int, j: int, k: int|
                0 <= i < 4 && 0 <= j < rhs@.len() && 0 <= k <= min_len(self@.len(), 4)
                    ==> i64::MIN
                        <= #[trigger] dot_prefix(row_of(self@, i), rhs@[j], k)
                        <= i64::MAX,
        ensures
            r@ == mat_mul(self@, rhs@),
    {
        let r0 = self.row_at(0);
        let r1 = self.row_at(1);
        let r2 = self.row_at(2);
        let r3 = self.row_at(3);
        let mut out = Matrix::empty();
        let count = rhs.width();
        for j in 0..count
            invariant
                count == rhs@.len(),
                ints_of(r0@) == row_of(self@, 0),
                ints_of(r1@) == row_of(self@, 1),
                ints_of(r2@) == row_of(self@, 2),
                ints_of(r3@) == row_of(self@, 3),
                forall|i: int, j0: int, k: int|
                    0 <= i < 4 && 0 <= j0 < rhs@.len() && 0 <= k < min_len(self@.len(), 4)
                        ==> i64::MIN <= #[trigger] self@[k][i] * #[trigger] rhs@[j0][k] <= i64::MAX,
                forall|i: int, j0: int, k: int|
                    0 <= i < 4 && 0 <= j0 < rhs@.len() && 0 <= k <= min_len(self@.len(), 4)
                        ==> i64::MIN
                            <= #[trigger] dot_prefix(row_of(self@, i), rhs@[j0], k)
                            <= i64::MAX,
                out@ == mat_mul(self@, rhs@).subrange(0, j as int),
        {
            let cj = rhs.col_vec_at(j);
            proof {
                lemma_mul_requires(self@, rhs@, r0@, cj@, j as int, 0);
                lemma_mul_requires(self@, rhs@, r1@, cj@, j as int, 1);
                lemma_mul_requires(self@, rhs@, r2@, cj@, j as int, 2);
                lemma_mul_requires(self@, rhs@, r3@, cj@, j as int, 3);
            }
            let c = [
                dot_product(&r0, &cj),
                dot_product(&r1, &cj),
                dot_product(&r2, &cj),
                dot_product(&r3, &cj),
            ];
            proof {
                assert(col_ints(c) =~= mat_mul(self@, rhs@)[j as int]);
                assert(out@.push(col_ints(c)) =~= mat_mul(self@, rhs@).subrange(0, j + 1));
            }
            out.push_col(c);
        }
        proof {
            assert(out@ =~= mat_mul(self@, rhs@));
        }
        out
    }

    /// Column `colnum` as a fresh variable-length sequence of its four
    /// entries. Callers must have established the bound.
    fn col_vec_at(&self, colnum: usize) -> (r: Vec<i64>)
        requires
            colnum < self@.len(),
        ensures
            ints_of(r@) == self@[colnum as int],
            r@.len() == 4,
    {
        let c = self.col_at(colnum);
        let v = vec![c[0], c[1], c[2], c[3]];
        proof {
            assert(ints_of(v@) =~= self@[colnum as int]);
        }
        v
    }
}

impl Clone for Matrix {
    /// An exact copy: the clone has the same abstract value as `self`.
    fn clone(&self) -> (r: Self)
        ensures
            r@ == self@,
    {
        let mut v: Vec<[i64; 4]> = Vec::new();
        let width = self.width();
        for j in 0..width
            invariant
                width == self@.len(),
                v@.len() == j,
                forall|k: int| 0 <= k < j ==> col_ints(#[trigger] v@[k]) == self@[k],
        {
            v.push(self.col_at(j));
        }
        let r = Matrix::new(v);
        proof {
            assert(r@ =~= self@);
        }
        r
    }
}

/// The preconditions of `dot_product` hold for row `i` of `a` against
/// column `j` of `b`, given the overflow bounds that `multiply` requires.
proof fn lemma_mul_requires(
    a: Seq<Seq<int>>,
    b: Seq<Seq<int>>,
    u: Seq<i64>,
    v: Seq<i64>,
    j: int,
    i: int,
)
    requires
        0 <= i < 4,
        0 <= j < b.len(),
        ints_of(u) == row_of(a, i),
        ints_of(v) == b[j],
        v.len() == 4,
        forall|i0: int, j0: int, k: int|
            0 <= i0 < 4 && 0 <= j0 < b.len() && 0 <= k < min_len(a.len(), 4)
                ==> i64::MIN <= #[trigger] a[k][i0] * #[trigger] b[j0][k] <= i64::MAX,
        forall|i0: int, j0: int, k: int|
            0 <= i0 < 4 && 0 <= j0 < b.len() && 0 <= k <= min_len(a.len(), 4)
                ==> i64::MIN <= #[trigger] dot_prefix(row_of(a, i0), b[j0], k) <= i64::MAX,
    ensures
        forall|k: int| 0 <= k < min_len(u.len() as nat, v.len() as nat)
            ==> i64::MIN <= #[trigger] u[k] * #[trigger] v[k] <= i64::MAX,
        forall|k: int| 0 <= k <= min_len(u.len() as nat, v.len() as nat)
            ==> i64::MIN <= #[trigger] dot_prefix(ints_of(u), ints_of(v), k) <= i64::MAX,
        dot_prefix(ints_of(u), ints_of(v), min_len(u.len() as nat, v.len() as nat))
            == dot_prefix(row_of(a, i), b[j], min_len(a.len(), 4)),
{
    assert(ints_of(u).len() == u.len());
    assert(row_of(a, i).len() == a.len());
    assert(ints_of(v).len() == v.len());
    assert(u.len() == a.len());
    assert(ints_of(u) =~= row_of(a, i));
    assert(ints_of(v) =~= b[j]);
    assert forall|k: int| 0 <= k < min_len(u.len() as nat, v.len() as nat)
        implies i64::MIN <= #[trigger] u[k] * #[trigger] v[k] <= i64::MAX by {
        assert(u[k] as int == row_of(a, i)[k]);
        assert(v[k] as int == b[j][k]);
        assert(row_of(a, i)[k] == a[k][i]);
        assert(i64::MIN <= a[k][i] * b[j][k] <= i64::MAX);
        assert(u[k] * v[k] == a[k][i] * b[j][k]);
    }
    assert(min_len(u.len() as nat, v.len() as nat) == min_len(a.len(), 4));
}

/// The sum of the pairwise products of `u` and `v`, over the length of
/// the shorter of the two.
fn dot_product(u: &Vec<i64>, v: &Vec<i64>) -> (r: i64)
    requires
        forall|k: int| 0 <= k < min_len(u@.len(), v@.len())
            ==> i64::MIN <= #[trigger] u@[k] * #[trigger] v@[k] <= i64::MAX,
        forall|k: int| 0 <= k <= min_len(u@.len(), v@.len())
            ==> i64::MIN <= #[trigger] dot_prefix(ints_of(u@), ints_of(v@), k) <= i64::MAX,
    ensures
        r as int == dot_prefix(ints_of(u@), ints_of(v@), min_len(u@.len(), v@.len())),
{
    let n = if u.len() <= v.len() { u.len() } else { v.len() };
    let mut sum: i64 = 0;
    for k in 0..n
        invariant
            n == min_len(u@.len(), v@.len()),
            forall|k0: int| 0 <= k0 < min_len(u@.len(), v@.len())
                ==> i64::MIN <= #[trigger] u@[k0] * #[trigger] v@[k0] <= i64::MAX,
            forall|k0: int| 0 <= k0 <= min_len(u@.len(), v@.len())
                ==> i64::MIN <= #[trigger] dot_prefix(ints_of(u@), ints_of(v@), k0) <= i64::MAX,
            sum as int == dot_prefix(ints_of(u@), ints_of(v@), k as int),
    {
        proof {
            assert(ints_of(u@)[k as int] == u@[k as int] as int);
            assert(ints_of(v@)[k as int] == v@[k as int] as int);
            assert(dot_prefix(ints_of(u@), ints_of(v@), k + 1)
                == dot_prefix(ints_of(u@), ints_of(v@), k as int)
                    + ints_of(u@)[k as int] * ints_of(v@)[k as int]);
        }
        let p = u[k] * v[k];
        sum = sum + p;
    }
    sum
}

/// Every cell of `mat` multiplied by the scalar; the commuted,
/// scalar-on-the-left form of `Matrix::scale`.
pub fn scale_matrix(scalar: i64, mat: &Matrix) -> (r: Matrix)
    requires
        forall|j: int, i: int|
            0 <= j < mat@.len() && 0 <= i < 4
                ==> i64::MIN <= scalar * #[trigger] mat@[j][i] <= i64::MAX,
    ensures
        r@ == mat_scale(scalar as int, mat@),
{
    mat.scale(scalar)
}

} // verus!
