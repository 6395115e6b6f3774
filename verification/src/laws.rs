//! Algebraic laws of the matrix model, stated over the same spec
//! functions that the executable operations are proved against.

use vstd::prelude::*;
use crate::model::{add_cols, dot_prefix, identity_mat, is_matrix, mat_add, mat_mul, mat_scale,
    min_len, row_of, zero_matrix};

verus! {

/// Identity law: multiplying any well-formed matrix by the 4x4 identity
/// on the left yields the same matrix, cell by cell.
pub proof fn lemma_identity_law(m: Seq<Seq<int>>)
    requires
        is_matrix(m),
    ensures
        mat_mul(identity_mat(), m) == m,
{
    assert forall|j: int, i: int| 0 <= j < m.len() && 0 <= i < 4
        implies #[trigger] mat_mul(identity_mat(), m)[j][i] == m[j][i] by {
        let u = row_of(identity_mat(), i);
        let c = m[j];
        assert(u.len() == 4);
        assert(u[0] == if i == 0 { 1int } else { 0int });
        assert(u[1] == if i == 1 { 1int } else { 0int });
        assert(u[2] == if i == 2 { 1int } else { 0int });
        assert(u[3] == if i == 3 { 1int } else { 0int });
        assert(dot_prefix(u, c, 0) == 0);
        assert(dot_prefix(u, c, 1) == dot_prefix(u, c, 0) + u[0] * c[0]);
        assert(dot_prefix(u, c, 2) == dot_prefix(u, c, 1) + u[1] * c[1]);
        assert(dot_prefix(u, c, 3) == dot_prefix(u, c, 2) + u[2] * c[2]);
        assert(dot_prefix(u, c, 4) == dot_prefix(u, c, 3) + u[3] * c[3]);
        assert(dot_prefix(u, c, 4) == c[i]);
        assert(min_len(identity_mat().len(), 4) == 4);
    }
    assert(mat_mul(identity_mat(), m) =~~= m);
}

/// Additive identity: adding the all-zero matrix of the same width to any
/// well-formed matrix yields the same matrix.
pub proof fn lemma_additive_identity(m: Seq<Seq<int>>)
    requires
        is_matrix(m),
    ensures
        mat_add(m, zero_matrix(m.len())) == m,
{
    let z = zero_matrix(m.len());
    assert forall|j: int| 0 <= j < m.len()
        implies #[trigger] mat_add(m, z)[j] == m[j] by {
        assert(add_cols(m[j], z[j]) =~= m[j]);
    }
    assert(mat_add(m, z) =~= m);
}

/// Scalar identity: scaling any matrix by 1 yields the same matrix.
pub proof fn lemma_scalar_identity(m: Seq<Seq<int>>)
    ensures
        mat_scale(1, m) == m,
{
    assert forall|j: int| 0 <= j < m.len()
        implies #[trigger] mat_scale(1, m)[j] == m[j] by {
        assert(mat_scale(1, m)[j] =~= m[j]);
    }
    assert(mat_scale(1, m) =~= m);
}

/// Scalar distributivity: for well-formed matrices of equal width,
/// scaling their sum by `s` equals the sum of the two scaled matrices.
pub proof fn lemma_scalar_distributivity(s: int, a: Seq<Seq<int>>, b: Seq<Seq<int>>)
    requires
        a.len() == b.len(),
        is_matrix(a),
        is_matrix(b),
    ensures
        mat_scale(s, mat_add(a, b)) == mat_add(mat_scale(s, a), mat_scale(s, b)),
{
    assert forall|j: int| 0 <= j < a.len()
        implies #[trigger] mat_scale(s, mat_add(a, b))[j]
            == mat_add(mat_scale(s, a), mat_scale(s, b))[j] by {
        assert forall|i: int| 0 <= i < 4
            implies s * (a[j][i] + b[j][i]) == s * a[j][i] + s * #[trigger] b[j][i] by {
            let x = a[j][i];
            let y = b[j][i];
            assert(s * (x + y) == s * x + s * y) by (nonlinear_arith);
        }
        assert(mat_scale(s, mat_add(a, b))[j]
            =~= mat_add(mat_scale(s, a), mat_scale(s, b))[j]);
    }
    assert(mat_scale(s, mat_add(a, b)) =~= mat_add(mat_scale(s, a), mat_scale(s, b)));
}

} // verus!
