//! A matrix times its adjugate is its determinant times the identity, for
//! 4 by 4 matrices. Every product of four entries is brought to one form,
//! one entry from each column in column order, after which the identity is
//! a matter of cancelling equal terms.
use vstd::prelude::*;
use crate::algebra::{
    adjugate_of, cofactor_of, cofactor_sign, column, det, first_row_expansion, is_square,
    lemma_submatrix_entries, mat_mul, skip_index, submatrix_of, sum_products,
};

verus! {

/// `d` times the `n` by `n` identity matrix.
pub open spec fn scaled_identity(n: nat, d: int) -> Seq<Seq<int>> {
    Seq::new(n, |i: int| Seq::new(n, |j: int| if i == j { d } else { 0int }))
}

/// The product of the entries of `m` in columns 0 to 3 taken from rows
/// `r.0` to `r.3`.
pub open spec fn col_product(m: Seq<Seq<int>>, r: (int, int, int, int)) -> int {
    m[r.0][0] * (m[r.1][1] * (m[r.2][2] * m[r.3][3]))
}

/// The rows `a`, `b`, `c` for three columns with row `i` placed at column `k`.
pub open spec fn insert_row(k: int, i: int, a: int, b: int, c: int) -> (int, int, int, int) {
    if k == 0 {
        (i, a, b, c)
    } else if k == 1 {
        (a, i, b, c)
    } else if k == 2 {
        (a, b, i, c)
    } else {
        (a, b, c, i)
    }
}

/// The product of entry `[i][k]` with one term of the Leibniz formula of the
/// minor at `[j][k]`: row `skip_index(j, p)` in the minor's first column,
/// and so on.
pub open spec fn cofactor_term(m: Seq<Seq<int>>, i: int, j: int, k: int, p: int, q: int, r: int) -> int {
    col_product(m, insert_row(k, i, skip_index(j, p), skip_index(j, q), skip_index(j, r)))
}

/// Entry `[i][k]` times the minor at `[j][k]`, as six products of four
/// entries.
pub open spec fn expanded_product(m: Seq<Seq<int>>, i: int, j: int, k: int) -> int {
    cofactor_term(m, i, j, k, 0, 1, 2) - cofactor_term(m, i, j, k, 0, 2, 1) - cofactor_term(
        m,
        i,
        j,
        k,
        1,
        0,
        2,
    ) + cofactor_term(m, i, j, k, 1, 2, 0) + cofactor_term(m, i, j, k, 2, 0, 1) - cofactor_term(
        m,
        i,
        j,
        k,
        2,
        1,
        0,
    )
}

/// Products of three factors agree in any order.
proof fn lemma_mul3(x: int, y: int, z: int)
    by (nonlinear_arith)
    ensures
        x * (y * z) == x * (z * y),
        x * (y * z) == y * (x * z),
        x * (y * z) == y * (z * x),
        x * (y * z) == z * (x * y),
        x * (y * z) == z * (y * x),
{
}

/// Multiplication distributes over a difference.
proof fn lemma_mul_sub(x: int, y: int, z: int)
    by (nonlinear_arith)
    ensures
        x * (y - z) == x * y - x * z,
{
}

/// Multiplication distributes over a sum.
proof fn lemma_mul_add(x: int, y: int, z: int)
    by (nonlinear_arith)
    ensures
        x * (y + z) == x * y + x * z,
{
}

/// A factor of one or minus one moves out of a product.
proof fn lemma_mul_sign(x: int, s: int, y: int)
    requires
        s == 1 || s == -1,
    ensures
        s == 1 ==> x * (s * y) == x * y,
        s == -1 ==> x * (s * y) == -(x * y),
{
    if s == -1 {
        assert(x * (-1 * y) == -(x * y)) by (nonlinear_arith);
    }
}

/// A fourth factor moves into any place of a product of three.
proof fn lemma_mul4(w: int, x: int, y: int, z: int)
    ensures
        w * (x * (y * z)) == x * (w * (y * z)),
        w * (x * (y * z)) == x * (y * (w * z)),
        w * (x * (y * z)) == x * (y * (z * w)),
{
    lemma_mul3(w, x, y * z);
    lemma_mul3(w, y, z);
    lemma_mul3(y, w, z);
}

/// Multiplication distributes over the six signed terms of a 3 by 3
/// determinant.
proof fn lemma_mul_six(x: int, t1: int, t2: int, t3: int, t4: int, t5: int, t6: int)
    ensures
        x * (t1 - t2 - t3 + t4 + t5 - t6) == x * t1 - x * t2 - x * t3 + x * t4 + x * t5 - x * t6,
{
    lemma_mul_sub(x, t1 - t2 - t3 + t4 + t5, t6);
    lemma_mul_add(x, t1 - t2 - t3 + t4, t5);
    lemma_mul_add(x, t1 - t2 - t3, t4);
    lemma_mul_sub(x, t1 - t2, t3);
    lemma_mul_sub(x, t1, t2);
}

/// The determinant of a 3 by 3 matrix by the Leibniz formula, each product
/// taking its entries in column order.
proof fn lemma_det3_leibniz(s: Seq<Seq<int>>)
    requires
        is_square(s),
        s.len() == 3,
    ensures
        det(s) == s[0][0] * (s[1][1] * s[2][2]) - s[0][0] * (s[2][1] * s[1][2]) - s[1][0] * (s[0][1]
            * s[2][2]) + s[1][0] * (s[2][1] * s[0][2]) + s[2][0] * (s[0][1] * s[1][2]) - s[2][0] * (
        s[1][1] * s[0][2]),
{
    lemma_submatrix_entries(s, 0, 0);
    lemma_submatrix_entries(s, 0, 1);
    lemma_submatrix_entries(s, 0, 2);
    let d0 = det(submatrix_of(s, 0, 0));
    let d1 = det(submatrix_of(s, 0, 1));
    let d2 = det(submatrix_of(s, 0, 2));
    assert(d0 == s[1][1] * s[2][2] - s[1][2] * s[2][1]);
    assert(d1 == s[1][0] * s[2][2] - s[1][2] * s[2][0]);
    assert(d2 == s[1][0] * s[2][1] - s[1][1] * s[2][0]);
    assert(det(s) == first_row_expansion(s, 3));
    assert(first_row_expansion(s, 3) == first_row_expansion(s, 2) + s[0][2] * (cofactor_sign(0, 2)
        * d2));
    assert(first_row_expansion(s, 2) == first_row_expansion(s, 1) + s[0][1] * (cofactor_sign(0, 1)
        * d1));
    assert(first_row_expansion(s, 1) == first_row_expansion(s, 0) + s[0][0] * (cofactor_sign(0, 0)
        * d0));
    assert(first_row_expansion(s, 0) == 0);
    assert(det(s) == s[0][0] * (cofactor_sign(0, 0) * d0) + s[0][1] * (cofactor_sign(0, 1) * d1)
        + s[0][2] * (cofactor_sign(0, 2) * d2));
    lemma_mul_sign(s[0][0], cofactor_sign(0, 0), d0);
    lemma_mul_sign(s[0][1], cofactor_sign(0, 1), d1);
    lemma_mul_sign(s[0][2], cofactor_sign(0, 2), d2);
    lemma_mul_sub(s[0][0], s[1][1] * s[2][2], s[1][2] * s[2][1]);
    lemma_mul_sub(s[0][1], s[1][0] * s[2][2], s[1][2] * s[2][0]);
    lemma_mul_sub(s[0][2], s[1][0] * s[2][1], s[1][1] * s[2][0]);
    lemma_mul3(s[0][0], s[1][2], s[2][1]);
    lemma_mul3(s[0][1], s[1][0], s[2][2]);
    lemma_mul3(s[0][1], s[1][2], s[2][0]);
    lemma_mul3(s[0][2], s[1][0], s[2][1]);
    lemma_mul3(s[0][2], s[1][1], s[2][0]);
    lemma_mul3(s[2][0], s[0][1], s[1][2]);
}

/// Entry `[i][k]` times the cofactor at `[j][k]`, as signed products of four
/// entries in column order.
proof fn lemma_times_cofactor(m: Seq<Seq<int>>, i: int, j: int, k: int)
    requires
        is_square(m),
        m.len() == 4,
        0 <= i < 4,
        0 <= j < 4,
        0 <= k < 4,
    ensures
        (j + k) % 2 == 0 ==> m[i][k] * cofactor_of(m, j, k) == expanded_product(m, i, j, k),
        (j + k) % 2 != 0 ==> m[i][k] * cofactor_of(m, j, k) == -expanded_product(m, i, j, k),
{
    let s = submatrix_of(m, j, k);
    lemma_submatrix_entries(m, j, k);
    lemma_det3_leibniz(s);
    let x = m[i][k];
    lemma_mul_sign(x, cofactor_sign(j, k), det(s));
    let t1 = s[0][0] * (s[1][1] * s[2][2]);
    let t2 = s[0][0] * (s[2][1] * s[1][2]);
    let t3 = s[1][0] * (s[0][1] * s[2][2]);
    let t4 = s[1][0] * (s[2][1] * s[0][2]);
    let t5 = s[2][0] * (s[0][1] * s[1][2]);
    let t6 = s[2][0] * (s[1][1] * s[0][2]);
    lemma_mul_six(x, t1, t2, t3, t4, t5, t6);
    lemma_mul4(x, s[0][0], s[1][1], s[2][2]);
    lemma_mul4(x, s[0][0], s[2][1], s[1][2]);
    lemma_mul4(x, s[1][0], s[0][1], s[2][2]);
    lemma_mul4(x, s[1][0], s[2][1], s[0][2]);
    lemma_mul4(x, s[2][0], s[0][1], s[1][2]);
    lemma_mul4(x, s[2][0], s[1][1], s[0][2]);
    assert(x * det(s) == expanded_product(m, i, j, k));
}

/// Entry `[i][j]` of a 4 by 4 matrix times its adjugate.
proof fn lemma_adjugate_entry(m: Seq<Seq<int>>, i: int, j: int)
    requires
        is_square(m),
        m.len() == 4,
        0 <= i < 4,
        0 <= j < 4,
    ensures
        mat_mul(m, adjugate_of(m))[i][j] == if i == j { det(m) } else { 0 },
{
    let adj = adjugate_of(m);
    let col = column(adj, j);
    assert(m[i].len() == 4);
    assert(mat_mul(m, adj)[i][j] == sum_products(m[i], col, 4));
    assert(sum_products(m[i], col, 4) == sum_products(m[i], col, 3) + m[i][3] * col[3]);
    assert(sum_products(m[i], col, 3) == sum_products(m[i], col, 2) + m[i][2] * col[2]);
    assert(sum_products(m[i], col, 2) == sum_products(m[i], col, 1) + m[i][1] * col[1]);
    assert(sum_products(m[i], col, 1) == sum_products(m[i], col, 0) + m[i][0] * col[0]);
    assert(det(m) == first_row_expansion(m, 4));
    assert(first_row_expansion(m, 4) == first_row_expansion(m, 3) + m[0][3] * cofactor_of(m, 0, 3));
    assert(first_row_expansion(m, 3) == first_row_expansion(m, 2) + m[0][2] * cofactor_of(m, 0, 2));
    assert(first_row_expansion(m, 2) == first_row_expansion(m, 1) + m[0][1] * cofactor_of(m, 0, 1));
    assert(first_row_expansion(m, 1) == first_row_expansion(m, 0) + m[0][0] * cofactor_of(m, 0, 0));
    lemma_times_cofactor(m, i, j, 0);
    lemma_times_cofactor(m, i, j, 1);
    lemma_times_cofactor(m, i, j, 2);
    lemma_times_cofactor(m, i, j, 3);
    lemma_times_cofactor(m, 0, 0, 0);
    lemma_times_cofactor(m, 0, 0, 1);
    lemma_times_cofactor(m, 0, 0, 2);
    lemma_times_cofactor(m, 0, 0, 3);
}

/// A 4 by 4 matrix times its adjugate is its determinant times the identity.
/// So where the determinant is not zero, the matrix times its inverse, the
/// adjugate over the determinant, is exactly the identity.
pub proof fn lemma_adjugate_product(m: Seq<Seq<int>>)
    requires
        is_square(m),
        m.len() == 4,
    ensures
        mat_mul(m, adjugate_of(m)) == scaled_identity(4, det(m)),
{
    let p = mat_mul(m, adjugate_of(m));
    assert forall|i: int| 0 <= i < 4 implies #[trigger] p[i] == scaled_identity(4, det(m))[i] by {
        assert forall|j: int| 0 <= j < 4 implies #[trigger] p[i][j] == scaled_identity(4, det(m))[i][j] by {
            lemma_adjugate_entry(m, i, j);
        }
        assert(p[i] =~= scaled_identity(4, det(m))[i]);
    }
    assert(p =~= scaled_identity(4, det(m)));
}

} // verus!
