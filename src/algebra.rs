//! The mathematical model of square matrices over the integers.
use vstd::prelude::*;

verus! {

/// Every row has as many entries as there are rows.
pub open spec fn is_square(m: Seq<Seq<int>>) -> bool {
    forall|i: int| 0 <= i < m.len() ==> #[trigger] m[i].len() == m.len()
}

/// Every entry lies in `[-bound, bound]`.
pub open spec fn entries_bounded(m: Seq<Seq<int>>, bound: int) -> bool {
    forall|i: int, j: int|
        0 <= i < m.len() && 0 <= j < m[i].len() ==> -bound <= #[trigger] m[i][j] <= bound
}

/// The transpose: entry `[i][j]` is `m[j][i]`.
pub open spec fn transpose_of(m: Seq<Seq<int>>) -> Seq<Seq<int>> {
    Seq::new(m.len(), |i: int| Seq::new(m.len(), |j: int| m[j][i]))
}

/// `u[0] * v[0] + ... + u[k - 1] * v[k - 1]`.
pub open spec fn sum_products(u: Seq<int>, v: Seq<int>, k: int) -> int
    decreases k,
{
    if k <= 0 {
        0
    } else {
        sum_products(u, v, k - 1) + u[k - 1] * v[k - 1]
    }
}

/// The dot product of `u` with a sequence at least as long.
pub open spec fn dot(u: Seq<int>, v: Seq<int>) -> int {
    sum_products(u, v, u.len() as int)
}

/// Column `j` of `m`.
pub open spec fn column(m: Seq<Seq<int>>, j: int) -> Seq<int> {
    Seq::new(m.len(), |k: int| m[k][j])
}

/// The product of two square matrices of one size: entry `[i][j]` is the
/// dot product of row `i` of `a` with column `j` of `b`.
pub open spec fn mat_mul(a: Seq<Seq<int>>, b: Seq<Seq<int>>) -> Seq<Seq<int>> {
    Seq::new(a.len(), |i: int| Seq::new(a.len(), |j: int| dot(a[i], column(b, j))))
}

/// The `n` by `n` identity matrix.
pub open spec fn identity_of(n: nat) -> Seq<Seq<int>> {
    Seq::new(n, |i: int| Seq::new(n, |j: int| if i == j { 1int } else { 0int }))
}

/// `m` without row `row` and column `col`, the other entries kept in order.
pub open spec fn submatrix_of(m: Seq<Seq<int>>, row: int, col: int) -> Seq<Seq<int>> {
    m.remove(row).map_values(|r: Seq<int>| r.remove(col))
}

/// `+1` where `row + col` is even, `-1` where it is odd.
pub open spec fn cofactor_sign(row: int, col: int) -> int {
    if (row + col) % 2 == 0 {
        1
    } else {
        -1
    }
}

/// The determinant of a square matrix of at least two rows: the 2 by 2
/// formula, and for larger matrices the Laplace expansion along the first
/// row.
pub open spec fn det(m: Seq<Seq<int>>) -> int
    decreases m.len(), 1int, 0int,
{
    if m.len() <= 2 {
        m[0][0] * m[1][1] - m[0][1] * m[1][0]
    } else {
        first_row_expansion(m, m.len() as int)
    }
}

/// The first `k` terms of the Laplace expansion of `m` along its first row.
pub open spec fn first_row_expansion(m: Seq<Seq<int>>, k: int) -> int
    decreases m.len(), 0int, k,
{
    if k <= 0 || m.len() <= 2 || k > m.len() {
        0
    } else {
        first_row_expansion(m, k - 1) + m[0][k - 1] * (cofactor_sign(0, k - 1) * det(
            submatrix_of(m, 0, k - 1),
        ))
    }
}

/// The determinant of the submatrix without `row` and `col`.
pub open spec fn minor_of(m: Seq<Seq<int>>, row: int, col: int) -> int {
    det(submatrix_of(m, row, col))
}

/// The minor, negated where `row + col` is odd.
pub open spec fn cofactor_of(m: Seq<Seq<int>>, row: int, col: int) -> int {
    cofactor_sign(row, col) * minor_of(m, row, col)
}

/// The adjugate: the cofactor of `[row][col]` stands at `[col][row]`.
pub open spec fn adjugate_of(m: Seq<Seq<int>>) -> Seq<Seq<int>> {
    Seq::new(m.len(), |i: int| Seq::new(m.len(), |j: int| cofactor_of(m, j, i)))
}

/// A bound on the determinant of an `n` by `n` matrix whose entries lie in
/// `[-b, b]` (`n! * b^n` for `n >= 2`).
pub open spec fn det_magnitude_bound(n: int, b: int) -> int
    decreases n,
{
    if n <= 2 {
        2 * b * b
    } else {
        n * b * det_magnitude_bound(n - 1, b)
    }
}


/// Position in `m` of index `i` of a sequence from which index `removed` was
/// taken out.
pub open spec fn skip_index(removed: int, i: int) -> int {
    if i < removed {
        i
    } else {
        i + 1
    }
}

/// The shape and entries of a submatrix.
pub proof fn lemma_submatrix_entries(m: Seq<Seq<int>>, row: int, col: int)
    requires
        is_square(m),
        0 <= row < m.len(),
        0 <= col < m.len(),
    ensures
        submatrix_of(m, row, col).len() == m.len() - 1,
        is_square(submatrix_of(m, row, col)),
        forall|i: int, j: int|
            0 <= i < m.len() - 1 && 0 <= j < m.len() - 1 ==> #[trigger] submatrix_of(
                m,
                row,
                col,
            )[i][j] == m[skip_index(row, i)][skip_index(col, j)],
{
    let s = submatrix_of(m, row, col);
    m.remove_ensures(row);
    assert forall|i: int| 0 <= i < m.len() - 1 implies #[trigger] s[i] == m[skip_index(
        row,
        i,
    )].remove(col) by {}
    assert forall|i: int| 0 <= i < m.len() - 1 implies #[trigger] s[i].len() == m.len() - 1 by {
        m[skip_index(row, i)].remove_ensures(col);
    }
    assert forall|i: int, j: int| 0 <= i < m.len() - 1 && 0 <= j < m.len() - 1 implies #[trigger] s[i][j]
        == m[skip_index(row, i)][skip_index(col, j)] by {
        m[skip_index(row, i)].remove_ensures(col);
    }
}

/// A submatrix keeps the bound on the entries.
pub proof fn lemma_submatrix_bounded(m: Seq<Seq<int>>, row: int, col: int, b: int)
    requires
        is_square(m),
        0 <= row < m.len(),
        0 <= col < m.len(),
        entries_bounded(m, b),
    ensures
        entries_bounded(submatrix_of(m, row, col), b),
{
    lemma_submatrix_entries(m, row, col);
    let s = submatrix_of(m, row, col);
    assert forall|i: int, j: int| 0 <= i < s.len() && 0 <= j < s[i].len() implies -b <= #[trigger] s[i][j]
        <= b by {
        assert(s[i][j] == m[skip_index(row, i)][skip_index(col, j)]);
    }
}

/// `|x * y| <= bx * by` when `|x| <= bx` and `|y| <= by`.
pub proof fn lemma_product_bound(x: int, y: int, bx: int, by: int)
    by (nonlinear_arith)
    requires
        -bx <= x <= bx,
        -by <= y <= by,
    ensures
        -(bx * by) <= x * y <= bx * by,
{
}

/// The determinant bound is not negative.
pub proof fn lemma_det_magnitude_bound_nonneg(n: int, b: int)
    requires
        b >= 0,
    ensures
        det_magnitude_bound(n, b) >= 0,
    decreases n,
{
    if n > 2 {
        lemma_det_magnitude_bound_nonneg(n - 1, b);
        let d = det_magnitude_bound(n - 1, b);
        assert(n * b * d >= 0) by (nonlinear_arith)
            requires
                n >= 0,
                b >= 0,
                d >= 0,
        ;
    } else {
        assert(2 * b * b >= 0) by (nonlinear_arith)
            requires
                b >= 0,
        ;
    }
}

/// The determinant of a matrix whose entries lie in `[-b, b]` lies within
/// `det_magnitude_bound`.
pub proof fn lemma_det_bound(m: Seq<Seq<int>>, b: int)
    requires
        is_square(m),
        m.len() >= 2,
        entries_bounded(m, b),
        b >= 0,
    ensures
        -det_magnitude_bound(m.len() as int, b) <= det(m) <= det_magnitude_bound(m.len() as int, b),
    decreases m.len(), 1int,
{
    if m.len() == 2 {
        assert(m[0].len() == 2 && m[1].len() == 2);
        lemma_product_bound(m[0][0], m[1][1], b, b);
        lemma_product_bound(m[0][1], m[1][0], b, b);
        assert(2 * b * b == b * b + b * b) by (nonlinear_arith);
    } else {
        lemma_expansion_bound(m, b, m.len() as int);
        let n = m.len() as int;
        let d = det_magnitude_bound(n - 1, b);
        lemma_det_magnitude_bound_nonneg(n - 1, b);
        assert(n * b * d == n * (b * d)) by (nonlinear_arith);
    }
}

/// A bound on a prefix of the first-row expansion.
pub proof fn lemma_expansion_bound(m: Seq<Seq<int>>, b: int, k: int)
    requires
        is_square(m),
        m.len() >= 3,
        entries_bounded(m, b),
        b >= 0,
        0 <= k <= m.len(),
    ensures
        -(k * (b * det_magnitude_bound(m.len() - 1, b))) <= first_row_expansion(m, k) <= k * (b
            * det_magnitude_bound(m.len() - 1, b)),
    decreases m.len(), 0int, k,
{
    let d = det_magnitude_bound(m.len() - 1, b);
    if k > 0 {
        lemma_expansion_bound(m, b, k - 1);
        lemma_submatrix_entries(m, 0, k - 1);
        lemma_submatrix_bounded(m, 0, k - 1, b);
        let s = submatrix_of(m, 0, k - 1);
        lemma_det_bound(s, b);
        let c = cofactor_sign(0, k - 1) * det(s);
        assert(-d <= c <= d);
        assert(m[0].len() == m.len());
        lemma_product_bound(m[0][k - 1], c, b, d);
        assert(k * (b * d) == (k - 1) * (b * d) + b * d) by (nonlinear_arith);
    }
}


/// Transposing a square matrix twice gives back the matrix.
pub proof fn lemma_transpose_twice(m: Seq<Seq<int>>)
    requires
        is_square(m),
    ensures
        transpose_of(transpose_of(m)) == m,
{
    let t = transpose_of(transpose_of(m));
    assert forall|i: int| 0 <= i < m.len() implies #[trigger] t[i] == m[i] by {
        assert(t[i] =~= m[i]);
    }
    assert(t =~= m);
}

/// A sum of products whose second factors are zero except at `j`, where it
/// is one, picks out `u[j]`.
proof fn lemma_sum_products_unit(u: Seq<int>, v: Seq<int>, j: int, k: int)
    requires
        0 <= k <= v.len(),
        forall|t: int| 0 <= t < v.len() ==> #[trigger] v[t] == if t == j { 1int } else { 0int },
    ensures
        sum_products(u, v, k) == if 0 <= j < k { u[j] } else { 0 },
    decreases k,
{
    if k > 0 {
        lemma_sum_products_unit(u, v, j, k - 1);
    }
}

/// A sum of products whose first factors are zero except at `j`, where it is
/// one, picks out `v[j]`.
proof fn lemma_unit_sum_products(u: Seq<int>, v: Seq<int>, j: int, k: int)
    requires
        0 <= k <= u.len(),
        forall|t: int| 0 <= t < u.len() ==> #[trigger] u[t] == if t == j { 1int } else { 0int },
    ensures
        sum_products(u, v, k) == if 0 <= j < k { v[j] } else { 0 },
    decreases k,
{
    if k > 0 {
        lemma_unit_sum_products(u, v, j, k - 1);
    }
}

/// The identity matrix is neutral on both sides of the product.
pub proof fn lemma_identity_neutral(m: Seq<Seq<int>>)
    requires
        is_square(m),
    ensures
        mat_mul(m, identity_of(m.len())) == m,
        mat_mul(identity_of(m.len()), m) == m,
{
    let n = m.len();
    let id = identity_of(n);
    let right = mat_mul(m, id);
    let left = mat_mul(id, m);
    assert forall|i: int| 0 <= i < n implies #[trigger] right[i] == m[i] by {
        assert forall|j: int| 0 <= j < n implies #[trigger] right[i][j] == m[i][j] by {
            lemma_sum_products_unit(m[i], column(id, j), j, n as int);
        }
        assert(right[i] =~= m[i]);
    }
    assert forall|i: int| 0 <= i < n implies #[trigger] left[i] == m[i] by {
        assert forall|j: int| 0 <= j < n implies #[trigger] left[i][j] == m[i][j] by {
            lemma_unit_sum_products(id[i], column(m, j), i, n as int);
            assert(m[i].len() == n);
        }
        assert(left[i] =~= m[i]);
    }
    assert(right =~= m);
    assert(left =~= m);
}

} // verus!
