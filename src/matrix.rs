//! Square integer matrices.
use vstd::prelude::*;
use crate::points::{Point, Vector};
use crate::algebra::{
    adjugate_of, cofactor_of, column, det, det_magnitude_bound, dot, entries_bounded,
    first_row_expansion, identity_of, is_square, lemma_det_bound, lemma_product_bound,
    lemma_submatrix_bounded, lemma_submatrix_entries, mat_mul, minor_of, skip_index, submatrix_of,
    sum_products, transpose_of,
};

verus! {

/// The integer values of a row of entries.
pub open spec fn row_view(r: Seq<i64>) -> Seq<int> {
    r.map_values(|x: i64| x as int)
}

/// Largest magnitude of an entry accepted by the arithmetic on matrices.
/// With it every product, sum and Laplace expansion of a matrix of at most
/// `MAX_DIM` rows fits in an `i64`.
pub const ENTRY_BOUND: i64 = 10_000;

/// Largest number of rows of a matrix handled by the arithmetic.
pub const MAX_DIM: usize = 4;

/// Largest magnitude of an operand of a matrix product or of a transform of
/// a point, vector or tuple: a sum of four such products fits in an `i64`.
pub const FACTOR_BOUND: i64 = 1_000_000_000;

/// Why a matrix operation could not be carried out.
#[derive(Debug, Clone, Copy, PartialEq, Eq, Structural)]
pub enum MatrixError {
    /// A row or column index lies outside the matrix.
    IndexOutOfRange,
    /// The matrix has the wrong size for the operation, or is singular.
    SizePrecondition,
}

/// Every entry of `m` lies within `ENTRY_BOUND`.
pub open spec fn within_entry_bound(m: Seq<Seq<int>>) -> bool {
    entries_bounded(m, ENTRY_BOUND as int)
}

/// Every entry of `m` lies within `FACTOR_BOUND`.
pub open spec fn within_factor_bound(m: Seq<Seq<int>>) -> bool {
    entries_bounded(m, FACTOR_BOUND as int)
}

/// Every element of `s` lies within `FACTOR_BOUND`.
pub open spec fn seq_within_factor_bound(s: Seq<int>) -> bool {
    forall|k: int| 0 <= k < s.len() ==> -FACTOR_BOUND <= #[trigger] s[k] <= FACTOR_BOUND
}

/// The `rows` by `columns` matrix of zeros.
pub open spec fn zero_matrix(rows: nat, columns: nat) -> Seq<Seq<int>> {
    Seq::new(rows, |i: int| Seq::new(columns, |j: int| 0int))
}

/// A point or vector extended with a trailing 1.
pub open spec fn extended(v: Vector) -> Seq<int> {
    seq![v.x as int, v.y as int, v.z as int, 1]
}

/// The four components of a tuple.
pub open spec fn tuple_view(t: (i64, i64, i64, i64)) -> Seq<int> {
    seq![t.0 as int, t.1 as int, t.2 as int, t.3 as int]
}

/// The dot product of row `i` of `m` with `v`.
pub open spec fn row_times(m: Seq<Seq<int>>, i: int, v: Seq<int>) -> int {
    dot(m[i], v)
}

/// Row `i` of a matrix within `FACTOR_BOUND` is within it too.
proof fn lemma_row_factor_bound(m: Matrix, i: int)
    requires
        0 <= i < m@.len(),
        within_factor_bound(m@),
    ensures
        row_view(m.points@[i]@) == m@[i],
        m.points@[i]@.len() == m@[i].len(),
        seq_within_factor_bound(m@[i]),
{
    assert forall|k: int| 0 <= k < m@[i].len() implies -FACTOR_BOUND <= #[trigger] m@[i][k]
        <= FACTOR_BOUND by {}
}

/// The determinant bounds for the sizes the arithmetic handles.
proof fn lemma_small_det_bounds()
    ensures
        det_magnitude_bound(2, ENTRY_BOUND as int) == 200_000_000,
        det_magnitude_bound(3, ENTRY_BOUND as int) == 6_000_000_000_000,
        det_magnitude_bound(4, ENTRY_BOUND as int) == 240_000_000_000_000_000,
{
    assert(det_magnitude_bound(2, ENTRY_BOUND as int) == 200_000_000);
    assert(det_magnitude_bound(3, ENTRY_BOUND as int) == 6_000_000_000_000);
    assert(det_magnitude_bound(4, ENTRY_BOUND as int) == 240_000_000_000_000_000);
}

/// A matrix stored row by row.
pub struct Matrix {
    pub points: Vec<Vec<i64>>,
}

/// The exact inverse of a matrix: `adjugate` divided by `determinant`.
pub struct Inverse {
    pub adjugate: Matrix,
    pub determinant: i64,
}

impl View for Matrix {
    type V = Seq<Seq<int>>;

    open spec fn view(&self) -> Seq<Seq<int>> {
        self.points@.map_values(|r: Vec<i64>| row_view(r@))
    }
}

impl Matrix {
    /// A `rows` by `columns` matrix of zeros.
    pub fn new(rows: i32, columns: i32) -> (r: Matrix)
        requires
            rows >= 0,
            columns >= 0,
        ensures
            r@ == zero_matrix(rows as nat, columns as nat),
    {
        let mut points: Vec<Vec<i64>> = Vec::new();
        for x in 0..rows
            invariant
                columns >= 0,
                points@.len() == x,
                forall|i: int| 0 <= i < x ==> #[trigger] row_view(points@[i]@) == Seq::new(
                    columns as nat,
                    |j: int| 0int,
                ),
        {
            let mut row: Vec<i64> = Vec::new();
            for y in 0..columns
                invariant
                    row@.len() == y,
                    forall|j: int| 0 <= j < y ==> #[trigger] row@[j] == 0,
            {
                row.push(0);
            }
            assert(row_view(row@) =~= Seq::new(columns as nat, |j: int| 0int));
            points.push(row);
        }
        let r = Matrix { points };
        assert(r@ =~= zero_matrix(rows as nat, columns as nat));
        r
    }

    /// The 4 by 4 matrix with the given rows.
    pub fn new_4x4_from_rows(row1: Vec<i64>, row2: Vec<i64>, row3: Vec<i64>, row4: Vec<i64>) -> (r:
        Matrix)
        requires
            row1@.len() == 4,
            row2@.len() == 4,
            row3@.len() == 4,
            row4@.len() == 4,
        ensures
            r@ == seq![row_view(row1@), row_view(row2@), row_view(row3@), row_view(row4@)],
            is_square(r@),
    {
        let ghost rows = seq![row_view(row1@), row_view(row2@), row_view(row3@), row_view(row4@)];
        let r = Matrix { points: vec![row1, row2, row3, row4] };
        assert(r@ =~= rows);
        r
    }

    /// The 3 by 3 matrix with the given rows.
    pub fn new_3x3_from_rows(row1: Vec<i64>, row2: Vec<i64>, row3: Vec<i64>) -> (r: Matrix)
        requires
            row1@.len() == 3,
            row2@.len() == 3,
            row3@.len() == 3,
        ensures
            r@ == seq![row_view(row1@), row_view(row2@), row_view(row3@)],
            is_square(r@),
    {
        let ghost rows = seq![row_view(row1@), row_view(row2@), row_view(row3@)];
        let r = Matrix { points: vec![row1, row2, row3] };
        assert(r@ =~= rows);
        r
    }

    /// The 2 by 2 matrix with the given rows.
    pub fn new_2x2_from_rows(row1: Vec<i64>, row2: Vec<i64>) -> (r: Matrix)
        requires
            row1@.len() == 2,
            row2@.len() == 2,
        ensures
            r@ == seq![row_view(row1@), row_view(row2@)],
            is_square(r@),
    {
        let ghost rows = seq![row_view(row1@), row_view(row2@)];
        let r = Matrix { points: vec![row1, row2] };
        assert(r@ =~= rows);
        r
    }

    /// The 4 by 4 identity matrix.
    pub fn from_identity() -> (r: Matrix)
        ensures
            r@ == identity_of(4),
    {
        let row1: Vec<i64> = vec![1, 0, 0, 0];
        let row2: Vec<i64> = vec![0, 1, 0, 0];
        let row3: Vec<i64> = vec![0, 0, 1, 0];
        let row4: Vec<i64> = vec![0, 0, 0, 1];
        assert(row_view(row1@) =~= identity_of(4)[0]);
        assert(row_view(row2@) =~= identity_of(4)[1]);
        assert(row_view(row3@) =~= identity_of(4)[2]);
        assert(row_view(row4@) =~= identity_of(4)[3]);
        let r = Matrix::new_4x4_from_rows(row1, row2, row3, row4);
        assert(r@ =~= identity_of(4));
        r
    }

    /// The sum of the products of corresponding elements of two rows.
    fn multiply_matrix_row(row: &Vec<i64>, other_row: &Vec<i64>) -> (r: i64)
        requires
            row@.len() == other_row@.len() <= MAX_DIM,
            seq_within_factor_bound(row_view(row@)),
            seq_within_factor_bound(row_view(other_row@)),
        ensures
            r == dot(row_view(row@), row_view(other_row@)),
    {
        let ghost u = row_view(row@);
        let ghost v = row_view(other_row@);
        let mut total: i64 = 0;
        for x in 0..row.len()
            invariant
                u == row_view(row@),
                v == row_view(other_row@),
                row@.len() == other_row@.len() <= MAX_DIM,
                seq_within_factor_bound(u),
                seq_within_factor_bound(v),
                total == sum_products(u, v, x as int),
                -(x * (FACTOR_BOUND * FACTOR_BOUND)) <= total <= x * (FACTOR_BOUND * FACTOR_BOUND),
        {
            proof {
                assert(-FACTOR_BOUND <= u[x as int] <= FACTOR_BOUND);
                assert(-FACTOR_BOUND <= v[x as int] <= FACTOR_BOUND);
                lemma_product_bound(u[x as int], v[x as int], FACTOR_BOUND as int, FACTOR_BOUND as int);
                assert((x + 1) * (FACTOR_BOUND * FACTOR_BOUND) == x * (FACTOR_BOUND * FACTOR_BOUND)
                    + FACTOR_BOUND * FACTOR_BOUND) by (nonlinear_arith);
                assert(x * (FACTOR_BOUND * FACTOR_BOUND) <= 3 * (FACTOR_BOUND * FACTOR_BOUND))
                    by (nonlinear_arith)
                    requires
                        x <= 3,
                ;
            }
            total = total + row[x] * other_row[x];
        }
        total
    }

    /// Column `j` of a square matrix, as a row.
    fn column_of(m: &Matrix, j: usize) -> (r: Vec<i64>)
        requires
            is_square(m@),
            j < m@.len(),
        ensures
            row_view(r@) == column(m@, j as int),
    {
        let mut r: Vec<i64> = Vec::new();
        for k in 0..m.points.len()
            invariant
                is_square(m@),
                j < m@.len(),
                r@.len() == k,
                forall|t: int| 0 <= t < k ==> #[trigger] r@[t] as int == m@[t][j as int],
        {
            assert(m@[k as int].len() == m@.len());
            r.push(m.points[k][j]);
        }
        assert(row_view(r@) =~= column(m@, j as int));
        r
    }

    /// The product of two square matrices of one size.
    pub fn multiply_matrices(first: &Matrix, second: &Matrix) -> (r: Matrix)
        requires
            is_square(first@),
            is_square(second@),
            first@.len() == second@.len() <= MAX_DIM,
            within_factor_bound(first@),
            within_factor_bound(second@),
        ensures
            r@ == mat_mul(first@, second@),
            is_square(r@),
    {
        let n = first.points.len();
        let mut points: Vec<Vec<i64>> = Vec::new();
        for x in 0..n
            invariant
                n == first@.len() == second@.len() <= MAX_DIM,
                is_square(first@),
                is_square(second@),
                within_factor_bound(first@),
                within_factor_bound(second@),
                points@.len() == x,
                forall|i: int| 0 <= i < x ==> #[trigger] row_view(points@[i]@) == mat_mul(
                    first@,
                    second@,
                )[i],
        {
            let mut row: Vec<i64> = Vec::new();
            for y in 0..n
                invariant
                    n == first@.len() == second@.len() <= MAX_DIM,
                    is_square(first@),
                    is_square(second@),
                    within_factor_bound(first@),
                    within_factor_bound(second@),
                    x < n,
                    row@.len() == y,
                    forall|j: int| 0 <= j < y ==> #[trigger] row@[j] as int == mat_mul(
                        first@,
                        second@,
                    )[x as int][j],
            {
                let col = Matrix::column_of(second, y);
                assert(first@[x as int].len() == n);
                assert(first.points@[x as int]@.len() == n);
                assert(row_view(col@).len() == n);
                assert(seq_within_factor_bound(row_view(first.points@[x as int]@))) by {
                    assert forall|k: int| 0 <= k < n implies -FACTOR_BOUND <= #[trigger] row_view(
                        first.points@[x as int]@,
                    )[k] <= FACTOR_BOUND by {
                        assert(first@[x as int][k] == row_view(first.points@[x as int]@)[k]);
                    }
                }
                assert(seq_within_factor_bound(row_view(col@))) by {
                    assert forall|k: int| 0 <= k < n implies -FACTOR_BOUND <= #[trigger] row_view(
                        col@,
                    )[k] <= FACTOR_BOUND by {
                        assert(row_view(col@)[k] == second@[k][y as int]);
                        assert(second@[k].len() == n);
                    }
                }
                row.push(Matrix::multiply_matrix_row(&first.points[x], &col));
            }
            assert(row_view(row@) =~= mat_mul(first@, second@)[x as int]);
            points.push(row);
        }
        let r = Matrix { points };
        assert(r@ =~= mat_mul(first@, second@));
        r
    }

    /// `m` without row `row` and column `col`.
    fn remove_row_column(m: &Matrix, row: usize, col: usize) -> (r: Matrix)
        requires
            is_square(m@),
            row < m@.len(),
            col < m@.len(),
        ensures
            r@ == submatrix_of(m@, row as int, col as int),
    {
        proof {
            lemma_submatrix_entries(m@, row as int, col as int);
        }
        let ghost sub = submatrix_of(m@, row as int, col as int);
        let n = m.points.len();
        let mut points: Vec<Vec<i64>> = Vec::new();
        for x in 0..n
            invariant
                n == m@.len(),
                is_square(m@),
                row < n,
                col < n,
                sub == submatrix_of(m@, row as int, col as int),
                sub.len() == n - 1,
                is_square(sub),
                forall|i: int, j: int|
                    0 <= i < n - 1 && 0 <= j < n - 1 ==> #[trigger] sub[i][j] == m@[skip_index(
                        row as int,
                        i,
                    )][skip_index(col as int, j)],
                points@.len() == if x <= row { x as int } else { x - 1 },
                forall|i: int| 0 <= i < points@.len() ==> #[trigger] row_view(points@[i]@) == sub[i],
        {
            if x != row {
                let ghost i: int = points@.len() as int;
                assert(skip_index(row as int, i) == x);
                let mut new_row: Vec<i64> = Vec::new();
                for y in 0..n
                    invariant
                        n == m@.len(),
                        is_square(m@),
                        x < n,
                        col < n,
                        new_row@.len() == if y <= col { y as int } else { y - 1 },
                        forall|j: int| 0 <= j < new_row@.len() ==> #[trigger] new_row@[j] as int
                            == m@[x as int][skip_index(col as int, j)],
                {
                    assert(m@[x as int].len() == n);
                    if y != col {
                        assert(skip_index(col as int, new_row@.len() as int) == y);
                        new_row.push(m.points[x][y]);
                    }
                }
                assert(row_view(new_row@) =~= sub[i]);
                points.push(new_row);
            }
        }
        let r = Matrix { points };
        assert(r@ =~= sub);
        r
    }

    /// `matrix` without the given row and column. Fails with
    /// `IndexOutOfRange` where either index lies outside the matrix.
    pub fn submatrix(matrix: &Matrix, row_to_delete: i32, column_to_delete: i32) -> (r: Result<
        Matrix,
        MatrixError,
    >)
        requires
            is_square(matrix@),
        ensures
            r is Ok <==> (0 <= row_to_delete < matrix@.len() && 0 <= column_to_delete
                < matrix@.len()),
            r is Ok ==> r->Ok_0@ == submatrix_of(
                matrix@,
                row_to_delete as int,
                column_to_delete as int,
            ),
            r is Err ==> r->Err_0 == MatrixError::IndexOutOfRange,
    {
        let n = matrix.points.len();
        if row_to_delete < 0 || column_to_delete < 0 || row_to_delete as usize >= n
            || column_to_delete as usize >= n {
            return Err(MatrixError::IndexOutOfRange);
        }
        Ok(Matrix::remove_row_column(matrix, row_to_delete as usize, column_to_delete as usize))
    }

    /// The cofactor at `[row][col]` of a matrix of three or four rows.
    fn cofactor_value(m: &Matrix, row: usize, col: usize) -> (r: i64)
        requires
            is_square(m@),
            3 <= m@.len() <= MAX_DIM,
            within_entry_bound(m@),
            row < m@.len(),
            col < m@.len(),
        ensures
            r == cofactor_of(m@, row as int, col as int),
            -det_magnitude_bound(m@.len() - 1, ENTRY_BOUND as int) <= r <= det_magnitude_bound(
                m@.len() - 1,
                ENTRY_BOUND as int,
            ),
        decreases m@.len(), 0int,
    {
        proof {
            lemma_submatrix_entries(m@, row as int, col as int);
            lemma_submatrix_bounded(m@, row as int, col as int, ENTRY_BOUND as int);
            lemma_det_bound(submatrix_of(m@, row as int, col as int), ENTRY_BOUND as int);
            lemma_small_det_bounds();
        }
        let sub = Matrix::remove_row_column(m, row, col);
        let d = sub.get_determinant();
        if (row + col) % 2 == 0 {
            d
        } else {
            -d
        }
    }

    /// The determinant of a matrix of two to four rows: the 2 by 2 formula,
    /// and the Laplace expansion along the first row above that.
    pub fn get_determinant(&self) -> (r: i64)
        requires
            is_square(self@),
            2 <= self@.len() <= MAX_DIM,
            within_entry_bound(self@),
        ensures
            r == det(self@),
        decreases self@.len(), 1int,
    {
        let n = self.points.len();
        proof {
            lemma_small_det_bounds();
        }
        if n == 2 {
            proof {
                assert(self@[0].len() == 2 && self@[1].len() == 2);
                lemma_product_bound(self@[0][0], self@[1][1], ENTRY_BOUND as int, ENTRY_BOUND as int);
                lemma_product_bound(self@[0][1], self@[1][0], ENTRY_BOUND as int, ENTRY_BOUND as int);
            }
            self.points[0][0] * self.points[1][1] - self.points[0][1] * self.points[1][0]
        } else {
            let ghost d = det_magnitude_bound(n - 1, ENTRY_BOUND as int);
            let mut total: i64 = 0;
            for j in 0..n
                invariant
                    n == self@.len(),
                    3 <= n <= MAX_DIM,
                    is_square(self@),
                    within_entry_bound(self@),
                    d == det_magnitude_bound(n - 1, ENTRY_BOUND as int),
                    0 <= d <= 6_000_000_000_000,
                    total == first_row_expansion(self@, j as int),
                    -(j * (ENTRY_BOUND * d)) <= total <= j * (ENTRY_BOUND * d),
            {
                let c = Matrix::cofactor_value(self, 0, j);
                assert(self@[0].len() == n);
                proof {
                    lemma_product_bound(self@[0][j as int], c as int, ENTRY_BOUND as int, d);
                    assert((j + 1) * (ENTRY_BOUND * d) == j * (ENTRY_BOUND * d) + ENTRY_BOUND * d)
                        by (nonlinear_arith);
                    assert(j * (ENTRY_BOUND * d) <= 3 * (ENTRY_BOUND * d)) by (nonlinear_arith)
                        requires
                            j <= 3,
                            d >= 0,
                    ;
                }
                total = total + self.points[0][j] * c;
            }
            total
        }
    }

    /// The determinant of `matrix` without `row` and `column`. Fails with
    /// `SizePrecondition` on a matrix of fewer than three rows, and then with
    /// `IndexOutOfRange` where an index lies outside the matrix.
    pub fn minor(matrix: &Matrix, row: i32, column: i32) -> (r: Result<i64, MatrixError>)
        requires
            is_square(matrix@),
            matrix@.len() <= MAX_DIM,
            within_entry_bound(matrix@),
        ensures
            r is Ok <==> (matrix@.len() >= 3 && 0 <= row < matrix@.len() && 0 <= column
                < matrix@.len()),
            r is Ok ==> r->Ok_0 == minor_of(matrix@, row as int, column as int),
            r is Err ==> r->Err_0 == (if matrix@.len() < 3 {
                MatrixError::SizePrecondition
            } else {
                MatrixError::IndexOutOfRange
            }),
    {
        if matrix.points.len() < 3 {
            return Err(MatrixError::SizePrecondition);
        }
        let sub = Matrix::submatrix(matrix, row, column)?;
        proof {
            lemma_submatrix_entries(matrix@, row as int, column as int);
            lemma_submatrix_bounded(matrix@, row as int, column as int, ENTRY_BOUND as int);
        }
        Ok(sub.get_determinant())
    }

    /// The minor at `[row][column]`, negated where `row + column` is odd.
    /// Fails as `minor` does.
    pub fn cofactor(matrix: &Matrix, row: i32, column: i32) -> (r: Result<i64, MatrixError>)
        requires
            is_square(matrix@),
            matrix@.len() <= MAX_DIM,
            within_entry_bound(matrix@),
        ensures
            r is Ok <==> (matrix@.len() >= 3 && 0 <= row < matrix@.len() && 0 <= column
                < matrix@.len()),
            r is Ok ==> r->Ok_0 == cofactor_of(matrix@, row as int, column as int),
            r is Err ==> r->Err_0 == (if matrix@.len() < 3 {
                MatrixError::SizePrecondition
            } else {
                MatrixError::IndexOutOfRange
            }),
    {
        if matrix.points.len() < 3 || row < 0 || column < 0 || row as usize >= matrix.points.len()
            || column as usize >= matrix.points.len() {
            return Err(
                if matrix.points.len() < 3 {
                    MatrixError::SizePrecondition
                } else {
                    MatrixError::IndexOutOfRange
                },
            );
        }
        Ok(Matrix::cofactor_value(matrix, row as usize, column as usize))
    }

    /// The transpose of a square matrix.
    pub fn transposed_matrix(matrix: &Matrix) -> (r: Matrix)
        requires
            is_square(matrix@),
        ensures
            r@ == transpose_of(matrix@),
    {
        let n = matrix.points.len();
        let mut points: Vec<Vec<i64>> = Vec::new();
        for x in 0..n
            invariant
                n == matrix@.len(),
                is_square(matrix@),
                points@.len() == x,
                forall|i: int| 0 <= i < x ==> #[trigger] row_view(points@[i]@) == transpose_of(matrix@)[i],
        {
            let mut row: Vec<i64> = Vec::new();
            for y in 0..n
                invariant
                    n == matrix@.len(),
                    is_square(matrix@),
                    0 <= x < n,
                    row@.len() == y,
                    forall|j: int| 0 <= j < y ==> #[trigger] row@[j] as int == matrix@[j][x as int],
            {
                assert(matrix@[y as int].len() == n);
                row.push(matrix.points[y][x]);
            }
            assert(row_view(row@) =~= transpose_of(matrix@)[x as int]);
            points.push(row);
        }
        let r = Matrix { points };
        assert(r@ =~= transpose_of(matrix@));
        r
    }

    /// Overwrites every entry of `self` with the entry of `matrix` at the
    /// same place.
    pub fn set_to(&mut self, matrix: &Matrix)
        requires
            is_square(old(self)@),
            is_square(matrix@),
            old(self)@.len() == matrix@.len(),
        ensures
            final(self)@ == matrix@,
    {
        let n = self.points.len();
        for x in 0..n
            invariant
                n == self.points@.len() == matrix@.len(),
                is_square(matrix@),
                forall|i: int| 0 <= i < x ==> #[trigger] row_view(self.points@[i]@) == matrix@[i],
        {
            let mut row: Vec<i64> = Vec::new();
            for y in 0..n
                invariant
                    n == matrix@.len(),
                    is_square(matrix@),
                    x < n,
                    row@.len() == y,
                    forall|j: int| 0 <= j < y ==> #[trigger] row@[j] as int == matrix@[x as int][j],
            {
                assert(matrix@[x as int].len() == n);
                row.push(matrix.points[x][y]);
            }
            assert(row_view(row@) =~= matrix@[x as int]);
            let ghost before = self.points@;
            self.points.set(x, row);
            assert(forall|i: int| 0 <= i < x ==> self.points@[i] == before[i]);
        }
        assert(self@ =~= matrix@);
    }

    /// Replaces `self` by its transpose.
    pub fn transpose(&mut self)
        requires
            is_square(old(self)@),
        ensures
            final(self)@ == transpose_of(old(self)@),
    {
        let t = Matrix::transposed_matrix(self);
        self.set_to(&t);
    }

    /// The transpose of `self`.
    pub fn transposed(&self) -> (r: Matrix)
        requires
            is_square(self@),
        ensures
            r@ == transpose_of(self@),
    {
        Matrix::transposed_matrix(self)
    }

    /// `self` times `matrix`; both have the same number of rows.
    pub fn multiply_by_matrix(&self, matrix: &Matrix) -> (r: Matrix)
        requires
            is_square(self@),
            is_square(matrix@),
            self@.len() == matrix@.len() <= MAX_DIM,
            within_factor_bound(self@),
            within_factor_bound(matrix@),
        ensures
            r@ == mat_mul(self@, matrix@),
    {
        Matrix::multiply_matrices(self, matrix)
    }

    /// The rows of a 4 by 4 matrix times `(x, y, z, 1)`: the first three give
    /// the coordinates, and the fourth row times `(1, 1, 1, 1)` comes beside
    /// them.
    fn transform_coordinates(&self, v: &Vector) -> (r: (i64, i64, i64, i64))
        requires
            is_square(self@),
            self@.len() == 4,
            within_factor_bound(self@),
            seq_within_factor_bound(extended(*v)),
        ensures
            r.0 == row_times(self@, 0, extended(*v)),
            r.1 == row_times(self@, 1, extended(*v)),
            r.2 == row_times(self@, 2, extended(*v)),
            r.3 == row_times(self@, 3, seq![1int, 1, 1, 1]),
    {
        let row: Vec<i64> = vec![v.x, v.y, v.z, 1];
        let ones: Vec<i64> = vec![1, 1, 1, 1];
        assert(row_view(row@) =~= extended(*v));
        assert(row_view(ones@) =~= seq![1int, 1, 1, 1]);
        proof {
            lemma_row_factor_bound(*self, 0);
            lemma_row_factor_bound(*self, 1);
            lemma_row_factor_bound(*self, 2);
            lemma_row_factor_bound(*self, 3);
        }
        assert(seq_within_factor_bound(seq![1int, 1, 1, 1]));
        (
            Matrix::multiply_matrix_row(&self.points[0], &row),
            Matrix::multiply_matrix_row(&self.points[1], &row),
            Matrix::multiply_matrix_row(&self.points[2], &row),
            Matrix::multiply_matrix_row(&self.points[3], &ones),
        )
    }

    /// Transforms a point by a 4 by 4 matrix: each of the first three rows is
    /// dotted with `(x, y, z, 1)`; beside the point comes the fourth row
    /// dotted with `(1, 1, 1, 1)`.
    pub fn multiply_by_point(&self, point: &Point) -> (r: (Point, i64))
        requires
            is_square(self@),
            self@.len() == 4,
            within_factor_bound(self@),
            seq_within_factor_bound(extended(point.position)),
        ensures
            r.0.position.x == row_times(self@, 0, extended(point.position)),
            r.0.position.y == row_times(self@, 1, extended(point.position)),
            r.0.position.z == row_times(self@, 2, extended(point.position)),
            r.1 == row_times(self@, 3, seq![1int, 1, 1, 1]),
    {
        let t = self.transform_coordinates(&point.position);
        (Point { position: Vector { x: t.0, y: t.1, z: t.2 } }, t.3)
    }

    /// Transforms a vector by a 4 by 4 matrix, as `multiply_by_point` does.
    pub fn multiply_by_vector(&self, vector: &Vector) -> (r: (Vector, i64))
        requires
            is_square(self@),
            self@.len() == 4,
            within_factor_bound(self@),
            seq_within_factor_bound(extended(*vector)),
        ensures
            r.0.x == row_times(self@, 0, extended(*vector)),
            r.0.y == row_times(self@, 1, extended(*vector)),
            r.0.z == row_times(self@, 2, extended(*vector)),
            r.1 == row_times(self@, 3, seq![1int, 1, 1, 1]),
    {
        let t = self.transform_coordinates(vector);
        (Vector { x: t.0, y: t.1, z: t.2 }, t.3)
    }

    /// A 4 by 4 matrix times a column of four components.
    pub fn multiply_by_tuple(&self, tuple: (i64, i64, i64, i64)) -> (r: (i64, i64, i64, i64))
        requires
            is_square(self@),
            self@.len() == 4,
            within_factor_bound(self@),
            seq_within_factor_bound(tuple_view(tuple)),
        ensures
            tuple_view(r) == Seq::new(4, |i: int| row_times(self@, i, tuple_view(tuple))),
    {
        let row: Vec<i64> = vec![tuple.0, tuple.1, tuple.2, tuple.3];
        assert(row_view(row@) =~= tuple_view(tuple));
        proof {
            lemma_row_factor_bound(*self, 0);
            lemma_row_factor_bound(*self, 1);
            lemma_row_factor_bound(*self, 2);
            lemma_row_factor_bound(*self, 3);
        }
        let r = (
            Matrix::multiply_matrix_row(&self.points[0], &row),
            Matrix::multiply_matrix_row(&self.points[1], &row),
            Matrix::multiply_matrix_row(&self.points[2], &row),
            Matrix::multiply_matrix_row(&self.points[3], &row),
        );
        assert(tuple_view(r) =~= Seq::new(4, |i: int| row_times(self@, i, tuple_view(tuple))));
        r
    }

    /// Whether two square matrices have the same size and agree in every
    /// entry. On integer entries, agreeing within a tolerance below one is
    /// agreeing exactly.
    pub fn equals(&self, other: &Matrix) -> (r: bool)
        requires
            is_square(self@),
            is_square(other@),
        ensures
            r == (self@ == other@),
    {
        let n = self.points.len();
        if n != other.points.len() {
            return false;
        }
        for x in 0..n
            invariant
                n == self@.len() == other@.len(),
                is_square(self@),
                is_square(other@),
                forall|i: int| 0 <= i < x ==> #[trigger] self@[i] == other@[i],
        {
            assert(self@[x as int].len() == n && other@[x as int].len() == n);
            for y in 0..n
                invariant
                    n == self@.len() == other@.len(),
                    is_square(self@),
                    is_square(other@),
                    x < n,
                    forall|j: int| 0 <= j < y ==> #[trigger] self@[x as int][j] == other@[x as int][j],
            {
                assert(self@[x as int].len() == n && other@[x as int].len() == n);
                if self.points[x][y] != other.points[x][y] {
                    assert(self@[x as int][y as int] != other@[x as int][y as int]);
                    return false;
                }
            }
            assert(self@[x as int] =~= other@[x as int]);
        }
        assert(self@ =~= other@);
        true
    }

    /// Whether the determinant is not zero.
    pub fn is_invertible(&self) -> (r: bool)
        requires
            is_square(self@),
            2 <= self@.len() <= MAX_DIM,
            within_entry_bound(self@),
        ensures
            r == (det(self@) != 0),
    {
        self.get_determinant() != 0
    }

    /// The exact inverse of a 4 by 4 matrix: its adjugate, which holds the
    /// cofactor of `[row][col]` at `[col][row]`, over its determinant. Fails
    /// with `SizePrecondition` on a matrix that is not 4 by 4 or is singular.
    pub fn inverse(matrix: &Matrix) -> (r: Result<Inverse, MatrixError>)
        requires
            is_square(matrix@),
            within_entry_bound(matrix@),
        ensures
            r is Ok <==> (matrix@.len() == 4 && det(matrix@) != 0),
            r is Ok ==> r->Ok_0.adjugate@ == adjugate_of(matrix@) && r->Ok_0.determinant == det(
                matrix@,
            ),
            r is Err ==> r->Err_0 == MatrixError::SizePrecondition,
    {
        let n = matrix.points.len();
        if n != 4 {
            return Err(MatrixError::SizePrecondition);
        }
        let determinant = matrix.get_determinant();
        if determinant == 0 {
            return Err(MatrixError::SizePrecondition);
        }
        let mut points: Vec<Vec<i64>> = Vec::new();
        for col in 0..n
            invariant
                n == matrix@.len() == 4,
                is_square(matrix@),
                within_entry_bound(matrix@),
                points@.len() == col,
                forall|i: int| 0 <= i < col ==> #[trigger] row_view(points@[i]@) == adjugate_of(
                    matrix@,
                )[i],
        {
            let mut new_row: Vec<i64> = Vec::new();
            for row in 0..n
                invariant
                    n == matrix@.len() == 4,
                    is_square(matrix@),
                    within_entry_bound(matrix@),
                    col < n,
                    new_row@.len() == row,
                    forall|j: int| 0 <= j < row ==> #[trigger] new_row@[j] as int == cofactor_of(
                        matrix@,
                        j,
                        col as int,
                    ),
            {
                new_row.push(Matrix::cofactor_value(matrix, row, col));
            }
            assert(row_view(new_row@) =~= adjugate_of(matrix@)[col as int]);
            points.push(new_row);
        }
        let adjugate = Matrix { points };
        assert(adjugate@ =~= adjugate_of(matrix@));
        Ok(Inverse { adjugate, determinant })
    }
}

} // verus!
