use raytracer::matrix::{Matrix, MatrixError};
use raytracer::points::{Point, Vector};

fn close(a: f64, b: f64) -> bool {
    (a - b).abs() < 0.001
}

#[test]
fn test_2_2() {
    let matrix2 = Matrix::new(2, 2);
    assert_eq!(matrix2.points[0][0], 0);
}

#[test]
fn test_matrix_comparison() {
    let mut matrix1 = Matrix::new(4, 4);
    matrix1.points[0] = vec![1, 2, 3, 4];
    matrix1.points[1] = vec![5, 6, 7, 8];
    matrix1.points[2] = vec![9, 8, 7, 6];
    matrix1.points[3] = vec![5, 4, 3, 2];

    let mut matrix2 = Matrix::new(4, 4);
    matrix2.points[0] = vec![1, 2, 3, 4];
    matrix2.points[1] = vec![5, 6, 7, 8];
    matrix2.points[2] = vec![9, 8, 7, 6];
    matrix2.points[3] = vec![5, 4, 3, 2];

    let mut matrix3 = Matrix::new(4, 4);
    matrix3.points[0] = vec![2, 2, 3, 4];
    matrix3.points[1] = vec![3, 6, 7, 8];
    matrix3.points[2] = vec![4, 8, 7, 6];
    matrix3.points[3] = vec![6, 4, 3, 2];

    assert!(matrix1.equals(&matrix2));
    assert!(!matrix1.equals(&matrix3));
    assert!(matrix1.equals(&matrix1));
    assert!(!matrix1.equals(&Matrix::new(4, 4)));
}

#[test]
fn test_matrix_multiplication() {
    let mut matrix1 = Matrix::new(4, 4);
    matrix1.points[0] = vec![1, 2, 3, 4];
    matrix1.points[1] = vec![5, 6, 7, 8];
    matrix1.points[2] = vec![9, 8, 7, 6];
    matrix1.points[3] = vec![5, 4, 3, 2];

    let mut matrix2 = Matrix::new(4, 4);
    matrix2.points[0] = vec![-2, 1, 2, 3];
    matrix2.points[1] = vec![3, 2, 1, -1];
    matrix2.points[2] = vec![4, 3, 6, 5];
    matrix2.points[3] = vec![1, 2, 7, 8];

    let mut correct_matrix = Matrix::new(4, 4);
    correct_matrix.points[0] = vec![20, 22, 50, 48];
    correct_matrix.points[1] = vec![44, 54, 114, 108];
    correct_matrix.points[2] = vec![40, 58, 110, 102];
    correct_matrix.points[3] = vec![16, 26, 46, 42];
    assert!(correct_matrix.equals(&Matrix::multiply_matrices(&matrix1, &matrix2)))
}

#[test]
fn test_matrix_tuple_multiplication() {
    let mut matrix = Matrix::new(4, 4);
    matrix.points[0] = vec![1, 2, 3, 4];
    matrix.points[1] = vec![2, 4, 4, 2];
    matrix.points[2] = vec![8, 6, 4, 1];
    matrix.points[3] = vec![0, 0, 0, 1];

    // Point x matrix
    let point = Point::new(1, 2, 3);
    let correct_answer = Point::new(18, 24, 33);

    let computed_answer = matrix.multiply_by_point(&point);
    assert!(correct_answer.compare(&computed_answer.0));

    // Vector x Matrix
    let vector = Vector::new(1, 2, 3);
    let computed_answer = matrix.multiply_by_vector(&vector);
    let correct_answer = Vector::new(18, 24, 33);

    assert!(correct_answer.is_same(&computed_answer.0));

    // Tuple x Matrix
    let tuple = (1, 2, 3, 1);
    let comp_tuple = matrix.multiply_by_tuple(tuple);
    let correct_tup_answer = (18, 24, 33, 1);

    assert_eq!(comp_tuple, correct_tup_answer);
}

#[test]
fn test_multiplicative_identity() {
    let mut matrix = Matrix::new(4, 4);
    matrix.points[0] = vec![0, 1, 2, 3];
    matrix.points[1] = vec![1, 2, 4, 8];
    matrix.points[2] = vec![2, 4, 8, 16];
    matrix.points[3] = vec![4, 8, 16, 32];

    let matrix2 = matrix.multiply_by_matrix(&Matrix::from_identity());

    assert!(matrix.equals(&matrix2));

    let tuple = (1, 2, 3, 4);

    let identity_matrix = Matrix::from_identity();
    let new_tuple = identity_matrix.multiply_by_tuple(tuple);
    assert_eq!(tuple, new_tuple);
}

#[test]
fn test_matrix_transposition() {
    let mut matrix = Matrix::new_4x4_from_rows(
        vec![0, 9, 3, 0],
        vec![9, 8, 0, 8],
        vec![1, 8, 5, 3],
        vec![0, 0, 5, 8],
    );
    let transposed_matrix = Matrix::new_4x4_from_rows(
        vec![0, 9, 1, 0],
        vec![9, 8, 8, 0],
        vec![3, 0, 5, 5],
        vec![0, 8, 3, 8],
    );

    matrix.transpose();
    assert!(transposed_matrix.equals(&matrix));

    // Test IdentityMatrix transposition
    let mut matrix = Matrix::from_identity();
    matrix.transpose();
    assert!(Matrix::from_identity().equals(&matrix));
}

#[test]
fn test_invert_matrix() {
    let identity = Matrix::from_identity();
    let inverted = Matrix::inverse(&identity).expect("the identity is invertible");
    assert_eq!(inverted.determinant, 1);
    assert!(inverted.adjugate.equals(&identity));
}

#[test]
fn test_find_determinant_of_2x2() {
    let mut matrix = Matrix::new(2, 2);
    matrix.points[0] = vec![1, 5];
    matrix.points[1] = vec![-3, 2];

    assert_eq!(matrix.get_determinant(), 17)
}

#[test]
fn test_submatrix_3x3_to_2x2() {
    let matrix = Matrix::new_3x3_from_rows(vec![1, 5, 0], vec![-3, 2, 7], vec![0, 6, -3]);

    let correct_submatrix = Matrix::new_2x2_from_rows(vec![-3, 2], vec![0, 6]);
    let computed_submatrix = Matrix::submatrix(&matrix, 0, 2);

    assert!(computed_submatrix
        .expect("Test data, should not panic")
        .equals(&correct_submatrix));
}

#[test]
fn test_submatrix_4x4_to_3x3() {
    let matrix = Matrix::new_4x4_from_rows(
        vec![-6, 1, 1, 6],
        vec![-8, 5, 8, 6],
        vec![-1, 0, 8, 2],
        vec![-7, 1, -1, 1],
    );

    let correct_submatrix =
        Matrix::new_3x3_from_rows(vec![-6, 1, 6], vec![-8, 8, 6], vec![-7, -1, 1]);

    let computed_submatrix = Matrix::submatrix(&matrix, 2, 1);
    assert!(computed_submatrix
        .expect("Test data, should not panic")
        .equals(&correct_submatrix));
}

#[test]
fn test_minor_3x3() {
    let matrix = Matrix::new_3x3_from_rows(vec![3, 5, 0], vec![2, -1, -7], vec![6, -1, 5]);

    let b_matrix = Matrix::submatrix(&matrix, 1, 0);
    let b_matrix = b_matrix.expect("Test data, should not panic");

    let correct_determinant = 25;
    assert_eq!(correct_determinant, b_matrix.get_determinant());
    assert_eq!(
        correct_determinant,
        Matrix::minor(&matrix, 1, 0).expect("Test data is valid")
    )
}

#[test]
fn test_cofactors_3x3() {
    let matrix = Matrix::new_3x3_from_rows(vec![3, 5, 0], vec![2, -1, -7], vec![6, -1, 5]);

    let minor_1 = Matrix::minor(&matrix, 0, 0);
    let cofactor_1 = Matrix::cofactor(&matrix, 0, 0);
    let minor_2 = Matrix::minor(&matrix, 1, 0);
    let cofactor_2 = Matrix::cofactor(&matrix, 1, 0);

    assert_eq!(minor_1.expect("Test data is valid"), -12);
    assert_eq!(minor_2.expect("Test data is valid"), 25);
    assert_eq!(cofactor_1.expect("Test data is valid"), -12);
    assert_eq!(cofactor_2.expect("Test data is valid"), -25);
}

#[test]
fn test_determinant_3x3() {
    let matrix_1 = Matrix::new_3x3_from_rows(vec![1, 2, 6], vec![-5, 8, -4], vec![2, 6, 4]);

    assert_eq!(Matrix::cofactor(&matrix_1, 0, 0).expect("Test Data"), 56);
    assert_eq!(Matrix::cofactor(&matrix_1, 0, 1).expect("Test Data"), 12);
    assert_eq!(Matrix::cofactor(&matrix_1, 0, 2).expect("Test Data"), -46);
    assert_eq!(matrix_1.get_determinant(), -196);
}

#[test]
fn test_determinant_4x4() {
    let matrix = Matrix::new_4x4_from_rows(
        vec![-2, -8, 3, 5],
        vec![-3, 1, 7, 3],
        vec![1, 2, -9, 6],
        vec![-6, 7, 7, -9],
    );

    assert_eq!(Matrix::cofactor(&matrix, 0, 0).expect("Test Data"), 690);
    assert_eq!(Matrix::cofactor(&matrix, 0, 1).expect("Test Data"), 447);
    assert_eq!(Matrix::cofactor(&matrix, 0, 2).expect("Test Data"), 210);
    assert_eq!(Matrix::cofactor(&matrix, 0, 3).expect("Test Data"), 51);
    assert_eq!(matrix.get_determinant(), -4071);
}

#[test]
fn test_identify_invertible() {
    let matrix = Matrix::new_4x4_from_rows(
        vec![6, 4, 4, 4],
        vec![5, 5, 7, 6],
        vec![4, -9, 3, -7],
        vec![9, 1, 7, -6],
    );

    assert_eq!(matrix.get_determinant(), -2120);
    assert!(matrix.is_invertible());

    let non_invertible_matrix = Matrix::new_4x4_from_rows(
        vec![-4, 2, -2, -3],
        vec![9, 6, 2, 6],
        vec![0, -5, 1, -5],
        vec![0, 0, 0, 0],
    );
    assert!(!non_invertible_matrix.is_invertible())
}

#[test]
fn test_inverting() {
    let matrix = Matrix::new_4x4_from_rows(
        vec![-5, 2, 6, -8],
        vec![1, -5, 1, 8],
        vec![7, 7, -6, -7],
        vec![1, -3, 7, 4],
    );

    let inverted = Matrix::inverse(&matrix).expect("matrix 1 is invertible");

    assert_eq!(Matrix::get_determinant(&matrix), 532);
    assert_eq!(Matrix::cofactor(&matrix, 2, 3).expect("Valid input"), -160);
    assert_eq!(Matrix::cofactor(&matrix, 3, 2).expect("Valid input"), 105);

    let correct_inverted = [
        [0.21806, 0.45113, 0.24060, -0.04511],
        [-0.80827, -1.45677, -0.44361, 0.52068],
        [-0.07895, -0.22368, -0.05263, 0.19737],
        [-0.52256, -0.81391, -0.30075, 0.30639],
    ];
    for row in 0..4 {
        for column in 0..4 {
            let value =
                inverted.adjugate.points[row][column] as f64 / inverted.determinant as f64;
            assert!(close(value, correct_inverted[row][column]));
        }
    }
}

// Further cases.

#[test]
fn transpose_twice_gives_back_the_matrix() {
    let matrix = Matrix::new_3x3_from_rows(vec![1, 2, 3], vec![4, 5, 6], vec![7, 8, 9]);
    let twice = matrix.transposed().transposed();
    assert_eq!(twice.points, matrix.points);
    assert_eq!(matrix.transposed().points[0], vec![1, 4, 7]);
}

#[test]
fn identity_is_neutral_on_the_left() {
    let matrix = Matrix::new_4x4_from_rows(
        vec![3, -9, 7, 3],
        vec![3, -8, 2, -9],
        vec![-4, 4, 4, 1],
        vec![-6, 5, -1, 1],
    );
    let product = Matrix::multiply_matrices(&Matrix::from_identity(), &matrix);
    assert_eq!(product.points, matrix.points);
}

#[test]
fn matrix_times_adjugate_is_determinant_times_identity() {
    let matrix = Matrix::new_4x4_from_rows(
        vec![-5, 2, 6, -8],
        vec![1, -5, 1, 8],
        vec![7, 7, -6, -7],
        vec![1, -3, 7, 4],
    );
    let inverted = Matrix::inverse(&matrix).expect("invertible");
    let product = Matrix::multiply_matrices(&matrix, &inverted.adjugate);
    for row in 0..4 {
        for column in 0..4 {
            let expected = if row == column { 532 } else { 0 };
            assert_eq!(product.points[row][column], expected);
        }
    }
}

#[test]
fn singular_matrix_has_no_inverse() {
    let singular = Matrix::new_4x4_from_rows(
        vec![-4, 2, -2, -3],
        vec![9, 6, 2, 6],
        vec![0, -5, 1, -5],
        vec![0, 0, 0, 0],
    );
    assert_eq!(singular.get_determinant(), 0);
    assert!(matches!(
        Matrix::inverse(&singular),
        Err(MatrixError::SizePrecondition)
    ));
}

#[test]
fn inverse_needs_four_rows() {
    let matrix = Matrix::new_3x3_from_rows(vec![1, 2, 6], vec![-5, 8, -4], vec![2, 6, 4]);
    assert!(matches!(
        Matrix::inverse(&matrix),
        Err(MatrixError::SizePrecondition)
    ));
}

#[test]
fn submatrix_rejects_indices_outside() {
    let matrix = Matrix::new_3x3_from_rows(vec![1, 5, 0], vec![-3, 2, 7], vec![0, 6, -3]);
    assert!(matches!(
        Matrix::submatrix(&matrix, 3, 0),
        Err(MatrixError::IndexOutOfRange)
    ));
    assert!(matches!(
        Matrix::submatrix(&matrix, 0, -1),
        Err(MatrixError::IndexOutOfRange)
    ));
}

#[test]
fn minor_needs_three_rows() {
    let matrix = Matrix::new_2x2_from_rows(vec![1, 5], vec![-3, 2]);
    assert!(matches!(
        Matrix::minor(&matrix, 0, 0),
        Err(MatrixError::SizePrecondition)
    ));
    assert!(matches!(
        Matrix::cofactor(&matrix, 0, 0),
        Err(MatrixError::SizePrecondition)
    ));
    let bigger = Matrix::new_3x3_from_rows(vec![3, 5, 0], vec![2, -1, -7], vec![6, -1, 5]);
    assert!(matches!(
        Matrix::cofactor(&bigger, 0, 3),
        Err(MatrixError::IndexOutOfRange)
    ));
}

#[test]
fn cofactor_sign_follows_row_plus_column() {
    // Row 1, column 2: odd sum, so the minor is negated.
    let matrix = Matrix::new_3x3_from_rows(vec![1, 2, 6], vec![-5, 8, -4], vec![2, 6, 4]);
    let minor = Matrix::minor(&matrix, 1, 2).expect("valid");
    assert_eq!(minor, 2);
    assert_eq!(Matrix::cofactor(&matrix, 1, 2).expect("valid"), -2);
    // Row 1, column 1: even sum, unchanged.
    assert_eq!(
        Matrix::cofactor(&matrix, 1, 1).expect("valid"),
        Matrix::minor(&matrix, 1, 1).expect("valid")
    );
}

#[test]
fn multiplication_of_smaller_matrices() {
    let a = Matrix::new_2x2_from_rows(vec![1, 2], vec![3, 4]);
    let b = Matrix::new_2x2_from_rows(vec![5, 6], vec![7, 8]);
    let product = Matrix::multiply_matrices(&a, &b);
    assert_eq!(product.points, vec![vec![19, 22], vec![43, 50]]);
}

#[test]
fn point_transform_reports_fourth_row_sum() {
    let matrix = Matrix::new_4x4_from_rows(
        vec![1, 0, 0, 5],
        vec![0, 1, 0, -3],
        vec![0, 0, 1, 2],
        vec![1, 2, 3, 4],
    );
    let (moved, side) = matrix.multiply_by_point(&Point::new(-3, 4, 5));
    assert_eq!((moved.position.x, moved.position.y, moved.position.z), (2, 1, 7));
    assert_eq!(side, 10);
}

#[test]
fn set_to_copies_every_entry() {
    let mut target = Matrix::new(2, 2);
    let source = Matrix::new_2x2_from_rows(vec![1, 2], vec![3, 4]);
    target.set_to(&source);
    assert_eq!(target.points, source.points);
}

#[test]
fn new_matrix_is_zero_filled() {
    let matrix = Matrix::new(2, 3);
    assert_eq!(matrix.points, vec![vec![0, 0, 0], vec![0, 0, 0]]);
}
