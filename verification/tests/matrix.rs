use raytracer::matrix::Matrix;
use raytracer::scalar::Scalar;

fn scalar(x: f64) -> Scalar {
    Scalar::from_bits(x.to_bits())
}

fn matrix(rows: &[&[f64]]) -> Matrix {
    Matrix::init(rows.iter().map(|row| row.iter().map(|x| scalar(*x)).collect()).collect())
}

#[test]
fn test_basic_matrix() {
    let matrix = matrix(&[&[3.0, 1.0], &[2.0, 7.0]]);

    assert_eq!(matrix.at(0, 1), scalar(1.0));
    assert_eq!(matrix.at(1, 1), scalar(7.0));
    assert_eq!(matrix.at(0, 0), scalar(3.0));
    assert_eq!(matrix.at(1, 0), scalar(2.0));
}

#[test]
fn test_matrix_identity() {
    let matrix_a =
        matrix(&[&[1.0, 0.0, 0.0, 0.0], &[0.0, 1.0, 0.0, 0.0], &[0.0, 0.0, 1.0, 0.0], &[0.0, 0.0, 0.0, 1.0]]);

    let identity = Matrix::identity(4);

    assert_eq!(matrix_a, identity);
}

#[test]
fn test_identity_of_other_sizes() {
    assert_eq!(Matrix::identity(0), matrix(&[]));
    assert_eq!(Matrix::identity(1), matrix(&[&[1.0]]));
    assert_eq!(Matrix::identity(2), matrix(&[&[1.0, 0.0], &[0.0, 1.0]]));
    assert_eq!(Matrix::identity(3), matrix(&[&[1.0, 0.0, 0.0], &[0.0, 1.0, 0.0], &[0.0, 0.0, 1.0]]));
}

#[test]
fn test_matrix_submatrixes() {
    let matrix_a = matrix(&[&[1.0, 5.0, 0.0], &[-3.0, 2.0, 7.0], &[0.0, 6.0, -3.0]]);

    assert_eq!(matrix(&[&[-3.0, 2.0], &[0.0, 6.0]]), matrix_a.submatrix(0, 2));

    let matrix_b = matrix(&[
        &[-6.0, 1.0, 1.0, 6.0],
        &[-8.0, 5.0, 8.0, 6.0],
        &[-1.0, 0.0, 8.0, 2.0],
        &[-7.0, 1.0, -1.0, 1.0],
    ]);
    assert_eq!(matrix(&[&[-6.0, 1.0, 6.0], &[-8.0, 8.0, 6.0], &[-7.0, -1.0, 1.0]]), matrix_b.submatrix(2, 1));
}

#[test]
fn test_submatrix_at_the_corners() {
    let m = matrix(&[&[1.0, 2.0, 3.0], &[4.0, 5.0, 6.0], &[7.0, 8.0, 9.0]]);

    assert_eq!(m.submatrix(0, 0), matrix(&[&[5.0, 6.0], &[8.0, 9.0]]));
    assert_eq!(m.submatrix(2, 2), matrix(&[&[1.0, 2.0], &[4.0, 5.0]]));
    assert_eq!(m.submatrix(1, 1), matrix(&[&[1.0, 3.0], &[7.0, 9.0]]));
    assert_eq!(m.submatrix(0, 0).submatrix(0, 0), matrix(&[&[9.0]]));
    assert_eq!(m.submatrix(0, 0).submatrix(0, 0).submatrix(0, 0), matrix(&[]));
}

#[test]
fn test_submatrix_outside_the_matrix() {
    let m = matrix(&[&[1.0, 2.0], &[3.0, 4.0]]);

    assert_eq!(m.submatrix(5, 0), matrix(&[&[2.0], &[4.0]]));
    assert_eq!(m.submatrix(0, 5), matrix(&[&[3.0, 4.0]]));
    assert_eq!(m.submatrix(2, 2), m);
}

#[test]
fn test_transpose() {
    let matrix_a =
        matrix(&[&[0.0, 9.0, 3.0, 0.0], &[9.0, 8.0, 0.0, 8.0], &[1.0, 8.0, 5.0, 3.0], &[0.0, 0.0, 5.0, 8.0]]);

    let transposed =
        matrix(&[&[0.0, 9.0, 1.0, 0.0], &[9.0, 8.0, 8.0, 0.0], &[3.0, 0.0, 5.0, 5.0], &[0.0, 8.0, 3.0, 8.0]]);

    assert_eq!(matrix_a.transpose(), transposed);
    assert_eq!(Matrix::identity(4), Matrix::identity(4).transpose());
}

#[test]
fn test_transpose_of_a_column() {
    let column = matrix(&[&[1.0], &[2.0], &[3.0], &[4.0]]);
    let line = matrix(&[&[1.0, 2.0, 3.0, 4.0]]);

    assert_eq!(column.transpose(), line);
    assert_eq!(line.transpose(), column);
    assert_eq!(column.transpose().transpose(), column);
}

#[test]
fn test_transpose_of_nothing() {
    assert_eq!(matrix(&[]).transpose(), matrix(&[]));
    assert_eq!(matrix(&[&[], &[]]).transpose(), matrix(&[]));
}

#[test]
fn test_rows_and_columns() {
    let m = matrix(&[&[1.0, 2.0, 3.0], &[4.0, 5.0, 6.0]]);
    assert_eq!(m.rows(), 2);
    assert_eq!(m.columns(), 3);
    assert_eq!(matrix(&[]).rows(), 0);
    assert_eq!(matrix(&[]).columns(), 0);
    assert_eq!(Matrix::identity(4).rows(), 4);
    assert_eq!(Matrix::identity(4).columns(), 4);
}

#[test]
fn test_is_rectangular() {
    assert!(matrix(&[]).is_rectangular());
    assert!(matrix(&[&[], &[]]).is_rectangular());
    assert!(matrix(&[&[1.0, 2.0], &[3.0, 4.0], &[5.0, 6.0]]).is_rectangular());
    assert!(!matrix(&[&[1.0, 2.0], &[3.0]]).is_rectangular());
    assert!(!matrix(&[&[1.0], &[2.0, 3.0]]).is_rectangular());
    assert!(!matrix(&[&[], &[2.0]]).is_rectangular());
}

#[test]
fn test_cofactor_sign_is_a_checkerboard() {
    assert!(!Matrix::cofactor_changes_sign(0, 0));
    assert!(Matrix::cofactor_changes_sign(0, 1));
    assert!(Matrix::cofactor_changes_sign(1, 0));
    assert!(!Matrix::cofactor_changes_sign(1, 1));
    assert!(Matrix::cofactor_changes_sign(2, 3));
    assert!(!Matrix::cofactor_changes_sign(3, 3));
    assert!(!Matrix::cofactor_changes_sign(usize::MAX, usize::MAX));
    assert!(Matrix::cofactor_changes_sign(usize::MAX, 0));
}

#[test]
fn test_shape_questions() {
    let square = matrix(&[&[1.0, 2.0], &[3.0, 4.0]]);
    let wide = matrix(&[&[1.0, 2.0, 3.0], &[4.0, 5.0, 6.0]]);
    let column = matrix(&[&[1.0], &[2.0]]);
    let ragged = matrix(&[&[1.0, 2.0], &[3.0]]);

    assert!(square.is_square());
    assert!(matrix(&[]).is_square());
    assert!(Matrix::identity(4).is_square());
    assert!(!wide.is_square());
    assert!(!column.is_square());
    assert!(!ragged.is_square());

    assert!(wide.has_columns(3));
    assert!(!wide.has_columns(2));
    assert!(matrix(&[]).has_columns(7));

    assert!(square.can_multiply(&square));
    assert!(square.can_multiply(&wide));
    assert!(square.can_multiply(&column));
    assert!(!wide.can_multiply(&square));
    assert!(!square.can_multiply(&ragged));
    assert!(!ragged.can_multiply(&square));
    assert!(wide.can_multiply(&matrix(&[&[1.0], &[2.0], &[3.0]])));
}

// Arithmetic on whole numbers held as bit patterns, to watch which entries
// an operation brings together.

fn whole(s: Scalar) -> i64 {
    f64::from_bits(s.bits) as i64
}

fn count(n: i64) -> Scalar {
    scalar(n as f64)
}

fn dot(row: &Vec<Scalar>, column: &Vec<Scalar>) -> Scalar {
    assert_eq!(row.len(), column.len());
    count(row.iter().zip(column.iter()).map(|(a, b)| whole(*a) * whole(*b)).sum())
}

fn det2(a: Scalar, b: Scalar, c: Scalar, d: Scalar) -> Scalar {
    count(whole(a) * whole(d) - whole(b) * whole(c))
}

fn divide(a: Scalar, b: Scalar) -> Scalar {
    scalar(f64::from_bits(a.bits) / f64::from_bits(b.bits))
}

#[test]
fn test_multiply_pairs_rows_with_columns() {
    let a = matrix(&[&[1.0, 2.0, 3.0], &[4.0, 5.0, 6.0]]);
    let b = matrix(&[&[7.0, 8.0], &[9.0, 10.0], &[11.0, 12.0]]);

    assert_eq!(a.multiply(&b, &dot), matrix(&[&[58.0, 64.0], &[139.0, 154.0]]));
    assert_eq!(b.multiply(&a, &dot), matrix(&[&[39.0, 54.0, 69.0], &[49.0, 68.0, 87.0], &[59.0, 82.0, 105.0]]));
}

#[test]
fn test_multiply_hands_over_whole_rows_and_columns() {
    let a = matrix(&[&[1.0, 2.0], &[3.0, 4.0]]);
    let b = matrix(&[&[5.0, 6.0], &[7.0, 8.0]]);
    let first_of_each = |row: &Vec<Scalar>, column: &Vec<Scalar>| count(10 * whole(row[0]) + whole(column[0]));
    let last_of_each = |row: &Vec<Scalar>, column: &Vec<Scalar>| count(10 * whole(row[1]) + whole(column[1]));

    assert_eq!(a.multiply(&b, &first_of_each), matrix(&[&[15.0, 16.0], &[35.0, 36.0]]));
    assert_eq!(a.multiply(&b, &last_of_each), matrix(&[&[27.0, 28.0], &[47.0, 48.0]]));
}

#[test]
fn test_multiply_by_a_column_and_by_nothing() {
    let a = matrix(&[&[1.0, 2.0], &[3.0, 4.0]]);

    assert_eq!(a.multiply(&matrix(&[&[1.0], &[1.0]]), &dot), matrix(&[&[3.0], &[7.0]]));
    assert_eq!(matrix(&[]).multiply(&a, &dot), matrix(&[]));
    assert_eq!(matrix(&[&[], &[]]).multiply(&matrix(&[]), &dot), matrix(&[&[], &[]]));
}

#[test]
fn test_determinant_of_two_rows_asks_once() {
    let m = matrix(&[&[1.0, 5.0], &[-3.0, 2.0]]);
    let placed = |a: Scalar, b: Scalar, c: Scalar, d: Scalar| {
        count(1000 * whole(a) + 100 * whole(b) + 10 * whole(c).abs() + whole(d))
    };

    assert_eq!(m.determinant(&det2, &dot), count(17));
    assert_eq!(m.determinant(&placed, &dot), count(1532));
}

#[test]
fn test_determinant_expands_along_the_first_row() {
    let m = matrix(&[&[1.0, 2.0, 6.0], &[-5.0, 8.0, -4.0], &[2.0, 6.0, 4.0]]);
    let cofactors_only = |_: &Vec<Scalar>, cofactors: &Vec<Scalar>| {
        count(cofactors.iter().enumerate().map(|(j, c)| whole(*c) * [1, 1000, 1000000][j]).sum())
    };
    let row_only = |row: &Vec<Scalar>, _: &Vec<Scalar>| {
        count(row.iter().enumerate().map(|(j, c)| whole(*c) * [1, 10, 100][j]).sum())
    };

    assert_eq!(m.determinant(&det2, &dot), count(-196));
    // The cofactors of the first row are 56, 12 and -46.
    assert_eq!(m.determinant(&det2, &cofactors_only), count(56 + 12 * 1000 - 46 * 1000000));
    assert_eq!(m.determinant(&det2, &row_only), count(621));
}

#[test]
fn test_minor_and_cofactor() {
    let m = matrix(&[&[3.0, 5.0, 0.0], &[2.0, -1.0, -7.0], &[6.0, -1.0, 5.0]]);

    assert_eq!(m.minor(0, 0, &det2, &dot), count(-12));
    assert_eq!(m.cofactor(0, 0, &det2, &dot), count(-12));
    assert_eq!(m.minor(1, 0, &det2, &dot), count(25));
    assert_eq!(m.cofactor(1, 0, &det2, &dot), count(-25));
    assert_eq!(m.minor(2, 1, &det2, &dot), count(-21));
    assert_eq!(m.cofactor(2, 1, &det2, &dot), count(21));
}

#[test]
fn test_cofactor_of_a_zero_minor_is_a_negative_zero() {
    let m = matrix(&[&[1.0, 2.0, 3.0], &[4.0, 1.0, 1.0], &[5.0, 1.0, 1.0]]);

    assert_eq!(m.minor(0, 0, &det2, &dot).to_bits(), 0.0_f64.to_bits());
    assert_eq!(m.cofactor(0, 0, &det2, &dot).to_bits(), 0.0_f64.to_bits());
    assert_eq!(m.minor(1, 0, &det2, &dot), count(-1));

    let n = matrix(&[&[1.0, 1.0, 1.0], &[4.0, 1.0, 1.0], &[5.0, 1.0, 1.0]]);
    assert_eq!(n.minor(0, 1, &det2, &dot).to_bits(), (-1.0_f64).to_bits());
    assert_eq!(n.minor(1, 0, &det2, &dot).to_bits(), 0.0_f64.to_bits());
    assert_eq!(n.cofactor(1, 0, &det2, &dot).to_bits(), (-0.0_f64).to_bits());
}

#[test]
fn test_determinant_of_four_rows() {
    let m = matrix(&[&[-2.0, -8.0, 3.0, 5.0], &[-3.0, 1.0, 7.0, 3.0], &[1.0, 2.0, -9.0, 6.0], &[-6.0, 7.0, 7.0, -9.0]]);

    assert_eq!(m.cofactor(0, 0, &det2, &dot), count(690));
    assert_eq!(m.cofactor(0, 1, &det2, &dot), count(447));
    assert_eq!(m.cofactor(0, 2, &det2, &dot), count(210));
    assert_eq!(m.cofactor(0, 3, &det2, &dot), count(51));
    assert_eq!(m.determinant(&det2, &dot), count(-4071));
}

#[test]
fn test_inverse_is_the_transposed_cofactors_over_the_determinant() {
    let m = matrix(&[&[-5.0, 2.0, 6.0, -8.0], &[1.0, -5.0, 1.0, 8.0], &[7.0, 7.0, -6.0, -7.0], &[1.0, -3.0, 7.0, 4.0]]);

    let inverse = m.inverse(&det2, &dot, &divide);

    assert_eq!(m.determinant(&det2, &dot), count(532));
    assert_eq!(m.cofactor(2, 3, &det2, &dot), count(-160));
    assert_eq!(inverse.at(3, 2), scalar(-160.0 / 532.0));
    assert_eq!(m.cofactor(3, 2, &det2, &dot), count(105));
    assert_eq!(inverse.at(2, 3), scalar(105.0 / 532.0));
    for x in 0..4 {
        for y in 0..4 {
            assert_eq!(inverse.at(y, x), divide(m.cofactor(x, y, &det2, &dot), count(532)));
        }
    }
}

#[test]
fn test_inverse_of_a_matrix_without_one() {
    let m = matrix(&[&[1.0, 2.0, 3.0], &[2.0, 4.0, 6.0], &[0.0, 1.0, 1.0]]);

    let inverse = m.inverse(&det2, &dot, &divide);

    assert_eq!(m.determinant(&det2, &dot), count(0));
    assert_eq!(inverse.rows(), 3);
    assert!(inverse.is_square());
    for x in 0..3 {
        for y in 0..3 {
            let entry = f64::from_bits(inverse.at(x, y).bits);
            assert!(entry.is_infinite() || entry.is_nan());
        }
    }
}

#[test]
fn test_eq_by_looks_at_every_place() {
    let a = matrix(&[&[1.0, 2.0], &[3.0, 4.0]]);
    let b = matrix(&[&[1.0, 2.0], &[3.0, 4.5]]);
    let exact = |x: Scalar, y: Scalar| x == y;
    let loose = |x: Scalar, y: Scalar| (f64::from_bits(x.bits) - f64::from_bits(y.bits)).abs() <= 0.5;

    assert!(a.eq_by(&a, &exact));
    assert!(!a.eq_by(&b, &exact));
    assert!(a.eq_by(&b, &loose));
    assert!(!a.eq_by(&b, &|_, _| false));
}

#[test]
fn test_eq_by_wants_the_same_shape() {
    let always = |_: Scalar, _: Scalar| true;
    let a = matrix(&[&[1.0, 2.0], &[3.0, 4.0]]);

    assert!(matrix(&[]).eq_by(&matrix(&[]), &always));
    assert!(!a.eq_by(&matrix(&[]), &always));
    assert!(!matrix(&[]).eq_by(&a, &always));
    assert!(!a.eq_by(&matrix(&[&[1.0, 2.0]]), &always));
    assert!(!a.eq_by(&matrix(&[&[1.0, 2.0, 0.0], &[3.0, 4.0, 0.0]]), &always));
    assert!(!a.eq_by(&matrix(&[&[1.0, 2.0], &[3.0]]), &always));
    assert!(a.eq_by(&matrix(&[&[9.0, 9.0], &[9.0, 9.0]]), &always));
}
