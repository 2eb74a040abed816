use delve::matrix::Matrix;

#[test]
fn test_matrix_multiplication() {
    let a = Matrix::new([[4, 2, 0], [0, 6, 9]]);
    let b = Matrix::new([[12, 8], [4, 9], [3, 7]]);

    let result = Matrix::new([[56, 50], [51, 117]]);

    assert!(a * b == result);
}

#[test]
fn test_matrix_addition() {
    let a = Matrix::new([[1, 2, 3, 4, 5], [6, 7, 8, 9, 10]]);
    let b = Matrix::new([[2, 4, 6, 8, 10], [12, 14, 16, 18, 20]]);

    let result = Matrix::new([[3, 6, 9, 12, 15], [18, 21, 24, 27, 30]]);

    assert!(a + b == result);
}

#[test]
fn test_transpose() {
    let m = Matrix::new([[1, 2, 3], [4, 5, 6]]);
    let expected = Matrix::new([[1, 4], [2, 5], [3, 6]]);

    assert!(m.transpose() == expected);
}

#[test]
fn matrix_subtraction_undoes_addition() {
    let a = Matrix::new([[1i64, -2], [3, 40]]);
    let b = Matrix::new([[7i64, 8], [-9, 10]]);
    let sum = a.clone() + b.clone();
    assert_eq!(sum.clone(), Matrix::new([[8i64, 6], [-6, 50]]));
    assert_eq!(sum - b, a);
}

#[test]
fn matrix_addition_commutes() {
    let a = Matrix::new([[1i64, 2, 3]]);
    let b = Matrix::new([[10i64, 20, 30]]);
    assert_eq!(a.clone() + b.clone(), b + a);
}

#[test]
fn matrix_transpose_twice_is_identity() {
    let m = Matrix::new([[1i64, 2], [3, 4], [5, 6]]);
    assert_eq!(m.transpose().transpose(), m);
}

#[test]
fn matrix_transpose_of_product() {
    let a = Matrix::new([[4i64, 2, 0], [0, 6, 9]]);
    let b = Matrix::new([[12i64, 8], [4, 9], [3, 7]]);
    let lhs = (a.clone() * b.clone()).transpose();
    let rhs = b.transpose() * a.transpose();
    assert_eq!(lhs, rhs);
    assert_eq!(lhs, Matrix::new([[56i64, 51], [50, 117]]));
}

#[test]
fn matrix_scalar_multiply() {
    let mut m = Matrix::new([[1i64, -2], [3, 0]]);
    m.scalar_multiply(-3);
    assert_eq!(m, Matrix::new([[-3i64, 6], [-9, 0]]));
}

#[test]
fn matrix_zero_is_all_zero() {
    let z = Matrix::<i64, 2, 3>::zero();
    assert_eq!(z, Matrix::new([[0i64, 0, 0], [0, 0, 0]]));
    let a = Matrix::new([[5i64, 6, 7], [8, 9, 10]]);
    assert_eq!(a.clone() + z, a);
}

#[test]
fn matrix_row_and_col() {
    let m = Matrix::new([[1i64, 2, 3], [4, 5, 6]]);
    assert_eq!(m.row(1), Matrix::new([[4i64, 5, 6]]));
    assert_eq!(m.col(2), Matrix::new([[3i64], [6]]));
    assert_eq!(m.col(0), Matrix::new([[1i64], [4]]));
}

#[test]
fn matrix_multiplication_by_identity_like() {
    let i = Matrix::new([[1i64, 0], [0, 1]]);
    let a = Matrix::new([[3i64, -4], [5, 6]]);
    assert_eq!(i * a.clone(), a);
}

#[test]
fn matrix_row_iteration() {
    let m = Matrix::new([[1i64, 2], [3, 4], [5, 6]]);
    let mut rows = m.rows();
    let mut seen = Vec::new();
    while let Some(mut row) = rows.next() {
        let mut entries = Vec::new();
        while let Some(x) = row.next() {
            entries.push(*x);
        }
        seen.push(entries);
    }
    assert_eq!(seen, vec![vec![1, 2], vec![3, 4], vec![5, 6]]);
    assert!(rows.next().is_none());
}

#[test]
fn matrix_col_iteration() {
    let m = Matrix::new([[1i64, 2], [3, 4], [5, 6]]);
    let mut cols = m.cols();
    let mut seen = Vec::new();
    while let Some(mut col) = cols.next() {
        let mut entries = Vec::new();
        while let Some(x) = col.next() {
            entries.push(*x);
        }
        seen.push(entries);
    }
    assert_eq!(seen, vec![vec![1, 3, 5], vec![2, 4, 6]]);
}

#[test]
fn matrix_of_floats_transposes() {
    let m = Matrix::new([[1.5f32, 2.0], [3.0, 4.25]]);
    assert_eq!(m.transpose(), Matrix::new([[1.5f32, 3.0], [2.0, 4.25]]));
}

#[test]
fn matrix_arithmetic_on_other_integer_types() {
    let a = Matrix::new([[200u8, 1], [2, 3]]);
    let b = Matrix::new([[55u8, 4], [5, 6]]);
    assert_eq!(a + b, Matrix::new([[255u8, 5], [7, 9]]));

    let c = Matrix::new([[-128i8, 0]]);
    let d = Matrix::new([[1i8, 127]]);
    assert_eq!(c + d, Matrix::new([[-127i8, 127]]));

    let e = Matrix::new([[1usize, 2], [3, 4]]);
    let f = Matrix::new([[5usize, 6], [7, 8]]);
    assert_eq!(e * f, Matrix::new([[19usize, 22], [43, 50]]));

    let g = Matrix::new([[i128::MAX - 1]]);
    let h = Matrix::new([[1i128]]);
    assert_eq!(g - h.clone() + h, Matrix::new([[i128::MAX - 1]]));

    let mut k = Matrix::new([[3u16, 4]]);
    k.scalar_multiply(1000);
    assert_eq!(k, Matrix::new([[3000u16, 4000]]));
}
