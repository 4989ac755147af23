use sysid::matrix::{Matrix, MatrixError};

fn mat(rows: Vec<Vec<i64>>) -> Matrix {
    Matrix::from_rows(rows).unwrap()
}

fn entries(m: &Matrix) -> Vec<Vec<i64>> {
    let mut out = Vec::new();
    for i in 0..m.rows() {
        let mut row = Vec::new();
        for j in 0..m.cols() {
            row.push(m.get(i, j));
        }
        out.push(row);
    }
    out
}

#[test]
fn new_is_zero_filled() {
    let m = Matrix::new(2, 3);
    assert_eq!(m.size(), (2, 3));
    assert_eq!(entries(&m), vec![vec![0, 0, 0], vec![0, 0, 0]]);
    let e = Matrix::new(0, 4);
    assert_eq!(e.size(), (0, 4));
}

#[test]
fn set_and_get() {
    let mut m = Matrix::new(2, 2);
    m.set(1, 0, 7);
    assert_eq!(m.get(1, 0), 7);
    assert_eq!(entries(&m), vec![vec![0, 0], vec![7, 0]]);
}

#[test]
fn from_rows_rejects_ragged_rows() {
    assert!(Matrix::from_rows(vec![vec![1, 2], vec![3]]).is_none());
    let empty = Matrix::from_rows(Vec::new()).unwrap();
    assert_eq!(empty.size(), (0, 0));
}

#[test]
fn copy_is_independent() {
    let a = mat(vec![vec![1, 2], vec![3, 4]]);
    let mut b = a.copy();
    b.set(0, 0, 9);
    assert_eq!(entries(&a), vec![vec![1, 2], vec![3, 4]]);
    assert_eq!(entries(&b), vec![vec![9, 2], vec![3, 4]]);
}

#[test]
fn row_and_column_snapshots() {
    let a = mat(vec![vec![1, 2, 3], vec![4, 5, 6]]);
    let r = a.get_row(1);
    assert_eq!(r.size(), (1, 3));
    assert_eq!(entries(&r), vec![vec![4, 5, 6]]);
    let c = a.get_col(2);
    assert_eq!(c.size(), (2, 1));
    assert_eq!(entries(&c), vec![vec![3], vec![6]]);
}

#[test]
fn add_elementwise() {
    let a = mat(vec![vec![1, 2], vec![3, 4]]);
    let b = mat(vec![vec![10, 20], vec![30, 40]]);
    assert_eq!(entries(&a.add(&b).unwrap()), vec![vec![11, 22], vec![33, 44]]);
}

#[test]
fn add_zero_gives_same_matrix() {
    let a = mat(vec![vec![1, -2, 3], vec![i64::MAX, i64::MIN, 0]]);
    let z = Matrix::new(2, 3);
    assert_eq!(entries(&a.add(&z).unwrap()), entries(&a));
}

#[test]
fn add_shape_mismatch_reports_both_shapes() {
    let a = Matrix::new(2, 3);
    let b = Matrix::new(3, 2);
    assert_eq!(
        a.add(&b).err(),
        Some(MatrixError::DimensionMismatch { left_rows: 2, left_cols: 3, right_rows: 3, right_cols: 2 })
    );
}

#[test]
fn add_overflow() {
    let a = mat(vec![vec![i64::MAX]]);
    let b = mat(vec![vec![1]]);
    assert_eq!(a.add(&b).err(), Some(MatrixError::Overflow));
}

#[test]
fn multiply_product() {
    let a = mat(vec![vec![1, 2, 3], vec![4, 5, 6]]);
    let b = mat(vec![vec![7, 8], vec![9, 10], vec![11, 12]]);
    assert_eq!(entries(&a.multiply(&b).unwrap()), vec![vec![58, 64], vec![139, 154]]);
}

#[test]
fn multiply_shapes() {
    let a = Matrix::new(2, 3);
    let b = Matrix::new(2, 3);
    assert_eq!(
        a.multiply(&b).err(),
        Some(MatrixError::DimensionMismatch { left_rows: 2, left_cols: 3, right_rows: 2, right_cols: 3 })
    );
    let c = Matrix::new(3, 4);
    let p = a.multiply(&c).unwrap();
    assert_eq!(p.size(), (2, 4));
}

#[test]
fn multiply_overflow() {
    let a = mat(vec![vec![i64::MAX, 1]]);
    let b = mat(vec![vec![1], vec![1]]);
    assert_eq!(a.multiply(&b).err(), Some(MatrixError::Overflow));
    let c = mat(vec![vec![i64::MAX]]);
    let d = mat(vec![vec![2]]);
    assert_eq!(c.multiply(&d).err(), Some(MatrixError::Overflow));
}

#[test]
fn transpose_of_product_is_product_of_transposes() {
    let a = mat(vec![vec![1, 2, 3], vec![4, 5, 6]]);
    let b = mat(vec![vec![7, 8], vec![9, 10], vec![11, -12]]);
    let left = a.multiply(&b).unwrap().transpose();
    let right = b.transpose().multiply(&a.transpose()).unwrap();
    assert_eq!(entries(&left), entries(&right));
    assert_eq!(entries(&left), vec![vec![58, 139], vec![-8, 10]]);
}

#[test]
fn transpose_twice_round_trips() {
    let a = mat(vec![vec![1, 2, 3], vec![4, 5, 6]]);
    let t = a.transpose();
    assert_eq!(entries(&t), vec![vec![1, 4], vec![2, 5], vec![3, 6]]);
    assert_eq!(entries(&t.transpose()), entries(&a));
}

#[test]
fn append_col_rebuilds_matrix() {
    let a = mat(vec![vec![1, 2, 3], vec![4, 5, 6]]);
    let mut built = Matrix::new(2, 0);
    for j in 0..a.cols() {
        built.append_col(&a.get_col(j)).unwrap();
    }
    assert_eq!(built.size(), (2, 3));
    assert_eq!(entries(&built), entries(&a));
    let mut none = Matrix::new(2, 0);
    let empty = Matrix::new(2, 0);
    for j in 0..empty.cols() {
        none.append_col(&empty.get_col(j)).unwrap();
    }
    assert_eq!(none.size(), (2, 0));
}

#[test]
fn append_col_mismatch_leaves_matrix() {
    let mut a = mat(vec![vec![1], vec![2]]);
    let c = Matrix::new(3, 1);
    assert_eq!(
        a.append_col(&c).err(),
        Some(MatrixError::DimensionMismatch { left_rows: 2, left_cols: 1, right_rows: 3, right_cols: 1 })
    );
    let wide = Matrix::new(2, 2);
    assert!(a.append_col(&wide).is_err());
    assert_eq!(entries(&a), vec![vec![1], vec![2]]);
}
