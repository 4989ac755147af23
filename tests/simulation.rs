use sysid::matrix::{Matrix, MatrixError};
use sysid::system::System;

fn mat(rows: Vec<Vec<i64>>) -> Matrix {
    Matrix::from_rows(rows).unwrap()
}

fn entries(m: &Matrix) -> Vec<Vec<i64>> {
    let mut out = Vec::new();
    for i in 0..m.rows() {
        let mut row = Vec::new();
        for j in 0..m.cols() {
            row.push(m.get(i, j));
        }
        out.push(row);
    }
    out
}

#[test]
fn scalar_integrator() {
    let sys = System::new(mat(vec![vec![1]]), mat(vec![vec![1]]), mat(vec![vec![1]]), mat(vec![vec![0]]), mat(vec![vec![0]]));
    let u = mat(vec![vec![1], vec![1], vec![1]]);
    let (x, y) = sys.simulate(u).unwrap();
    assert_eq!(entries(&x), vec![vec![0, 1, 2, 3]]);
    assert_eq!(entries(&y), vec![vec![0, 1, 2]]);
}

#[test]
fn two_state_identity_system() {
    let id = || mat(vec![vec![1, 0], vec![0, 1]]);
    let sys = System::new(id(), id(), id(), Matrix::new(2, 2), mat(vec![vec![0], vec![0]]));
    let u = mat(vec![vec![1, 2], vec![3, 4]]);
    let (x, y) = sys.simulate(u).unwrap();
    assert_eq!(entries(&x), vec![vec![0, 1, 4], vec![0, 2, 6]]);
    assert_eq!(entries(&y), vec![vec![0, 1], vec![0, 2]]);
}

#[test]
fn output_uses_state_entering_step() {
    let sys = System::new(mat(vec![vec![2]]), mat(vec![vec![1]]), mat(vec![vec![3]]), mat(vec![vec![5]]), mat(vec![vec![1]]));
    let u = mat(vec![vec![1], vec![0]]);
    let (x, y) = sys.simulate(u).unwrap();
    assert_eq!(entries(&x), vec![vec![1, 3, 6]]);
    assert_eq!(entries(&y), vec![vec![8, 9]]);
}

#[test]
fn no_steps_returns_initial_state() {
    let sys = System::new(mat(vec![vec![1]]), mat(vec![vec![1]]), mat(vec![vec![1], vec![1]]), mat(vec![vec![0]]), mat(vec![vec![4]]));
    let u = Matrix::new(0, 1);
    let (x, y) = sys.simulate(u).unwrap();
    assert_eq!(entries(&x), vec![vec![4]]);
    assert_eq!(y.size(), (2, 0));
}

#[test]
fn simulate_shape_mismatch() {
    let sys = System::new(Matrix::new(2, 2), Matrix::new(2, 1), Matrix::new(1, 2), Matrix::new(1, 1), Matrix::new(3, 1));
    let u = Matrix::new(1, 1);
    assert_eq!(
        sys.simulate(u).err(),
        Some(MatrixError::DimensionMismatch { left_rows: 2, left_cols: 2, right_rows: 3, right_cols: 1 })
    );
}

#[test]
fn simulate_overflow() {
    let sys = System::new(mat(vec![vec![i64::MAX]]), mat(vec![vec![1]]), mat(vec![vec![1]]), mat(vec![vec![0]]), mat(vec![vec![1]]));
    let u = mat(vec![vec![1], vec![1]]);
    assert_eq!(sys.simulate(u).err(), Some(MatrixError::Overflow));
}
