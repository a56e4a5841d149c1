use ray_tracer_challenge::matrix::{cofactor_negates, Matrix2x2, Matrix3x3, Matrix4x1, Matrix4x4};

fn sample() -> Matrix4x4<i32> {
    Matrix4x4::from_2d_array([[1, 2, 3, 4], [5, 6, 7, 8], [9, 8, 7, 6], [5, 4, 3, 2]])
}

fn entries4(m: &Matrix4x4<i32>) -> Vec<i32> {
    let mut v = Vec::new();
    for r in 0..4 {
        for c in 0..4 {
            v.push(m.get(r, c));
        }
    }
    v
}

#[test]
fn from_2d_array_keeps_rows() {
    let m = sample();
    assert_eq!(m.get(0, 3), 4);
    assert_eq!(m.get(2, 1), 8);
    assert_eq!(m.get(3, 0), 5);
}

#[test]
fn new_takes_entries_row_by_row() {
    let m = Matrix4x4::new([1, 2, 3, 4, 5, 6, 7, 8, 9, 10, 11, 12, 13, 14, 15, 16]);
    assert_eq!(m.get(1, 2), 7);
    assert_eq!(m.get(3, 3), 16);
}

#[test]
fn rows_and_columns() {
    let m = sample();
    let r: Matrix4x1<i32> = m.row(1);
    let c = m.col(2);
    assert_eq!([r.get(0), r.get(1), r.get(2), r.get(3)], [5, 6, 7, 8]);
    assert_eq!([c.get(0), c.get(1), c.get(2), c.get(3)], [3, 7, 7, 3]);
}

#[test]
fn transposing_a_matrix() {
    let m = Matrix4x4::from_2d_array([[0, 9, 3, 0], [9, 8, 0, 8], [1, 8, 5, 3], [0, 0, 5, 8]]);
    let t = m.transposed();
    assert_eq!(entries4(&t), vec![0, 9, 1, 0, 9, 8, 8, 0, 3, 0, 5, 5, 0, 8, 3, 8]);
}

#[test]
fn transposing_the_identity() {
    let id = Matrix4x4::from_2d_array([[1, 0, 0, 0], [0, 1, 0, 0], [0, 0, 1, 0], [0, 0, 0, 1]]);
    assert_eq!(entries4(&id.transposed()), entries4(&id));
}

#[test]
fn submatrix_of_3x3_is_2x2() {
    let m = Matrix3x3::new([1, 5, 0, -3, 2, 7, 0, 6, -3]);
    let s: Matrix2x2<i32> = m.submatrix(0, 2);
    assert_eq!([s.get(0, 0), s.get(0, 1), s.get(1, 0), s.get(1, 1)], [-3, 2, 0, 6]);
}

#[test]
fn submatrix_of_4x4_is_3x3() {
    let m = Matrix4x4::from_2d_array([[-6, 1, 1, 6], [-8, 5, 8, 6], [-1, 0, 8, 2], [-7, 1, -1, 1]]);
    let s = m.submatrix(2, 1);
    let mut v = Vec::new();
    for r in 0..3 {
        for c in 0..3 {
            v.push(s.get(r, c));
        }
    }
    assert_eq!(v, vec![-6, 1, 6, -8, 8, 6, -7, -1, 1]);
}

#[test]
fn setting_entries() {
    let mut m = Matrix2x2::new([0.0f32; 4]);
    m.set(1, 0, 2.5);
    assert_eq!(m.get(1, 0), 2.5);
    assert_eq!(m.get(0, 1), 0.0);
    let mut n = Matrix3x3::new([0; 9]);
    n.set(2, 2, 4);
    assert_eq!(n.get(2, 2), 4);
    let mut k = sample();
    k.set(3, 1, 40);
    assert_eq!(k.get(3, 1), 40);
    assert_eq!(k.get(1, 3), 8);
}

#[test]
fn cofactor_sign_follows_parity() {
    assert!(!cofactor_negates(0, 0));
    assert!(cofactor_negates(1, 0));
    assert!(cofactor_negates(2, 3));
    assert!(!cofactor_negates(3, 3));
}
