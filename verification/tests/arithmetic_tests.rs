use matrix4::{Matrix, scale_matrix};

fn cols_of(m: &Matrix) -> Vec<[i64; 4]> {
    let mut out = Vec::new();
    for j in 0..m.width() {
        out.push(m.col(j).unwrap());
    }
    out
}

#[test]
fn identity_times_any_matrix_is_that_matrix() {
    let m = Matrix::new(vec![[1, 2, 3, 1], [4, 5, 6, 1], [-7, 0, 8, 1]]);
    let r = Matrix::identity().multiply(&m);
    assert_eq!(cols_of(&r), cols_of(&m));
}

#[test]
fn adding_the_zero_matrix_changes_nothing() {
    let m = Matrix::new(vec![[1, -2, 3, 1], [4, 5, -6, 1]]);
    let zero = Matrix::new(vec![[0, 0, 0, 0], [0, 0, 0, 0]]);
    let r = m.add(&zero);
    assert_eq!(cols_of(&r), cols_of(&m));
}

#[test]
fn scaling_by_one_changes_nothing() {
    let m = Matrix::new(vec![[1, -2, 3, 1], [4, 5, -6, 1]]);
    assert_eq!(cols_of(&scale_matrix(1, &m)), cols_of(&m));
    assert_eq!(cols_of(&m.scale(1)), cols_of(&m));
}

#[test]
fn scalar_distributes_over_equal_width_sum() {
    let a = Matrix::new(vec![[1, 2, 3, 1], [4, 5, 6, 1]]);
    let b = Matrix::new(vec![[7, -8, 9, 0], [-1, 1, 2, 3]]);
    let s = 3;
    let lhs = scale_matrix(s, &a.add(&b));
    let rhs = a.scale(s).add(&b.scale(s));
    assert_eq!(cols_of(&lhs), cols_of(&rhs));
}

#[test]
fn asymmetric_add_carries_extra_left_columns_through() {
    let a = Matrix::new(vec![[1, 2, 3, 1], [4, 5, 6, 1]]);
    let b = Matrix::new(vec![[1, 1, 1, 1]]);
    let r = a.add(&b);
    assert_eq!(cols_of(&r), vec![[2, 3, 4, 2], [4, 5, 6, 1]]);
}

#[test]
fn add_with_wider_right_operand_keeps_left_width() {
    let a = Matrix::new(vec![[1, 2, 3, 1]]);
    let b = Matrix::new(vec![[10, 10, 10, 10], [5, 5, 5, 5]]);
    let r = a.add(&b);
    assert_eq!(r.width(), 1);
    assert_eq!(r.col(0).unwrap(), [11, 12, 13, 11]);
}

#[test]
fn subtract_is_add_of_the_negated_right_operand() {
    let a = Matrix::new(vec![[5, 5, 5, 5], [9, 9, 9, 9]]);
    let b = Matrix::new(vec![[1, 2, 3, 4]]);
    let r = a.subtract(&b);
    assert_eq!(cols_of(&r), vec![[4, 3, 2, 1], [9, 9, 9, 9]]);
}

#[test]
fn scale_multiplies_every_cell() {
    let m = Matrix::new(vec![[1, -2, 3, 1]]);
    assert_eq!(cols_of(&m.scale(-4)), vec![[-4, 8, -12, -4]]);
    assert_eq!(cols_of(&scale_matrix(-4, &m)), vec![[-4, 8, -12, -4]]);
}

#[test]
fn dilation_of_origin_leaves_the_origin_fixed() {
    let r = Matrix::dilation_xyz(2, 3, 4).multiply(&Matrix::origin());
    assert_eq!(r.width(), 1);
    assert_eq!(r.col(0).unwrap(), [0, 0, 0, 1]);
}

#[test]
fn multiply_takes_dot_products_of_rows_and_columns() {
    let a = Matrix::dilation_xyz(2, 3, 4);
    let b = Matrix::new(vec![[1, 2, 3, 1], [4, 5, 6, 1]]);
    let r = a.multiply(&b);
    assert_eq!(cols_of(&r), vec![[2, 6, 12, 1], [8, 15, 24, 1]]);
}

#[test]
fn multiply_by_translation_moves_a_point() {
    // translation by (10, 20, 30) via the homogeneous fourth column
    let t = Matrix::new4x4(
        1, 0, 0, 10,
        0, 1, 0, 20,
        0, 0, 1, 30,
        0, 0, 0, 1,
    );
    let p = Matrix::new(vec![[1, 2, 3, 1]]);
    let r = t.multiply(&p);
    assert_eq!(cols_of(&r), vec![[11, 22, 33, 1]]);
}
