use matrix4::Matrix;

fn cols_of(m: &Matrix) -> Vec<[i64; 4]> {
    let mut out = Vec::new();
    for j in 0..m.width() {
        out.push(m.col(j).unwrap());
    }
    out
}

#[test]
fn empty_matrix_has_width_zero() {
    let m = Matrix::empty();
    assert_eq!(m.width(), 0);
}

#[test]
fn origin_is_homogeneous_zero_point() {
    let m = Matrix::origin();
    assert_eq!(m.width(), 1);
    assert_eq!(m.col(0).unwrap(), [0, 0, 0, 1]);
}

#[test]
fn new_preserves_column_order() {
    let m = Matrix::new(vec![[1, 2, 3, 1], [4, 5, 6, 1]]);
    assert_eq!(m.width(), 2);
    assert_eq!(m.col(0).unwrap(), [1, 2, 3, 1]);
    assert_eq!(m.col(1).unwrap(), [4, 5, 6, 1]);
}

#[test]
fn new4x4_maps_row_major_input_without_reuse() {
    let m = Matrix::new4x4(
        1, 2, 3, 4,
        5, 6, 7, 8,
        9, 10, 11, 12,
        13, 14, 15, 16,
    );
    for row in 0..4 {
        for col in 0..4 {
            let expected = (row * 4 + col + 1) as i64;
            assert_eq!(m.get(row, col).unwrap(), expected);
        }
    }
}

#[test]
fn identity_has_ones_on_the_diagonal() {
    let m = Matrix::identity();
    assert_eq!(m.width(), 4);
    for row in 0..4 {
        for col in 0..4 {
            let expected = if row == col { 1 } else { 0 };
            assert_eq!(m.get(row, col).unwrap(), expected);
        }
    }
}

#[test]
fn dilation_scales_xyz_and_keeps_the_w_row() {
    let m = Matrix::dilation(5);
    assert_eq!(cols_of(&m), vec![
        [5, 0, 0, 0],
        [0, 5, 0, 0],
        [0, 0, 5, 0],
        [0, 0, 0, 1],
    ]);
}

#[test]
fn dilation_xyz_is_the_diagonal_scaling_matrix() {
    let m = Matrix::dilation_xyz(2, 3, 4);
    assert_eq!(cols_of(&m), vec![
        [2, 0, 0, 0],
        [0, 3, 0, 0],
        [0, 0, 4, 0],
        [0, 0, 0, 1],
    ]);
}

#[test]
fn col_vec_and_row_read_back_storage() {
    let m = Matrix::new(vec![[1, 2, 3, 1], [4, 5, 6, 1]]);
    assert_eq!(m.col_vec(1).unwrap(), vec![4, 5, 6, 1]);
    assert_eq!(m.row(0).unwrap(), vec![1, 4]);
    assert_eq!(m.row(3).unwrap(), vec![1, 1]);
}

#[test]
fn get_and_set_access_single_cells() {
    let mut m = Matrix::new(vec![[1, 2, 3, 1]]);
    assert_eq!(m.get(2, 0).unwrap(), 3);
    m.set(2, 0, 30).unwrap();
    assert_eq!(m.get(2, 0).unwrap(), 30);
    assert_eq!(m.col(0).unwrap(), [1, 2, 30, 1]);
}

#[test]
fn push_col_grows_width_by_one() {
    let mut m = Matrix::empty();
    m.push_col([7, 8, 9, 1]);
    assert_eq!(m.width(), 1);
    assert_eq!(m.col(0).unwrap(), [7, 8, 9, 1]);
}

#[test]
fn append_grows_width_and_copies_columns() {
    let mut a = Matrix::new(vec![[1, 2, 3, 1]]);
    let b = Matrix::new(vec![[4, 5, 6, 1], [7, 8, 9, 1]]);
    let w = a.width();
    a.append(b);
    assert_eq!(a.width(), w + 2);
    assert_eq!(a.col(w).unwrap(), [4, 5, 6, 1]);
    assert_eq!(a.col(w + 1).unwrap(), [7, 8, 9, 1]);
    assert_eq!(a.col(0).unwrap(), [1, 2, 3, 1]);
}

#[test]
fn push_edge_appends_both_endpoints_in_order() {
    let mut m = Matrix::new(vec![[9, 9, 9, 1]]);
    let w = m.width();
    m.push_edge([1, 2, 3, 1], [4, 5, 6, 1]);
    assert_eq!(m.width(), w + 2);
    assert_eq!(m.col(w).unwrap(), [1, 2, 3, 1]);
    assert_eq!(m.col(w + 1).unwrap(), [4, 5, 6, 1]);
}

#[test]
fn out_of_range_indices_report_bounds_errors() {
    let mut m = Matrix::new(vec![[1, 2, 3, 1], [4, 5, 6, 1]]);
    let w = m.width();
    assert!(m.col(w).is_err());
    assert!(m.col_vec(w).is_err());
    assert!(m.row(4).is_err());
    assert!(m.get(4, 0).is_err());
    assert!(m.get(0, w).is_err());
    assert!(m.set(4, 0, 99).is_err());
    assert!(m.set(0, w, 99).is_err());
    // a failed set leaves the matrix unchanged
    assert_eq!(m.col(0).unwrap(), [1, 2, 3, 1]);
    assert_eq!(m.col(1).unwrap(), [4, 5, 6, 1]);
}

#[test]
fn clone_copies_all_columns_without_aliasing() {
    let original = Matrix::new(vec![[1, 2, 3, 1]]);
    let mut copy = original.clone();
    copy.set(0, 0, 99).unwrap();
    assert_eq!(original.col(0).unwrap(), [1, 2, 3, 1]);
    assert_eq!(copy.col(0).unwrap(), [99, 2, 3, 1]);
}
