use matrix4::Matrix;

#[test]
fn render_identity_layout_is_exact() {
    let expected = "/ 1 0 0 0 \\\n| 0 1 0 0 |\n| 0 0 1 0 |\n\\ 0 0 0 1 /\n";
    assert_eq!(Matrix::identity().render(), expected);
}

#[test]
fn render_empty_matrix_shows_only_the_brackets() {
    let expected = "/ \\\n| |\n| |\n\\ /\n";
    assert_eq!(Matrix::empty().render(), expected);
}

#[test]
fn render_writes_negative_and_multi_digit_cells() {
    let m = Matrix::new(vec![[-1, 0, 12, 1], [205, -30, 7, 1]]);
    let expected = "/ -1 205 \\\n| 0 -30 |\n| 12 7 |\n\\ 1 1 /\n";
    assert_eq!(m.render(), expected);
}

#[test]
fn render_handles_the_extreme_machine_values() {
    let m = Matrix::new(vec![[i64::MIN, i64::MAX, 0, 1]]);
    let expected = "/ -9223372036854775808 \\\n| 9223372036854775807 |\n| 0 |\n\\ 1 /\n";
    assert_eq!(m.render(), expected);
}
