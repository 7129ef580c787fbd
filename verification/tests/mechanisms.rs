use whitenoise::mechanisms::add_noise_columns;

#[test]
fn noise_is_added_column_by_column() {
    let data = vec![vec![1, 2, 3], vec![10, 20, 30]];
    let noise = vec![vec![-1, 0, 5], vec![2, 2, 2]];
    assert_eq!(add_noise_columns(&data, &noise), vec![vec![0, 2, 8], vec![12, 22, 32]]);
}

#[test]
fn values_without_noise_are_kept() {
    let data = vec![vec![1, 2, 3], vec![10, 20, 30], vec![7]];
    let noise = vec![vec![100], vec![1, 1]];
    assert_eq!(add_noise_columns(&data, &noise), vec![vec![101, 2, 3], vec![11, 21, 30], vec![7]]);
}

#[test]
fn zero_noise_keeps_data() {
    let data = vec![vec![i64::MIN, 0, i64::MAX]];
    let noise = vec![vec![0, 0, 0]];
    assert_eq!(add_noise_columns(&data, &noise), data);
}
