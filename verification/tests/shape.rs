use whitenoise::error::Error;
use whitenoise::properties::{AggregatorProperties, ArrayProperties, DataType};
use whitenoise::transforms::{broadcast, propagate_binary_shape};

fn array(columns: Option<i64>, rows: Option<i64>, releasable: bool, dataset: Option<i64>) -> ArrayProperties<f64> {
    ArrayProperties {
        num_records: rows,
        num_columns: columns,
        nullity: false,
        releasable,
        c_stability: vec![1.0],
        aggregator: None,
        nature: None,
        data_type: DataType::I64,
        dataset_id: dataset,
    }
}

#[test]
fn broadcast_keeps_vector_of_requested_length() {
    assert_eq!(broadcast(&[1, 2, 3], &3), Ok(vec![1, 2, 3]));
}

#[test]
fn broadcast_repeats_single_entry() {
    assert_eq!(broadcast(&[7], &4), Ok(vec![7, 7, 7, 7]));
}

#[test]
fn broadcast_refuses_other_lengths() {
    assert_eq!(broadcast(&[1, 2], &3), Err(Error::BroadcastFailed));
    assert_eq!(broadcast::<i64>(&[], &2), Err(Error::BroadcastFailed));
}

#[test]
fn broadcast_of_single_entry_to_non_positive_length_is_empty() {
    assert_eq!(broadcast(&[7], &0), Ok(vec![]));
    assert_eq!(broadcast(&[7], &-2), Ok(vec![]));
}

#[test]
fn broadcast_twice_is_broadcast_once() {
    let once = broadcast(&[5], &3).unwrap();
    let twice = broadcast(&once, &3).unwrap();
    assert_eq!(once, twice);
}

#[test]
fn shape_of_equal_arguments() {
    let l = array(Some(3), Some(10), false, Some(1));
    let r = array(Some(3), Some(10), false, Some(2));
    assert_eq!(propagate_binary_shape(&l, &r), Ok((3, Some(10))));
}

#[test]
fn shape_broadcasts_releasable_single_column_and_row() {
    let l = array(Some(4), Some(10), false, Some(1));
    let r = array(Some(1), Some(1), true, Some(2));
    assert_eq!(propagate_binary_shape(&l, &r), Ok((4, Some(10))));
    assert_eq!(propagate_binary_shape(&r, &l), Ok((4, Some(10))));
}

#[test]
fn shape_refuses_unreleasable_single_column() {
    let l = array(Some(4), Some(10), false, Some(1));
    let r = array(Some(1), Some(10), false, Some(1));
    assert_eq!(propagate_binary_shape(&l, &r), Err(Error::ColumnCountMismatch));
}

#[test]
fn shape_needs_known_column_counts() {
    let l = array(None, Some(10), false, Some(1));
    let r = array(Some(1), Some(10), false, Some(1));
    assert_eq!(propagate_binary_shape(&l, &r), Err(Error::UnknownColumnCount));
    assert_eq!(propagate_binary_shape(&r, &l), Err(Error::UnknownColumnCount));
}

#[test]
fn shape_with_unknown_rows_from_one_dataset() {
    let l = array(Some(2), None, false, Some(1));
    let r = array(Some(2), Some(5), false, Some(1));
    assert_eq!(propagate_binary_shape(&l, &r), Ok((2, None)));
}

#[test]
fn shape_with_unknown_rows_from_two_datasets() {
    let l = array(Some(2), None, false, Some(1));
    let r = array(Some(2), Some(5), false, Some(2));
    assert_eq!(propagate_binary_shape(&l, &r), Err(Error::UnknownRowsAcrossDatasets));
}

#[test]
fn shape_with_different_rows() {
    let l = array(Some(2), Some(4), false, Some(1));
    let r = array(Some(2), Some(5), false, Some(1));
    assert_eq!(propagate_binary_shape(&l, &r), Ok((2, None)));
    let r = array(Some(2), Some(5), false, Some(3));
    assert_eq!(propagate_binary_shape(&l, &r), Err(Error::RowCountMismatch));
}

#[test]
fn shape_is_symmetric() {
    let cases = vec![
        (array(Some(3), Some(1), true, None), array(Some(1), Some(7), true, Some(2))),
        (array(Some(2), None, false, Some(1)), array(Some(2), Some(5), false, Some(1))),
        (array(Some(2), Some(4), false, Some(1)), array(Some(3), Some(4), false, Some(1))),
    ];
    for (l, r) in cases.iter() {
        assert_eq!(propagate_binary_shape(l, r), propagate_binary_shape(r, l));
    }
}

#[test]
fn shape_ignores_aggregation() {
    let mut l = array(Some(2), Some(4), false, Some(1));
    l.aggregator = Some(AggregatorProperties { component_id: 3 });
    let r = array(Some(2), Some(4), false, Some(1));
    assert_eq!(propagate_binary_shape(&l, &r), Ok((2, Some(4))));
}
