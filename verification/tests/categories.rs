use whitenoise::error::Error;
use whitenoise::properties::Jagged;

fn ints(j: Result<Jagged<f64>, Error>) -> Vec<Option<Vec<i64>>> {
    match j.unwrap() {
        Jagged::I64(c) => c,
        other => panic!("not integer categories: {:?}", other),
    }
}

#[test]
fn deduplicate_keeps_first_occurrences() {
    let j: Jagged<f64> = Jagged::I64(vec![Some(vec![3, 1, 3, 2, 1]), None, Some(vec![])]);
    assert_eq!(ints(j.deduplicate()), vec![Some(vec![3, 1, 2]), None, Some(vec![])]);
}

#[test]
fn deduplicate_twice_is_deduplicate_once() {
    let j: Jagged<f64> = Jagged::I64(vec![Some(vec![5, 5, 4, 5, 4, 6])]);
    let once = ints(j.deduplicate());
    let twice = ints(Jagged::<f64>::I64(once.clone()).deduplicate());
    assert_eq!(once, twice);
}

#[test]
fn deduplicate_keeps_values_and_removes_repeats() {
    let values = vec![9, -1, 9, 0, -1, 7, 7];
    let j: Jagged<f64> = Jagged::I64(vec![Some(values.clone())]);
    let out = ints(j.deduplicate())[0].clone().unwrap();
    for v in values.iter() {
        assert!(out.contains(v));
    }
    for v in out.iter() {
        assert!(values.contains(v));
        assert_eq!(out.iter().filter(|w| *w == v).count(), 1);
    }
}

#[test]
fn deduplicate_of_distinct_values_changes_nothing() {
    let j: Jagged<f64> = Jagged::I64(vec![Some(vec![4, 2, 8])]);
    assert_eq!(ints(j.deduplicate()), vec![Some(vec![4, 2, 8])]);
}

#[test]
fn deduplicate_booleans_and_strings() {
    let j: Jagged<f64> = Jagged::Bool(vec![Some(vec![true, true, false])]);
    match j.deduplicate().unwrap() {
        Jagged::Bool(c) => assert_eq!(c, vec![Some(vec![true, false])]),
        other => panic!("unexpected {:?}", other),
    }
    let j: Jagged<f64> = Jagged::Str(vec![Some(vec!["b".to_string(), "a".to_string(), "b".to_string()])]);
    match j.deduplicate().unwrap() {
        Jagged::Str(c) => assert_eq!(c, vec![Some(vec!["b".to_string(), "a".to_string()])]),
        other => panic!("unexpected {:?}", other),
    }
}

#[test]
fn deduplicate_refuses_float_categories() {
    let j: Jagged<f64> = Jagged::F64(vec![Some(vec![1.0, 1.0])]);
    assert_eq!(j.deduplicate().unwrap_err(), Error::FloatCategories);
}

#[test]
fn standardize_stretches_single_column() {
    let j: Jagged<f64> = Jagged::I64(vec![Some(vec![1, 2])]);
    assert_eq!(ints(j.standardize(&3)), vec![Some(vec![1, 2]); 3]);
    let j: Jagged<f64> = Jagged::I64(vec![Some(vec![1]), None]);
    assert_eq!(ints(j.standardize(&2)), vec![Some(vec![1]), None]);
    let j: Jagged<f64> = Jagged::I64(vec![Some(vec![1]), None]);
    assert_eq!(j.standardize(&3).unwrap_err(), Error::BroadcastFailed);
}
