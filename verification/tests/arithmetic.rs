use whitenoise::components::{Add, Divide, Multiply, Subtract};
use whitenoise::error::{ArgumentName, CategoryKind, Error};
use whitenoise::properties::{
    AggregatorProperties, ArrayProperties, DataType, Jagged, Nature, NatureCategorical, NatureContinuous, NodeProperties,
    ValueProperties, Vector1DNull,
};
use whitenoise::transforms::BinaryBounds;

fn array(columns: i64, nature: Option<Nature<f64>>, data_type: DataType) -> ArrayProperties<f64> {
    ArrayProperties {
        num_records: Some(10),
        num_columns: Some(columns),
        nullity: false,
        releasable: false,
        c_stability: vec![1.0; columns as usize],
        aggregator: None,
        nature,
        data_type,
        dataset_id: Some(1),
    }
}

fn int_bounds(min: Vec<Option<i64>>, max: Vec<Option<i64>>) -> Option<Nature<f64>> {
    Some(Nature::Continuous(NatureContinuous { min: Vector1DNull::I64(min), max: Vector1DNull::I64(max) }))
}

fn float_bounds(min: Vec<Option<f64>>, max: Vec<Option<f64>>) -> Option<Nature<f64>> {
    Some(Nature::Continuous(NatureContinuous { min: Vector1DNull::F64(min), max: Vector1DNull::F64(max) }))
}

fn int_categories(c: Vec<Option<Vec<i64>>>) -> Option<Nature<f64>> {
    Some(Nature::Categorical(NatureCategorical { categories: Jagged::I64(c) }))
}

fn str_categories(c: Vec<Option<Vec<&str>>>) -> Option<Nature<f64>> {
    Some(Nature::Categorical(NatureCategorical {
        categories: Jagged::Str(c.into_iter().map(|o| o.map(|v| v.into_iter().map(|s| s.to_string()).collect())).collect()),
    }))
}

fn props(left: ArrayProperties<f64>, right: ArrayProperties<f64>) -> NodeProperties<f64> {
    let mut p = NodeProperties::new();
    p.insert("left", ValueProperties::Array(left));
    p.insert("right", ValueProperties::Array(right));
    p
}

fn output(r: Result<ValueProperties<f64>, Error>) -> ArrayProperties<f64> {
    match r.unwrap() {
        ValueProperties::Array(a) => a,
        other => panic!("not an array: {:?}", other),
    }
}

fn add(p: &NodeProperties<f64>) -> Result<ValueProperties<f64>, Error> {
    Add.propagate_property(
        p,
        |l: &f64, r: &f64| Ok(l + r),
        |b: BinaryBounds<f64>| {
            Ok((
                b.left_min.and_then(|l| b.right_min.map(|r| l + r)),
                b.left_max.and_then(|l| b.right_max.map(|r| l + r)),
            ))
        },
        |a: &f64, b: &f64| a.max(*b),
    )
}

fn subtract(p: &NodeProperties<f64>) -> Result<ValueProperties<f64>, Error> {
    Subtract.propagate_property(
        p,
        |l: &f64, r: &f64| Ok(l - r),
        |b: BinaryBounds<f64>| {
            Ok((
                b.left_min.and_then(|l| b.right_min.map(|r| l - r)),
                b.left_max.and_then(|l| b.right_max.map(|r| l - r)),
            ))
        },
        |a: &f64, b: &f64| a.max(*b),
    )
}

fn multiply(p: &NodeProperties<f64>) -> Result<ValueProperties<f64>, Error> {
    Multiply.propagate_property(
        p,
        |l: &f64, r: &f64| {
            let v = l * r;
            if v.is_finite() {
                Ok(v)
            } else {
                Err(Error::MultiplicationOverflow)
            }
        },
        |_b: BinaryBounds<f64>| Ok((None, None)),
        |a: &f64, b: &f64| a.max(*b),
    )
}

fn divide(p: &NodeProperties<f64>) -> Result<ValueProperties<f64>, Error> {
    Divide.propagate_property(
        p,
        |l: &f64, r: &f64| {
            let v = l / r;
            if v.is_finite() {
                Ok(v)
            } else {
                Err(Error::FloatDivisionInvalid)
            }
        },
        |_b: BinaryBounds<f64>| Ok((None, None)),
        |a: &f64, b: &f64| a.max(*b),
        |min: &Option<f64>, max: &Option<f64>| match (min, max) {
            (Some(min), Some(max)) => *min < 0. && *max > 0.,
            (Some(min), None) => *min > 0.,
            (None, Some(max)) => *max < 0.,
            (None, None) => true,
        },
        |v: &f64| v.is_nan() || *v == 0.,
    )
}

#[test]
fn add_integer_bounds() {
    let l = array(2, int_bounds(vec![Some(0), Some(-5)], vec![Some(10), Some(5)]), DataType::I64);
    let r = array(2, int_bounds(vec![Some(1), None], vec![Some(2), Some(3)]), DataType::I64);
    let out = output(add(&props(l, r)));
    match out.nature {
        Some(Nature::Continuous(NatureContinuous { min: Vector1DNull::I64(min), max: Vector1DNull::I64(max) })) => {
            assert_eq!(min, vec![Some(1), None]);
            assert_eq!(max, vec![Some(12), Some(8)]);
        },
        other => panic!("unexpected nature {:?}", other),
    }
    assert_eq!(out.num_columns, Some(2));
    assert_eq!(out.num_records, Some(10));
    assert_eq!(out.c_stability, vec![1.0, 1.0]);
    assert!(!out.nullity);
    assert!(out.aggregator.is_none());
    assert_eq!(out.data_type, DataType::I64);
}

#[test]
fn add_integer_bounds_overflow() {
    let l = array(1, int_bounds(vec![Some(0)], vec![Some(i64::MAX)]), DataType::I64);
    let r = array(1, int_bounds(vec![Some(0)], vec![Some(1)]), DataType::I64);
    assert_eq!(add(&props(l, r)).unwrap_err(), Error::AdditionOverflow);
}

#[test]
fn add_float_bounds_through_closure() {
    let l = array(1, float_bounds(vec![Some(0.5)], vec![Some(1.5)]), DataType::F64);
    let r = array(1, float_bounds(vec![Some(1.0)], vec![None]), DataType::F64);
    let out = output(add(&props(l, r)));
    match out.nature {
        Some(Nature::Continuous(NatureContinuous { min: Vector1DNull::F64(min), max: Vector1DNull::F64(max) })) => {
            assert_eq!(min, vec![Some(1.5)]);
            assert_eq!(max, vec![None]);
        },
        other => panic!("unexpected nature {:?}", other),
    }
}

#[test]
fn add_integer_categories_deduplicated() {
    let l = array(1, int_categories(vec![Some(vec![1, 2])]), DataType::I64);
    let r = array(1, int_categories(vec![Some(vec![1, 10])]), DataType::I64);
    let out = output(add(&props(l, r)));
    match out.nature {
        Some(Nature::Categorical(NatureCategorical { categories: Jagged::I64(c) })) => {
            assert_eq!(c, vec![Some(vec![2, 11, 3, 12])]);
        },
        other => panic!("unexpected nature {:?}", other),
    }
}

#[test]
fn add_removes_repeated_sums() {
    let l = array(1, int_categories(vec![Some(vec![1, 2])]), DataType::I64);
    let r = array(1, int_categories(vec![Some(vec![2, 1])]), DataType::I64);
    let out = output(add(&props(l, r)));
    match out.nature {
        Some(Nature::Categorical(NatureCategorical { categories: Jagged::I64(c) })) => {
            assert_eq!(c, vec![Some(vec![3, 2, 4])]);
        },
        other => panic!("unexpected nature {:?}", other),
    }
}

#[test]
fn add_concatenates_string_categories() {
    let l = array(1, str_categories(vec![Some(vec!["a", "b"])]), DataType::Str);
    let r = array(1, str_categories(vec![Some(vec!["x"])]), DataType::Str);
    let out = output(add(&props(l, r)));
    match out.nature {
        Some(Nature::Categorical(NatureCategorical { categories: Jagged::Str(c) })) => {
            assert_eq!(c, vec![Some(vec!["ax".to_string(), "bx".to_string()])]);
        },
        other => panic!("unexpected nature {:?}", other),
    }
}

#[test]
fn subtract_refuses_string_categories() {
    let l = array(1, str_categories(vec![Some(vec!["a"])]), DataType::Str);
    let r = array(1, str_categories(vec![Some(vec!["x"])]), DataType::Str);
    assert_eq!(subtract(&props(l, r)).unwrap_err(), Error::CategoriesNotPropagated(CategoryKind::Strings));
}

#[test]
fn subtract_integer_bounds() {
    let l = array(1, int_bounds(vec![Some(0)], vec![Some(10)]), DataType::I64);
    let r = array(1, int_bounds(vec![Some(2)], vec![Some(3)]), DataType::I64);
    let out = output(subtract(&props(l, r)));
    match out.nature {
        Some(Nature::Continuous(NatureContinuous { min: Vector1DNull::I64(min), max: Vector1DNull::I64(max) })) => {
            assert_eq!(min, vec![Some(-2)]);
            assert_eq!(max, vec![Some(7)]);
        },
        other => panic!("unexpected nature {:?}", other),
    }
}

#[test]
fn subtract_integer_bounds_underflow() {
    let l = array(1, int_bounds(vec![Some(i64::MIN)], vec![Some(10)]), DataType::I64);
    let r = array(1, int_bounds(vec![Some(2)], vec![Some(3)]), DataType::I64);
    assert_eq!(subtract(&props(l, r)).unwrap_err(), Error::SubtractionOverflow);
}

#[test]
fn multiply_integer_categories() {
    let l = array(1, int_categories(vec![Some(vec![2, 3])]), DataType::I64);
    let r = array(1, int_categories(vec![Some(vec![-1, 5])]), DataType::I64);
    let out = output(multiply(&props(l, r)));
    match out.nature {
        Some(Nature::Categorical(NatureCategorical { categories: Jagged::I64(c) })) => {
            assert_eq!(c, vec![Some(vec![-2, 10, -3, 15])]);
        },
        other => panic!("unexpected nature {:?}", other),
    }
}

#[test]
fn multiply_integer_categories_overflow() {
    let l = array(1, int_categories(vec![Some(vec![i64::MAX])]), DataType::I64);
    let r = array(1, int_categories(vec![Some(vec![2])]), DataType::I64);
    assert_eq!(multiply(&props(l, r)).unwrap_err(), Error::MultiplicationOverflow);
}

#[test]
fn multiply_knows_nothing_of_integer_bounds() {
    let l = array(1, int_bounds(vec![Some(1)], vec![Some(2)]), DataType::I64);
    let r = array(1, int_bounds(vec![Some(3)], vec![Some(4)]), DataType::I64);
    let out = output(multiply(&props(l, r)));
    match out.nature {
        Some(Nature::Continuous(NatureContinuous { min: Vector1DNull::I64(min), max: Vector1DNull::I64(max) })) => {
            assert_eq!(min, vec![None]);
            assert_eq!(max, vec![None]);
        },
        other => panic!("unexpected nature {:?}", other),
    }
}

#[test]
fn float_categories_cannot_be_deduplicated() {
    let l = array(1, Some(Nature::Categorical(NatureCategorical { categories: Jagged::F64(vec![Some(vec![1.0])]) })), DataType::F64);
    let r = array(1, Some(Nature::Categorical(NatureCategorical { categories: Jagged::F64(vec![Some(vec![2.0])]) })), DataType::F64);
    assert_eq!(add(&props(l, r)).unwrap_err(), Error::FloatCategories);
}

#[test]
fn divide_integer_categories_by_zero() {
    let l = array(1, int_categories(vec![Some(vec![4])]), DataType::I64);
    let r = array(1, int_categories(vec![Some(vec![2, 0])]), DataType::I64);
    assert_eq!(divide(&props(l, r)).unwrap_err(), Error::IntegerDivisionInvalid);
}

#[test]
fn divide_integer_categories() {
    let l = array(1, int_categories(vec![Some(vec![7, -7])]), DataType::I64);
    let r = array(1, int_categories(vec![Some(vec![2])]), DataType::I64);
    let out = output(divide(&props(l, r)));
    match out.nature {
        Some(Nature::Categorical(NatureCategorical { categories: Jagged::I64(c) })) => {
            assert_eq!(c, vec![Some(vec![3, -3])]);
        },
        other => panic!("unexpected nature {:?}", other),
    }
    assert!(!out.nullity);
}

#[test]
fn divide_by_data_spanning_zero_may_be_null() {
    let l = array(1, float_bounds(vec![Some(1.0)], vec![Some(2.0)]), DataType::F64);
    let r = array(1, float_bounds(vec![Some(-1.0)], vec![Some(1.0)]), DataType::F64);
    assert!(output(divide(&props(l, r))).nullity);
    let l = array(1, float_bounds(vec![Some(1.0)], vec![Some(2.0)]), DataType::F64);
    let r = array(1, float_bounds(vec![Some(1.0)], vec![Some(3.0)]), DataType::F64);
    assert!(!output(divide(&props(l, r))).nullity);
}

#[test]
fn divide_by_unknown_nature_may_be_null() {
    let l = array(1, None, DataType::F64);
    let r = array(1, None, DataType::F64);
    let out = output(divide(&props(l, r)));
    assert!(out.nullity);
    assert!(out.nature.is_none());
}

#[test]
fn divide_by_zero_category_may_be_null() {
    let cats = |v: Vec<f64>| Some(Nature::Categorical(NatureCategorical { categories: Jagged::F64(vec![Some(v)]) }));
    let l = array(1, None, DataType::F64);
    let r = array(1, cats(vec![1.0, 0.0]), DataType::F64);
    assert!(output(divide(&props(l, r))).nullity);
    let l = array(1, None, DataType::F64);
    let r = array(1, cats(vec![1.0, 2.0]), DataType::F64);
    assert!(!output(divide(&props(l, r))).nullity);
}

#[test]
fn arithmetic_needs_both_arguments() {
    let mut p = NodeProperties::new();
    p.insert("right", ValueProperties::Array(array(1, None, DataType::I64)));
    assert_eq!(add(&p).unwrap_err(), Error::MissingProperty(ArgumentName::Left));
    let mut p = NodeProperties::new();
    p.insert("left", ValueProperties::Array(array(1, None, DataType::I64)));
    assert_eq!(add(&p).unwrap_err(), Error::MissingProperty(ArgumentName::Right));
    let mut p = NodeProperties::new();
    p.insert("left", ValueProperties::Array(array(1, None, DataType::I64)));
    p.insert("right", ValueProperties::Hashmap);
    assert_eq!(add(&p).unwrap_err(), Error::NotAnArray(ArgumentName::Right));
}

#[test]
fn arithmetic_refuses_aggregated_left_argument() {
    let mut l = array(1, None, DataType::I64);
    l.aggregator = Some(AggregatorProperties { component_id: 4 });
    let r = array(1, None, DataType::I64);
    assert_eq!(add(&props(l, r)).unwrap_err(), Error::AggregatedData);
}

#[test]
fn arithmetic_with_unknown_column_count() {
    let mut l = array(1, None, DataType::I64);
    l.num_columns = None;
    let r = array(1, None, DataType::I64);
    assert_eq!(subtract(&props(l, r)).unwrap_err(), Error::UnknownColumnCount);
}

#[test]
fn arithmetic_combines_stability_and_releasability() {
    let mut l = array(2, None, DataType::I64);
    l.c_stability = vec![1.0, 5.0];
    l.releasable = true;
    l.nullity = true;
    let mut r = array(2, None, DataType::I64);
    r.c_stability = vec![3.0];
    r.releasable = true;
    let out = output(add(&props(l, r)));
    assert_eq!(out.c_stability, vec![3.0, 5.0]);
    assert!(out.releasable);
    assert!(out.nullity);
}

#[test]
fn arithmetic_refuses_stability_of_wrong_length() {
    let mut l = array(3, None, DataType::I64);
    l.c_stability = vec![1.0, 5.0];
    let r = array(3, None, DataType::I64);
    assert_eq!(add(&props(l, r)).unwrap_err(), Error::BroadcastFailed);
}

#[test]
fn arithmetic_refuses_mixed_natures() {
    let l = array(1, int_categories(vec![Some(vec![1])]), DataType::I64);
    let r = array(1, str_categories(vec![Some(vec!["x"])]), DataType::I64);
    assert_eq!(add(&props(l, r)).unwrap_err(), Error::NaturesNotHomogeneous);
    let l = array(1, int_bounds(vec![Some(1)], vec![Some(2)]), DataType::I64);
    let r = array(1, float_bounds(vec![Some(1.0)], vec![Some(2.0)]), DataType::I64);
    assert_eq!(add(&props(l, r)).unwrap_err(), Error::BoundsNotNumeric);
}

#[test]
fn arithmetic_with_continuous_and_categorical_natures_knows_nothing() {
    let l = array(1, int_bounds(vec![Some(1)], vec![Some(2)]), DataType::I64);
    let r = array(1, int_categories(vec![Some(vec![1])]), DataType::I64);
    assert!(output(add(&props(l, r))).nature.is_none());
}

#[test]
fn arithmetic_broadcasts_bounds_of_single_column() {
    let mut l = array(3, int_bounds(vec![Some(0), Some(1), Some(2)], vec![Some(10), Some(11), Some(12)]), DataType::I64);
    l.c_stability = vec![1.0];
    let mut r = array(1, int_bounds(vec![Some(100)], vec![Some(200)]), DataType::I64);
    r.releasable = true;
    let out = output(add(&props(l, r)));
    match out.nature {
        Some(Nature::Continuous(NatureContinuous { min: Vector1DNull::I64(min), max: Vector1DNull::I64(max) })) => {
            assert_eq!(min, vec![Some(100), Some(101), Some(102)]);
            assert_eq!(max, vec![Some(210), Some(211), Some(212)]);
        },
        other => panic!("unexpected nature {:?}", other),
    }
    assert_eq!(out.num_columns, Some(3));
    assert_eq!(out.c_stability, vec![1.0, 1.0, 1.0]);
}

#[test]
fn failure_of_float_operator_is_reported() {
    let cats = |v: Vec<f64>| Some(Nature::Categorical(NatureCategorical { categories: Jagged::F64(vec![Some(v)]) }));
    let l = array(1, cats(vec![1.0]), DataType::F64);
    let r = array(1, cats(vec![0.0]), DataType::F64);
    assert_eq!(divide(&props(l, r)).unwrap_err(), Error::FloatDivisionInvalid);
}

#[test]
fn failure_of_float_bounds_operator_is_reported() {
    let l = array(1, float_bounds(vec![Some(1.0)], vec![Some(2.0)]), DataType::F64);
    let r = array(1, float_bounds(vec![Some(-1.0)], vec![Some(1.0)]), DataType::F64);
    let result = Divide.propagate_property(
        &props(l, r),
        |l: &f64, r: &f64| Ok(l / r),
        |b: BinaryBounds<f64>| match (b.right_min, b.right_max) {
            (Some(d), Some(f)) if *d <= 0. && *f >= 0. => Err(Error::PotentialDivisionByZero),
            _ => Ok((None, None)),
        },
        |a: &f64, b: &f64| a.max(*b),
        |_min: &Option<f64>, _max: &Option<f64>| true,
        |_v: &f64| false,
    );
    assert_eq!(result.unwrap_err(), Error::PotentialDivisionByZero);
}

#[test]
fn output_bounds_of_sum_contain_every_sum() {
    let l = array(1, int_bounds(vec![Some(-3)], vec![Some(4)]), DataType::I64);
    let r = array(1, int_bounds(vec![Some(10)], vec![Some(12)]), DataType::I64);
    let out = output(add(&props(l, r)));
    let (lo, hi) = match out.nature {
        Some(Nature::Continuous(NatureContinuous { min: Vector1DNull::I64(min), max: Vector1DNull::I64(max) })) => {
            (min[0].unwrap(), max[0].unwrap())
        },
        other => panic!("unexpected nature {:?}", other),
    };
    for x in -3..=4 {
        for y in 10..=12 {
            assert!(lo <= x + y && x + y <= hi);
        }
    }
}

#[test]
fn output_categories_of_product_contain_every_product() {
    let left = vec![2, -3, 5];
    let right = vec![7, -1];
    let l = array(1, int_categories(vec![Some(left.clone())]), DataType::I64);
    let r = array(1, int_categories(vec![Some(right.clone())]), DataType::I64);
    let out = output(multiply(&props(l, r)));
    let c = match out.nature {
        Some(Nature::Categorical(NatureCategorical { categories: Jagged::I64(c) })) => c[0].clone().unwrap(),
        other => panic!("unexpected nature {:?}", other),
    };
    for x in left.iter() {
        for y in right.iter() {
            assert!(c.contains(&(x * y)));
        }
    }
}
