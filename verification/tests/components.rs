use whitenoise::components::{And, Equal, GreaterThan, LessThan, Log, Modulo, Negate, Negative, Or, Power};
use whitenoise::error::{ArgumentName, CategoryKind, Error};
use whitenoise::properties::{
    AggregatorProperties, ArrayProperties, DataType, Jagged, Nature, NatureCategorical, NatureContinuous, NodeProperties,
    ValueProperties, Vector1DNull,
};
use whitenoise::transforms::{BinaryBounds, UnaryBounds};

fn array(columns: i64, nature: Option<Nature<f64>>, data_type: DataType) -> ArrayProperties<f64> {
    ArrayProperties {
        num_records: Some(10),
        num_columns: Some(columns),
        nullity: false,
        releasable: false,
        c_stability: vec![2.0],
        aggregator: None,
        nature,
        data_type,
        dataset_id: Some(1),
    }
}

fn int_bounds(min: Vec<Option<i64>>, max: Vec<Option<i64>>) -> Option<Nature<f64>> {
    Some(Nature::Continuous(NatureContinuous { min: Vector1DNull::I64(min), max: Vector1DNull::I64(max) }))
}

fn float_bounds(min: Vec<Option<f64>>, max: Vec<Option<f64>>) -> Option<Nature<f64>> {
    Some(Nature::Continuous(NatureContinuous { min: Vector1DNull::F64(min), max: Vector1DNull::F64(max) }))
}

fn int_categories(c: Vec<Option<Vec<i64>>>) -> Option<Nature<f64>> {
    Some(Nature::Categorical(NatureCategorical { categories: Jagged::I64(c) }))
}

fn bool_categories(c: Vec<Option<Vec<bool>>>) -> Option<Nature<f64>> {
    Some(Nature::Categorical(NatureCategorical { categories: Jagged::Bool(c) }))
}

fn float_categories(c: Vec<Option<Vec<f64>>>) -> Option<Nature<f64>> {
    Some(Nature::Categorical(NatureCategorical { categories: Jagged::F64(c) }))
}

fn two(left_name: &str, left: ArrayProperties<f64>, right_name: &str, right: ArrayProperties<f64>) -> NodeProperties<f64> {
    let mut p = NodeProperties::new();
    p.insert(left_name, ValueProperties::Array(left));
    p.insert(right_name, ValueProperties::Array(right));
    p
}

fn one(name: &str, data: ArrayProperties<f64>) -> NodeProperties<f64> {
    let mut p = NodeProperties::new();
    p.insert(name, ValueProperties::Array(data));
    p
}

fn output(r: Result<ValueProperties<f64>, Error>) -> ArrayProperties<f64> {
    match r.unwrap() {
        ValueProperties::Array(a) => a,
        other => panic!("not an array: {:?}", other),
    }
}

fn power(p: &NodeProperties<f64>) -> Result<ValueProperties<f64>, Error> {
    Power.propagate_property(p, |l: &f64, r: &f64| Ok(l.powf(*r)))
}

fn log(p: &NodeProperties<f64>) -> Result<ValueProperties<f64>, Error> {
    Log.propagate_property(
        p,
        |v: &f64, base: &f64| Ok(v.log(*base)),
        |min: &f64, max: &f64| *min > 0. && *max < 1. || *min > 1.,
        |min: &f64| *min > 0.,
    )
}

fn negative(p: &NodeProperties<f64>) -> Result<ValueProperties<f64>, Error> {
    Negative.propagate_property(
        p,
        |v: &f64| Ok(-*v),
        |b: UnaryBounds<f64>| Ok((b.max.map(|v| -v), b.min.map(|v| -v))),
    )
}

fn modulo(p: &NodeProperties<f64>) -> Result<ValueProperties<f64>, Error> {
    Modulo.propagate_property(
        p,
        |l: &f64, r: &f64| Ok(l.rem_euclid(*r)),
        |b: BinaryBounds<f64>| Ok((Some(0.), *b.right_max)),
        |v: &f64| *v > 0.,
    )
}

fn smax(a: &f64, b: &f64) -> f64 {
    a.max(*b)
}

#[test]
fn power_of_integer_categories() {
    let p = two("data", array(1, int_categories(vec![Some(vec![2, 3])]), DataType::I64),
        "radical", array(1, int_bounds(vec![Some(0)], vec![Some(3)]), DataType::I64));
    // the radical's nature is continuous, so nothing is known of the output
    let out = output(power(&p));
    assert!(out.nature.is_none());
    let p = two("data", array(1, int_categories(vec![Some(vec![2, 3])]), DataType::I64),
        "radical", array(1, int_categories(vec![Some(vec![2])]), DataType::I64));
    // the radical has no known lower bound
    assert_eq!(power(&p).unwrap_err(), Error::NotContinuous);
}

#[test]
fn power_keeps_data_properties() {
    let mut d = array(2, int_bounds(vec![Some(1), Some(2)], vec![Some(3), Some(4)]), DataType::I64);
    d.nullity = true;
    d.releasable = true;
    let p = two("data", d, "radical", array(1, int_bounds(vec![Some(2)], vec![Some(2)]), DataType::I64));
    let out = output(power(&p));
    assert!(out.nullity);
    assert!(out.releasable);
    assert_eq!(out.num_columns, Some(2));
    assert_eq!(out.c_stability, vec![2.0]);
    match out.nature {
        Some(Nature::Continuous(NatureContinuous { min: Vector1DNull::I64(min), max: Vector1DNull::I64(max) })) => {
            assert_eq!(min, vec![None, None]);
            assert_eq!(max, vec![None, None]);
        },
        other => panic!("unexpected nature {:?}", other),
    }
}

#[test]
fn power_refuses_negative_exponent() {
    let p = two("data", array(1, None, DataType::I64),
        "radical", array(2, int_bounds(vec![Some(0), Some(-1)], vec![Some(3), Some(3)]), DataType::I64));
    assert_eq!(power(&p).unwrap_err(), Error::NegativePower);
}

#[test]
fn power_refuses_mixed_types() {
    let p = two("data", array(1, None, DataType::I64), "radical", array(1, None, DataType::F64));
    assert_eq!(power(&p).unwrap_err(), Error::PowerArgumentTypes);
}

#[test]
fn power_of_floats() {
    let p = two("data", array(1, float_bounds(vec![Some(1.0)], vec![Some(2.0)]), DataType::F64),
        "radical", array(1, float_bounds(vec![Some(2.0)], vec![Some(2.0)]), DataType::F64));
    let out = output(power(&p));
    match out.nature {
        Some(Nature::Continuous(NatureContinuous { min: Vector1DNull::F64(min), max: Vector1DNull::F64(max) })) => {
            assert_eq!(min, vec![None]);
            assert_eq!(max, vec![None]);
        },
        other => panic!("unexpected nature {:?}", other),
    }
}

#[test]
fn power_arguments_are_required() {
    let p = one("data", array(1, None, DataType::I64));
    assert_eq!(power(&p).unwrap_err(), Error::MissingProperty(ArgumentName::Radical));
    let p = one("radical", array(1, None, DataType::I64));
    assert_eq!(power(&p).unwrap_err(), Error::MissingProperty(ArgumentName::Data));
}

#[test]
fn log_of_float_data() {
    let p = two("data", array(1, float_bounds(vec![Some(1.0)], vec![Some(8.0)]), DataType::F64),
        "base", array(1, float_bounds(vec![Some(2.0)], vec![Some(2.0)]), DataType::F64));
    let out = output(log(&p));
    match out.nature {
        Some(Nature::Continuous(NatureContinuous { min: Vector1DNull::F64(min), max: Vector1DNull::F64(max) })) => {
            assert_eq!(min, vec![None]);
            assert_eq!(max, vec![None]);
        },
        other => panic!("unexpected nature {:?}", other),
    }
}

#[test]
fn log_refuses_integer_data() {
    let p = two("data", array(1, None, DataType::I64), "base", array(1, None, DataType::F64));
    assert_eq!(log(&p).unwrap_err(), Error::LogArgumentTypes);
}

#[test]
fn log_refuses_base_spanning_one() {
    let p = two("data", array(1, float_bounds(vec![Some(1.0)], vec![Some(8.0)]), DataType::F64),
        "base", array(1, float_bounds(vec![Some(0.5)], vec![Some(2.0)]), DataType::F64));
    assert_eq!(log(&p).unwrap_err(), Error::LogBaseOutOfRange);
}

#[test]
fn log_refuses_data_that_may_not_be_positive() {
    let p = two("data", array(1, float_bounds(vec![Some(0.0)], vec![Some(8.0)]), DataType::F64),
        "base", array(1, float_bounds(vec![Some(0.25)], vec![Some(0.5)]), DataType::F64));
    assert_eq!(log(&p).unwrap_err(), Error::LogDataNotPositive);
}

#[test]
fn log_reports_missing_data_as_left() {
    let p = one("base", array(1, None, DataType::F64));
    assert_eq!(log(&p).unwrap_err(), Error::MissingProperty(ArgumentName::Left));
}

#[test]
fn log_needs_known_bounds() {
    let p = two("data", array(1, float_bounds(vec![Some(1.0)], vec![Some(8.0)]), DataType::F64),
        "base", array(1, float_bounds(vec![Some(2.0)], vec![None]), DataType::F64));
    assert_eq!(log(&p).unwrap_err(), Error::BoundsUnknown);
    let p = two("data", array(1, float_bounds(vec![Some(1.0)], vec![Some(8.0)]), DataType::F64),
        "base", array(1, int_bounds(vec![Some(2)], vec![Some(2)]), DataType::F64));
    assert_eq!(log(&p).unwrap_err(), Error::BoundsWrongType);
}

#[test]
fn negative_of_integer_bounds() {
    let p = one("data", array(2, int_bounds(vec![Some(-3), None], vec![Some(5), Some(7)]), DataType::I64));
    let out = output(negative(&p));
    match out.nature {
        Some(Nature::Continuous(NatureContinuous { min: Vector1DNull::I64(min), max: Vector1DNull::I64(max) })) => {
            assert_eq!(min, vec![Some(-5), Some(-7)]);
            assert_eq!(max, vec![Some(3), None]);
        },
        other => panic!("unexpected nature {:?}", other),
    }
}

#[test]
fn negative_of_integer_categories() {
    let p = one("data", array(1, int_categories(vec![Some(vec![1, -2]), None]), DataType::I64));
    // two columns of categories do not stretch to one
    assert_eq!(negative(&p).unwrap_err(), Error::BroadcastFailed);
    let p = one("data", array(2, int_categories(vec![Some(vec![1, -2]), None]), DataType::I64));
    let out = output(negative(&p));
    match out.nature {
        Some(Nature::Categorical(NatureCategorical { categories: Jagged::I64(c) })) => {
            assert_eq!(c, vec![Some(vec![-1, 2]), None]);
        },
        other => panic!("unexpected nature {:?}", other),
    }
}

#[test]
fn negative_of_float_bounds_and_categories() {
    let p = one("data", array(1, float_bounds(vec![Some(-1.5)], vec![Some(2.5)]), DataType::F64));
    match output(negative(&p)).nature {
        Some(Nature::Continuous(NatureContinuous { min: Vector1DNull::F64(min), max: Vector1DNull::F64(max) })) => {
            assert_eq!(min, vec![Some(-2.5)]);
            assert_eq!(max, vec![Some(1.5)]);
        },
        other => panic!("unexpected nature {:?}", other),
    }
    let p = one("data", array(1, float_categories(vec![Some(vec![1.0, -2.0])]), DataType::F64));
    match output(negative(&p)).nature {
        Some(Nature::Categorical(NatureCategorical { categories: Jagged::F64(c) })) => {
            assert_eq!(c, vec![Some(vec![-1.0, 2.0])]);
        },
        other => panic!("unexpected nature {:?}", other),
    }
}

#[test]
fn negative_refuses_boolean_categories() {
    let p = one("data", array(1, bool_categories(vec![Some(vec![true])]), DataType::Bool));
    assert_eq!(negative(&p).unwrap_err(), Error::CategoriesNotPropagated(CategoryKind::Booleans));
}

#[test]
fn negative_accepts_aggregated_data() {
    let mut d = array(1, None, DataType::I64);
    d.aggregator = Some(AggregatorProperties { component_id: 2 });
    let out = output(negative(&one("data", d)));
    assert_eq!(out.aggregator, Some(AggregatorProperties { component_id: 2 }));
}

#[test]
fn negative_twice_restores_integer_bounds() {
    let p = one("data", array(2, int_bounds(vec![Some(-3), None], vec![Some(5), Some(7)]), DataType::I64));
    let once = output(negative(&p));
    let twice = output(negative(&one("data", once)));
    match twice.nature {
        Some(Nature::Continuous(NatureContinuous { min: Vector1DNull::I64(min), max: Vector1DNull::I64(max) })) => {
            assert_eq!(min, vec![Some(-3), None]);
            assert_eq!(max, vec![Some(5), Some(7)]);
        },
        other => panic!("unexpected nature {:?}", other),
    }
}

#[test]
fn modulo_of_integer_bounds() {
    let p = two("left", array(1, int_bounds(vec![Some(-100)], vec![Some(100)]), DataType::I64),
        "right", array(1, int_bounds(vec![Some(3)], vec![Some(7)]), DataType::I64));
    match output(modulo(&p)).nature {
        Some(Nature::Continuous(NatureContinuous { min: Vector1DNull::I64(min), max: Vector1DNull::I64(max) })) => {
            assert_eq!(min, vec![Some(0)]);
            assert_eq!(max, vec![Some(6)]);
        },
        other => panic!("unexpected nature {:?}", other),
    }
}

#[test]
fn modulo_of_float_bounds() {
    let p = two("left", array(1, float_bounds(vec![Some(-1.0)], vec![Some(1.0)]), DataType::F64),
        "right", array(1, float_bounds(vec![Some(0.5)], vec![Some(4.0)]), DataType::F64));
    match output(modulo(&p)).nature {
        Some(Nature::Continuous(NatureContinuous { min: Vector1DNull::F64(min), max: Vector1DNull::F64(max) })) => {
            assert_eq!(min, vec![Some(0.0)]);
            assert_eq!(max, vec![Some(4.0)]);
        },
        other => panic!("unexpected nature {:?}", other),
    }
}

#[test]
fn modulo_refuses_divisor_that_may_not_be_positive() {
    let p = two("left", array(1, None, DataType::I64), "right", array(1, int_bounds(vec![Some(0)], vec![Some(7)]), DataType::I64));
    assert_eq!(modulo(&p).unwrap_err(), Error::NonPositiveDivisor);
    let p = two("left", array(1, None, DataType::F64), "right", array(1, float_bounds(vec![Some(-0.5)], vec![Some(7.0)]), DataType::F64));
    assert_eq!(modulo(&p).unwrap_err(), Error::NonPositiveDivisor);
}

#[test]
fn modulo_refuses_mixed_types() {
    let p = two("left", array(1, None, DataType::I64), "right", array(1, None, DataType::Bool));
    assert_eq!(modulo(&p).unwrap_err(), Error::PowerArgumentTypes);
}

#[test]
fn and_or_of_boolean_categories() {
    let l = array(1, bool_categories(vec![Some(vec![true, false])]), DataType::Bool);
    let r = array(1, bool_categories(vec![Some(vec![true])]), DataType::Bool);
    match output(And.propagate_property(&two("left", l, "right", r), smax)).nature {
        Some(Nature::Categorical(NatureCategorical { categories: Jagged::Bool(c) })) => {
            assert_eq!(c, vec![Some(vec![true, false])]);
        },
        other => panic!("unexpected nature {:?}", other),
    }
    let l = array(1, bool_categories(vec![Some(vec![false])]), DataType::Bool);
    let r = array(1, bool_categories(vec![Some(vec![false])]), DataType::Bool);
    match output(Or.propagate_property(&two("left", l, "right", r), smax)).nature {
        Some(Nature::Categorical(NatureCategorical { categories: Jagged::Bool(c) })) => {
            assert_eq!(c, vec![Some(vec![false])]);
        },
        other => panic!("unexpected nature {:?}", other),
    }
}

#[test]
fn and_keeps_left_nullity_and_combines_the_rest() {
    let mut l = array(2, None, DataType::Bool);
    l.releasable = true;
    l.c_stability = vec![1.0, 4.0];
    let mut r = array(2, None, DataType::Bool);
    r.nullity = true;
    r.c_stability = vec![3.0];
    let out = output(And.propagate_property(&two("left", l, "right", r), smax));
    assert!(!out.nullity);
    assert!(!out.releasable);
    assert_eq!(out.c_stability, vec![3.0, 4.0]);
    assert_eq!(out.num_columns, Some(2));
}

#[test]
fn and_refuses_integer_categories() {
    let l = array(1, int_categories(vec![Some(vec![1])]), DataType::I64);
    let r = array(1, int_categories(vec![Some(vec![1])]), DataType::I64);
    assert_eq!(And.propagate_property(&two("left", l, "right", r), smax).unwrap_err(),
        Error::CategoriesNotPropagated(CategoryKind::Integers));
}

#[test]
fn negate_of_boolean_categories() {
    let p = one("left", array(1, bool_categories(vec![Some(vec![true])]), DataType::Bool));
    match output(Negate.propagate_property(&p)).nature {
        Some(Nature::Categorical(NatureCategorical { categories: Jagged::Bool(c) })) => {
            assert_eq!(c, vec![Some(vec![false])]);
        },
        other => panic!("unexpected nature {:?}", other),
    }
}

#[test]
fn negate_twice_restores_boolean_categories() {
    let p = one("left", array(2, bool_categories(vec![Some(vec![true, false]), None]), DataType::Bool));
    let once = output(Negate.propagate_property(&p));
    let twice = output(Negate.propagate_property(&one("left", once)));
    match twice.nature {
        Some(Nature::Categorical(NatureCategorical { categories: Jagged::Bool(c) })) => {
            assert_eq!(c, vec![Some(vec![true, false]), None]);
        },
        other => panic!("unexpected nature {:?}", other),
    }
}

#[test]
fn negate_refuses_aggregated_data_and_float_categories() {
    let mut d = array(1, None, DataType::Bool);
    d.aggregator = Some(AggregatorProperties { component_id: 1 });
    assert_eq!(Negate.propagate_property(&one("left", d)).unwrap_err(), Error::AggregatedData);
    let d = array(1, float_categories(vec![Some(vec![1.0])]), DataType::F64);
    assert_eq!(Negate.propagate_property(&one("left", d)).unwrap_err(), Error::CategoriesNotPropagated(CategoryKind::Floats));
    let d = array(1, Some(Nature::Categorical(NatureCategorical { categories: Jagged::Str(vec![Some(vec!["a".to_string()])]) })), DataType::Str);
    assert_eq!(Negate.propagate_property(&one("left", d)).unwrap_err(), Error::CategoriesNotPropagated(CategoryKind::Strings));
}

#[test]
fn comparisons_give_boolean_categories() {
    for which in 0..3 {
        let mut l = array(3, int_bounds(vec![Some(1)], vec![Some(2)]), DataType::I64);
        l.nullity = true;
        l.releasable = true;
        l.aggregator = Some(AggregatorProperties { component_id: 9 });
        let mut r = array(1, None, DataType::F64);
        r.releasable = true;
        r.num_records = Some(1);
        let p = two("left", l, "right", r);
        let out = output(match which {
            0 => Equal.propagate_property(&p, smax),
            1 => LessThan.propagate_property(&p, smax),
            _ => GreaterThan.propagate_property(&p, smax),
        });
        assert!(!out.nullity);
        assert!(out.releasable);
        assert!(out.aggregator.is_none());
        assert_eq!(out.num_columns, Some(3));
        assert_eq!(out.num_records, Some(10));
        assert_eq!(out.data_type, DataType::I64);
        assert_eq!(out.c_stability, vec![2.0, 2.0, 2.0]);
        match out.nature {
            Some(Nature::Categorical(NatureCategorical { categories: Jagged::Bool(c) })) => {
                assert_eq!(c, vec![Some(vec![true, false]); 3]);
            },
            other => panic!("unexpected nature {:?}", other),
        }
    }
}

#[test]
fn comparison_refuses_mismatched_columns() {
    let p = two("left", array(3, None, DataType::I64), "right", array(2, None, DataType::I64));
    assert_eq!(Equal.propagate_property(&p, smax).unwrap_err(), Error::ColumnCountMismatch);
}

#[test]
fn modulo_with_divisor_at_minimum_is_refused_cleanly() {
    let p = two("left", array(1, int_bounds(vec![Some(0)], vec![Some(9)]), DataType::I64),
        "right", array(1, int_bounds(vec![Some(i64::MIN)], vec![Some(i64::MIN)]), DataType::I64));
    assert!(!Modulo.overflows(&p));
    assert_eq!(modulo(&p).unwrap_err(), Error::NonPositiveDivisor);
    let p = two("left", array(1, None, DataType::F64),
        "right", array(1, int_bounds(vec![Some(1)], vec![Some(i64::MIN)]), DataType::I64));
    assert!(!Modulo.overflows(&p));
    assert_eq!(modulo(&p).unwrap_err(), Error::PowerArgumentTypes);
}

#[test]
fn modulo_overflow_is_detected_where_the_bounds_are_reached() {
    let p = two("left", array(1, int_bounds(vec![Some(0)], vec![Some(9)]), DataType::I64),
        "right", array(1, int_bounds(vec![Some(1)], vec![Some(i64::MIN)]), DataType::I64));
    assert!(Modulo.overflows(&p));
    // with categorical left data the bounds are never derived
    let p = two("left", array(1, int_categories(vec![Some(vec![1])]), DataType::I64),
        "right", array(1, int_bounds(vec![Some(1)], vec![Some(i64::MIN)]), DataType::I64));
    assert!(!Modulo.overflows(&p));
    assert!(modulo(&p).unwrap().array().unwrap().nature.is_none());
}

#[test]
fn negative_overflow_is_detected_where_the_operators_are_reached() {
    let p = one("data", array(1, int_bounds(vec![Some(i64::MIN)], vec![Some(0)]), DataType::I64));
    assert!(Negative.overflows(&p));
    let p = one("data", array(1, int_categories(vec![Some(vec![3, i64::MIN])]), DataType::I64));
    assert!(Negative.overflows(&p));
    let mut d = array(1, int_bounds(vec![Some(i64::MIN)], vec![Some(0)]), DataType::I64);
    d.num_columns = None;
    let p = one("data", d);
    assert!(!Negative.overflows(&p));
    assert_eq!(negative(&p).unwrap_err(), Error::UnknownColumnCount);
    // three columns of bounds do not stretch to two
    let p = one("data", array(2, int_bounds(vec![Some(i64::MIN), Some(0), Some(0)], vec![Some(0), Some(0), Some(0)]), DataType::I64));
    assert!(!Negative.overflows(&p));
    assert_eq!(negative(&p).unwrap_err(), Error::BroadcastFailed);
    let p = one("data", array(1, int_bounds(vec![Some(-3)], vec![Some(4)]), DataType::I64));
    assert!(!Negative.overflows(&p));
}

#[test]
fn negative_twice_restores_integer_categories() {
    let mut d = array(2, int_categories(vec![Some(vec![1, -2, 0]), None]), DataType::I64);
    d.nullity = true;
    d.c_stability = vec![3.0, 4.0];
    let once = output(negative(&one("data", d)));
    let twice = output(negative(&one("data", once)));
    assert!(twice.nullity);
    assert_eq!(twice.c_stability, vec![3.0, 4.0]);
    assert_eq!(twice.num_columns, Some(2));
    match twice.nature {
        Some(Nature::Categorical(NatureCategorical { categories: Jagged::I64(c) })) => {
            assert_eq!(c, vec![Some(vec![1, -2, 0]), None]);
        },
        other => panic!("unexpected nature {:?}", other),
    }
}
