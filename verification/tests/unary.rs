use whitenoise::components::Negative;
use whitenoise::error::{CategoryKind, Error};
use whitenoise::properties::{
    ArrayProperties, DataType, Jagged, Nature, NatureCategorical, NatureContinuous, NodeProperties, ValueProperties,
    Vector1DNull,
};
use whitenoise::transforms::{propagate_unary_nature, OptimizeUnaryOperators, UnaryBounds, UnaryOperators};

fn array(columns: i64, nature: Option<Nature<f64>>, data_type: DataType) -> ArrayProperties<f64> {
    ArrayProperties {
        num_records: Some(3),
        num_columns: Some(columns),
        nullity: false,
        releasable: false,
        c_stability: vec![1.0],
        aggregator: None,
        nature,
        data_type,
        dataset_id: None,
    }
}

fn strings(c: Vec<Option<Vec<&str>>>) -> Option<Nature<f64>> {
    Some(Nature::Categorical(NatureCategorical {
        categories: Jagged::Str(c.into_iter().map(|o| o.map(|v| v.into_iter().map(|s| s.to_string()).collect())).collect()),
    }))
}

fn no_bounds() -> OptimizeUnaryOperators<fn(UnaryBounds<f64>) -> Result<(Option<f64>, Option<f64>), Error>> {
    OptimizeUnaryOperators { float: None, int: None }
}

#[test]
fn string_categories_mapped_through_closure() {
    let data = array(2, strings(vec![Some(vec!["b", "a", "b"]), None]), DataType::Str);
    let ops = UnaryOperators {
        float: None::<fn(&f64) -> Result<f64, Error>>,
        int: None,
        str: Some(|s: &String| Ok(s.to_uppercase())),
        bool: None,
    };
    match propagate_unary_nature(&data, &ops, &no_bounds(), &2).unwrap() {
        Some(Nature::Categorical(NatureCategorical { categories: Jagged::Str(c) })) => {
            // order kept, repeats kept, columns without categories kept
            assert_eq!(c, vec![Some(vec!["B".to_string(), "A".to_string(), "B".to_string()]), None]);
        },
        other => panic!("unexpected nature {:?}", other),
    }
}

#[test]
fn string_categories_closure_failure_is_reported() {
    let data = array(1, strings(vec![Some(vec!["ok", "bad"])]), DataType::Str);
    let ops = UnaryOperators {
        float: None::<fn(&f64) -> Result<f64, Error>>,
        int: None,
        str: Some(|s: &String| if s == "bad" { Err(Error::NamesNotImplemented) } else { Ok(s.clone()) }),
        bool: None,
    };
    assert_eq!(propagate_unary_nature(&data, &ops, &no_bounds(), &1).unwrap_err(), Error::NamesNotImplemented);
}

#[test]
fn string_categories_without_operator() {
    let data = array(1, strings(vec![Some(vec!["a"])]), DataType::Str);
    let ops = UnaryOperators {
        float: None::<fn(&f64) -> Result<f64, Error>>,
        int: None,
        str: None::<fn(&String) -> Result<String, Error>>,
        bool: None,
    };
    assert_eq!(propagate_unary_nature(&data, &ops, &no_bounds(), &1).unwrap_err(),
        Error::CategoriesNotPropagated(CategoryKind::Strings));
    let data = array(2, strings(vec![None, None]), DataType::Str);
    match propagate_unary_nature(&data, &ops, &no_bounds(), &2).unwrap() {
        Some(Nature::Categorical(NatureCategorical { categories: Jagged::Str(c) })) => assert_eq!(c, vec![None, None]),
        other => panic!("unexpected nature {:?}", other),
    }
}

fn negative(p: &NodeProperties<f64>) -> ArrayProperties<f64> {
    let r = Negative.propagate_property(
        p,
        |v: &f64| Ok(-*v),
        |b: UnaryBounds<f64>| Ok((b.max.map(|v| -v), b.min.map(|v| -v))),
    );
    match r.unwrap() {
        ValueProperties::Array(a) => a,
        other => panic!("not an array: {:?}", other),
    }
}

fn one(d: ArrayProperties<f64>) -> NodeProperties<f64> {
    let mut p = NodeProperties::new();
    p.insert("data", ValueProperties::Array(d));
    p
}

#[test]
fn negative_twice_restores_float_data() {
    let d = array(2, Some(Nature::Continuous(NatureContinuous {
        min: Vector1DNull::F64(vec![Some(-1.5), None]),
        max: Vector1DNull::F64(vec![Some(2.0), Some(7.0)]),
    })), DataType::F64);
    let twice = negative(&one(negative(&one(d))));
    match twice.nature {
        Some(Nature::Continuous(NatureContinuous { min: Vector1DNull::F64(min), max: Vector1DNull::F64(max) })) => {
            assert_eq!(min, vec![Some(-1.5), None]);
            assert_eq!(max, vec![Some(2.0), Some(7.0)]);
        },
        other => panic!("unexpected nature {:?}", other),
    }
    let d = array(1, Some(Nature::Categorical(NatureCategorical { categories: Jagged::F64(vec![Some(vec![0.5, -3.0])]) })), DataType::F64);
    let twice = negative(&one(negative(&one(d))));
    match twice.nature {
        Some(Nature::Categorical(NatureCategorical { categories: Jagged::F64(c) })) => assert_eq!(c, vec![Some(vec![0.5, -3.0])]),
        other => panic!("unexpected nature {:?}", other),
    }
}
