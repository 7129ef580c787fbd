use whitenoise::error::{ArgumentName, Error};
use whitenoise::properties::{
    array_argument, AggregatorProperties, ArrayProperties, DataType, Jagged, Nature, NatureCategorical, NatureContinuous,
    NodeProperties, ValueProperties, Vector1DNull,
};

fn array(nature: Option<Nature<f64>>) -> ArrayProperties<f64> {
    ArrayProperties {
        num_records: None,
        num_columns: Some(2),
        nullity: false,
        releasable: false,
        c_stability: vec![],
        aggregator: None,
        nature,
        data_type: DataType::I64,
        dataset_id: None,
    }
}

#[test]
fn shape_accessors() {
    let a = array(None);
    assert_eq!(a.num_columns(), Ok(2));
    assert_eq!(a.num_records(), Err(Error::UnknownRowCount));
    let mut b = array(None);
    b.num_columns = None;
    b.num_records = Some(4);
    assert_eq!(b.num_columns(), Err(Error::UnknownColumnCount));
    assert_eq!(b.num_records(), Ok(4));
}

#[test]
fn aggregation_check() {
    let mut a = array(None);
    assert_eq!(a.assert_is_not_aggregated(), Ok(()));
    a.aggregator = Some(AggregatorProperties { component_id: 1 });
    assert_eq!(a.assert_is_not_aggregated(), Err(Error::AggregatedData));
}

#[test]
fn integer_lower_bounds() {
    let a = array(Some(Nature::Continuous(NatureContinuous {
        min: Vector1DNull::I64(vec![Some(1), Some(-2)]),
        max: Vector1DNull::I64(vec![None, None]),
    })));
    assert_eq!(a.min_i64(), Ok(vec![1, -2]));
    let a = array(Some(Nature::Continuous(NatureContinuous {
        min: Vector1DNull::I64(vec![Some(1), None]),
        max: Vector1DNull::I64(vec![None, None]),
    })));
    assert_eq!(a.min_i64(), Err(Error::BoundsUnknown));
    let a = array(Some(Nature::Continuous(NatureContinuous {
        min: Vector1DNull::Bool(vec![Some(true)]),
        max: Vector1DNull::Bool(vec![None]),
    })));
    assert_eq!(a.min_i64(), Err(Error::BoundsWrongType));
    let a = array(Some(Nature::Categorical(NatureCategorical { categories: Jagged::I64(vec![]) })));
    assert_eq!(a.min_i64(), Err(Error::NotContinuous));
    assert_eq!(array(None).min_i64(), Err(Error::NotContinuous));
}

#[test]
fn float_bounds() {
    let a = array(Some(Nature::Continuous(NatureContinuous {
        min: Vector1DNull::F64(vec![Some(0.5)]),
        max: Vector1DNull::F64(vec![Some(1.5)]),
    })));
    assert_eq!(a.min_float(), Ok(vec![0.5]));
    assert_eq!(a.max_float(), Ok(vec![1.5]));
    let a = array(Some(Nature::Continuous(NatureContinuous {
        min: Vector1DNull::F64(vec![Some(0.5)]),
        max: Vector1DNull::I64(vec![Some(1)]),
    })));
    assert_eq!(a.max_float(), Err(Error::BoundsWrongType));
}

#[test]
fn arguments_by_name() {
    let mut p = NodeProperties::new();
    p.insert("data", ValueProperties::Array(array(None)));
    p.insert("other", ValueProperties::Jagged);
    assert!(p.get("data").unwrap().array().is_some());
    assert!(p.get("other").unwrap().array().is_none());
    assert!(p.get("missing").is_none());
    assert_eq!(array_argument(&p, "data", ArgumentName::Data).unwrap().num_columns, Some(2));
    assert_eq!(array_argument(&p, "other", ArgumentName::Base).err(), Some(Error::NotAnArray(ArgumentName::Base)));
    assert_eq!(array_argument(&p, "missing", ArgumentName::Edges).err(), Some(Error::MissingProperty(ArgumentName::Edges)));
}
