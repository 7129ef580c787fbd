use whitenoise::dp_histogram::{Component, ComponentArguments, DpHistogram, Variant};
use whitenoise::error::{ArgumentName, Error};
use whitenoise::properties::NodeProperties;

fn histogram() -> DpHistogram<f64> {
    DpHistogram { side: "left".to_string(), privacy_usage: vec![0.5, 0.25], implementation: "geometric".to_string() }
}

fn arguments(names: &[(&str, u32)]) -> ComponentArguments {
    let mut args = ComponentArguments::new();
    for (name, id) in names {
        args.insert(name, *id);
    }
    args
}

fn component(names: &[(&str, u32)]) -> Component<f64> {
    Component { arguments: arguments(names), variant: None, omit: false, batch: 7 }
}

const ALL: [(&str, u32); 6] =
    [("data", 1), ("edges", 2), ("null", 3), ("inclusive_left", 4), ("count_min", 5), ("count_max", 6)];

#[test]
fn histogram_expands_into_bin_and_count() {
    let (max_id, expansion) = histogram().expand_component(&component(&ALL), 10, 20).unwrap();
    assert_eq!(max_id, 21);
    assert_eq!(expansion.len(), 2);

    let bin = expansion.get(21).unwrap();
    assert!(bin.omit);
    assert_eq!(bin.batch, 7);
    assert_eq!(bin.arguments.len(), 4);
    assert_eq!(bin.arguments.get("data"), Some(1));
    assert_eq!(bin.arguments.get("edges"), Some(2));
    assert_eq!(bin.arguments.get("null"), Some(3));
    assert_eq!(bin.arguments.get("inclusive_left"), Some(4));
    match &bin.variant {
        Some(Variant::Bin(b)) => assert_eq!(b.side, "left"),
        _ => panic!("the first component must bin the data"),
    }

    let count = expansion.get(10).unwrap();
    assert!(!count.omit);
    assert_eq!(count.batch, 7);
    assert_eq!(count.arguments.len(), 3);
    assert_eq!(count.arguments.get("data"), Some(21));
    assert_eq!(count.arguments.get("count_min"), Some(5));
    assert_eq!(count.arguments.get("count_max"), Some(6));
    match &count.variant {
        Some(Variant::DpCount(c)) => {
            assert_eq!(c.privacy_usage, vec![0.5, 0.25]);
            assert_eq!(c.implementation, "geometric");
        },
        _ => panic!("the second component must count"),
    }
}

#[test]
fn histogram_expansion_reports_first_missing_argument() {
    let expected = [
        ArgumentName::Data,
        ArgumentName::Edges,
        ArgumentName::Null,
        ArgumentName::InclusiveLeft,
        ArgumentName::CountMin,
        ArgumentName::CountMax,
    ];
    for (missing, name) in expected.iter().enumerate() {
        let present: Vec<(&str, u32)> = ALL.iter().enumerate().filter(|(i, _)| *i != missing).map(|(_, a)| *a).collect();
        let r = histogram().expand_component(&component(&present), 10, 20);
        assert_eq!(r.err(), Some(Error::MissingHistogramArgument(*name)));
    }
    let r = histogram().expand_component(&component(&[]), 10, u32::MAX);
    assert_eq!(r.err(), Some(Error::MissingHistogramArgument(ArgumentName::Data)));
}

#[test]
fn histogram_has_no_properties_of_its_own() {
    let p: NodeProperties<f64> = NodeProperties::new();
    assert_eq!(histogram().propagate_property(&p).unwrap_err(), Error::NoPropertyPropagation);
    assert_eq!(histogram().get_names(&p).unwrap_err(), Error::NamesNotImplemented);
    assert!(histogram().accuracy_to_privacy_usage(&p, &0.1f64).is_none());
    assert!(histogram().privacy_usage_to_accuracy::<f64, f64>(&p).is_none());
    assert!(histogram().summarize::<f64, String>(&3, &component(&ALL), &p).unwrap().is_none());
}
