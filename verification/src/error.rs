use vstd::prelude::*;

verus! {

/// The name under which a component receives one of its arguments.
#[derive(Debug, Clone, Copy, PartialEq, Eq)]
pub enum ArgumentName {
    Left,
    Right,
    Data,
    Radical,
    Base,
    Edges,
    Null,
    InclusiveLeft,
    CountMin,
    CountMax,
}

/// The kind of values whose categories an operator could not propagate.
#[derive(Debug, Clone, Copy, PartialEq, Eq)]
pub enum CategoryKind {
    Floats,
    Integers,
    Booleans,
    Strings,
}

/// Why a property could not be derived.
#[derive(Debug, Clone, Copy, PartialEq, Eq)]
pub enum Error {
    /// `<name>: missing`
    MissingProperty(ArgumentName),
    /// `<name>: value must be an array`
    NotAnArray(ArgumentName),
    /// aggregated data may not be manipulated
    AggregatedData,
    /// number of columns is not defined
    UnknownColumnCount,
    /// number of rows is not defined
    UnknownRowCount,
    /// number of columns must be the same for left and right arguments
    ColumnCountMismatch,
    /// number of rows are not known for arguments from different datasets
    UnknownRowsAcrossDatasets,
    /// number of rows must be the same for left and right arguments
    RowCountMismatch,
    /// could not broadcast vector
    BroadcastFailed,
    /// continuous bounds must be numeric and homogeneously typed
    BoundsNotNumeric,
    /// categories cannot be propagated for the given kind of values
    CategoriesNotPropagated(CategoryKind),
    /// natures must be homogeneously typed
    NaturesNotHomogeneous,
    /// float data may not be categorical
    FloatCategories,
    /// continuous nature is not defined
    NotContinuous,
    /// bounds are not of the requested type
    BoundsWrongType,
    /// not all bounds are known
    BoundsUnknown,
    /// addition may result in underflow or overflow
    AdditionOverflow,
    /// subtraction may result in underflow or overflow
    SubtractionOverflow,
    /// multiplication may result in underflow or overflow
    MultiplicationOverflow,
    /// either division by zero, or underflow or overflow (integers)
    IntegerDivisionInvalid,
    /// either division by zero, underflow or overflow (floats)
    FloatDivisionInvalid,
    /// potential division by zero
    PotentialDivisionByZero,
    /// power may result in overflow
    PowerOverflow,
    /// integer power must not be negative
    NegativePower,
    /// arguments for power must be numeric and homogeneously typed
    PowerArgumentTypes,
    /// arguments for log must be float and homogeneously typed
    LogArgumentTypes,
    /// base must be in [0, 1) U (1, inf) and not span zero
    LogBaseOutOfRange,
    /// data may potentially be less than zero
    LogDataNotPositive,
    /// divisor must be greater than zero
    NonPositiveDivisor,
    /// the component has no property propagation of its own
    NoPropertyPropagation,
    /// get_names not implemented
    NamesNotImplemented,
    /// `<name> is a required argument to DPHistogram`
    MissingHistogramArgument(ArgumentName),
}

} // verus!
