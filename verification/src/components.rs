//! The property propagation of the arithmetic, logical and comparison
//! transforms.  Each reads the properties of its arguments by name, checks
//! them, and derives the properties of its output.  The parts that compute
//! with floating-point values are closures of the caller.

use vstd::prelude::*;
use crate::error::{ArgumentName, CategoryKind, Error};
use crate::properties::{
    column_view, lemma_clone_exact_option, NatureCategorical, all_known, known_bounds, nature_option_view, pick_float, pick_i64, DataType, array_argument, array_argument_spec, clone_exact, BoundsView, CategoriesView, Jagged,
    Nature, Vector1DNull, ArrayProperties, ArrayPropertiesView,
    NatureView, NodeProperties, ValueProperties, ValuePropertiesView,
};
use crate::operators::{
    int_binary_spec, int_bounds_spec, int_unary_bounds_spec, int_unary_spec, BoolBinaryOp, BoolUnaryOp, IntBinaryOp, IntBoundsOp, IntUnaryBoundsOp, IntUnaryOp, StrBinaryOp,
};
use crate::transforms::{
    binary_closures_total, binary_nature_defined, binary_nature_holds, binary_operators_view, binary_shape_spec, broadcast,
    broadcast_spec, nature_result_view, propagate_binary_nature, propagate_binary_shape,
    binary_bounds_rel, binary_op_rel, BinaryBounds, BinaryOperators, BinaryOperatorsView,
    OptimizeBinaryOperators, OptimizeUnaryOperators, UnaryBounds, UnaryOperators,
    UnaryOperatorsView, propagate_unary_nature, unary_nature_holds, unary_nature_defined,
    unary_operators_view, unary_op_rel, unary_bounds_rel, unary_closures_total, lemma_broadcast_member,
    bool_unary_fn, int_unary_bounds_fn, int_unary_fn,
};
use crate::columns::{lemma_columns_map_total, lemma_unary_bounds_total, map_all, map_columns_all, min_len};

verus! {

// ---------------------------------------------------------------------------
// Shared pieces
// ---------------------------------------------------------------------------

pub open spec fn value_result_view<F>(r: Result<ValueProperties<F>, Error>) -> Result<ValuePropertiesView<F>, Error> {
    match r {
        Ok(v) => Ok(v@),
        Err(e) => Err(e),
    }
}

/// A closure that no caller ever reaches: it stands for an operator that a
/// transform does not have.
fn absent<G>(witness: G) -> (r: Option<G>)
    ensures
        r is None,
{
    None
}

/// The stabilities of the two arguments stretched to `n` columns and
/// combined column by column by `max`.
pub open spec fn stability_holds<F, M: Fn(&F, &F) -> F>(max: M, l: Seq<F>, r: Seq<F>, n: i64, res: Result<Seq<F>, Error>) -> bool {
    match (broadcast_spec(l, n), broadcast_spec(r, n)) {
        (Some(bl), Some(br)) => res matches Ok(v) && {
            &&& v.len() == min_len(bl.len(), br.len())
            &&& forall|i: int| 0 <= i < v.len() ==> call_ensures(max, (&bl[i], &br[i]), #[trigger] v[i])
        },
        _ => res == Err::<Seq<F>, Error>(Error::BroadcastFailed),
    }
}

pub open spec fn stability_fails<F>(l: Seq<F>, r: Seq<F>, n: i64) -> bool {
    broadcast_spec(l, n) is None || broadcast_spec(r, n) is None
}

/// The column-wise stability of the output of a binary transform.
pub fn combine_stability<F: Clone, M: Fn(&F, &F) -> F>(left: &Vec<F>, right: &Vec<F>, n: &i64, max: &M) -> (r: Result<Vec<F>, Error>)
    requires
        clone_exact::<F>(),
        forall|a: &F, b: &F| #[trigger] call_requires(*max, (a, b)),
    ensures
        stability_holds(*max, left@, right@, *n, match r {
            Ok(v) => Ok(v@),
            Err(e) => Err(e),
        }),
{
    let l = broadcast(left.as_slice(), n)?;
    let r = broadcast(right.as_slice(), n)?;
    let k: usize = if l.len() <= r.len() { l.len() } else { r.len() };
    let mut out: Vec<F> = Vec::new();
    let mut i: usize = 0;
    while i < k
        invariant
            k == min_len(l@.len(), r@.len()),
            i <= k,
            out@.len() == i,
            forall|a: &F, b: &F| #[trigger] call_requires(*max, (a, b)),
            forall|j: int| 0 <= j < i ==> call_ensures(*max, (&l@[j], &r@[j]), #[trigger] out@[j]),
        decreases k - i,
    {
        let v = max(&l[i], &r[i]);
        out.push(v);
        i = i + 1;
    }
    Ok(out)
}

/// A copy of a vector of values whose clones are exact.
fn copy_values<T: Clone>(v: &Vec<T>) -> (r: Vec<T>)
    requires
        clone_exact::<T>(),
    ensures
        r@ == v@,
{
    let r = v.clone();
    assert forall|i: int| 0 <= i < v@.len() implies r@[i] == v@[i] by {
        assert(cloned(v@[i], r@[i]));
    }
    assert(r@ =~= v@);
    r
}

/// What the fields of the output of an element-wise binary transform are.
pub open spec fn binary_fields_hold<F, M: Fn(&F, &F) -> F>(
    left: ArrayPropertiesView<F>,
    right: ArrayPropertiesView<F>,
    columns: i64,
    rows: Option<i64>,
    nullity: bool,
    ops: BinaryOperatorsView<F>,
    max: M,
    r: Result<ValuePropertiesView<F>, Error>,
) -> bool {
    match r {
        Ok(ValuePropertiesView::Array(out)) => {
            &&& binary_nature_holds(left.nature, right.nature, ops, columns, Ok(out.nature))
            &&& stability_holds(max, left.c_stability, right.c_stability, columns, Ok(out.c_stability))
            &&& out.nullity == nullity
            &&& out.releasable == (left.releasable && right.releasable)
            &&& out.num_columns == Some(columns)
            &&& out.num_records == rows
            &&& out.aggregator is None
            &&& out.data_type == left.data_type
            &&& out.dataset_id == left.dataset_id
        },
        Err(e) => {
            ||| binary_nature_holds(left.nature, right.nature, ops, columns, Err(e))
            ||| e == Error::BroadcastFailed && stability_fails(left.c_stability, right.c_stability, columns)
                && exists|n: Option<NatureView<F>>| binary_nature_holds(left.nature, right.nature, ops, columns, Ok(n))
        },
        _ => false,
    }
}

fn assemble_binary<
    F: Clone,
    FO: Fn(&F, &F) -> Result<F, Error>,
    FB: Fn(BinaryBounds<F>) -> Result<(Option<F>, Option<F>), Error>,
    M: Fn(&F, &F) -> F,
>(
    left: &ArrayProperties<F>,
    right: &ArrayProperties<F>,
    columns: i64,
    rows: Option<i64>,
    nullity: bool,
    ops: &BinaryOperators<FO>,
    opt: &OptimizeBinaryOperators<FB>,
    max: &M,
) -> (r: Result<ValueProperties<F>, Error>)
    requires
        clone_exact::<F>(),
        binary_closures_total(*ops, *opt),
        binary_nature_defined(left@.nature, right@.nature, ops.int, opt.int, columns),
        forall|a: &F, b: &F| #[trigger] call_requires(*max, (a, b)),
    ensures
        binary_fields_hold(left@, right@, columns, rows, nullity, binary_operators_view(*ops, *opt), *max, value_result_view(r)),
{
    let nature = propagate_binary_nature(left, right, ops, opt, &columns)?;
    let c_stability = match combine_stability(&left.c_stability, &right.c_stability, &columns, max) {
        Ok(c) => c,
        Err(e) => {
            assert(binary_nature_holds(left@.nature, right@.nature, binary_operators_view(*ops, *opt), columns, nature_result_view(Ok(nature))));
            return Err(e);
        },
    };
    Ok(ValueProperties::Array(ArrayProperties {
        nullity,
        releasable: left.releasable && right.releasable,
        nature,
        c_stability,
        num_columns: Some(columns),
        num_records: rows,
        aggregator: None,
        data_type: left.data_type,
        dataset_id: left.dataset_id,
    }))
}

/// The arguments `left` and `right` of an element-wise arithmetic transform,
/// the left one not aggregated, and the shape of the output.
pub open spec fn arithmetic_inputs<F>(properties: Map<Seq<char>, ValueProperties<F>>) -> Result<(ArrayProperties<F>, ArrayProperties<F>, i64, Option<i64>), Error> {
    match array_argument_spec(properties, "left"@, ArgumentName::Left) {
        Err(e) => Err(e),
        Ok(l) => match array_argument_spec(properties, "right"@, ArgumentName::Right) {
            Err(e) => Err(e),
            Ok(r) => if l.aggregator is Some {
                Err(Error::AggregatedData)
            } else {
                match binary_shape_spec(l@, r@) {
                    Err(e) => Err(e),
                    Ok((c, n)) => Ok((l, r, c, n)),
                }
            },
        },
    }
}

/// The output of an element-wise arithmetic transform with the given
/// operators: null where either argument may be null.
pub open spec fn arithmetic_holds<F, M: Fn(&F, &F) -> F>(
    properties: Map<Seq<char>, ValueProperties<F>>,
    ops: BinaryOperatorsView<F>,
    max: M,
    r: Result<ValuePropertiesView<F>, Error>,
) -> bool {
    match arithmetic_inputs(properties) {
        Err(e) => r == Err::<ValuePropertiesView<F>, Error>(e),
        Ok((left, right, columns, rows)) => binary_fields_hold(
            left@, right@, columns, rows, left.nullity || right.nullity, ops, max, r),
    }
}

fn arithmetic_arguments<'a, F: Clone>(properties: &'a NodeProperties<F>) -> (r: Result<(&'a ArrayProperties<F>, &'a ArrayProperties<F>, i64, Option<i64>), Error>)
    ensures
        match (r, arithmetic_inputs(properties@)) {
            (Ok((a, b, c, n)), Ok((a2, b2, c2, n2))) => *a == a2 && *b == b2 && c == c2 && n == n2,
            (Err(e), Err(e2)) => e == e2,
            _ => false,
        },
{
    let left_property = array_argument(properties, "left", ArgumentName::Left)?;
    let right_property = array_argument(properties, "right", ArgumentName::Right)?;
    left_property.assert_is_not_aggregated()?;
    let (num_columns, num_records) = propagate_binary_shape(left_property, right_property)?;
    Ok((left_property, right_property, num_columns, num_records))
}

pub open spec fn closure_total2<F, G: Fn(&F, &F) -> Result<F, Error>>(g: G) -> bool {
    forall|a: &F, b: &F| #[trigger] call_requires(g, (a, b))
}

pub open spec fn bounds_total2<F, G: Fn(BinaryBounds<F>) -> Result<(Option<F>, Option<F>), Error>>(g: G) -> bool {
    forall|b: BinaryBounds<F>| #[trigger] call_requires(g, (b,))
}

pub open spec fn max_total<F, M: Fn(&F, &F) -> F>(m: M) -> bool {
    forall|a: &F, b: &F| #[trigger] call_requires(m, (a, b))
}

// ---------------------------------------------------------------------------
// Add, Subtract, Multiply
// ---------------------------------------------------------------------------

/// The operators of an arithmetic transform on integers, strings and
/// booleans, with the given float closures.
pub open spec fn arithmetic_view<
    F,
    FO: Fn(&F, &F) -> Result<F, Error>,
    FB: Fn(BinaryBounds<F>) -> Result<(Option<F>, Option<F>), Error>,
>(
    float_op: FO,
    float_bounds: FB,
    int_op: Option<IntBinaryOp>,
    str_op: Option<StrBinaryOp>,
    int_bounds: Option<IntBoundsOp>,
) -> BinaryOperatorsView<F> {
    BinaryOperatorsView {
        float: binary_op_rel(Some(float_op)),
        int: int_op,
        str: str_op,
        bool: None,
        float_bounds: binary_bounds_rel(Some(float_bounds)),
        int_bounds: int_bounds,
    }
}

/// Element-wise addition (concatenation of strings).
pub struct Add;

impl Add {
    /// The output of an addition: integer categories and bounds are added
    /// with checked arithmetic, string categories concatenated, and floats
    /// added by `float_add` and `float_bounds`; the stability of each column
    /// is the larger of the two, as `stability_max` gives it.
    pub fn propagate_property<
        F: Clone,
        FO: Fn(&F, &F) -> Result<F, Error>,
        FB: Fn(BinaryBounds<F>) -> Result<(Option<F>, Option<F>), Error>,
        M: Fn(&F, &F) -> F,
    >(
        &self,
        properties: &NodeProperties<F>,
        float_add: FO,
        float_bounds: FB,
        stability_max: M,
    ) -> (r: Result<ValueProperties<F>, Error>)
        requires
            clone_exact::<F>(),
            closure_total2(float_add),
            bounds_total2(float_bounds),
            max_total(stability_max),
        ensures
            arithmetic_holds(properties@, arithmetic_view(float_add, float_bounds, Some(IntBinaryOp::Add), Some(StrBinaryOp::Concat), Some(IntBoundsOp::Add)), stability_max, value_result_view(r)),
    {
        let (left_property, right_property, num_columns, num_records) = arithmetic_arguments(properties)?;
        let ops = BinaryOperators { float: Some(float_add), int: Some(IntBinaryOp::Add), str: Some(StrBinaryOp::Concat), bool: None };
        let opt = OptimizeBinaryOperators { float: Some(float_bounds), int: Some(IntBoundsOp::Add) };
        assemble_binary(left_property, right_property, num_columns, num_records,
            left_property.nullity || right_property.nullity, &ops, &opt, &stability_max)
    }
}


/// Element-wise subtraction.
pub struct Subtract;

impl Subtract {
    /// The output of a subtraction: integer categories are subtracted with
    /// checked arithmetic, the lower bound of the output is the difference
    /// of the lower bounds and the upper bound the difference of the upper
    /// bounds; floats are subtracted by `float_sub` and `float_bounds`.
    pub fn propagate_property<
        F: Clone,
        FO: Fn(&F, &F) -> Result<F, Error>,
        FB: Fn(BinaryBounds<F>) -> Result<(Option<F>, Option<F>), Error>,
        M: Fn(&F, &F) -> F,
    >(
        &self,
        properties: &NodeProperties<F>,
        float_sub: FO,
        float_bounds: FB,
        stability_max: M,
    ) -> (r: Result<ValueProperties<F>, Error>)
        requires
            clone_exact::<F>(),
            closure_total2(float_sub),
            bounds_total2(float_bounds),
            max_total(stability_max),
        ensures
            arithmetic_holds(properties@, arithmetic_view(float_sub, float_bounds, Some(IntBinaryOp::Subtract), None, Some(IntBoundsOp::Subtract)), stability_max, value_result_view(r)),
    {
        let (left_property, right_property, num_columns, num_records) = arithmetic_arguments(properties)?;
        let ops = BinaryOperators { float: Some(float_sub), int: Some(IntBinaryOp::Subtract), str: None, bool: None };
        let opt = OptimizeBinaryOperators { float: Some(float_bounds), int: Some(IntBoundsOp::Subtract) };
        assemble_binary(left_property, right_property, num_columns, num_records,
            left_property.nullity || right_property.nullity, &ops, &opt, &stability_max)
    }
}

/// Element-wise multiplication.
pub struct Multiply;

impl Multiply {
    /// The output of a multiplication: integer categories are multiplied
    /// with checked arithmetic and nothing is known of integer bounds; floats
    /// are multiplied by `float_mul` and their bounds derived by
    /// `float_bounds`.
    pub fn propagate_property<
        F: Clone,
        FO: Fn(&F, &F) -> Result<F, Error>,
        FB: Fn(BinaryBounds<F>) -> Result<(Option<F>, Option<F>), Error>,
        M: Fn(&F, &F) -> F,
    >(
        &self,
        properties: &NodeProperties<F>,
        float_mul: FO,
        float_bounds: FB,
        stability_max: M,
    ) -> (r: Result<ValueProperties<F>, Error>)
        requires
            clone_exact::<F>(),
            closure_total2(float_mul),
            bounds_total2(float_bounds),
            max_total(stability_max),
        ensures
            arithmetic_holds(properties@, arithmetic_view(float_mul, float_bounds, Some(IntBinaryOp::Multiply), None, None), stability_max, value_result_view(r)),
    {
        let (left_property, right_property, num_columns, num_records) = arithmetic_arguments(properties)?;
        let ops = BinaryOperators { float: Some(float_mul), int: Some(IntBinaryOp::Multiply), str: None, bool: None };
        let opt = OptimizeBinaryOperators { float: Some(float_bounds), int: None };
        assemble_binary(left_property, right_property, num_columns, num_records,
            left_property.nullity || right_property.nullity, &ops, &opt, &stability_max)
    }
}

// ---------------------------------------------------------------------------
// Divide
// ---------------------------------------------------------------------------

/// `column_spans` said of some column that it may hold zero.
pub open spec fn some_column_spans<F, S: Fn(&Option<F>, &Option<F>) -> bool>(column_spans: S, a: Seq<Option<F>>, c: Seq<Option<F>>) -> bool {
    exists|i: int| 0 <= i < min_len(a.len(), c.len()) && call_ensures(column_spans, (&a[i], &c[i]), true)
}

/// Whether a denominator with the given nature may be zero: with unknown
/// nature it may; with float bounds, when `column_spans` says so of some
/// column; with float categories, all known, when `zero_or_nan` says so of
/// some category; otherwise it may not.
pub open spec fn may_span_zero_holds<F, S: Fn(&Option<F>, &Option<F>) -> bool, Z: Fn(&F) -> bool>(
    nature: Option<NatureView<F>>,
    column_spans: S,
    zero_or_nan: Z,
    b: bool,
) -> bool {
    match nature {
        None => b,
        Some(NatureView::Continuous { min: BoundsView::F64(a), max: BoundsView::F64(c) }) => if b {
            some_column_spans(column_spans, a, c)
        } else {
            forall|i: int| 0 <= i < min_len(a.len(), c.len()) ==> call_ensures(column_spans, (&a[i], &c[i]), false)
        },
        Some(NatureView::Categorical(CategoriesView::F64(cs))) => if all_known(cs) {
            if b {
                exists|i: int, j: int| #![trigger cs[i]->0[j]] 0 <= i < cs.len() && 0 <= j < cs[i]->0.len()
                    && call_ensures(zero_or_nan, (&cs[i]->0[j],), true)
            } else {
                forall|i: int, j: int| #![trigger cs[i]->0[j]] 0 <= i < cs.len() && 0 <= j < cs[i]->0.len()
                    ==> call_ensures(zero_or_nan, (&cs[i]->0[j],), false)
            }
        } else {
            !b
        },
        _ => !b,
    }
}

#[verifier::loop_isolation(false)]
fn float_denominator_may_span_zero<F, S: Fn(&Option<F>, &Option<F>) -> bool, Z: Fn(&F) -> bool>(
    right_property: &ArrayProperties<F>,
    column_spans: &S,
    zero_or_nan: &Z,
) -> (b: bool)
    requires
        forall|a: &Option<F>, c: &Option<F>| #[trigger] call_requires(*column_spans, (a, c)),
        forall|a: &F| #[trigger] call_requires(*zero_or_nan, (a,)),
    ensures
        may_span_zero_holds(right_property@.nature, *column_spans, *zero_or_nan, b),
{
    match &right_property.nature {
        None => true,
        Some(Nature::Continuous(nature)) => match (&nature.min, &nature.max) {
            (Vector1DNull::F64(min), Vector1DNull::F64(max)) => {
                let k: usize = if min.len() <= max.len() { min.len() } else { max.len() };
                let mut i: usize = 0;
                while i < k
                    invariant
                        k == min_len(min@.len(), max@.len()),
                        i <= k,
                        forall|a: &Option<F>, c: &Option<F>| #[trigger] call_requires(*column_spans, (a, c)),
                        forall|j: int| 0 <= j < i ==> call_ensures(*column_spans, (&min@[j], &max@[j]), false),
                    decreases k - i,
                {
                    if column_spans(&min[i], &max[i]) {
                        assert(call_ensures(*column_spans, (&min@[i as int], &max@[i as int]), true));
                        assert(0 <= i < min_len(min@.len(), max@.len()));
                        assert(some_column_spans(*column_spans, min@, max@));
                        assert(right_property@.nature == Some(NatureView::Continuous { min: BoundsView::F64(min@), max: BoundsView::F64(max@) }));
                        return true;
                    }
                    i = i + 1;
                }
                false
            },
            _ => false,
        },
        Some(Nature::Categorical(nature)) => match &nature.categories {
            Jagged::F64(cs) => {
                let mut i: usize = 0;
                while i < cs.len()
                    invariant
                        i <= cs@.len(),
                        forall|j: int| 0 <= j < i ==> (#[trigger] cs@[j]) is Some,
                    decreases cs@.len() - i,
                {
                    if cs[i].is_none() {
                        assert(right_property@.nature->0->Categorical_0->F64_0[i as int] is None);
                        return false;
                    }
                    i = i + 1;
                }
                let ghost cv = right_property@.nature->0->Categorical_0->F64_0;
                assert(all_known(cv));
                let mut i: usize = 0;
                while i < cs.len()
                    invariant
                        i <= cs@.len(),
                        cv == right_property@.nature->0->Categorical_0->F64_0,
                        cv.len() == cs@.len(),
                        forall|j: int| 0 <= j < cs@.len() ==> (#[trigger] cs@[j]) is Some && cv[j] == Some(cs@[j]->0@),
                        forall|a: &F| #[trigger] call_requires(*zero_or_nan, (a,)),
                        forall|p: int, q: int| #![trigger cv[p]->0[q]] 0 <= p < i && 0 <= q < cv[p]->0.len()
                            ==> call_ensures(*zero_or_nan, (&cv[p]->0[q],), false),
                    decreases cs@.len() - i,
                {
                    match &cs[i] {
                        Some(column) => {
                            let mut j: usize = 0;
                            while j < column.len()
                                invariant
                                    i < cs@.len(),
                                    cs@[i as int] == Some(*column),
                                    cv[i as int] == Some(column@),
                                    j <= column@.len(),
                                    forall|a: &F| #[trigger] call_requires(*zero_or_nan, (a,)),
                                    forall|q: int| 0 <= q < j ==> call_ensures(*zero_or_nan, (&column@[q],), false),
                                decreases column@.len() - j,
                            {
                                if zero_or_nan(&column[j]) {
                                    assert(cv[i as int]->0[j as int] == column@[j as int]);
                                    assert(call_ensures(*zero_or_nan, (&cv[i as int]->0[j as int],), true));
                                    return true;
                                }
                                j = j + 1;
                            }
                            assert forall|q: int| 0 <= q < cv[i as int]->0.len() implies
                                call_ensures(*zero_or_nan, (&cv[i as int]->0[q],), false) by {
                                assert(cv[i as int]->0[q] == column@[q]);
                            }
                        },
                        None => {},
                    }
                    i = i + 1;
                }
                false
            },
            _ => false,
        },
    }
}

/// The output of a division: that of an arithmetic transform whose output
/// may also be null where the denominator may be zero.
pub open spec fn divide_holds<
    F,
    FO: Fn(&F, &F) -> Result<F, Error>,
    FB: Fn(BinaryBounds<F>) -> Result<(Option<F>, Option<F>), Error>,
    M: Fn(&F, &F) -> F,
    S: Fn(&Option<F>, &Option<F>) -> bool,
    Z: Fn(&F) -> bool,
>(
    properties: Map<Seq<char>, ValueProperties<F>>,
    float_div: FO,
    float_bounds: FB,
    stability_max: M,
    column_spans: S,
    zero_or_nan: Z,
    r: Result<ValuePropertiesView<F>, Error>,
) -> bool {
    match arithmetic_inputs(properties) {
        Err(e) => r == Err::<ValuePropertiesView<F>, Error>(e),
        Ok((left, right, columns, rows)) => exists|b: bool| {
            &&& may_span_zero_holds(right@.nature, column_spans, zero_or_nan, b)
            &&& binary_fields_hold(left@, right@, columns, rows, left.nullity || right.nullity || b,
                arithmetic_view(float_div, float_bounds, Some(IntBinaryOp::Divide), None, None), stability_max, r)
        },
    }
}

/// Element-wise division.
pub struct Divide;

impl Divide {
    /// The output of a division: integer categories are divided with checked
    /// (truncating) division and nothing is known of integer bounds; floats
    /// are divided by `float_div` and their bounds derived by `float_bounds`.
    /// The output may be null where either argument may be, and where the
    /// denominator may be zero (see `may_span_zero_holds`).
    pub fn propagate_property<
        F: Clone,
        FO: Fn(&F, &F) -> Result<F, Error>,
        FB: Fn(BinaryBounds<F>) -> Result<(Option<F>, Option<F>), Error>,
        M: Fn(&F, &F) -> F,
        S: Fn(&Option<F>, &Option<F>) -> bool,
        Z: Fn(&F) -> bool,
    >(
        &self,
        properties: &NodeProperties<F>,
        float_div: FO,
        float_bounds: FB,
        stability_max: M,
        column_spans: S,
        zero_or_nan: Z,
    ) -> (r: Result<ValueProperties<F>, Error>)
        requires
            clone_exact::<F>(),
            closure_total2(float_div),
            bounds_total2(float_bounds),
            max_total(stability_max),
            forall|a: &Option<F>, c: &Option<F>| #[trigger] call_requires(column_spans, (a, c)),
            forall|a: &F| #[trigger] call_requires(zero_or_nan, (a,)),
        ensures
            divide_holds(properties@, float_div, float_bounds, stability_max, column_spans, zero_or_nan, value_result_view(r)),
    {
        let (left_property, right_property, num_columns, num_records) = arithmetic_arguments(properties)?;
        let may_span_zero = float_denominator_may_span_zero(right_property, &column_spans, &zero_or_nan);
        let ops = BinaryOperators { float: Some(float_div), int: Some(IntBinaryOp::Divide), str: None, bool: None };
        let opt = OptimizeBinaryOperators { float: Some(float_bounds), int: None };
        assemble_binary(left_property, right_property, num_columns, num_records,
            left_property.nullity || right_property.nullity || may_span_zero, &ops, &opt, &stability_max)
    }
}


// ---------------------------------------------------------------------------
// Transforms that keep the properties of their data but for the nature
// ---------------------------------------------------------------------------

/// `a` with its nature replaced by `n`.
pub open spec fn with_nature<F>(a: ArrayPropertiesView<F>, n: Option<NatureView<F>>) -> ArrayPropertiesView<F> {
    ArrayPropertiesView {
        num_records: a.num_records,
        num_columns: a.num_columns,
        nullity: a.nullity,
        releasable: a.releasable,
        c_stability: a.c_stability,
        aggregator: a.aggregator,
        nature: n,
        data_type: a.data_type,
        dataset_id: a.dataset_id,
    }
}

/// The output is `data` with a nature of which `holds` is true, or a failure
/// of which `holds` is true.
pub open spec fn nature_replaced_holds<F>(
    data: ArrayPropertiesView<F>,
    holds: spec_fn(Result<Option<NatureView<F>>, Error>) -> bool,
    r: Result<ValuePropertiesView<F>, Error>,
) -> bool {
    match r {
        Ok(ValuePropertiesView::Array(out)) => out == with_nature(data, out.nature) && holds(Ok(out.nature)),
        Err(e) => holds(Err(e)),
        _ => false,
    }
}

fn with_new_nature<F: Clone>(data: &ArrayProperties<F>, nature: Option<Nature<F>>) -> (r: ValueProperties<F>)
    requires
        clone_exact::<F>(),
    ensures
        r@ == ValuePropertiesView::Array(with_nature(data@, nature_option_view(nature))),
{
    ValueProperties::Array(ArrayProperties {
        num_records: data.num_records,
        num_columns: data.num_columns,
        nullity: data.nullity,
        releasable: data.releasable,
        c_stability: copy_values(&data.c_stability),
        aggregator: data.aggregator,
        nature,
        data_type: data.data_type,
        dataset_id: data.dataset_id,
    })
}

/// `p` said yes of every entry.
pub open spec fn all_hold<F, P: Fn(&F) -> bool>(p: P, s: Seq<F>) -> bool {
    forall|i: int| 0 <= i < s.len() ==> call_ensures(p, (&s[i],), true)
}

/// `p` said no of some entry.
pub open spec fn some_fails<F, P: Fn(&F) -> bool>(p: P, s: Seq<F>) -> bool {
    exists|i: int| 0 <= i < s.len() && call_ensures(p, (&s[i],), false)
}

/// `p` said yes of every pair of entries at one index.
pub open spec fn all_pairs_hold<F, P: Fn(&F, &F) -> bool>(p: P, a: Seq<F>, b: Seq<F>) -> bool {
    forall|i: int| 0 <= i < min_len(a.len(), b.len()) ==> call_ensures(p, (&a[i], &b[i]), true)
}

/// `p` said no of some pair of entries at one index.
pub open spec fn some_pair_fails<F, P: Fn(&F, &F) -> bool>(p: P, a: Seq<F>, b: Seq<F>) -> bool {
    exists|i: int| 0 <= i < min_len(a.len(), b.len()) && call_ensures(p, (&a[i], &b[i]), false)
}

fn check_all<F, P: Fn(&F) -> bool>(p: &P, v: &Vec<F>) -> (b: bool)
    requires
        forall|a: &F| #[trigger] call_requires(*p, (a,)),
    ensures
        b ==> all_hold(*p, v@),
        !b ==> some_fails(*p, v@),
{
    let mut i: usize = 0;
    while i < v.len()
        invariant
            i <= v@.len(),
            forall|a: &F| #[trigger] call_requires(*p, (a,)),
            forall|j: int| 0 <= j < i ==> call_ensures(*p, (&v@[j],), true),
        decreases v@.len() - i,
    {
        if !p(&v[i]) {
            assert(call_ensures(*p, (&v@[i as int],), false));
            return false;
        }
        i = i + 1;
    }
    true
}

fn check_all_pairs<F, P: Fn(&F, &F) -> bool>(p: &P, a: &Vec<F>, b: &Vec<F>) -> (r: bool)
    requires
        forall|x: &F, y: &F| #[trigger] call_requires(*p, (x, y)),
    ensures
        r ==> all_pairs_hold(*p, a@, b@),
        !r ==> some_pair_fails(*p, a@, b@),
{
    let k: usize = if a.len() <= b.len() { a.len() } else { b.len() };
    let mut i: usize = 0;
    while i < k
        invariant
            k == min_len(a@.len(), b@.len()),
            i <= k,
            forall|x: &F, y: &F| #[trigger] call_requires(*p, (x, y)),
            forall|j: int| 0 <= j < i ==> call_ensures(*p, (&a@[j], &b@[j]), true),
        decreases k - i,
    {
        if !p(&a[i], &b[i]) {
            assert(call_ensures(*p, (&a@[i as int], &b@[i as int]), false));
            return false;
        }
        i = i + 1;
    }
    true
}

// ---------------------------------------------------------------------------
// Power
// ---------------------------------------------------------------------------

pub open spec fn float_only_view<F, FO: Fn(&F, &F) -> Result<F, Error>>(float_op: FO) -> BinaryOperatorsView<F> {
    BinaryOperatorsView { float: binary_op_rel(Some(float_op)), int: None, str: None, bool: None, float_bounds: None, int_bounds: None }
}

pub open spec fn power_int_view<F>() -> BinaryOperatorsView<F> {
    BinaryOperatorsView { float: None, int: Some(IntBinaryOp::Power), str: None, bool: None, float_bounds: None, int_bounds: None }
}

/// Some entry is negative.
pub open spec fn some_negative(s: Seq<i64>) -> bool {
    exists|i: int| 0 <= i < s.len() && s[i] < 0
}

fn any_negative(v: &Vec<i64>) -> (r: bool)
    ensures
        r == some_negative(v@),
{
    let mut i: usize = 0;
    while i < v.len()
        invariant
            i <= v@.len(),
            forall|j: int| 0 <= j < i ==> v@[j] >= 0,
        decreases v@.len() - i,
    {
        if v[i] < 0 {
            return true;
        }
        i = i + 1;
    }
    false
}

pub open spec fn power_holds<F, FO: Fn(&F, &F) -> Result<F, Error>>(
    properties: Map<Seq<char>, ValueProperties<F>>,
    float_pow: FO,
    r: Result<ValuePropertiesView<F>, Error>,
) -> bool {
    match array_argument_spec(properties, "data"@, ArgumentName::Data) {
        Err(e) => r == Err::<ValuePropertiesView<F>, Error>(e),
        Ok(d) => match array_argument_spec(properties, "radical"@, ArgumentName::Radical) {
            Err(e) => r == Err::<ValuePropertiesView<F>, Error>(e),
            Ok(rad) => if d.aggregator is Some {
                r == Err::<ValuePropertiesView<F>, Error>(Error::AggregatedData)
            } else {
                match (d.data_type, rad.data_type) {
                    (DataType::F64, DataType::F64) => match d.num_columns {
                        None => r == Err::<ValuePropertiesView<F>, Error>(Error::UnknownColumnCount),
                        Some(n) => nature_replaced_holds(d@, |res: Result<Option<NatureView<F>>, Error>|
                            binary_nature_holds(d@.nature, rad@.nature, float_only_view(float_pow), n, res), r),
                    },
                    (DataType::I64, DataType::I64) => match known_bounds(rad@.nature, true, |b| pick_i64::<F>(b)) {
                        Err(e) => r == Err::<ValuePropertiesView<F>, Error>(e),
                        Ok(mins) => if some_negative(mins) {
                            r == Err::<ValuePropertiesView<F>, Error>(Error::NegativePower)
                        } else {
                            match d.num_columns {
                                None => r == Err::<ValuePropertiesView<F>, Error>(Error::UnknownColumnCount),
                                Some(n) => nature_replaced_holds(d@, |res: Result<Option<NatureView<F>>, Error>|
                                    binary_nature_holds(d@.nature, rad@.nature, power_int_view(), n, res), r),
                            }
                        },
                    },
                    _ => r == Err::<ValuePropertiesView<F>, Error>(Error::PowerArgumentTypes),
                }
            },
        },
    }
}

/// Element-wise power.
pub struct Power;

impl Power {
    /// The output of raising `data` to the power `radical`: floats are
    /// raised by `float_pow`, with nothing known of the bounds; integers are
    /// raised with checked arithmetic (the exponent taken as a `u32`) when
    /// the exponent's lower bounds are all known and none is negative, with
    /// nothing known of the bounds; other types are refused.
    pub fn propagate_property<F: Clone, FO: Fn(&F, &F) -> Result<F, Error>>(
        &self,
        properties: &NodeProperties<F>,
        float_pow: FO,
    ) -> (r: Result<ValueProperties<F>, Error>)
        requires
            clone_exact::<F>(),
            closure_total2(float_pow),
        ensures
            power_holds(properties@, float_pow, value_result_view(r)),
    {
        let data_property = array_argument(properties, "data", ArgumentName::Data)?;
        let radical_property = array_argument(properties, "radical", ArgumentName::Radical)?;
        data_property.assert_is_not_aggregated()?;
        match (data_property.data_type, radical_property.data_type) {
            (DataType::F64, DataType::F64) => {
                let ops = BinaryOperators { float: Some(float_pow), int: None, str: None, bool: None };
                let opt = OptimizeBinaryOperators {
                    float: absent(|b: BinaryBounds<F>| -> (res: Result<(Option<F>, Option<F>), Error>) { Ok((None, None)) }),
                    int: None,
                };
                let num_columns = data_property.num_columns()?;
                let nature = propagate_binary_nature(data_property, radical_property, &ops, &opt, &num_columns)?;
                Ok(with_new_nature(data_property, nature))
            },
            (DataType::I64, DataType::I64) => {
                let mins = radical_property.min_i64()?;
                if any_negative(&mins) {
                    return Err(Error::NegativePower);
                }
                let ops = BinaryOperators::<FO> { float: None, int: Some(IntBinaryOp::Power), str: None, bool: None };
                let opt = OptimizeBinaryOperators {
                    float: absent(|b: BinaryBounds<F>| -> (res: Result<(Option<F>, Option<F>), Error>) { Ok((None, None)) }),
                    int: None,
                };
                let num_columns = data_property.num_columns()?;
                let nature = propagate_binary_nature(data_property, radical_property, &ops, &opt, &num_columns)?;
                Ok(with_new_nature(data_property, nature))
            },
            _ => Err(Error::PowerArgumentTypes),
        }
    }
}

// ---------------------------------------------------------------------------
// Log
// ---------------------------------------------------------------------------

/// The lower and upper bounds of the base and the lower bounds of the data
/// of a logarithm pass the checks `valid_base` and `positive`, then the
/// nature of the output follows from `float_log`.
pub open spec fn log_checks_hold<F, FO: Fn(&F, &F) -> Result<F, Error>, V: Fn(&F, &F) -> bool, P: Fn(&F) -> bool>(
    d: ArrayProperties<F>,
    b: ArrayProperties<F>,
    float_log: FO,
    valid_base: V,
    positive: P,
    r: Result<ValuePropertiesView<F>, Error>,
) -> bool {
    match known_bounds(b@.nature, true, |x| pick_float::<F>(x)) {
        Err(e) => r == Err::<ValuePropertiesView<F>, Error>(e),
        Ok(bmin) => match known_bounds(b@.nature, false, |x| pick_float::<F>(x)) {
            Err(e) => r == Err::<ValuePropertiesView<F>, Error>(e),
            Ok(bmax) => {
                ||| some_pair_fails(valid_base, bmin, bmax) && r == Err::<ValuePropertiesView<F>, Error>(Error::LogBaseOutOfRange)
                ||| all_pairs_hold(valid_base, bmin, bmax) && match known_bounds(d@.nature, true, |x| pick_float::<F>(x)) {
                    Err(e) => r == Err::<ValuePropertiesView<F>, Error>(e),
                    Ok(dmin) => {
                        ||| some_fails(positive, dmin) && r == Err::<ValuePropertiesView<F>, Error>(Error::LogDataNotPositive)
                        ||| all_hold(positive, dmin) && match d.num_columns {
                            None => r == Err::<ValuePropertiesView<F>, Error>(Error::UnknownColumnCount),
                            Some(n) => nature_replaced_holds(d@, |res: Result<Option<NatureView<F>>, Error>|
                                binary_nature_holds(d@.nature, b@.nature, float_only_view(float_log), n, res), r),
                        }
                    },
                }
            },
        },
    }
}

pub open spec fn log_holds<F, FO: Fn(&F, &F) -> Result<F, Error>, V: Fn(&F, &F) -> bool, P: Fn(&F) -> bool>(
    properties: Map<Seq<char>, ValueProperties<F>>,
    float_log: FO,
    valid_base: V,
    positive: P,
    r: Result<ValuePropertiesView<F>, Error>,
) -> bool {
    match array_argument_spec(properties, "data"@, ArgumentName::Left) {
        Err(e) => r == Err::<ValuePropertiesView<F>, Error>(e),
        Ok(d) => match array_argument_spec(properties, "base"@, ArgumentName::Base) {
            Err(e) => r == Err::<ValuePropertiesView<F>, Error>(e),
            Ok(b) => if d.aggregator is Some {
                r == Err::<ValuePropertiesView<F>, Error>(Error::AggregatedData)
            } else if d.data_type != DataType::F64 {
                r == Err::<ValuePropertiesView<F>, Error>(Error::LogArgumentTypes)
            } else {
                log_checks_hold(d, b, float_log, valid_base, positive, r)
            },
        },
    }
}

/// Element-wise logarithm of `data` to the given `base`.
pub struct Log;

impl Log {
    /// The output of a logarithm: the data must be floats, every column of
    /// the base must have known bounds that `valid_base` accepts (a base in
    /// (0, 1) or above 1), and every lower bound of the data must be known
    /// and accepted by `positive`; categories are mapped by `float_log`, and
    /// nothing is known of the bounds of the output.  A missing `data`
    /// argument is reported under the name `left`.
    pub fn propagate_property<
        F: Clone,
        FO: Fn(&F, &F) -> Result<F, Error>,
        V: Fn(&F, &F) -> bool,
        P: Fn(&F) -> bool,
    >(
        &self,
        properties: &NodeProperties<F>,
        float_log: FO,
        valid_base: V,
        positive: P,
    ) -> (r: Result<ValueProperties<F>, Error>)
        requires
            clone_exact::<F>(),
            closure_total2(float_log),
            forall|a: &F, c: &F| #[trigger] call_requires(valid_base, (a, c)),
            forall|a: &F| #[trigger] call_requires(positive, (a,)),
        ensures
            log_holds(properties@, float_log, valid_base, positive, value_result_view(r)),
    {
        let data_property = array_argument(properties, "data", ArgumentName::Left)?;
        let base_property = array_argument(properties, "base", ArgumentName::Base)?;
        data_property.assert_is_not_aggregated()?;
        if data_property.data_type != DataType::F64 {
            return Err(Error::LogArgumentTypes);
        }
        let base_min = base_property.min_float()?;
        let base_max = base_property.max_float()?;
        if !check_all_pairs(&valid_base, &base_min, &base_max) {
            return Err(Error::LogBaseOutOfRange);
        }
        let data_min = data_property.min_float()?;
        if !check_all(&positive, &data_min) {
            return Err(Error::LogDataNotPositive);
        }
        let ops = BinaryOperators { float: Some(float_log), int: None, str: None, bool: None };
        let opt = OptimizeBinaryOperators {
            float: absent(|b: BinaryBounds<F>| -> (res: Result<(Option<F>, Option<F>), Error>) { Ok((None, None)) }),
            int: None,
        };
        let num_columns = data_property.num_columns()?;
        let nature = propagate_binary_nature(data_property, base_property, &ops, &opt, &num_columns)?;
        Ok(with_new_nature(data_property, nature))
    }
}

// ---------------------------------------------------------------------------
// Negative
// ---------------------------------------------------------------------------

pub open spec fn negative_view<F, FO: Fn(&F) -> Result<F, Error>, FB: Fn(UnaryBounds<F>) -> Result<(Option<F>, Option<F>), Error>>(
    float_neg: FO,
    float_bounds: FB,
) -> UnaryOperatorsView<F> {
    UnaryOperatorsView {
        float: unary_op_rel(Some(float_neg)),
        int: Some(IntUnaryOp::Negate),
        str: None,
        bool: None,
        float_bounds: unary_bounds_rel(Some(float_bounds)),
        int_bounds: Some(IntUnaryBoundsOp::Negate),
    }
}

/// Where a negation reaches its integer operators (the argument `data`
/// exists and its number of columns is known), no integer bound or category
/// they reach is `i64::MIN`, whose negation overflows.
pub open spec fn negative_defined<F>(properties: Map<Seq<char>, ValueProperties<F>>) -> bool {
    match array_argument_spec(properties, "data"@, ArgumentName::Data) {
        Ok(d) => match d.num_columns {
            Some(n) => unary_nature_defined(d@.nature, Some(IntUnaryOp::Negate), Some(IntUnaryBoundsOp::Negate), n),
            None => true,
        },
        Err(_) => true,
    }
}

pub open spec fn negative_holds<F, FO: Fn(&F) -> Result<F, Error>, FB: Fn(UnaryBounds<F>) -> Result<(Option<F>, Option<F>), Error>>(
    properties: Map<Seq<char>, ValueProperties<F>>,
    float_neg: FO,
    float_bounds: FB,
    r: Result<ValuePropertiesView<F>, Error>,
) -> bool {
    match array_argument_spec(properties, "data"@, ArgumentName::Data) {
        Err(e) => r == Err::<ValuePropertiesView<F>, Error>(e),
        Ok(d) => match d.num_columns {
            None => r == Err::<ValuePropertiesView<F>, Error>(Error::UnknownColumnCount),
            Some(n) => nature_replaced_holds(d@, |res: Result<Option<NatureView<F>>, Error>|
                unary_nature_holds(d@.nature, negative_view(float_neg, float_bounds), n, res), r),
        },
    }
}

/// Element-wise negation of numbers.
pub struct Negative;

impl Negative {
    /// The output of a negation: integer categories are negated and the
    /// bounds of integer columns become the negated upper bound below the
    /// negated lower bound; floats are negated by `float_neg` and their
    /// bounds by `float_bounds`.  Aggregated data is accepted.
    pub fn propagate_property<
        F: Clone,
        FO: Fn(&F) -> Result<F, Error>,
        FB: Fn(UnaryBounds<F>) -> Result<(Option<F>, Option<F>), Error>,
    >(
        &self,
        properties: &NodeProperties<F>,
        float_neg: FO,
        float_bounds: FB,
    ) -> (r: Result<ValueProperties<F>, Error>)
        requires
            clone_exact::<F>(),
            negative_defined(properties@),
            forall|a: &F| #[trigger] call_requires(float_neg, (a,)),
            forall|b: UnaryBounds<F>| #[trigger] call_requires(float_bounds, (b,)),
        ensures
            negative_holds(properties@, float_neg, float_bounds, value_result_view(r)),
    {
        let data_property = array_argument(properties, "data", ArgumentName::Data)?;
        let ops = UnaryOperators {
            float: Some(float_neg),
            int: Some(IntUnaryOp::Negate),
            str: absent(|a: &String| -> (res: Result<String, Error>) { Err(Error::CategoriesNotPropagated(CategoryKind::Strings)) }),
            bool: None,
        };
        let opt = OptimizeUnaryOperators { float: Some(float_bounds), int: Some(IntUnaryBoundsOp::Negate) };
        let num_columns = data_property.num_columns()?;
        let nature = propagate_unary_nature(data_property, &ops, &opt, &num_columns)?;
        Ok(with_new_nature(data_property, nature))
    }
}

// ---------------------------------------------------------------------------
// Modulo
// ---------------------------------------------------------------------------

pub open spec fn modulo_int_view<F>() -> BinaryOperatorsView<F> {
    BinaryOperatorsView {
        float: None,
        int: Some(IntBinaryOp::Modulo),
        str: None,
        bool: None,
        float_bounds: None,
        int_bounds: Some(IntBoundsOp::Modulo),
    }
}

pub open spec fn modulo_float_view<
    F,
    FO: Fn(&F, &F) -> Result<F, Error>,
    FB: Fn(BinaryBounds<F>) -> Result<(Option<F>, Option<F>), Error>,
>(float_mod: FO, float_bounds: FB) -> BinaryOperatorsView<F> {
    BinaryOperatorsView {
        float: binary_op_rel(Some(float_mod)),
        int: None,
        str: None,
        bool: None,
        float_bounds: binary_bounds_rel(Some(float_bounds)),
        int_bounds: None,
    }
}

/// Where a modulo reaches its integer bounds operator (both arguments
/// exist, the left one is not aggregated, both are integers, every lower
/// bound of the divisor is known and positive, and the number of columns of
/// the left one is known), no upper bound of the divisor that it reaches is
/// `i64::MIN`, below which nothing lies.
pub open spec fn modulo_defined<F>(properties: Map<Seq<char>, ValueProperties<F>>) -> bool {
    match (array_argument_spec(properties, "left"@, ArgumentName::Left), array_argument_spec(properties, "right"@, ArgumentName::Right)) {
        (Ok(l), Ok(rt)) => match known_bounds(rt@.nature, true, |x| pick_i64::<F>(x)) {
            Ok(mins) => match l.num_columns {
                Some(n) => (l.aggregator is None && l.data_type == DataType::I64 && rt.data_type == DataType::I64
                    && all_positive(mins)) ==> binary_nature_defined(l@.nature, rt@.nature,
                        Some(IntBinaryOp::Modulo), Some(IntBoundsOp::Modulo), n),
                None => true,
            },
            Err(_) => true,
        },
        _ => true,
    }
}

/// Every entry is positive.
pub open spec fn all_positive(s: Seq<i64>) -> bool {
    forall|i: int| 0 <= i < s.len() ==> s[i] > 0
}

pub open spec fn modulo_holds<
    F,
    FO: Fn(&F, &F) -> Result<F, Error>,
    FB: Fn(BinaryBounds<F>) -> Result<(Option<F>, Option<F>), Error>,
    P: Fn(&F) -> bool,
>(
    properties: Map<Seq<char>, ValueProperties<F>>,
    float_mod: FO,
    float_bounds: FB,
    positive: P,
    r: Result<ValuePropertiesView<F>, Error>,
) -> bool {
    match array_argument_spec(properties, "left"@, ArgumentName::Left) {
        Err(e) => r == Err::<ValuePropertiesView<F>, Error>(e),
        Ok(l) => match array_argument_spec(properties, "right"@, ArgumentName::Right) {
            Err(e) => r == Err::<ValuePropertiesView<F>, Error>(e),
            Ok(rt) => if l.aggregator is Some {
                r == Err::<ValuePropertiesView<F>, Error>(Error::AggregatedData)
            } else {
                match (l.data_type, rt.data_type) {
                    (DataType::F64, DataType::F64) => match known_bounds(rt@.nature, true, |x| pick_float::<F>(x)) {
                        Err(e) => r == Err::<ValuePropertiesView<F>, Error>(e),
                        Ok(mins) => {
                            ||| some_fails(positive, mins) && r == Err::<ValuePropertiesView<F>, Error>(Error::NonPositiveDivisor)
                            ||| all_hold(positive, mins) && match l.num_columns {
                                None => r == Err::<ValuePropertiesView<F>, Error>(Error::UnknownColumnCount),
                                Some(n) => nature_replaced_holds(l@, |res: Result<Option<NatureView<F>>, Error>|
                                    binary_nature_holds(l@.nature, rt@.nature, modulo_float_view(float_mod, float_bounds), n, res), r),
                            }
                        },
                    },
                    (DataType::I64, DataType::I64) => match known_bounds(rt@.nature, true, |x| pick_i64::<F>(x)) {
                        Err(e) => r == Err::<ValuePropertiesView<F>, Error>(e),
                        Ok(mins) => if !all_positive(mins) {
                            r == Err::<ValuePropertiesView<F>, Error>(Error::NonPositiveDivisor)
                        } else {
                            match l.num_columns {
                                None => r == Err::<ValuePropertiesView<F>, Error>(Error::UnknownColumnCount),
                                Some(n) => nature_replaced_holds(l@, |res: Result<Option<NatureView<F>>, Error>|
                                    binary_nature_holds(l@.nature, rt@.nature, modulo_int_view(), n, res), r),
                            }
                        },
                    },
                    _ => r == Err::<ValuePropertiesView<F>, Error>(Error::PowerArgumentTypes),
                }
            },
        },
    }
}

fn all_positive_i64(v: &Vec<i64>) -> (r: bool)
    ensures
        r == all_positive(v@),
{
    let mut i: usize = 0;
    while i < v.len()
        invariant
            i <= v@.len(),
            forall|j: int| 0 <= j < i ==> v@[j] > 0,
        decreases v@.len() - i,
    {
        if v[i] <= 0 {
            return false;
        }
        i = i + 1;
    }
    true
}

/// Element-wise Euclidean remainder.
pub struct Modulo;

impl Modulo {
    /// The output of a modulo: the divisor must be numeric like the
    /// dividend, with known lower bounds all positive (for floats, as
    /// `positive` says); integers take the Euclidean remainder, with bounds
    /// from zero to one less than the divisor's upper bound; floats use
    /// `float_mod` and `float_bounds`.  Other types are refused.
    pub fn propagate_property<
        F: Clone,
        FO: Fn(&F, &F) -> Result<F, Error>,
        FB: Fn(BinaryBounds<F>) -> Result<(Option<F>, Option<F>), Error>,
        P: Fn(&F) -> bool,
    >(
        &self,
        properties: &NodeProperties<F>,
        float_mod: FO,
        float_bounds: FB,
        positive: P,
    ) -> (r: Result<ValueProperties<F>, Error>)
        requires
            clone_exact::<F>(),
            modulo_defined(properties@),
            closure_total2(float_mod),
            bounds_total2(float_bounds),
            forall|a: &F| #[trigger] call_requires(positive, (a,)),
        ensures
            modulo_holds(properties@, float_mod, float_bounds, positive, value_result_view(r)),
    {
        let left_property = array_argument(properties, "left", ArgumentName::Left)?;
        let right_property = array_argument(properties, "right", ArgumentName::Right)?;
        left_property.assert_is_not_aggregated()?;
        match (left_property.data_type, right_property.data_type) {
            (DataType::F64, DataType::F64) => {
                let mins = right_property.min_float()?;
                if !check_all(&positive, &mins) {
                    return Err(Error::NonPositiveDivisor);
                }
                let ops = BinaryOperators { float: Some(float_mod), int: None, str: None, bool: None };
                let opt = OptimizeBinaryOperators { float: Some(float_bounds), int: None };
                let num_columns = left_property.num_columns()?;
                let nature = propagate_binary_nature(left_property, right_property, &ops, &opt, &num_columns)?;
                Ok(with_new_nature(left_property, nature))
            },
            (DataType::I64, DataType::I64) => {
                let mins = right_property.min_i64()?;
                if !all_positive_i64(&mins) {
                    return Err(Error::NonPositiveDivisor);
                }
                let ops = BinaryOperators::<FO> { float: None, int: Some(IntBinaryOp::Modulo), str: None, bool: None };
                let opt = OptimizeBinaryOperators {
                    float: absent(|b: BinaryBounds<F>| -> (res: Result<(Option<F>, Option<F>), Error>) { Ok((None, None)) }),
                    int: Some(IntBoundsOp::Modulo),
                };
                let num_columns = left_property.num_columns()?;
                let nature = propagate_binary_nature(left_property, right_property, &ops, &opt, &num_columns)?;
                Ok(with_new_nature(left_property, nature))
            },
            _ => Err(Error::PowerArgumentTypes),
        }
    }
}

// ---------------------------------------------------------------------------
// And, Or, Negate
// ---------------------------------------------------------------------------

pub open spec fn bool_view<F>(op: BoolBinaryOp) -> BinaryOperatorsView<F> {
    BinaryOperatorsView { float: None, int: None, str: None, bool: Some(op), float_bounds: None, int_bounds: None }
}

/// The output of an element-wise logical operator: the left argument with
/// the combined releasability, nature, stability and shape.
pub open spec fn logical_holds<F, M: Fn(&F, &F) -> F>(
    properties: Map<Seq<char>, ValueProperties<F>>,
    op: BoolBinaryOp,
    max: M,
    r: Result<ValuePropertiesView<F>, Error>,
) -> bool {
    match arithmetic_inputs(properties) {
        Err(e) => r == Err::<ValuePropertiesView<F>, Error>(e),
        Ok((left, right, columns, rows)) => binary_fields_hold(
            left@, right@, columns, rows, left.nullity, bool_view(op), max, r),
    }
}

fn logical_property<F: Clone, M: Fn(&F, &F) -> F>(
    properties: &NodeProperties<F>,
    op: BoolBinaryOp,
    stability_max: &M,
) -> (r: Result<ValueProperties<F>, Error>)
    requires
        clone_exact::<F>(),
        max_total(*stability_max),
    ensures
        logical_holds(properties@, op, *stability_max, value_result_view(r)),
{
    let (left_property, right_property, num_columns, num_records) = arithmetic_arguments(properties)?;
    let ops = BinaryOperators {
        float: absent(|a: &F, b: &F| -> (res: Result<F, Error>) { Err(Error::CategoriesNotPropagated(CategoryKind::Floats)) }),
        int: None,
        str: None,
        bool: Some(op),
    };
    let opt = OptimizeBinaryOperators {
        float: absent(|b: BinaryBounds<F>| -> (res: Result<(Option<F>, Option<F>), Error>) { Ok((None, None)) }),
        int: None,
    };
    assemble_binary(left_property, right_property, num_columns, num_records, left_property.nullity, &ops, &opt, stability_max)
}

/// Element-wise conjunction.
pub struct And;

impl And {
    /// The output of a conjunction: boolean categories are combined by `&&`,
    /// the output may be released when both arguments may, and the
    /// stability of each column is the larger of the two (`stability_max`).
    pub fn propagate_property<F: Clone, M: Fn(&F, &F) -> F>(
        &self,
        properties: &NodeProperties<F>,
        stability_max: M,
    ) -> (r: Result<ValueProperties<F>, Error>)
        requires
            clone_exact::<F>(),
            max_total(stability_max),
        ensures
            logical_holds(properties@, BoolBinaryOp::And, stability_max, value_result_view(r)),
    {
        logical_property(properties, BoolBinaryOp::And, &stability_max)
    }
}

/// Element-wise disjunction.
pub struct Or;

impl Or {
    /// The output of a disjunction: boolean categories are combined by
    /// `||`, otherwise as for `And`.
    pub fn propagate_property<F: Clone, M: Fn(&F, &F) -> F>(
        &self,
        properties: &NodeProperties<F>,
        stability_max: M,
    ) -> (r: Result<ValueProperties<F>, Error>)
        requires
            clone_exact::<F>(),
            max_total(stability_max),
        ensures
            logical_holds(properties@, BoolBinaryOp::Or, stability_max, value_result_view(r)),
    {
        logical_property(properties, BoolBinaryOp::Or, &stability_max)
    }
}

pub open spec fn negate_view<F>() -> UnaryOperatorsView<F> {
    UnaryOperatorsView { float: None, int: None, str: None, bool: Some(BoolUnaryOp::Not), float_bounds: None, int_bounds: None }
}

pub open spec fn negate_holds<F>(properties: Map<Seq<char>, ValueProperties<F>>, r: Result<ValuePropertiesView<F>, Error>) -> bool {
    match array_argument_spec(properties, "left"@, ArgumentName::Left) {
        Err(e) => r == Err::<ValuePropertiesView<F>, Error>(e),
        Ok(d) => if d.aggregator is Some {
            r == Err::<ValuePropertiesView<F>, Error>(Error::AggregatedData)
        } else {
            match d.num_columns {
                None => r == Err::<ValuePropertiesView<F>, Error>(Error::UnknownColumnCount),
                Some(n) => nature_replaced_holds(d@, |res: Result<Option<NatureView<F>>, Error>|
                    unary_nature_holds(d@.nature, negate_view(), n, res), r),
            }
        },
    }
}

/// Element-wise logical negation of the argument `left`.
pub struct Negate;

impl Negate {
    /// The output of a negation: boolean categories are negated; categories
    /// of any other type are refused.
    pub fn propagate_property<F: Clone>(&self, properties: &NodeProperties<F>) -> (r: Result<ValueProperties<F>, Error>)
        requires
            clone_exact::<F>(),
        ensures
            negate_holds(properties@, value_result_view(r)),
    {
        let data_property = array_argument(properties, "left", ArgumentName::Left)?;
        data_property.assert_is_not_aggregated()?;
        let ops = UnaryOperators {
            float: absent(|a: &F| -> (res: Result<F, Error>) { Err(Error::CategoriesNotPropagated(CategoryKind::Floats)) }),
            int: None,
            str: absent(|a: &String| -> (res: Result<String, Error>) { Err(Error::CategoriesNotPropagated(CategoryKind::Strings)) }),
            bool: Some(BoolUnaryOp::Not),
        };
        let opt = OptimizeUnaryOperators {
            float: absent(|b: UnaryBounds<F>| -> (res: Result<(Option<F>, Option<F>), Error>) { Ok((None, None)) }),
            int: None,
        };
        let num_columns = data_property.num_columns()?;
        let nature = propagate_unary_nature(data_property, &ops, &opt, &num_columns)?;
        Ok(with_new_nature(data_property, nature))
    }
}

// ---------------------------------------------------------------------------
// Equal, LessThan, GreaterThan
// ---------------------------------------------------------------------------

/// `n` columns (none when `n` is not positive) whose categories are `true`
/// and `false`.
pub open spec fn boolean_categories<F>(n: i64) -> NatureView<F> {
    NatureView::Categorical(CategoriesView::Bool(
        Seq::new(if n > 0 { n as nat } else { 0nat }, |i: int| Some(seq![true, false])),
    ))
}

/// The output of a comparison: boolean, never null, with `true` and `false`
/// as the categories of every column.
pub open spec fn comparison_holds<F, M: Fn(&F, &F) -> F>(
    properties: Map<Seq<char>, ValueProperties<F>>,
    max: M,
    r: Result<ValuePropertiesView<F>, Error>,
) -> bool {
    match array_argument_spec(properties, "left"@, ArgumentName::Left) {
        Err(e) => r == Err::<ValuePropertiesView<F>, Error>(e),
        Ok(left) => match array_argument_spec(properties, "right"@, ArgumentName::Right) {
            Err(e) => r == Err::<ValuePropertiesView<F>, Error>(e),
            Ok(right) => match binary_shape_spec(left@, right@) {
                Err(e) => r == Err::<ValuePropertiesView<F>, Error>(e),
                Ok((columns, rows)) => match r {
                    Ok(ValuePropertiesView::Array(out)) => {
                        &&& stability_holds(max, left@.c_stability, right@.c_stability, columns, Ok(out.c_stability))
                        &&& out.nullity == false
                        &&& out.releasable == (left.releasable && right.releasable)
                        &&& out.nature == Some(boolean_categories::<F>(columns))
                        &&& out.num_columns == Some(columns)
                        &&& out.num_records == rows
                        &&& out.aggregator is None
                        &&& out.data_type == left.data_type
                        &&& out.dataset_id == left.dataset_id
                    },
                    Err(e) => e == Error::BroadcastFailed && stability_fails(left@.c_stability, right@.c_stability, columns),
                    _ => false,
                },
            },
        },
    }
}

fn boolean_nature<F>(n: i64) -> (r: Nature<F>)
    ensures
        r@ == boolean_categories::<F>(n),
{
    let mut columns: Vec<Option<Vec<bool>>> = Vec::new();
    let mut k: i64 = 0;
    while k < n
        invariant
            0 <= k,
            k <= n || (k == 0 && n <= 0),
            columns@.len() == k,
            forall|j: int| 0 <= j < k ==> #[trigger] column_view(columns@[j]) == Some(seq![true, false]),
        decreases n - k,
    {
        let c = vec![true, false];
        assert(c@ =~= seq![true, false]);
        columns.push(Some(c));
        k = k + 1;
    }
    let ghost target = Seq::new(if n > 0 { n as nat } else { 0nat }, |i: int| Some(seq![true, false]));
    assert(columns@.map_values(|o: Option<Vec<bool>>| column_view(o)) =~= target);
    Nature::Categorical(NatureCategorical { categories: Jagged::Bool(columns) })
}

fn comparison_property<F: Clone, M: Fn(&F, &F) -> F>(properties: &NodeProperties<F>, stability_max: &M) -> (r: Result<ValueProperties<F>, Error>)
    requires
        clone_exact::<F>(),
        max_total(*stability_max),
    ensures
        comparison_holds(properties@, *stability_max, value_result_view(r)),
{
    let left_property = array_argument(properties, "left", ArgumentName::Left)?;
    let right_property = array_argument(properties, "right", ArgumentName::Right)?;
    let (num_columns, num_records) = propagate_binary_shape(left_property, right_property)?;
    let nature = boolean_nature(num_columns);
    let c_stability = combine_stability(&left_property.c_stability, &right_property.c_stability, &num_columns, stability_max)?;
    Ok(ValueProperties::Array(ArrayProperties {
        nullity: false,
        releasable: left_property.releasable && right_property.releasable,
        nature: Some(nature),
        c_stability,
        num_columns: Some(num_columns),
        num_records,
        aggregator: None,
        data_type: left_property.data_type,
        dataset_id: left_property.dataset_id,
    }))
}

/// Element-wise equality test.
pub struct Equal;

impl Equal {
    /// The output of an equality test (see `comparison_holds`); aggregated
    /// data is accepted.
    pub fn propagate_property<F: Clone, M: Fn(&F, &F) -> F>(&self, properties: &NodeProperties<F>, stability_max: M) -> (r: Result<ValueProperties<F>, Error>)
        requires
            clone_exact::<F>(),
            max_total(stability_max),
        ensures
            comparison_holds(properties@, stability_max, value_result_view(r)),
    {
        comparison_property(properties, &stability_max)
    }
}

/// Element-wise test of `left < right`.
pub struct LessThan;

impl LessThan {
    /// The output of a comparison (see `comparison_holds`); aggregated data
    /// is accepted.
    pub fn propagate_property<F: Clone, M: Fn(&F, &F) -> F>(&self, properties: &NodeProperties<F>, stability_max: M) -> (r: Result<ValueProperties<F>, Error>)
        requires
            clone_exact::<F>(),
            max_total(stability_max),
        ensures
            comparison_holds(properties@, stability_max, value_result_view(r)),
    {
        comparison_property(properties, &stability_max)
    }
}

/// Element-wise test of `left > right`.
pub struct GreaterThan;

impl GreaterThan {
    /// The output of a comparison (see `comparison_holds`); aggregated data
    /// is accepted.
    pub fn propagate_property<F: Clone, M: Fn(&F, &F) -> F>(&self, properties: &NodeProperties<F>, stability_max: M) -> (r: Result<ValueProperties<F>, Error>)
        requires
            clone_exact::<F>(),
            max_total(stability_max),
        ensures
            comparison_holds(properties@, stability_max, value_result_view(r)),
    {
        comparison_property(properties, &stability_max)
    }
}

// ---------------------------------------------------------------------------
// Laws
// ---------------------------------------------------------------------------

/// Negating integer data twice gives back the bounds it had: the first
/// negation turns the bounds [min, max] of each column into [-max, -min],
/// the second back into [min, max].
pub proof fn law_negative_twice_restores_integer_bounds<F>(
    op: UnaryOperatorsView<F>,
    mins: Seq<Option<i64>>,
    maxs: Seq<Option<i64>>,
    once: Option<NatureView<F>>,
    twice: Option<NatureView<F>>,
)
    requires
        op.int_bounds == Some(IntUnaryBoundsOp::Negate),
        mins.len() == maxs.len(),
        mins.len() <= i64::MAX,
        forall|i: int| 0 <= i < mins.len() ==> #[trigger] mins[i] != Some(i64::MIN) && maxs[i] != Some(i64::MIN),
        unary_nature_holds(Some(NatureView::Continuous { min: BoundsView::I64(mins), max: BoundsView::I64(maxs) }),
            op, mins.len() as i64, Ok(once)),
        unary_nature_holds(once, op, mins.len() as i64, Ok(twice)),
    ensures
        twice == Some(NatureView::Continuous { min: BoundsView::<F>::I64(mins), max: BoundsView::<F>::I64(maxs) }),
{
    let n = mins.len() as i64;
    let h = int_unary_bounds_fn(op.int_bounds)->0;
    assert(broadcast_spec(mins, n) == Some(mins));
    assert(broadcast_spec(maxs, n) == Some(maxs));
    lemma_unary_bounds_total(h, mins, maxs, mins.len());
    let a = Seq::new(mins.len(), |i: int| h(mins[i], maxs[i])->Ok_0.0);
    let b = Seq::new(mins.len(), |i: int| h(mins[i], maxs[i])->Ok_0.1);
    assert(once == Some(NatureView::<F>::Continuous { min: BoundsView::I64(a), max: BoundsView::I64(b) }));
    assert(broadcast_spec(a, n) == Some(a));
    assert(broadcast_spec(b, n) == Some(b));
    lemma_unary_bounds_total(h, a, b, mins.len());
    let a2 = Seq::new(mins.len(), |i: int| h(a[i], b[i])->Ok_0.0);
    let b2 = Seq::new(mins.len(), |i: int| h(a[i], b[i])->Ok_0.1);
    assert(a2 =~= mins);
    assert forall|i: int| 0 <= i < maxs.len() implies #[trigger] b2[i] == maxs[i] by {
        assert(a2[i] == mins[i]);
    }
    assert(b2 =~= maxs);
}

/// Negating boolean data twice gives back its categories.
pub proof fn law_negate_twice_restores_boolean_categories<F>(
    op: UnaryOperatorsView<F>,
    categories: Seq<Option<Seq<bool>>>,
    once: Option<NatureView<F>>,
    twice: Option<NatureView<F>>,
)
    requires
        op.bool == Some(BoolUnaryOp::Not),
        categories.len() <= i64::MAX,
        unary_nature_holds(Some(NatureView::Categorical(CategoriesView::Bool(categories))), op, categories.len() as i64, Ok(once)),
        unary_nature_holds(once, op, categories.len() as i64, Ok(twice)),
    ensures
        twice == Some(NatureView::Categorical(CategoriesView::<F>::Bool(categories))),
{
    let n = categories.len() as i64;
    let f = bool_unary_fn(op.bool)->0;
    assert(broadcast_spec(categories, n) == Some(categories));
    lemma_columns_map_total(f, CategoryKind::Booleans, categories, categories.len());
    assert(categories.take(categories.len() as int) =~= categories);
    let c1 = map_columns_all(f, categories);
    assert(once == Some(NatureView::<F>::Categorical(CategoriesView::Bool(c1))));
    assert(broadcast_spec(c1, n) == Some(c1));
    lemma_columns_map_total(f, CategoryKind::Booleans, c1, c1.len());
    assert(c1.take(c1.len() as int) =~= c1);
    let c2 = map_columns_all(f, c1);
    assert forall|i: int| 0 <= i < categories.len() implies #[trigger] c2[i] == categories[i] by {
        if let Some(s) = categories[i] {
            assert(map_all(f, map_all(f, s)) =~= s);
        }
    }
    assert(c2 =~= categories);
}

/// The integer bounds of a sum or a Euclidean remainder contain every value
/// it can take: for `x` within [`left_min`, `left_max`] and `y` within
/// [`right_min`, `right_max`] (with `right_min` positive for the remainder),
/// the result lies within the derived bounds.
pub proof fn law_integer_bounds_contain_results(
    op: IntBoundsOp,
    left_min: i64,
    left_max: i64,
    right_min: i64,
    right_max: i64,
    x: i64,
    y: i64,
)
    requires
        op == IntBoundsOp::Add || op == IntBoundsOp::Modulo,
        left_min <= x <= left_max,
        right_min <= y <= right_max,
        op == IntBoundsOp::Modulo ==> right_min > 0,
    ensures
        match (int_bounds_spec(op, Some(left_min), Some(left_max), Some(right_min), Some(right_max)),
            int_binary_spec(if op == IntBoundsOp::Add { IntBinaryOp::Add } else { IntBinaryOp::Modulo }, x, y)) {
            (Ok((Some(lo), Some(hi))), Ok(z)) => lo <= z <= hi,
            (Ok(_), Ok(_)) => false,
            _ => true,
        },
{
    if op == IntBoundsOp::Modulo {
        assert(0 <= x % y < y);
    }
}

/// The integer bounds of a negation contain every value it can take.
pub proof fn law_negated_bounds_contain_results(min: i64, max: i64, x: i64)
    requires
        min <= x <= max,
        min != i64::MIN,
    ensures
        int_unary_bounds_spec(IntUnaryBoundsOp::Negate, Some(min), Some(max)) matches (Some(lo), Some(hi))
            && lo <= int_unary_spec(IntUnaryOp::Negate, x) <= hi,
{
}

// ---------------------------------------------------------------------------
// Where the integer operators overflow
// ---------------------------------------------------------------------------

/// Some entry is `Some(i64::MIN)`.
pub open spec fn holds_min(s: Seq<Option<i64>>) -> bool {
    exists|i: int| 0 <= i < s.len() && s[i] == Some(i64::MIN)
}

/// Some category of some column is `i64::MIN`.
pub open spec fn categories_hold_min(s: Seq<Option<Seq<i64>>>) -> bool {
    exists|i: int, j: int| 0 <= i < s.len() && s[i] is Some && 0 <= j < s[i]->0.len() && s[i]->0[j] == i64::MIN
}

fn bounds_hold_min(v: &Vec<Option<i64>>) -> (b: bool)
    ensures
        b == holds_min(v@),
{
    let mut i: usize = 0;
    while i < v.len()
        invariant
            i <= v@.len(),
            forall|j: int| 0 <= j < i ==> v@[j] != Some(i64::MIN),
        decreases v@.len() - i,
    {
        match v[i] {
            Some(x) => if x == i64::MIN {
                return true;
            },
            None => {},
        }
        i = i + 1;
    }
    false
}

fn column_holds_min(v: &Vec<i64>) -> (b: bool)
    ensures
        b == exists|j: int| 0 <= j < v@.len() && v@[j] == i64::MIN,
{
    let mut i: usize = 0;
    while i < v.len()
        invariant
            i <= v@.len(),
            forall|j: int| 0 <= j < i ==> v@[j] != i64::MIN,
        decreases v@.len() - i,
    {
        if v[i] == i64::MIN {
            return true;
        }
        i = i + 1;
    }
    false
}

fn columns_hold_min(cs: &Vec<Option<Vec<i64>>>) -> (b: bool)
    ensures
        b == categories_hold_min(cs@.map_values(|o: Option<Vec<i64>>| column_view(o))),
{
    let ghost s = cs@.map_values(|o: Option<Vec<i64>>| column_view(o));
    let mut i: usize = 0;
    while i < cs.len()
        invariant
            i <= cs@.len(),
            s == cs@.map_values(|o: Option<Vec<i64>>| column_view(o)),
            forall|p: int, q: int| 0 <= p < i && s[p] is Some && 0 <= q < s[p]->0.len() ==> s[p]->0[q] != i64::MIN,
        decreases cs@.len() - i,
    {
        match &cs[i] {
            Some(c) => {
                assert(s[i as int] == Some(c@));
                if column_holds_min(c) {
                    proof {
                        let j = choose|j: int| 0 <= j < c@.len() && c@[j] == i64::MIN;
                        assert(s[i as int]->0[j] == i64::MIN);
                    }
                    return true;
                }
            },
            None => {
                assert(s[i as int] is None);
            },
        }
        i = i + 1;
    }
    false
}

fn pair_holds_min(x: &Vec<Option<i64>>, y: &Vec<Option<i64>>) -> (b: bool)
    ensures
        b == exists|i: int| 0 <= i < x@.len() && i < y@.len() && (x@[i] == Some(i64::MIN) || y@[i] == Some(i64::MIN)),
{
    let mut i: usize = 0;
    while i < x.len() && i < y.len()
        invariant
            i <= x@.len(),
            forall|j: int| 0 <= j < i && j < y@.len() ==> x@[j] != Some(i64::MIN) && y@[j] != Some(i64::MIN),
        decreases x@.len() - i,
    {
        let hit = match (x[i], y[i]) {
            (Some(p), _) if p == i64::MIN => true,
            (_, Some(q)) if q == i64::MIN => true,
            _ => false,
        };
        if hit {
            return true;
        }
        i = i + 1;
    }
    false
}

/// `s` can be stretched to `n` entries.
fn stretchable(len: usize, n: i64) -> (b: bool)
    ensures
        b == (len as i64 == n || len == 1),
{
    len as i64 == n || len == 1
}

fn stretched_bounds_hold_min(v: &Vec<Option<i64>>, n: i64) -> (b: bool)
    requires
        broadcast_spec(v@, n) is Some,
    ensures
        b == holds_min(broadcast_spec(v@, n)->0),
{
    if v.len() as i64 == n {
        bounds_hold_min(v)
    } else if n > 0 {
        let ghost t = broadcast_spec(v@, n)->0;
        assert(t[0] == v@[0]);
        let b = match v[0] {
            Some(x) => x == i64::MIN,
            None => false,
        };
        assert(b == holds_min(t)) by {
            if !b {
                assert forall|i: int| 0 <= i < t.len() implies t[i] != Some(i64::MIN) by {
                    assert(t[i] == v@[0]);
                }
            }
        }
        b
    } else {
        false
    }
}

fn stretched_columns_hold_min(cs: &Vec<Option<Vec<i64>>>, n: i64) -> (b: bool)
    requires
        broadcast_spec(cs@, n) is Some,
    ensures
        broadcast_spec(cs@.map_values(|o: Option<Vec<i64>>| column_view(o)), n) matches Some(s) && b == categories_hold_min(s),
{
    let ghost cv = cs@.map_values(|o: Option<Vec<i64>>| column_view(o));
    if cs.len() as i64 == n {
        columns_hold_min(cs)
    } else if n > 0 {
        let ghost t = broadcast_spec(cv, n)->0;
        assert(t[0] == cv[0]);
        let b = match &cs[0] {
            Some(c) => column_holds_min(c),
            None => false,
        };
        assert(b == categories_hold_min(t)) by {
            if b {
                let j = choose|j: int| 0 <= j < cs@[0]->0@.len() && cs@[0]->0@[j] == i64::MIN;
                assert(t[0]->0[j] == i64::MIN);
            } else {
                assert forall|i: int, j: int| 0 <= i < t.len() && t[i] is Some && 0 <= j < t[i]->0.len()
                    implies t[i]->0[j] != i64::MIN by {
                    assert(t[i] == cv[0]);
                }
            }
        }
        b
    } else {
        let ghost t = broadcast_spec(cv, n)->0;
        assert(t.len() == 0);
        false
    }
}

impl Negative {
    /// Whether negating would overflow: exactly the inputs that
    /// `propagate_property` leaves out.
    pub fn overflows<F: Clone>(&self, properties: &NodeProperties<F>) -> (b: bool)
        ensures
            b == !negative_defined(properties@),
    {
        let data = match array_argument(properties, "data", ArgumentName::Data) {
            Ok(d) => d,
            Err(_) => return false,
        };
        let n = match data.num_columns {
            Some(n) => n,
            None => return false,
        };
        match &data.nature {
            Some(Nature::Continuous(c)) => match (&c.min, &c.max) {
                (Vector1DNull::I64(a), Vector1DNull::I64(b)) => {
                    if !(stretchable(a.len(), n) && stretchable(b.len(), n)) {
                        return false;
                    }
                    proof {
                        lemma_clone_exact_option::<i64>();
                    }
                    let ba = match broadcast(a.as_slice(), &n) {
                        Ok(v) => v,
                        Err(_) => return false,
                    };
                    let bb = match broadcast(b.as_slice(), &n) {
                        Ok(v) => v,
                        Err(_) => return false,
                    };
                    let r = pair_holds_min(&ba, &bb);
                    proof {
                        if r {
                            let i = choose|i: int| 0 <= i < ba@.len() && i < bb@.len()
                                && (ba@[i] == Some(i64::MIN) || bb@[i] == Some(i64::MIN));
                            assert(!crate::operators::int_unary_bounds_defined(IntUnaryBoundsOp::Negate, ba@[i], bb@[i]));
                        }
                    }
                    r
                },
                _ => false,
            },
            Some(Nature::Categorical(c)) => match &c.categories {
                Jagged::I64(cs) => {
                    if !stretchable(cs.len(), n) {
                        return false;
                    }
                    let r = stretched_columns_hold_min(cs, n);
                    proof {
                        let s = broadcast_spec(cs@.map_values(|o: Option<Vec<i64>>| column_view(o)), n)->0;
                        if r {
                            let (i, j) = choose|i: int, j: int| 0 <= i < s.len() && s[i] is Some && 0 <= j < s[i]->0.len() && s[i]->0[j] == i64::MIN;
                            assert(!crate::operators::int_unary_defined(IntUnaryOp::Negate, s[i]->0[j]));
                        }
                    }
                    r
                },
                _ => false,
            },
            None => false,
        }
    }
}

impl Modulo {
    /// Whether the modulo bounds would overflow: exactly the inputs that
    /// `propagate_property` leaves out.
    pub fn overflows<F: Clone>(&self, properties: &NodeProperties<F>) -> (b: bool)
        ensures
            b == !modulo_defined(properties@),
    {
        let left = match array_argument(properties, "left", ArgumentName::Left) {
            Ok(l) => l,
            Err(_) => return false,
        };
        let right = match array_argument(properties, "right", ArgumentName::Right) {
            Ok(r) => r,
            Err(_) => return false,
        };
        let mins = match right.min_i64() {
            Ok(m) => m,
            Err(_) => return false,
        };
        let n = match left.num_columns {
            Some(n) => n,
            None => return false,
        };
        if left.aggregator.is_some() || left.data_type != DataType::I64 || right.data_type != DataType::I64
            || !all_positive_i64(&mins) {
            return false;
        }
        match (&left.nature, &right.nature) {
            (Some(Nature::Continuous(ln)), Some(Nature::Continuous(rn))) => match (&ln.min, &ln.max, &rn.min, &rn.max) {
                (Vector1DNull::I64(a), Vector1DNull::I64(b), Vector1DNull::I64(c), Vector1DNull::I64(d)) => {
                    if !(stretchable(a.len(), n) && stretchable(b.len(), n) && stretchable(c.len(), n) && stretchable(d.len(), n)) {
                        return false;
                    }
                    let r = stretched_bounds_hold_min(d, n);
                    proof {
                        let bd = broadcast_spec(d@, n)->0;
                        if r {
                            let i = choose|i: int| 0 <= i < bd.len() && bd[i] == Some(i64::MIN);
                            assert(!crate::operators::int_bounds_defined(IntBoundsOp::Modulo, bd[i]));
                        }
                    }
                    r
                },
                _ => false,
            },
            _ => false,
        }
    }
}

// ---------------------------------------------------------------------------
// Negating twice
// ---------------------------------------------------------------------------

/// Negating integer data twice gives back its categories.
pub proof fn law_negative_twice_restores_integer_categories<F>(
    op: UnaryOperatorsView<F>,
    categories: Seq<Option<Seq<i64>>>,
    once: Option<NatureView<F>>,
    twice: Option<NatureView<F>>,
)
    requires
        op.int == Some(IntUnaryOp::Negate),
        categories.len() <= i64::MAX,
        !categories_hold_min(categories),
        unary_nature_holds(Some(NatureView::Categorical(CategoriesView::I64(categories))), op, categories.len() as i64, Ok(once)),
        unary_nature_holds(once, op, categories.len() as i64, Ok(twice)),
    ensures
        twice == Some(NatureView::Categorical(CategoriesView::<F>::I64(categories))),
{
    let n = categories.len() as i64;
    let f = int_unary_fn(op.int)->0;
    assert(broadcast_spec(categories, n) == Some(categories));
    lemma_columns_map_total(f, CategoryKind::Integers, categories, categories.len());
    assert(categories.take(categories.len() as int) =~= categories);
    let c1 = map_columns_all(f, categories);
    assert(once == Some(NatureView::<F>::Categorical(CategoriesView::I64(c1))));
    assert(broadcast_spec(c1, n) == Some(c1));
    lemma_columns_map_total(f, CategoryKind::Integers, c1, c1.len());
    assert(c1.take(c1.len() as int) =~= c1);
    let c2 = map_columns_all(f, c1);
    assert forall|i: int| 0 <= i < categories.len() implies #[trigger] c2[i] == categories[i] by {
        if let Some(s) = categories[i] {
            assert forall|j: int| 0 <= j < s.len() implies #[trigger] map_all(f, map_all(f, s))[j] == s[j] by {
                assert(s[j] != i64::MIN);
            }
            assert(map_all(f, map_all(f, s)) =~= s);
        }
    }
    assert(c2 =~= categories);
}

/// Applying the relation `g` twice gives back the value: every value that
/// `g` allows for a value `g` allowed for `x` is `x`.
pub open spec fn value_involution<F>(g: spec_fn(F, Result<F, Error>) -> bool) -> bool {
    forall|x: F, y: F, z: F| #![trigger g(x, Ok(y)), g(y, Ok(z))] g(x, Ok(y)) && g(y, Ok(z)) ==> z == x
}

/// Applying the bounds relation `g` twice gives back the bounds.
pub open spec fn bounds_involution<F>(g: spec_fn(Option<F>, Option<F>, Result<(Option<F>, Option<F>), Error>) -> bool) -> bool {
    forall|x: Option<F>, y: Option<F>, x1: Option<F>, y1: Option<F>, x2: Option<F>, y2: Option<F>|
        #![trigger g(x, y, Ok((x1, y1))), g(x1, y1, Ok((x2, y2)))]
        g(x, y, Ok((x1, y1))) && g(x1, y1, Ok((x2, y2))) ==> x2 == x && y2 == y
}

/// Negating float data twice gives back its bounds, for a bounds operator
/// that undoes itself.
pub proof fn law_negative_twice_restores_float_bounds<F>(
    op: UnaryOperatorsView<F>,
    mins: Seq<Option<F>>,
    maxs: Seq<Option<F>>,
    once: Option<NatureView<F>>,
    twice: Option<NatureView<F>>,
)
    requires
        op.float_bounds is Some,
        bounds_involution(op.float_bounds->0),
        mins.len() == maxs.len(),
        mins.len() <= i64::MAX,
        unary_nature_holds(Some(NatureView::Continuous { min: BoundsView::F64(mins), max: BoundsView::F64(maxs) }),
            op, mins.len() as i64, Ok(once)),
        unary_nature_holds(once, op, mins.len() as i64, Ok(twice)),
    ensures
        twice == Some(NatureView::Continuous { min: BoundsView::<F>::F64(mins), max: BoundsView::<F>::F64(maxs) }),
{
    let n = mins.len() as i64;
    let g = op.float_bounds->0;
    assert(broadcast_spec(mins, n) == Some(mins));
    assert(broadcast_spec(maxs, n) == Some(maxs));
    let a1 = once->0->Continuous_min->F64_0;
    let b1 = once->0->Continuous_max->F64_0;
    assert(broadcast_spec(a1, n) == Some(a1));
    assert(broadcast_spec(b1, n) == Some(b1));
    let a2 = twice->0->Continuous_min->F64_0;
    let b2 = twice->0->Continuous_max->F64_0;
    assert forall|i: int| 0 <= i < mins.len() implies #[trigger] a2[i] == mins[i] && b2[i] == maxs[i] by {
        assert(g(mins[i], maxs[i], Ok((a1[i], b1[i]))));
        assert(g(a1[i], b1[i], Ok((a2[i], b2[i]))));
    }
    assert(a2 =~= mins);
    assert forall|i: int| 0 <= i < maxs.len() implies #[trigger] b2[i] == maxs[i] by {
        assert(a2[i] == mins[i]);
    }
    assert(b2 =~= maxs);
}

/// Negating float data twice gives back its categories, for a float
/// operator that undoes itself.
pub proof fn law_negative_twice_restores_float_categories<F>(
    op: UnaryOperatorsView<F>,
    categories: Seq<Option<Seq<F>>>,
    once: Option<NatureView<F>>,
    twice: Option<NatureView<F>>,
)
    requires
        op.float is Some,
        value_involution(op.float->0),
        categories.len() <= i64::MAX,
        unary_nature_holds(Some(NatureView::Categorical(CategoriesView::F64(categories))), op, categories.len() as i64, Ok(once)),
        unary_nature_holds(once, op, categories.len() as i64, Ok(twice)),
    ensures
        twice == Some(NatureView::Categorical(CategoriesView::<F>::F64(categories))),
{
    let n = categories.len() as i64;
    let g = op.float->0;
    assert(broadcast_spec(categories, n) == Some(categories));
    let c1 = once->0->Categorical_0->F64_0;
    assert(broadcast_spec(c1, n) == Some(c1));
    let c2 = twice->0->Categorical_0->F64_0;
    assert forall|i: int| 0 <= i < categories.len() implies #[trigger] c2[i] == categories[i] by {
        assert(c1[i] is None <==> categories[i] is None);
        if categories[i] is Some {
            assert forall|j: int| 0 <= j < categories[i]->0.len() implies #[trigger] c2[i]->0[j] == categories[i]->0[j] by {
                assert(g(categories[i]->0[j], Ok(c1[i]->0[j])));
                assert(g(c1[i]->0[j], Ok(c2[i]->0[j])));
            }
            assert(c2[i]->0 =~= categories[i]->0);
        }
    }
    assert(c2 =~= categories);
}

/// Data with `n` columns whose negation can be undone: its nature is
/// unknown, or holds `n` float bounds or columns of float categories, or `n`
/// integer bounds or columns of integer categories, none of them `i64::MIN`.
pub open spec fn negation_restorable<F>(d: ArrayPropertiesView<F>) -> bool {
    match d.num_columns {
        None => false,
        Some(n) => n >= 0 && match d.nature {
            None => true,
            Some(NatureView::Continuous { min: BoundsView::I64(a), max: BoundsView::I64(b) }) =>
                a.len() == n && b.len() == n && !holds_min(a) && !holds_min(b),
            Some(NatureView::Categorical(CategoriesView::I64(c))) => c.len() == n && !categories_hold_min(c),
            Some(NatureView::Continuous { min: BoundsView::F64(a), max: BoundsView::F64(b) }) => a.len() == n && b.len() == n,
            Some(NatureView::Categorical(CategoriesView::F64(c))) => c.len() == n,
            _ => false,
        },
    }
}

/// Negating data, then negating the result, gives back the data: every
/// property, bounds and categories included.  For float data this holds when
/// the caller's negation of values and of bounds each undo themselves.
pub proof fn law_negative_twice_restores_data<
    F,
    FO: Fn(&F) -> Result<F, Error>,
    FB: Fn(UnaryBounds<F>) -> Result<(Option<F>, Option<F>), Error>,
>(
    first: Map<Seq<char>, ValueProperties<F>>,
    second: Map<Seq<char>, ValueProperties<F>>,
    float_neg: FO,
    float_bounds: FB,
    once: ArrayPropertiesView<F>,
    twice: ArrayPropertiesView<F>,
)
    requires
        array_argument_spec(first, "data"@, ArgumentName::Data) is Ok,
        negation_restorable(array_argument_spec(first, "data"@, ArgumentName::Data)->Ok_0@),
        negative_holds(first, float_neg, float_bounds, Ok(ValuePropertiesView::Array(once))),
        array_argument_spec(second, "data"@, ArgumentName::Data) is Ok,
        array_argument_spec(second, "data"@, ArgumentName::Data)->Ok_0@ == once,
        negative_holds(second, float_neg, float_bounds, Ok(ValuePropertiesView::Array(twice))),
        value_involution(unary_op_rel(Some(float_neg))->0),
        bounds_involution(unary_bounds_rel(Some(float_bounds))->0),
    ensures
        twice == array_argument_spec(first, "data"@, ArgumentName::Data)->Ok_0@,
{
    let d = array_argument_spec(first, "data"@, ArgumentName::Data)->Ok_0@;
    let n = d.num_columns->0;
    let view = negative_view(float_neg, float_bounds);
    assert(unary_nature_holds(d.nature, view, n, Ok(once.nature)));
    assert(once.num_columns == Some(n));
    assert(unary_nature_holds(once.nature, view, n, Ok(twice.nature)));
    match d.nature {
        None => {},
        Some(NatureView::Continuous { min: BoundsView::I64(a), max: BoundsView::I64(b) }) => {
            assert forall|i: int| 0 <= i < a.len() implies #[trigger] a[i] != Some(i64::MIN) && b[i] != Some(i64::MIN) by {}
            law_negative_twice_restores_integer_bounds(view, a, b, once.nature, twice.nature);
        },
        Some(NatureView::Categorical(CategoriesView::I64(c))) => {
            law_negative_twice_restores_integer_categories(view, c, once.nature, twice.nature);
        },
        Some(NatureView::Continuous { min: BoundsView::F64(a), max: BoundsView::F64(b) }) => {
            law_negative_twice_restores_float_bounds(view, a, b, once.nature, twice.nature);
        },
        Some(NatureView::Categorical(CategoriesView::F64(c))) => {
            law_negative_twice_restores_float_categories(view, c, once.nature, twice.nature);
        },
        _ => {},
    }
    assert(twice.nature == d.nature);
    assert(twice == d);
}

// ---------------------------------------------------------------------------
// What the outputs of the transforms carry over from their arguments
// ---------------------------------------------------------------------------

/// The output of a comparison may be released exactly when both arguments
/// may, is never null, and is not aggregated.
pub proof fn law_comparison_released_only_if_both<F, M: Fn(&F, &F) -> F>(
    properties: Map<Seq<char>, ValueProperties<F>>,
    max: M,
    out: ArrayPropertiesView<F>,
)
    requires
        comparison_holds(properties, max, Ok(ValuePropertiesView::Array(out))),
    ensures
        array_argument_spec(properties, "left"@, ArgumentName::Left) is Ok,
        array_argument_spec(properties, "right"@, ArgumentName::Right) is Ok,
        out.releasable <==> (array_argument_spec(properties, "left"@, ArgumentName::Left)->Ok_0.releasable
            && array_argument_spec(properties, "right"@, ArgumentName::Right)->Ok_0.releasable),
        !out.nullity,
        out.aggregator is None,
{
}

/// The output of an element-wise arithmetic transform may be null exactly
/// when either argument may be, and may be released exactly when both may.
pub proof fn law_arithmetic_null_if_either<F, M: Fn(&F, &F) -> F>(
    properties: Map<Seq<char>, ValueProperties<F>>,
    ops: BinaryOperatorsView<F>,
    max: M,
    out: ArrayPropertiesView<F>,
)
    requires
        arithmetic_holds(properties, ops, max, Ok(ValuePropertiesView::Array(out))),
    ensures
        array_argument_spec(properties, "left"@, ArgumentName::Left) is Ok,
        array_argument_spec(properties, "right"@, ArgumentName::Right) is Ok,
        out.nullity <==> (array_argument_spec(properties, "left"@, ArgumentName::Left)->Ok_0.nullity
            || array_argument_spec(properties, "right"@, ArgumentName::Right)->Ok_0.nullity),
        out.releasable <==> (array_argument_spec(properties, "left"@, ArgumentName::Left)->Ok_0.releasable
            && array_argument_spec(properties, "right"@, ArgumentName::Right)->Ok_0.releasable),
{
}

/// `p` gives one answer for each pair.
pub open spec fn decides_pairs<F, P: Fn(&Option<F>, &Option<F>) -> bool>(p: P) -> bool {
    forall|a: &Option<F>, c: &Option<F>| #[trigger] call_ensures(p, (a, c), true) ==> !call_ensures(p, (a, c), false)
}

/// `p` gives one answer for each value.
pub open spec fn decides_values<F, P: Fn(&F) -> bool>(p: P) -> bool {
    forall|a: &F| #[trigger] call_ensures(p, (a,), true) ==> !call_ensures(p, (a,), false)
}

/// The output of a division may be null when either argument may be, when
/// nothing is known of the denominator, when some column of float bounds of
/// the denominator may hold zero, and when some float category of it is
/// zero or not a number (given checks that answer one way for each input).
pub proof fn law_division_null_where_denominator_may_be_zero<
    F,
    FO: Fn(&F, &F) -> Result<F, Error>,
    FB: Fn(BinaryBounds<F>) -> Result<(Option<F>, Option<F>), Error>,
    M: Fn(&F, &F) -> F,
    S: Fn(&Option<F>, &Option<F>) -> bool,
    Z: Fn(&F) -> bool,
>(
    properties: Map<Seq<char>, ValueProperties<F>>,
    float_div: FO,
    float_bounds: FB,
    stability_max: M,
    column_spans: S,
    zero_or_nan: Z,
    out: ArrayPropertiesView<F>,
)
    requires
        divide_holds(properties, float_div, float_bounds, stability_max, column_spans, zero_or_nan,
            Ok(ValuePropertiesView::Array(out))),
        decides_pairs(column_spans),
        decides_values(zero_or_nan),
    ensures
        array_argument_spec(properties, "left"@, ArgumentName::Left) is Ok,
        array_argument_spec(properties, "right"@, ArgumentName::Right) is Ok,
        ({
            let left = array_argument_spec(properties, "left"@, ArgumentName::Left)->Ok_0;
            let right = array_argument_spec(properties, "right"@, ArgumentName::Right)->Ok_0;
            &&& (left.nullity || right.nullity) ==> out.nullity
            &&& right@.nature is None ==> out.nullity
            &&& (right@.nature matches Some(NatureView::Continuous { min: BoundsView::F64(a), max: BoundsView::F64(c) })
                ==> (exists|i: int| 0 <= i < a.len() && i < c.len() && call_ensures(column_spans, (&a[i], &c[i]), true))
                ==> out.nullity)
            &&& (right@.nature matches Some(NatureView::Categorical(CategoriesView::F64(cs)))
                ==> (forall|i: int| 0 <= i < cs.len() ==> (#[trigger] cs[i]) is Some)
                ==> (exists|i: int, j: int| 0 <= i < cs.len() && 0 <= j < cs[i]->0.len()
                    && call_ensures(zero_or_nan, (&cs[i]->0[j],), true))
                ==> out.nullity)
        }),
{
    let (left, right, columns, rows) = arithmetic_inputs(properties)->Ok_0;
    let b = choose|b: bool| {
        &&& may_span_zero_holds(right@.nature, column_spans, zero_or_nan, b)
        &&& binary_fields_hold(left@, right@, columns, rows, left.nullity || right.nullity || b,
            arithmetic_view(float_div, float_bounds, Some(IntBinaryOp::Divide), None, None), stability_max,
            Ok(ValuePropertiesView::Array(out)))
    };
    assert(out.nullity == (left.nullity || right.nullity || b));
    match right@.nature {
        Some(NatureView::Continuous { min: BoundsView::F64(a), max: BoundsView::F64(c) }) => {
            if exists|i: int| 0 <= i < a.len() && i < c.len() && call_ensures(column_spans, (&a[i], &c[i]), true) {
                let i = choose|i: int| 0 <= i < a.len() && i < c.len() && call_ensures(column_spans, (&a[i], &c[i]), true);
                if !b {
                    assert(call_ensures(column_spans, (&a[i], &c[i]), false));
                }
            }
        },
        Some(NatureView::Categorical(CategoriesView::F64(cs))) => {
            if (forall|i: int| 0 <= i < cs.len() ==> (#[trigger] cs[i]) is Some)
                && exists|i: int, j: int| 0 <= i < cs.len() && 0 <= j < cs[i]->0.len()
                    && call_ensures(zero_or_nan, (&cs[i]->0[j],), true) {
                let (i, j) = choose|i: int, j: int| 0 <= i < cs.len() && 0 <= j < cs[i]->0.len()
                    && call_ensures(zero_or_nan, (&cs[i]->0[j],), true);
                assert(all_known(cs));
                if !b {
                    assert(call_ensures(zero_or_nan, (&cs[i]->0[j],), false));
                }
            }
        },
        _ => {},
    }
}

/// A logarithm succeeds only on float data every lower bound of which is
/// known and accepted by `positive`, to a base every column of which has
/// known bounds accepted by `valid_base`.
pub proof fn law_log_needs_positive_data_and_valid_base<
    F,
    FO: Fn(&F, &F) -> Result<F, Error>,
    V: Fn(&F, &F) -> bool,
    P: Fn(&F) -> bool,
>(
    properties: Map<Seq<char>, ValueProperties<F>>,
    float_log: FO,
    valid_base: V,
    positive: P,
    out: ArrayPropertiesView<F>,
)
    requires
        log_holds(properties, float_log, valid_base, positive, Ok(ValuePropertiesView::Array(out))),
    ensures
        array_argument_spec(properties, "data"@, ArgumentName::Left) is Ok,
        array_argument_spec(properties, "base"@, ArgumentName::Base) is Ok,
        ({
            let d = array_argument_spec(properties, "data"@, ArgumentName::Left)->Ok_0;
            let b = array_argument_spec(properties, "base"@, ArgumentName::Base)->Ok_0;
            let dmin = known_bounds(d@.nature, true, |x| pick_float::<F>(x));
            let bmin = known_bounds(b@.nature, true, |x| pick_float::<F>(x));
            let bmax = known_bounds(b@.nature, false, |x| pick_float::<F>(x));
            &&& d.data_type == DataType::F64
            &&& d.aggregator is None
            &&& dmin is Ok
            &&& forall|i: int| 0 <= i < dmin->Ok_0.len() ==> call_ensures(positive, (&#[trigger] dmin->Ok_0[i],), true)
            &&& bmin is Ok
            &&& bmax is Ok
            &&& forall|i: int| 0 <= i < bmin->Ok_0.len() && i < bmax->Ok_0.len()
                ==> call_ensures(valid_base, (&#[trigger] bmin->Ok_0[i], &bmax->Ok_0[i]), true)
        }),
{
}

} // verus!
