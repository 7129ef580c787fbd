use vstd::prelude::*;
use crate::error::{CategoryKind, Error};
use crate::properties::{
    law_unique_same_values, unique_option,
    clone_exact, deduplicate_spec, standardize_spec, string_column_view, column_view, ArrayProperties, ArrayPropertiesView,
    BoundsView, CategoriesView, Jagged, Nature, NatureCategorical, NatureContinuous, NatureView,
    Vector1DNull,
};
use crate::operators::{
    bool_binary, bool_binary_spec, bool_unary, bool_unary_spec, int_binary, int_binary_defined,
    int_binary_spec, int_bounds, int_bounds_defined, int_bounds_spec, int_unary, int_unary_bounds,
    int_unary_bounds_defined, int_unary_bounds_spec, int_unary_defined, int_unary_spec, str_binary,
    str_binary_spec, BoolBinaryOp, BoolUnaryOp, IntBinaryOp, IntBoundsOp, IntUnaryBoundsOp,
    IntUnaryOp, StrBinaryOp,
};
use crate::columns::{
    pair_succeeds,
    lemma_binary_bounds_len,
    lemma_binary_bounds_entry,
    lemma_columns_map_entry, lemma_map_seq_entry,
    lemma_columns_product_entry, lemma_product_contains,
    binary_bounds_columns, binary_bounds_spec, columns_map, columns_map_spec, columns_product,
    columns_product_spec, columns_view, columns_view_with, column_view_with, min_len,
    unary_bounds_columns, unary_bounds_spec,
};

verus! {

// ---------------------------------------------------------------------------
// Operators handed to the nature propagation
// ---------------------------------------------------------------------------

/// The bounds of one column, handed to a bounds operator.
pub struct UnaryBounds<'a, T> {
    pub min: &'a Option<T>,
    pub max: &'a Option<T>,
}

/// The bounds of one column of each operand, handed to a bounds operator.
pub struct BinaryBounds<'a, T> {
    pub left_min: &'a Option<T>,
    pub left_max: &'a Option<T>,
    pub right_min: &'a Option<T>,
    pub right_max: &'a Option<T>,
}

/// The element-wise operators of a unary transform, one per element type;
/// the operators on floats and on strings are closures of the caller.
pub struct UnaryOperators<FO, SO> {
    pub float: Option<FO>,
    pub int: Option<IntUnaryOp>,
    pub str: Option<SO>,
    pub bool: Option<BoolUnaryOp>,
}

/// How a unary transform derives the bounds of each output column from those
/// of its input column; the operator on floats is a closure of the caller.
pub struct OptimizeUnaryOperators<FB> {
    pub float: Option<FB>,
    pub int: Option<IntUnaryBoundsOp>,
}

/// The element-wise operators of a binary transform, one per element type;
/// the operator on floats is a closure of the caller.
pub struct BinaryOperators<FO> {
    pub float: Option<FO>,
    pub int: Option<IntBinaryOp>,
    pub str: Option<StrBinaryOp>,
    pub bool: Option<BoolBinaryOp>,
}

/// How a binary transform derives the bounds of each output column from
/// those of its input columns; the operator on floats is a closure of the
/// caller.
pub struct OptimizeBinaryOperators<FB> {
    pub float: Option<FB>,
    pub int: Option<IntBoundsOp>,
}

// ---------------------------------------------------------------------------
// Broadcasting
// ---------------------------------------------------------------------------

/// `data` stretched to `length` entries: kept when it already has that many,
/// repeated when it has exactly one, and impossible otherwise.  A non-positive
/// `length` stretches a single entry to nothing.
pub open spec fn broadcast_spec<T>(data: Seq<T>, length: i64) -> Option<Seq<T>> {
    if data.len() as i64 == length {
        Some(data)
    } else if data.len() == 1 {
        Some(Seq::new(if length > 0 { length as nat } else { 0nat }, |i: int| data[0]))
    } else {
        None
    }
}

/// Element-wise clones of the entries of `s`.
pub open spec fn clones_of<T: Clone>(s: Seq<T>, v: Seq<T>) -> bool {
    &&& v.len() == s.len()
    &&& forall|i: int| 0 <= i < s.len() ==> #[trigger] cloned(s[i], v[i])
}

pub proof fn lemma_clones_of_exact<T: Clone>(s: Seq<T>, v: Seq<T>)
    requires
        clone_exact::<T>(),
        clones_of(s, v),
    ensures
        v == s,
{
    assert forall|i: int| 0 <= i < s.len() implies v[i] == s[i] by {
        assert(cloned(s[i], v[i]));
    }
    assert(v =~= s);
}

/// Stretches `data` to `length` entries (see `broadcast_spec`).
pub fn broadcast<T: Clone>(data: &[T], length: &i64) -> (r: Result<Vec<T>, Error>)
    ensures
        match r {
            Ok(v) => broadcast_spec(data@, *length) matches Some(s) && clones_of(s, v@),
            Err(e) => broadcast_spec(data@, *length) is None && e == Error::BroadcastFailed,
        },
        r matches Ok(v) ==> (clone_exact::<T>() ==> broadcast_spec(data@, *length) == Some(v@)),
{
    let n = data.len();
    if n as i64 == *length {
        let mut out: Vec<T> = Vec::new();
        let mut i: usize = 0;
        while i < n
            invariant
                n == data@.len(),
                i <= n,
                out@.len() == i,
                forall|j: int| 0 <= j < i ==> #[trigger] cloned(data@[j], out@[j]),
            decreases n - i,
        {
            let x = data[i].clone();
            out.push(x);
            i = i + 1;
        }
        proof {
            if clone_exact::<T>() {
                lemma_clones_of_exact(data@, out@);
            }
        }
        return Ok(out);
    }
    if n != 1 {
        return Err(Error::BroadcastFailed);
    }
    let ghost s = Seq::new(if *length > 0 { *length as nat } else { 0nat }, |i: int| data@[0]);
    let mut out: Vec<T> = Vec::new();
    let mut k: i64 = 0;
    while k < *length
        invariant
            n == data@.len(),
            n == 1,
            0 <= k,
            k <= *length || (k == 0 && *length <= 0),
            out@.len() == k,
            s == Seq::new(if *length > 0 { *length as nat } else { 0nat }, |i: int| data@[0]),
            forall|j: int| 0 <= j < k ==> #[trigger] cloned(data@[0], out@[j]),
        decreases *length - k,
    {
        let x = data[0].clone();
        out.push(x);
        k = k + 1;
    }
    assert(out@.len() == s.len());
    assert forall|j: int| 0 <= j < s.len() implies #[trigger] cloned(s[j], out@[j]) by {
        assert(cloned(data@[0], out@[j]));
    }
    proof {
        if clone_exact::<T>() {
            lemma_clones_of_exact(s, out@);
        }
    }
    Ok(out)
}

/// Every entry of a stretched sequence is an entry of the sequence it was
/// stretched from.
pub proof fn lemma_broadcast_member<T>(data: Seq<T>, length: i64, i: int)
    requires
        broadcast_spec(data, length) is Some,
        0 <= i < broadcast_spec(data, length)->0.len(),
    ensures
        exists|k: int| 0 <= k < data.len() && broadcast_spec(data, length)->0[i] == data[k],
{
    if data.len() as i64 == length {
        assert(broadcast_spec(data, length)->0[i] == data[i]);
    } else {
        assert(broadcast_spec(data, length)->0[i] == data[0]);
    }
}

/// Stretching twice to the same non-negative length is stretching once.
pub proof fn law_broadcast_idempotent<T>(data: Seq<T>, length: i64)
    requires
        length >= 0,
        broadcast_spec(data, length) is Some,
    ensures
        broadcast_spec(broadcast_spec(data, length)->0, length) == broadcast_spec(data, length),
{
    let s = broadcast_spec(data, length)->0;
    if data.len() as i64 != length && data.len() == 1 {
        assert(s.len() == length as int);
        assert(s.len() as i64 == length);
    }
}

// ---------------------------------------------------------------------------
// Shape of the output of a binary operator
// ---------------------------------------------------------------------------

/// The number of columns and rows of the output of an element-wise binary
/// operator on `left` and `right`.
pub open spec fn binary_shape_spec<F>(left: ArrayPropertiesView<F>, right: ArrayPropertiesView<F>) -> Result<(i64, Option<i64>), Error> {
    match (left.num_columns, right.num_columns) {
        (None, _) => Err(Error::UnknownColumnCount),
        (Some(_), None) => Err(Error::UnknownColumnCount),
        (Some(lc), Some(rc)) => {
            let left_column_broadcastable = left.releasable && lc == 1;
            let right_column_broadcastable = right.releasable && rc == 1;
            if !(left_column_broadcastable || right_column_broadcastable) && lc != rc {
                Err(Error::ColumnCountMismatch)
            } else {
                let columns = if lc >= rc { lc } else { rc };
                let same_dataset = left.dataset_id == right.dataset_id;
                match (left.num_records, right.num_records) {
                    (Some(lr), Some(rr)) => {
                        let left_row_broadcastable = left.releasable && lr == 1;
                        let right_row_broadcastable = right.releasable && rr == 1;
                        if !(left_row_broadcastable || right_row_broadcastable || lr == rr) {
                            if same_dataset {
                                Ok((columns, None))
                            } else {
                                Err(Error::RowCountMismatch)
                            }
                        } else {
                            Ok((columns, Some(if lr >= rr { lr } else { rr })))
                        }
                    },
                    _ => if same_dataset {
                        Ok((columns, None))
                    } else {
                        Err(Error::UnknownRowsAcrossDatasets)
                    },
                }
            }
        },
    }
}

fn same_dataset<F>(left: &ArrayProperties<F>, right: &ArrayProperties<F>) -> (r: bool)
    ensures
        r == (left.dataset_id == right.dataset_id),
{
    match (left.dataset_id, right.dataset_id) {
        (Some(l), Some(r)) => l == r,
        (None, None) => true,
        _ => false,
    }
}

/// The number of columns and rows of the output of an element-wise binary
/// operator.  An argument that may be released and has one column (or one
/// row) is broadcast against the other.  When the row counts cannot be
/// compared, arguments from one dataset give an unknown row count, and
/// arguments from different datasets are refused, which protects against
/// conformability attacks.
pub fn propagate_binary_shape<F: Clone>(left_property: &ArrayProperties<F>, right_property: &ArrayProperties<F>) -> (r: Result<(i64, Option<i64>), Error>)
    ensures
        r == binary_shape_spec(left_property@, right_property@),
{
    let left_num_columns = left_property.num_columns()?;
    let right_num_columns = right_property.num_columns()?;

    let left_is_column_broadcastable = left_property.releasable && left_num_columns == 1;
    let right_is_column_broadcastable = right_property.releasable && right_num_columns == 1;

    if !(left_is_column_broadcastable || right_is_column_broadcastable) && left_num_columns != right_num_columns {
        return Err(Error::ColumnCountMismatch);
    }

    let output_num_columns = if left_num_columns >= right_num_columns { left_num_columns } else { right_num_columns };

    let (left_num_records, right_num_records) = match (left_property.num_records(), right_property.num_records()) {
        (Ok(l), Ok(r)) => (l, r),
        _ => {
            if same_dataset(left_property, right_property) {
                return Ok((output_num_columns, None));
            }
            return Err(Error::UnknownRowsAcrossDatasets);
        },
    };

    let left_is_row_broadcastable = left_property.releasable && left_num_records == 1;
    let right_is_row_broadcastable = right_property.releasable && right_num_records == 1;

    if !(left_is_row_broadcastable || right_is_row_broadcastable || (left_num_records == right_num_records)) {
        if same_dataset(left_property, right_property) {
            return Ok((output_num_columns, None));
        }
        return Err(Error::RowCountMismatch);
    }

    let output_num_records = if left_num_records >= right_num_records { left_num_records } else { right_num_records };

    Ok((output_num_columns, Some(output_num_records)))
}

/// The shape of the output of a binary operator does not depend on which
/// argument is on the left.
pub proof fn law_binary_shape_symmetric<F>(left: ArrayPropertiesView<F>, right: ArrayPropertiesView<F>)
    ensures
        binary_shape_spec(left, right) == binary_shape_spec(right, left),
{
}

/// When both arguments have known and compatible shapes, the output has as
/// many columns as the wider argument and as many rows as the longer one.
pub proof fn law_binary_shape_widest<F>(left: ArrayPropertiesView<F>, right: ArrayPropertiesView<F>)
    requires
        binary_shape_spec(left, right) matches Ok((_, Some(_))),
    ensures
        binary_shape_spec(left, right) matches Ok((c, Some(r))) && {
            &&& left.num_columns matches Some(lc) && c >= lc
            &&& right.num_columns matches Some(rc) && c >= rc
            &&& (c == left.num_columns->0 || c == right.num_columns->0)
            &&& left.num_records matches Some(lr) && r >= lr
            &&& right.num_records matches Some(rr) && r >= rr
            &&& (r == left.num_records->0 || r == right.num_records->0)
        },
{
}


// ---------------------------------------------------------------------------
// Nature of the output of a unary transform
// ---------------------------------------------------------------------------

pub open spec fn nature_result_view<F>(r: Result<Option<Nature<F>>, Error>) -> Result<Option<NatureView<F>>, Error> {
    match r {
        Ok(Some(n)) => Ok(Some(n@)),
        Ok(None) => Ok(None),
        Err(e) => Err(e),
    }
}


pub open spec fn int_unary_fn(op: Option<IntUnaryOp>) -> Option<spec_fn(i64) -> Result<i64, Error>> {
    match op {
        Some(o) => Some(|v: i64| Ok::<i64, Error>(int_unary_spec(o, v))),
        None => None,
    }
}

pub open spec fn bool_unary_fn(op: Option<BoolUnaryOp>) -> Option<spec_fn(bool) -> Result<bool, Error>> {
    match op {
        Some(o) => Some(|v: bool| Ok::<bool, Error>(bool_unary_spec(o, v))),
        None => None,
    }
}

pub open spec fn int_unary_bounds_fn(op: Option<IntUnaryBoundsOp>) -> Option<spec_fn(Option<i64>, Option<i64>) -> Result<(Option<i64>, Option<i64>), Error>> {
    match op {
        Some(o) => Some(|a: Option<i64>, b: Option<i64>| Ok::<(Option<i64>, Option<i64>), Error>(int_unary_bounds_spec(o, a, b))),
        None => None,
    }
}

pub open spec fn continuous_result<F, T>(r: Result<(Seq<Option<T>>, Seq<Option<T>>), Error>, wrap: spec_fn(Seq<Option<T>>) -> BoundsView<F>) -> Result<Option<NatureView<F>>, Error> {
    match r {
        Ok((a, b)) => Ok(Some(NatureView::Continuous { min: wrap(a), max: wrap(b) })),
        Err(e) => Err(e),
    }
}

pub open spec fn categorical_result<F, T>(r: Result<Seq<Option<Seq<T>>>, Error>, wrap: spec_fn(Seq<Option<Seq<T>>>) -> CategoriesView<F>) -> Result<Option<NatureView<F>>, Error> {
    match r {
        Ok(s) => Ok(Some(NatureView::Categorical(wrap(s)))),
        Err(e) => Err(e),
    }
}

/// What the float bounds operator of a unary transform gave for each column.
pub open spec fn float_unary_bounds_hold<F>(
    g: Option<spec_fn(Option<F>, Option<F>, Result<(Option<F>, Option<F>), Error>) -> bool>,
    mins: Seq<Option<F>>,
    maxs: Seq<Option<F>>,
    r: Result<Option<NatureView<F>>, Error>,
) -> bool {
    match r {
        Ok(Some(NatureView::Continuous { min: BoundsView::F64(a), max: BoundsView::F64(b) })) => {
            &&& a.len() == min_len(mins.len(), maxs.len())
            &&& b.len() == a.len()
            &&& forall|i: int| #![trigger a[i]] 0 <= i < a.len() ==> match g {
                None => a[i] is None && b[i] is None,
                Some(gg) => gg(mins[i], maxs[i], Ok((a[i], b[i]))),
            }
        },
        Err(e) => g matches Some(gg) && exists|i: int| 0 <= i < mins.len() && i < maxs.len()
            && gg(mins[i], maxs[i], Err(e)),
        _ => false,
    }
}

/// What the float operator of a unary transform gave for each category.
pub open spec fn float_unary_categories_hold<F>(
    g: Option<spec_fn(F, Result<F, Error>) -> bool>,
    cs: Seq<Option<Seq<F>>>,
    r: Result<Option<NatureView<F>>, Error>,
) -> bool {
    match r {
        Ok(Some(NatureView::Categorical(CategoriesView::F64(out)))) => {
            &&& out.len() == cs.len()
            &&& forall|i: int| #![trigger out[i]] 0 <= i < cs.len() ==> {
                &&& (cs[i] is None <==> out[i] is None)
                &&& cs[i] is Some ==> {
                    &&& g is Some
                    &&& out[i]->0.len() == cs[i]->0.len()
                    &&& forall|j: int| 0 <= j < cs[i]->0.len() ==> (g->0)(cs[i]->0[j], Ok(#[trigger] out[i]->0[j]))
                }
            }
        },
        Err(e) => {
            ||| g is None && e == Error::CategoriesNotPropagated(CategoryKind::Floats)
                && exists|i: int| 0 <= i < cs.len() && (#[trigger] cs[i]) is Some
            ||| g is Some && exists|i: int, j: int| #![trigger cs[i]->0[j]]
                0 <= i < cs.len() && cs[i] is Some && 0 <= j < cs[i]->0.len()
                    && (g->0)(cs[i]->0[j], Err(e))
        },
        _ => false,
    }
}

/// What the string operator of a unary transform gave for each category,
/// strings taken by their characters.
pub open spec fn str_unary_categories_hold<F>(
    g: Option<spec_fn(Seq<char>, Result<Seq<char>, Error>) -> bool>,
    cs: Seq<Option<Seq<Seq<char>>>>,
    r: Result<Option<NatureView<F>>, Error>,
) -> bool {
    match r {
        Ok(Some(NatureView::Categorical(CategoriesView::Str(out)))) => {
            &&& out.len() == cs.len()
            &&& forall|i: int| #![trigger out[i]] 0 <= i < cs.len() ==> {
                &&& (cs[i] is None <==> out[i] is None)
                &&& cs[i] is Some ==> {
                    &&& g is Some
                    &&& out[i]->0.len() == cs[i]->0.len()
                    &&& forall|j: int| 0 <= j < cs[i]->0.len() ==> (g->0)(cs[i]->0[j], Ok(#[trigger] out[i]->0[j]))
                }
            }
        },
        Err(e) => {
            ||| g is None && e == Error::CategoriesNotPropagated(CategoryKind::Strings)
                && exists|i: int| 0 <= i < cs.len() && (#[trigger] cs[i]) is Some
            ||| g is Some && exists|i: int, j: int| #![trigger cs[i]->0[j]]
                0 <= i < cs.len() && cs[i] is Some && 0 <= j < cs[i]->0.len()
                    && (g->0)(cs[i]->0[j], Err(e))
        },
        _ => false,
    }
}

pub open spec fn string_result_view(r: Result<String, Error>) -> Result<Seq<char>, Error> {
    match r {
        Ok(s) => Ok(s@),
        Err(e) => Err(e),
    }
}

/// A closure on strings taken by what it may return for a string with the
/// given characters.
pub open spec fn str_op_rel<SO: Fn(&String) -> Result<String, Error>>(g: Option<SO>)
    -> Option<spec_fn(Seq<char>, Result<Seq<char>, Error>) -> bool> {
    match g {
        Some(f) => Some(|x: Seq<char>, res: Result<Seq<char>, Error>|
            exists|s: String, o: Result<String, Error>| s@ == x && #[trigger] call_ensures(f, (&s,), o) && string_result_view(o) == res),
        None => None,
    }
}

/// The operators of a unary transform, its float and string closures taken
/// by what they may return.
#[verifier::reject_recursive_types(F)]
pub struct UnaryOperatorsView<F> {
    pub float: Option<spec_fn(F, Result<F, Error>) -> bool>,
    pub int: Option<IntUnaryOp>,
    pub str: Option<spec_fn(Seq<char>, Result<Seq<char>, Error>) -> bool>,
    pub bool: Option<BoolUnaryOp>,
    pub float_bounds: Option<spec_fn(Option<F>, Option<F>, Result<(Option<F>, Option<F>), Error>) -> bool>,
    pub int_bounds: Option<IntUnaryBoundsOp>,
}

pub open spec fn unary_op_rel<F, FO: Fn(&F) -> Result<F, Error>>(g: Option<FO>) -> Option<spec_fn(F, Result<F, Error>) -> bool> {
    match g {
        Some(f) => Some(|x: F, res: Result<F, Error>| call_ensures(f, (&x,), res)),
        None => None,
    }
}

pub open spec fn unary_bounds_rel<F, FB: Fn(UnaryBounds<F>) -> Result<(Option<F>, Option<F>), Error>>(g: Option<FB>)
    -> Option<spec_fn(Option<F>, Option<F>, Result<(Option<F>, Option<F>), Error>) -> bool> {
    match g {
        Some(f) => Some(|a: Option<F>, b: Option<F>, res: Result<(Option<F>, Option<F>), Error>|
            call_ensures(f, (UnaryBounds { min: &a, max: &b },), res)),
        None => None,
    }
}

pub open spec fn unary_operators_view<
    F,
    FO: Fn(&F) -> Result<F, Error>,
    SO: Fn(&String) -> Result<String, Error>,
    FB: Fn(UnaryBounds<F>) -> Result<(Option<F>, Option<F>), Error>,
>(
    op: UnaryOperators<FO, SO>,
    opt: OptimizeUnaryOperators<FB>,
) -> UnaryOperatorsView<F> {
    UnaryOperatorsView {
        float: unary_op_rel(op.float),
        int: op.int,
        str: str_op_rel(op.str),
        bool: op.bool,
        float_bounds: unary_bounds_rel(opt.float),
        int_bounds: opt.int,
    }
}

/// The nature of the output of a unary transform: bounds are stretched to
/// `n` columns and derived column by column by the bounds operator of their
/// type (nothing is known without one); categories are stretched to `n`
/// columns and mapped by the operator of their type, which must exist for
/// every column with categories.
pub open spec fn unary_nature_holds<F>(
    nature: Option<NatureView<F>>,
    op: UnaryOperatorsView<F>,
    n: i64,
    r: Result<Option<NatureView<F>>, Error>,
) -> bool {
    match nature {
        None => r == Ok::<Option<NatureView<F>>, Error>(None),
        Some(NatureView::Continuous { min, max }) => match (min, max) {
            (BoundsView::F64(a), BoundsView::F64(b)) => match (broadcast_spec(a, n), broadcast_spec(b, n)) {
                (Some(ba), Some(bb)) => float_unary_bounds_hold(op.float_bounds, ba, bb, r),
                _ => r == Err::<Option<NatureView<F>>, Error>(Error::BroadcastFailed),
            },
            (BoundsView::I64(a), BoundsView::I64(b)) => match (broadcast_spec(a, n), broadcast_spec(b, n)) {
                (Some(ba), Some(bb)) => r == continuous_result(
                    unary_bounds_spec(int_unary_bounds_fn(op.int_bounds), ba, bb, min_len(ba.len(), bb.len())),
                    |s: Seq<Option<i64>>| BoundsView::<F>::I64(s),
                ),
                _ => r == Err::<Option<NatureView<F>>, Error>(Error::BroadcastFailed),
            },
            _ => r == Err::<Option<NatureView<F>>, Error>(Error::BoundsNotNumeric),
        },
        Some(NatureView::Categorical(c)) => match standardize_spec(c, n) {
            None => r == Err::<Option<NatureView<F>>, Error>(Error::BroadcastFailed),
            Some(CategoriesView::F64(s)) => float_unary_categories_hold(op.float, s, r),
            Some(CategoriesView::I64(s)) => r == categorical_result(
                columns_map_spec(int_unary_fn(op.int), CategoryKind::Integers, s, s.len()),
                |t: Seq<Option<Seq<i64>>>| CategoriesView::<F>::I64(t),
            ),
            Some(CategoriesView::Bool(s)) => r == categorical_result(
                columns_map_spec(bool_unary_fn(op.bool), CategoryKind::Booleans, s, s.len()),
                |t: Seq<Option<Seq<bool>>>| CategoriesView::<F>::Bool(t),
            ),
            Some(CategoriesView::Str(s)) => str_unary_categories_hold(op.str, s, r),
        },
    }
}

/// The inputs on which the integer operators of a unary transform are
/// defined: once the bounds or categories are stretched to `n` columns, no
/// bound or category the operators reach is `i64::MIN`.
pub open spec fn unary_nature_defined<F>(
    nature: Option<NatureView<F>>,
    op: Option<IntUnaryOp>,
    opt: Option<IntUnaryBoundsOp>,
    n: i64,
) -> bool {
    match nature {
        Some(NatureView::Continuous { min: BoundsView::I64(a), max: BoundsView::I64(b) }) => opt matches Some(o) ==> (
            match (broadcast_spec(a, n), broadcast_spec(b, n)) {
                (Some(ba), Some(bb)) => forall|i: int| 0 <= i < ba.len() && i < bb.len()
                    ==> int_unary_bounds_defined(o, #[trigger] ba[i], bb[i]),
                _ => true,
            }),
        Some(NatureView::Categorical(c)) => op matches Some(o) ==> (
            standardize_spec(c, n) matches Some(CategoriesView::I64(s)) ==>
                forall|i: int, j: int| #![trigger s[i]->0[j]] 0 <= i < s.len() && s[i] is Some && 0 <= j < s[i]->0.len()
                    ==> int_unary_defined(o, s[i]->0[j])),
        _ => true,
    }
}

/// The float and string closures of a unary transform may be called on any
/// input.
pub open spec fn unary_closures_total<
    F,
    FO: Fn(&F) -> Result<F, Error>,
    SO: Fn(&String) -> Result<String, Error>,
    FB: Fn(UnaryBounds<F>) -> Result<(Option<F>, Option<F>), Error>,
>(
    op: UnaryOperators<FO, SO>,
    opt: OptimizeUnaryOperators<FB>,
) -> bool {
    &&& op.float matches Some(g) ==> forall|x: &F| #[trigger] call_requires(g, (x,))
    &&& op.str matches Some(g) ==> forall|x: &String| #[trigger] call_requires(g, (x,))
    &&& opt.float matches Some(g) ==> forall|b: UnaryBounds<F>| #[trigger] call_requires(g, (b,))
}

/// The nature of the output of a unary transform (see `unary_nature_holds`).
pub fn propagate_unary_nature<
    F: Clone,
    FO: Fn(&F) -> Result<F, Error>,
    SO: Fn(&String) -> Result<String, Error>,
    FB: Fn(UnaryBounds<F>) -> Result<(Option<F>, Option<F>), Error>,
>(
    data_property: &ArrayProperties<F>,
    operator: &UnaryOperators<FO, SO>,
    optimization_operator: &OptimizeUnaryOperators<FB>,
    output_num_columns: &i64,
) -> (r: Result<Option<Nature<F>>, Error>)
    requires
        clone_exact::<F>(),
        unary_closures_total(*operator, *optimization_operator),
        unary_nature_defined(data_property@.nature, operator.int, optimization_operator.int, *output_num_columns),
    ensures
        unary_nature_holds(data_property@.nature, unary_operators_view(*operator, *optimization_operator), *output_num_columns, nature_result_view(r)),
{
    match &data_property.nature {
        None => Ok(None),
        Some(Nature::Continuous(nature)) => match (&nature.min, &nature.max) {
            (Vector1DNull::F64(min), Vector1DNull::F64(max)) => {
                let min = broadcast(min.as_slice(), output_num_columns)?;
                let max = broadcast(max.as_slice(), output_num_columns)?;
                let (a, b) = unary_bounds_columns(&optimization_operator.float, &min, &max, Ghost(None))?;
                Ok(Some(Nature::Continuous(NatureContinuous { min: Vector1DNull::F64(a), max: Vector1DNull::F64(b) })))
            },
            (Vector1DNull::I64(min), Vector1DNull::I64(max)) => {
                let min = broadcast(min.as_slice(), output_num_columns)?;
                let max = broadcast(max.as_slice(), output_num_columns)?;
                let g = match optimization_operator.int {
                    Some(op) => Some(move |b: UnaryBounds<i64>| -> (res: Result<(Option<i64>, Option<i64>), Error>)
                        requires
                            int_unary_bounds_defined(op, *b.min, *b.max),
                        ensures
                            res == Ok::<(Option<i64>, Option<i64>), Error>(int_unary_bounds_spec(op, *b.min, *b.max)),
                        { Ok(int_unary_bounds(op, b)) }),
                    None => None,
                };
                let (a, b) = unary_bounds_columns(&g, &min, &max, Ghost(int_unary_bounds_fn(optimization_operator.int)))?;
                Ok(Some(Nature::Continuous(NatureContinuous { min: Vector1DNull::I64(a), max: Vector1DNull::I64(b) })))
            },
            _ => Err(Error::BoundsNotNumeric),
        },
        Some(Nature::Categorical(nature)) => {
            let categories = nature.categories.standardize(output_num_columns)?;
            match categories {
                Jagged::F64(c) => {
                    let ghost s = columns_view(c@);
                    assert forall|i: int, j: int| #![trigger c@[i]->0@[j]]
                        0 <= i < c@.len() && c@[i] is Some && 0 <= j < c@[i]->0@.len() && operator.float is Some
                            implies call_requires(operator.float->0, (&c@[i]->0@[j],)) by {}
                    match columns_map(&operator.float, CategoryKind::Floats, &c, Ghost(None)) {
                        Ok(out) => {
                            proof {
                                assert forall|i: int| 0 <= i < s.len() implies #[trigger] s[i] == (match c@[i] {
                                    Some(v) => Some(v@),
                                    None => None::<Seq<F>>,
                                }) by {}
                            }
                            Ok(Some(Nature::Categorical(NatureCategorical { categories: Jagged::F64(out) })))
                        },
                        Err(e) => {
                            proof {
                                if operator.float is None {
                                    let i = choose|i: int| 0 <= i < c@.len() && (#[trigger] c@[i]) is Some;
                                    assert(s[i] == column_view(c@[i]));
                                }
                                if operator.float is Some {
                                    let (i, j) = choose|i: int, j: int| #![trigger c@[i]->0@[j]]
                                        0 <= i < c@.len() && c@[i] is Some && 0 <= j < c@[i]->0@.len()
                                            && call_ensures(operator.float->0, (&c@[i]->0@[j],), Err(e));
                                    assert(s[i]->0[j] == c@[i]->0@[j]);
                                }
                            }
                            Err(e)
                        },
                    }
                },
                Jagged::I64(c) => {
                    let g = match operator.int {
                        Some(op) => Some(move |v: &i64| -> (res: Result<i64, Error>)
                            requires
                                int_unary_defined(op, *v),
                            ensures
                                res == Ok::<i64, Error>(int_unary_spec(op, *v)),
                            { Ok(int_unary(op, v)) }),
                        None => None,
                    };
                    proof {
                        if let Some(NatureView::Categorical(CategoriesView::I64(orig))) = data_property@.nature {
                            let t = columns_view(c@);
                            assert forall|i: int, j: int| #![trigger c@[i]->0@[j]]
                                0 <= i < c@.len() && c@[i] is Some && 0 <= j < c@[i]->0@.len() && g is Some
                                    implies call_requires(g->0, (&c@[i]->0@[j],)) by {
                                lemma_broadcast_member(orig, *output_num_columns, i);
                                let k = choose|k: int| 0 <= k < orig.len() && broadcast_spec(orig, *output_num_columns)->0[i] == orig[k];
                                assert(t[i] == Some(c@[i]->0@));
                                assert(orig[k]->0[j] == c@[i]->0@[j]);
                            }
                        }
                    }
                    let out = columns_map(&g, CategoryKind::Integers, &c, Ghost(int_unary_fn(operator.int)))?;
                    Ok(Some(Nature::Categorical(NatureCategorical { categories: Jagged::I64(out) })))
                },
                Jagged::Bool(c) => {
                    let g = match operator.bool {
                        Some(op) => Some(move |v: &bool| -> (res: Result<bool, Error>)
                            ensures
                                res == Ok::<bool, Error>(bool_unary_spec(op, *v)),
                            { Ok(bool_unary(op, v)) }),
                        None => None,
                    };
                    let out = columns_map(&g, CategoryKind::Booleans, &c, Ghost(bool_unary_fn(operator.bool)))?;
                    Ok(Some(Nature::Categorical(NatureCategorical { categories: Jagged::Bool(out) })))
                },
                Jagged::Str(c) => {
                    let ghost s = c@.map_values(|o: Option<Vec<String>>| string_column_view(o));
                    assert forall|i: int, j: int| #![trigger c@[i]->0@[j]]
                        0 <= i < c@.len() && c@[i] is Some && 0 <= j < c@[i]->0@.len() && operator.str is Some
                            implies call_requires(operator.str->0, (&c@[i]->0@[j],)) by {}
                    match columns_map(&operator.str, CategoryKind::Strings, &c, Ghost(None)) {
                        Ok(out) => {
                            proof {
                                let ov = out@.map_values(|o: Option<Vec<String>>| string_column_view(o));
                                assert forall|i: int| #![trigger ov[i]] 0 <= i < s.len() implies {
                                    &&& (s[i] is None <==> ov[i] is None)
                                    &&& s[i] is Some ==> {
                                        &&& operator.str is Some
                                        &&& ov[i]->0.len() == s[i]->0.len()
                                        &&& forall|j: int| 0 <= j < s[i]->0.len()
                                            ==> (str_op_rel(operator.str)->0)(s[i]->0[j], Ok(#[trigger] ov[i]->0[j]))
                                    }
                                } by {
                                    if c@[i] is Some {
                                        assert forall|j: int| 0 <= j < s[i]->0.len() implies
                                            (str_op_rel(operator.str)->0)(s[i]->0[j], Ok(#[trigger] ov[i]->0[j])) by {
                                            let x = c@[i]->0@[j];
                                            let y = out@[i]->0@[j];
                                            assert(s[i]->0[j] == x@);
                                            assert(ov[i]->0[j] == y@);
                                            assert(call_ensures(operator.str->0, (&x,), Ok::<String, Error>(y)));
                                            assert(string_result_view(Ok(y)) == Ok::<Seq<char>, Error>(y@));
                                        }
                                    }
                                }
                            }
                            Ok(Some(Nature::Categorical(NatureCategorical { categories: Jagged::Str(out) })))
                        },
                        Err(e) => {
                            proof {
                                if operator.str is None {
                                    let i = choose|i: int| 0 <= i < c@.len() && (#[trigger] c@[i]) is Some;
                                    assert(s[i] == string_column_view(c@[i]));
                                }
                                if operator.str is Some {
                                    let (i, j) = choose|i: int, j: int| #![trigger c@[i]->0@[j]]
                                        0 <= i < c@.len() && c@[i] is Some && 0 <= j < c@[i]->0@.len()
                                            && call_ensures(operator.str->0, (&c@[i]->0@[j],), Err(e));
                                    let x = c@[i]->0@[j];
                                    assert(s[i]->0[j] == x@);
                                    assert(string_result_view(Err(e)) == Err::<Seq<char>, Error>(e));
                                    assert((str_op_rel(operator.str)->0)(s[i]->0[j], Err(e)));
                                }
                            }
                            Err(e)
                        },
                    }
                },
            }
        },
    }
}


// ---------------------------------------------------------------------------
// Nature of the output of a binary transform
// ---------------------------------------------------------------------------

pub open spec fn int_binary_fn(op: Option<IntBinaryOp>) -> Option<spec_fn(i64, i64) -> Result<i64, Error>> {
    match op {
        Some(o) => Some(|a: i64, b: i64| int_binary_spec(o, a, b)),
        None => None,
    }
}

pub open spec fn bool_binary_fn(op: Option<BoolBinaryOp>) -> Option<spec_fn(bool, bool) -> Result<bool, Error>> {
    match op {
        Some(o) => Some(|a: bool, b: bool| Ok::<bool, Error>(bool_binary_spec(o, a, b))),
        None => None,
    }
}

pub open spec fn str_binary_fn(op: Option<StrBinaryOp>) -> Option<spec_fn(Seq<char>, Seq<char>) -> Result<Seq<char>, Error>> {
    match op {
        Some(o) => Some(|a: Seq<char>, b: Seq<char>| Ok::<Seq<char>, Error>(str_binary_spec(o, a, b))),
        None => None,
    }
}

pub open spec fn int_bounds_fn(op: Option<IntBoundsOp>) -> Option<spec_fn(Option<i64>, Option<i64>, Option<i64>, Option<i64>) -> Result<(Option<i64>, Option<i64>), Error>> {
    match op {
        Some(o) => Some(|a: Option<i64>, b: Option<i64>, c: Option<i64>, d: Option<i64>| int_bounds_spec(o, a, b, c, d)),
        None => None,
    }
}

/// Combined categories, de-duplicated.
pub open spec fn deduplicated_result<F, T>(r: Result<Seq<Option<Seq<T>>>, Error>, wrap: spec_fn(Seq<Option<Seq<T>>>) -> CategoriesView<F>) -> Result<Option<NatureView<F>>, Error> {
    match r {
        Ok(s) => match deduplicate_spec(wrap(s)) {
            Ok(c) => Ok(Some(NatureView::Categorical(c))),
            Err(e) => Err(e),
        },
        Err(e) => Err(e),
    }
}

/// What the float bounds operator of a binary transform gave for each column.
pub open spec fn float_binary_bounds_hold<F>(
    g: Option<spec_fn(Option<F>, Option<F>, Option<F>, Option<F>, Result<(Option<F>, Option<F>), Error>) -> bool>,
    lmins: Seq<Option<F>>,
    lmaxs: Seq<Option<F>>,
    rmins: Seq<Option<F>>,
    rmaxs: Seq<Option<F>>,
    r: Result<Option<NatureView<F>>, Error>,
) -> bool {
    match r {
        Ok(Some(NatureView::Continuous { min: BoundsView::F64(a), max: BoundsView::F64(b) })) => {
            &&& a.len() == min_len(min_len(lmins.len(), lmaxs.len()), min_len(rmins.len(), rmaxs.len()))
            &&& b.len() == a.len()
            &&& forall|i: int| #![trigger a[i]] 0 <= i < a.len() ==> match g {
                None => a[i] is None && b[i] is None,
                Some(gg) => gg(lmins[i], lmaxs[i], rmins[i], rmaxs[i], Ok((a[i], b[i]))),
            }
        },
        Err(e) => g matches Some(gg) && exists|i: int|
            0 <= i < lmins.len() && i < lmaxs.len() && i < rmins.len() && i < rmaxs.len()
            && gg(lmins[i], lmaxs[i], rmins[i], rmaxs[i], Err(e)),
        _ => false,
    }
}

/// The relation `g` allows a result for `x` and `y`.
pub open spec fn may_succeed<F>(g: spec_fn(F, F, Result<F, Error>) -> bool, x: F, y: F) -> bool {
    exists|v: F| #[trigger] g(x, y, Ok(v))
}

/// Float categories cannot be combined: the result is a failure.  Without
/// a float operator it is the failure for the first pair of columns that
/// both have categories, if any; otherwise it is a failure of the float
/// operator on some pair, or the refusal of float categories once the
/// operator may have succeeded on every pair.
pub open spec fn float_binary_categories_hold<F>(
    g: Option<spec_fn(F, F, Result<F, Error>) -> bool>,
    ls: Seq<Option<Seq<F>>>,
    rs: Seq<Option<Seq<F>>>,
    r: Result<Option<NatureView<F>>, Error>,
) -> bool {
    r matches Err(e) && match g {
        None => e == match columns_product_spec(None, CategoryKind::Floats, ls, rs, min_len(ls.len(), rs.len())) {
            Err(f) => f,
            Ok(_) => Error::FloatCategories,
        },
        Some(gg) => {
            ||| e == Error::FloatCategories && forall|i: int, a: int, b: int| #![trigger ls[i]->0[a], rs[i]->0[b]]
                0 <= i < ls.len() && i < rs.len() && ls[i] is Some && rs[i] is Some
                    && 0 <= a < ls[i]->0.len() && 0 <= b < rs[i]->0.len()
                    ==> may_succeed(gg, ls[i]->0[a], rs[i]->0[b])
            ||| exists|i: int, a: int, b: int| #![trigger ls[i]->0[a], rs[i]->0[b]]
                0 <= i < ls.len() && i < rs.len() && ls[i] is Some && rs[i] is Some
                    && 0 <= a < ls[i]->0.len() && 0 <= b < rs[i]->0.len()
                    && gg(ls[i]->0[a], rs[i]->0[b], Err(e))
        },
    }
}

/// The operators of a binary transform, its float closures taken by what
/// they may return.
#[verifier::reject_recursive_types(F)]
pub struct BinaryOperatorsView<F> {
    pub float: Option<spec_fn(F, F, Result<F, Error>) -> bool>,
    pub int: Option<IntBinaryOp>,
    pub str: Option<StrBinaryOp>,
    pub bool: Option<BoolBinaryOp>,
    pub float_bounds: Option<spec_fn(Option<F>, Option<F>, Option<F>, Option<F>, Result<(Option<F>, Option<F>), Error>) -> bool>,
    pub int_bounds: Option<IntBoundsOp>,
}

pub open spec fn binary_op_rel<F, FO: Fn(&F, &F) -> Result<F, Error>>(g: Option<FO>) -> Option<spec_fn(F, F, Result<F, Error>) -> bool> {
    match g {
        Some(f) => Some(|x: F, y: F, res: Result<F, Error>| call_ensures(f, (&x, &y), res)),
        None => None,
    }
}

pub open spec fn binary_bounds_rel<F, FB: Fn(BinaryBounds<F>) -> Result<(Option<F>, Option<F>), Error>>(g: Option<FB>)
    -> Option<spec_fn(Option<F>, Option<F>, Option<F>, Option<F>, Result<(Option<F>, Option<F>), Error>) -> bool> {
    match g {
        Some(f) => Some(|a: Option<F>, b: Option<F>, c: Option<F>, d: Option<F>, res: Result<(Option<F>, Option<F>), Error>|
            call_ensures(f, (BinaryBounds { left_min: &a, left_max: &b, right_min: &c, right_max: &d },), res)),
        None => None,
    }
}

pub open spec fn binary_operators_view<F, FO: Fn(&F, &F) -> Result<F, Error>, FB: Fn(BinaryBounds<F>) -> Result<(Option<F>, Option<F>), Error>>(
    op: BinaryOperators<FO>,
    opt: OptimizeBinaryOperators<FB>,
) -> BinaryOperatorsView<F> {
    BinaryOperatorsView {
        float: binary_op_rel(op.float),
        int: op.int,
        str: op.str,
        bool: op.bool,
        float_bounds: binary_bounds_rel(opt.float),
        int_bounds: opt.int,
    }
}

/// The nature of the output of a binary transform: with continuous natures
/// on both sides, the four bounds are stretched to `n` columns and combined
/// column by column by the bounds operator of their type (nothing is known
/// without one); with categories on both sides, they are stretched to `n`
/// columns, every left category of a column is combined with every right
/// category of it by the operator of their type, and repeats are removed;
/// otherwise nothing is known.
pub open spec fn binary_nature_holds<F>(
    left: Option<NatureView<F>>,
    right: Option<NatureView<F>>,
    op: BinaryOperatorsView<F>,
    n: i64,
    r: Result<Option<NatureView<F>>, Error>,
) -> bool {
    match (left, right) {
        (Some(NatureView::Continuous { min: lmin, max: lmax }), Some(NatureView::Continuous { min: rmin, max: rmax })) => match (lmin, lmax, rmin, rmax) {
            (BoundsView::F64(a), BoundsView::F64(b), BoundsView::F64(c), BoundsView::F64(d)) => match (
                broadcast_spec(a, n), broadcast_spec(b, n), broadcast_spec(c, n), broadcast_spec(d, n),
            ) {
                (Some(ba), Some(bb), Some(bc), Some(bd)) => float_binary_bounds_hold(op.float_bounds, ba, bb, bc, bd, r),
                _ => r == Err::<Option<NatureView<F>>, Error>(Error::BroadcastFailed),
            },
            (BoundsView::I64(a), BoundsView::I64(b), BoundsView::I64(c), BoundsView::I64(d)) => match (
                broadcast_spec(a, n), broadcast_spec(b, n), broadcast_spec(c, n), broadcast_spec(d, n),
            ) {
                (Some(ba), Some(bb), Some(bc), Some(bd)) => r == continuous_result(
                    binary_bounds_spec(int_bounds_fn(op.int_bounds), ba, bb, bc, bd,
                        min_len(min_len(ba.len(), bb.len()), min_len(bc.len(), bd.len()))),
                    |s: Seq<Option<i64>>| BoundsView::<F>::I64(s),
                ),
                _ => r == Err::<Option<NatureView<F>>, Error>(Error::BroadcastFailed),
            },
            _ => r == Err::<Option<NatureView<F>>, Error>(Error::BoundsNotNumeric),
        },
        (Some(NatureView::Categorical(lc)), Some(NatureView::Categorical(rc))) => match (standardize_spec(lc, n), standardize_spec(rc, n)) {
            (Some(ls), Some(rs)) => match (ls, rs) {
                (CategoriesView::F64(a), CategoriesView::F64(b)) => float_binary_categories_hold(op.float, a, b, r),
                (CategoriesView::I64(a), CategoriesView::I64(b)) => r == deduplicated_result(
                    columns_product_spec(int_binary_fn(op.int), CategoryKind::Integers, a, b, min_len(a.len(), b.len())),
                    |t: Seq<Option<Seq<i64>>>| CategoriesView::<F>::I64(t),
                ),
                (CategoriesView::Bool(a), CategoriesView::Bool(b)) => r == deduplicated_result(
                    columns_product_spec(bool_binary_fn(op.bool), CategoryKind::Booleans, a, b, min_len(a.len(), b.len())),
                    |t: Seq<Option<Seq<bool>>>| CategoriesView::<F>::Bool(t),
                ),
                (CategoriesView::Str(a), CategoriesView::Str(b)) => r == deduplicated_result(
                    columns_product_spec(str_binary_fn(op.str), CategoryKind::Strings, a, b, min_len(a.len(), b.len())),
                    |t: Seq<Option<Seq<Seq<char>>>>| CategoriesView::<F>::Str(t),
                ),
                _ => r == Err::<Option<NatureView<F>>, Error>(Error::NaturesNotHomogeneous),
            },
            _ => r == Err::<Option<NatureView<F>>, Error>(Error::BroadcastFailed),
        },
        _ => r == Ok::<Option<NatureView<F>>, Error>(None),
    }
}

/// The inputs on which the integer operators of a binary transform are
/// defined: once all four bounds are stretched to `n` columns, the divisor's
/// upper bounds for the modulo bounds; and the pairs of categories that meet
/// in a column for the operator on categories.
pub open spec fn binary_nature_defined<F>(
    left: Option<NatureView<F>>,
    right: Option<NatureView<F>>,
    op: Option<IntBinaryOp>,
    opt: Option<IntBoundsOp>,
    n: i64,
) -> bool {
    match (left, right) {
        (
            Some(NatureView::Continuous { min: BoundsView::I64(a), max: BoundsView::I64(b) }),
            Some(NatureView::Continuous { min: BoundsView::I64(c), max: BoundsView::I64(d) }),
        ) => opt matches Some(o) ==> (
            match (broadcast_spec(a, n), broadcast_spec(b, n), broadcast_spec(c, n), broadcast_spec(d, n)) {
                (Some(_), Some(_), Some(_), Some(bd)) => forall|i: int| 0 <= i < bd.len() ==> int_bounds_defined(o, #[trigger] bd[i]),
                _ => true,
            }),
        (Some(NatureView::Categorical(lc)), Some(NatureView::Categorical(rc))) => op matches Some(o) ==> (
            standardize_spec(lc, n) matches Some(CategoriesView::I64(a)) ==> (
            standardize_spec(rc, n) matches Some(CategoriesView::I64(b)) ==>
                forall|i: int, p: int, q: int| #![trigger a[i]->0[p], b[i]->0[q]]
                    0 <= i < a.len() && i < b.len() && a[i] is Some && b[i] is Some
                        && 0 <= p < a[i]->0.len() && 0 <= q < b[i]->0.len()
                        ==> int_binary_defined(o, a[i]->0[p], b[i]->0[q]))),
        _ => true,
    }
}

/// The float closures of a binary transform may be called on any input.
pub open spec fn binary_closures_total<F, FO: Fn(&F, &F) -> Result<F, Error>, FB: Fn(BinaryBounds<F>) -> Result<(Option<F>, Option<F>), Error>>(
    op: BinaryOperators<FO>,
    opt: OptimizeBinaryOperators<FB>,
) -> bool {
    &&& op.float matches Some(g) ==> forall|x: &F, y: &F| #[trigger] call_requires(g, (x, y))
    &&& opt.float matches Some(g) ==> forall|b: BinaryBounds<F>| #[trigger] call_requires(g, (b,))
}

proof fn lemma_columns_identity<T>(cs: Seq<Option<Vec<T>>>)
    ensures
        columns_view_with(cs, |x: T| x) == columns_view(cs),
{
    let id = |x: T| x;
    let l = columns_view_with(cs, id);
    let r = columns_view(cs);
    assert forall|i: int| 0 <= i < cs.len() implies #[trigger] l[i] == r[i] by {
        if cs[i] is Some {
            assert(cs[i]->0@.map_values(id) =~= cs[i]->0@);
        }
    }
    assert(l =~= r);
}

proof fn lemma_columns_strings(cs: Seq<Option<Vec<String>>>)
    ensures
        columns_view_with(cs, |s: String| s@) == cs.map_values(|o: Option<Vec<String>>| string_column_view(o)),
{
    let vw = |s: String| s@;
    let l = columns_view_with(cs, vw);
    let r = cs.map_values(|o: Option<Vec<String>>| string_column_view(o));
    assert forall|i: int| 0 <= i < cs.len() implies #[trigger] l[i] == r[i] by {
        if cs[i] is Some {
            assert(cs[i]->0@.map_values(vw) =~= cs[i]->0@.map_values(|s: String| s@));
        }
    }
    assert(l =~= r);
}

/// The nature of the output of a binary transform (see `binary_nature_holds`).
pub fn propagate_binary_nature<
    F: Clone,
    FO: Fn(&F, &F) -> Result<F, Error>,
    FB: Fn(BinaryBounds<F>) -> Result<(Option<F>, Option<F>), Error>,
>(
    left_property: &ArrayProperties<F>,
    right_property: &ArrayProperties<F>,
    operator: &BinaryOperators<FO>,
    optimization_operator: &OptimizeBinaryOperators<FB>,
    output_num_columns: &i64,
) -> (r: Result<Option<Nature<F>>, Error>)
    requires
        clone_exact::<F>(),
        binary_closures_total(*operator, *optimization_operator),
        binary_nature_defined(left_property@.nature, right_property@.nature, operator.int, optimization_operator.int, *output_num_columns),
    ensures
        binary_nature_holds(left_property@.nature, right_property@.nature, binary_operators_view(*operator, *optimization_operator), *output_num_columns, nature_result_view(r)),
{
    match (&left_property.nature, &right_property.nature) {
        (Some(Nature::Continuous(left)), Some(Nature::Continuous(right))) => match (&left.min, &left.max, &right.min, &right.max) {
            (Vector1DNull::F64(lmin), Vector1DNull::F64(lmax), Vector1DNull::F64(rmin), Vector1DNull::F64(rmax)) => {
                let lmin = broadcast(lmin.as_slice(), output_num_columns)?;
                let lmax = broadcast(lmax.as_slice(), output_num_columns)?;
                let rmin = broadcast(rmin.as_slice(), output_num_columns)?;
                let rmax = broadcast(rmax.as_slice(), output_num_columns)?;
                let (a, b) = binary_bounds_columns(&optimization_operator.float, &lmin, &lmax, &rmin, &rmax, Ghost(None))?;
                Ok(Some(Nature::Continuous(NatureContinuous { min: Vector1DNull::F64(a), max: Vector1DNull::F64(b) })))
            },
            (Vector1DNull::I64(lmin), Vector1DNull::I64(lmax), Vector1DNull::I64(rmin), Vector1DNull::I64(rmax)) => {
                let lmin = broadcast(lmin.as_slice(), output_num_columns)?;
                let lmax = broadcast(lmax.as_slice(), output_num_columns)?;
                let rmin = broadcast(rmin.as_slice(), output_num_columns)?;
                let rmax = broadcast(rmax.as_slice(), output_num_columns)?;
                let g = match optimization_operator.int {
                    Some(op) => Some(move |b: BinaryBounds<i64>| -> (res: Result<(Option<i64>, Option<i64>), Error>)
                        requires
                            int_bounds_defined(op, *b.right_max),
                        ensures
                            res == int_bounds_spec(op, *b.left_min, *b.left_max, *b.right_min, *b.right_max),
                        { int_bounds(op, b) }),
                    None => None,
                };
                let (a, b) = binary_bounds_columns(&g, &lmin, &lmax, &rmin, &rmax, Ghost(int_bounds_fn(optimization_operator.int)))?;
                Ok(Some(Nature::Continuous(NatureContinuous { min: Vector1DNull::I64(a), max: Vector1DNull::I64(b) })))
            },
            _ => Err(Error::BoundsNotNumeric),
        },
        (Some(Nature::Categorical(left)), Some(Nature::Categorical(right))) => {
            let lcats = left.categories.standardize(output_num_columns)?;
            let rcats = right.categories.standardize(output_num_columns)?;
            let combined = match (lcats, rcats) {
                (Jagged::F64(a), Jagged::F64(b)) => {
                    let ghost av = columns_view(a@);
                    let ghost bv = columns_view(b@);
                    proof {
                        lemma_columns_identity(a@);
                        lemma_columns_identity(b@);
                    }
                    match columns_product::<F, F, FO>(&operator.float, CategoryKind::Floats, &a, &b, Ghost(|x: F| x), Ghost(None)) {
                        Ok(out) => {
                            proof {
                                if operator.float is Some {
                                    let fo = operator.float->0;
                                    let gg = binary_op_rel(operator.float)->0;
                                    assert forall|i: int, p: int, q: int| #![trigger av[i]->0[p], bv[i]->0[q]]
                                        0 <= i < av.len() && i < bv.len() && av[i] is Some && bv[i] is Some
                                            && 0 <= p < av[i]->0.len() && 0 <= q < bv[i]->0.len()
                                        implies may_succeed(gg, av[i]->0[p], bv[i]->0[q]) by {
                                        assert(av[i]->0[p] == a@[i]->0@[p]);
                                        assert(bv[i]->0[q] == b@[i]->0@[q]);
                                        assert(pair_succeeds(fo, &a@[i]->0@[p], &b@[i]->0@[q]));
                                        let v = choose|v: F| call_ensures(fo, (&a@[i]->0@[p], &b@[i]->0@[q]), Ok::<F, Error>(v));
                                        assert(gg(av[i]->0[p], bv[i]->0[q], Ok(v)));
                                    }
                                }
                                assert(standardize_spec(left.categories@, *output_num_columns) == Some(CategoriesView::<F>::F64(av)));
                                assert(standardize_spec(right.categories@, *output_num_columns) == Some(CategoriesView::<F>::F64(bv)));
                                if operator.float is None {
                                    lemma_columns_identity(out@);
                                    assert(columns_product_spec(None, CategoryKind::Floats, av, bv, min_len(av.len(), bv.len())) is Ok);
                                }
                                assert(float_binary_categories_hold(binary_op_rel(operator.float), av, bv,
                                    Err::<Option<NatureView<F>>, Error>(Error::FloatCategories)));
                            }
                            Jagged::F64(out)
                        },
                        Err(e) => {
                            proof {
                                if operator.float is Some {
                                    let (i, p, q) = choose|i: int, p: int, q: int| #![trigger a@[i]->0@[p], b@[i]->0@[q]]
                                        0 <= i < a@.len() && i < b@.len() && a@[i] is Some && b@[i] is Some
                                            && 0 <= p < a@[i]->0@.len() && 0 <= q < b@[i]->0@.len()
                                            && call_ensures(operator.float->0, (&a@[i]->0@[p], &b@[i]->0@[q]), Err(e));
                                    assert(av[i]->0[p] == a@[i]->0@[p]);
                                    assert(bv[i]->0[q] == b@[i]->0@[q]);
                                }
                            }
                            return Err(e);
                        },
                    }
                },
                (Jagged::I64(a), Jagged::I64(b)) => {
                    let g = match operator.int {
                        Some(op) => Some(move |x: &i64, y: &i64| -> (res: Result<i64, Error>)
                            requires
                                int_binary_defined(op, *x, *y),
                            ensures
                                res == int_binary_spec(op, *x, *y),
                            { int_binary(op, x, y) }),
                        None => None,
                    };
                    proof {
                        lemma_columns_identity(a@);
                        lemma_columns_identity(b@);
                        let av = columns_view(a@);
                        let bv = columns_view(b@);
                        assert forall|i: int, p: int, q: int| #![trigger a@[i]->0@[p], b@[i]->0@[q]]
                            0 <= i < a@.len() && i < b@.len() && a@[i] is Some && b@[i] is Some && g is Some
                                && 0 <= p < a@[i]->0@.len() && 0 <= q < b@[i]->0@.len()
                                implies call_requires(g->0, (&a@[i]->0@[p], &b@[i]->0@[q])) by {
                            assert(av[i]->0[p] == a@[i]->0@[p]);
                            assert(bv[i]->0[q] == b@[i]->0@[q]);
                        }
                    }
                    let out = columns_product::<i64, i64, _>(&g, CategoryKind::Integers, &a, &b, Ghost(|x: i64| x), Ghost(int_binary_fn(operator.int)))?;
                    proof {
                        lemma_columns_identity(out@);
                    }
                    Jagged::I64(out)
                },
                (Jagged::Bool(a), Jagged::Bool(b)) => {
                    let g = match operator.bool {
                        Some(op) => Some(move |x: &bool, y: &bool| -> (res: Result<bool, Error>)
                            ensures
                                res == Ok::<bool, Error>(bool_binary_spec(op, *x, *y)),
                            { Ok(bool_binary(op, x, y)) }),
                        None => None,
                    };
                    proof {
                        lemma_columns_identity(a@);
                        lemma_columns_identity(b@);
                    }
                    let out = columns_product::<bool, bool, _>(&g, CategoryKind::Booleans, &a, &b, Ghost(|x: bool| x), Ghost(bool_binary_fn(operator.bool)))?;
                    proof {
                        lemma_columns_identity(out@);
                    }
                    Jagged::Bool(out)
                },
                (Jagged::Str(a), Jagged::Str(b)) => {
                    let g = match operator.str {
                        Some(op) => Some(move |x: &String, y: &String| -> (res: Result<String, Error>)
                            ensures
                                res matches Ok(s) && s@ == str_binary_spec(op, x@, y@),
                            { Ok(str_binary(op, x, y)) }),
                        None => None,
                    };
                    proof {
                        lemma_columns_strings(a@);
                        lemma_columns_strings(b@);
                    }
                    let out = columns_product::<String, Seq<char>, _>(&g, CategoryKind::Strings, &a, &b, Ghost(|s: String| s@), Ghost(str_binary_fn(operator.str)))?;
                    proof {
                        lemma_columns_strings(out@);
                    }
                    Jagged::Str(out)
                },
                _ => {
                    return Err(Error::NaturesNotHomogeneous);
                },
            };
            let deduplicated = combined.deduplicate()?;
            Ok(Some(Nature::Categorical(NatureCategorical { categories: deduplicated })))
        },
        _ => Ok(None),
    }
}

/// The categories of the output of a binary transform on integer
/// categories hold every value that the operator gives for a category of the
/// left argument and a category of the right one, in the same column (after
/// both are stretched to the output's columns); the operator never fails on
/// such a pair when the output is known.
pub proof fn law_integer_categories_contain_results<F>(
    op: BinaryOperatorsView<F>,
    left: Seq<Option<Seq<i64>>>,
    right: Seq<Option<Seq<i64>>>,
    n: i64,
    out: Seq<Option<Seq<i64>>>,
    i: int,
    x: i64,
    y: i64,
)
    requires
        op.int is Some,
        binary_nature_holds(
            Some(NatureView::Categorical(CategoriesView::I64(left))),
            Some(NatureView::Categorical(CategoriesView::I64(right))),
            op,
            n,
            Ok(Some(NatureView::Categorical(CategoriesView::I64(out)))),
        ),
        broadcast_spec(left, n) is Some,
        broadcast_spec(right, n) is Some,
        0 <= i < broadcast_spec(left, n)->0.len(),
        i < broadcast_spec(right, n)->0.len(),
        broadcast_spec(left, n)->0[i] is Some,
        broadcast_spec(right, n)->0[i] is Some,
        broadcast_spec(left, n)->0[i]->0.contains(x),
        broadcast_spec(right, n)->0[i]->0.contains(y),
    ensures
        int_binary_spec(op.int->0, x, y) matches Ok(z) && out[i] matches Some(c) && c.contains(z),
{
    let ls = broadcast_spec(left, n)->0;
    let rs = broadcast_spec(right, n)->0;
    let f = int_binary_fn(op.int);
    let k = min_len(ls.len(), rs.len());
    let t = columns_product_spec(f, CategoryKind::Integers, ls, rs, k)->Ok_0;
    lemma_columns_product_entry(f, CategoryKind::Integers, ls, rs, k, t, i);
    let l = ls[i]->0;
    let r = rs[i]->0;
    let p = choose|p: int| 0 <= p < l.len() && l[p] == x;
    let q = choose|q: int| 0 <= q < r.len() && r[q] == y;
    let prod = t[i]->0;
    lemma_product_contains(f->0, l, r, prod, p, q);
    let z = int_binary_spec(op.int->0, x, y)->Ok_0;
    law_unique_same_values(prod, z);
    assert(out[i] == unique_option(t[i]));
}

/// The categories of the output of a unary transform on integer categories
/// are those of the data (stretched to the output's columns), each mapped by
/// the operator, in the same place.
pub proof fn law_unary_integer_categories_mapped<F>(
    op: UnaryOperatorsView<F>,
    categories: Seq<Option<Seq<i64>>>,
    n: i64,
    out: Seq<Option<Seq<i64>>>,
    i: int,
    j: int,
)
    requires
        op.int is Some,
        unary_nature_holds(
            Some(NatureView::Categorical(CategoriesView::I64(categories))),
            op,
            n,
            Ok(Some(NatureView::Categorical(CategoriesView::I64(out)))),
        ),
        broadcast_spec(categories, n) is Some,
        0 <= i < broadcast_spec(categories, n)->0.len(),
        broadcast_spec(categories, n)->0[i] is Some,
        0 <= j < broadcast_spec(categories, n)->0[i]->0.len(),
    ensures
        out[i] is Some,
        out[i]->0.len() == broadcast_spec(categories, n)->0[i]->0.len(),
        out[i]->0[j] == int_unary_spec(op.int->0, broadcast_spec(categories, n)->0[i]->0[j]),
{
    let cs = broadcast_spec(categories, n)->0;
    let f = int_unary_fn(op.int);
    let t = columns_map_spec(f, CategoryKind::Integers, cs, cs.len())->Ok_0;
    lemma_columns_map_entry(f, CategoryKind::Integers, cs, cs.len(), t, i);
    lemma_map_seq_entry(f->0, cs[i]->0, out[i]->0, j);
}

/// The integer bounds that a sum or a Euclidean remainder derives for a
/// column contain every value it gives for values within the bounds of the
/// arguments in that column (after both are stretched to the output's
/// columns), when those bounds are known and the divisor's lower bound is
/// positive.
pub proof fn law_integer_bounds_of_output_contain_results<F>(
    op: BinaryOperatorsView<F>,
    left_min: Seq<Option<i64>>,
    left_max: Seq<Option<i64>>,
    right_min: Seq<Option<i64>>,
    right_max: Seq<Option<i64>>,
    n: i64,
    out_min: Seq<Option<i64>>,
    out_max: Seq<Option<i64>>,
    i: int,
    x: i64,
    y: i64,
)
    requires
        op.int_bounds == Some(IntBoundsOp::Add) || op.int_bounds == Some(IntBoundsOp::Modulo),
        binary_nature_holds(
            Some(NatureView::Continuous { min: BoundsView::I64(left_min), max: BoundsView::I64(left_max) }),
            Some(NatureView::Continuous { min: BoundsView::I64(right_min), max: BoundsView::I64(right_max) }),
            op,
            n,
            Ok(Some(NatureView::Continuous { min: BoundsView::I64(out_min), max: BoundsView::I64(out_max) })),
        ),
        0 <= i < out_min.len(),
        broadcast_spec(left_min, n) is Some && broadcast_spec(left_min, n)->0[i] is Some,
        broadcast_spec(left_max, n) is Some && broadcast_spec(left_max, n)->0[i] is Some,
        broadcast_spec(right_min, n) is Some && broadcast_spec(right_min, n)->0[i] is Some,
        broadcast_spec(right_max, n) is Some && broadcast_spec(right_max, n)->0[i] is Some,
        broadcast_spec(left_min, n)->0[i]->0 <= x <= broadcast_spec(left_max, n)->0[i]->0,
        broadcast_spec(right_min, n)->0[i]->0 <= y <= broadcast_spec(right_max, n)->0[i]->0,
        op.int_bounds == Some(IntBoundsOp::Modulo) ==> broadcast_spec(right_min, n)->0[i]->0 > 0,
    ensures
        ({
            let arith = if op.int_bounds == Some(IntBoundsOp::Add) { IntBinaryOp::Add } else { IntBinaryOp::Modulo };
            int_binary_spec(arith, x, y) is Ok ==> {
                &&& out_min[i] is Some
                &&& out_max[i] is Some
                &&& out_min[i]->0 <= int_binary_spec(arith, x, y)->Ok_0 <= out_max[i]->0
            }
        }),
{
    let a = broadcast_spec(left_min, n)->0;
    let b = broadcast_spec(left_max, n)->0;
    let c = broadcast_spec(right_min, n)->0;
    let d = broadcast_spec(right_max, n)->0;
    let h = int_bounds_fn(op.int_bounds)->0;
    let k = min_len(min_len(a.len(), b.len()), min_len(c.len(), d.len()));
    lemma_binary_bounds_len(Some(h), a, b, c, d, k);
    lemma_binary_bounds_entry(h, a, b, c, d, k, out_min, out_max, i);
    let o = op.int_bounds->0;
    if o == IntBoundsOp::Modulo {
        assert(0 <= x % y < y);
    }
}

/// Only an argument that may be released is stretched across rows: when the
/// output's row count is known, both row counts are known and equal, or the
/// argument with a single row may be released; the output then has the
/// larger of the two row counts.
pub proof fn law_only_releasable_rows_stretch<F>(left: ArrayPropertiesView<F>, right: ArrayPropertiesView<F>)
    requires
        binary_shape_spec(left, right) is Ok,
        binary_shape_spec(left, right)->Ok_0.1 is Some,
    ensures
        left.num_records is Some,
        right.num_records is Some,
        left.num_records == right.num_records
            || (left.releasable && left.num_records == Some(1i64))
            || (right.releasable && right.num_records == Some(1i64)),
        binary_shape_spec(left, right)->Ok_0.1->0 >= left.num_records->0,
        binary_shape_spec(left, right)->Ok_0.1->0 >= right.num_records->0,
{
}

/// Arguments with different row counts, neither of which may be stretched
/// (no single row that may be released), give no known row count, and are
/// refused unless they come from the same dataset.
pub proof fn law_unstretchable_rows<F>(left: ArrayPropertiesView<F>, right: ArrayPropertiesView<F>)
    requires
        left.num_records is Some,
        right.num_records is Some,
        left.num_records != right.num_records,
        !(left.releasable && left.num_records == Some(1i64)),
        !(right.releasable && right.num_records == Some(1i64)),
    ensures
        binary_shape_spec(left, right) is Ok ==> binary_shape_spec(left, right)->Ok_0.1 is None
            && left.dataset_id == right.dataset_id,
        left.dataset_id != right.dataset_id ==> binary_shape_spec(left, right) is Err,
{
}

} // verus!
