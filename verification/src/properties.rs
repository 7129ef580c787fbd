use vstd::prelude::*;
use vstd::hash_map::StringHashMap;
use crate::error::{ArgumentName, Error};
use crate::transforms::{broadcast, broadcast_spec, clones_of};

verus! {

/// Every clone of a `T` equals the value it was cloned from.
///
/// This holds of the integers, of `bool`, of `String` and of the floating-point
/// types that callers use for `F`.
pub open spec fn clone_exact<T: Clone>() -> bool {
    forall|a: T, b: T| #[trigger] cloned(a, b) ==> a == b
}

/// The type of the elements of an array.
#[derive(Debug, Clone, Copy, PartialEq, Eq, Structural)]
pub enum DataType {
    Unknown,
    Bool,
    Str,
    F64,
    I64,
}

/// Marks data that is the output of an aggregation, by the id of the
/// aggregating component.
#[derive(Debug, Clone, Copy, PartialEq, Eq, Structural)]
pub struct AggregatorProperties {
    pub component_id: u32,
}

/// One optional bound per column.
#[derive(Debug)]
pub enum Vector1DNull<F> {
    Bool(Vec<Option<bool>>),
    I64(Vec<Option<i64>>),
    F64(Vec<Option<F>>),
    Str(Vec<Option<String>>),
}

/// One optional list of categories per column.
#[derive(Debug)]
pub enum Jagged<F> {
    Bool(Vec<Option<Vec<bool>>>),
    I64(Vec<Option<Vec<i64>>>),
    F64(Vec<Option<Vec<F>>>),
    Str(Vec<Option<Vec<String>>>),
}

/// Lower and upper bounds of each column.
#[derive(Debug)]
pub struct NatureContinuous<F> {
    pub min: Vector1DNull<F>,
    pub max: Vector1DNull<F>,
}

/// The set of values each column may take.
#[derive(Debug)]
pub struct NatureCategorical<F> {
    pub categories: Jagged<F>,
}

/// What is known of the values of an array.
#[derive(Debug)]
pub enum Nature<F> {
    Continuous(NatureContinuous<F>),
    Categorical(NatureCategorical<F>),
}

/// The static properties of an array-valued node.
#[derive(Debug)]
pub struct ArrayProperties<F> {
    pub num_records: Option<i64>,
    pub num_columns: Option<i64>,
    pub nullity: bool,
    pub releasable: bool,
    pub c_stability: Vec<F>,
    pub aggregator: Option<AggregatorProperties>,
    pub nature: Option<Nature<F>>,
    pub data_type: DataType,
    pub dataset_id: Option<i64>,
}

/// The static properties of any node.
#[derive(Debug)]
pub enum ValueProperties<F> {
    Array(ArrayProperties<F>),
    Hashmap,
    Jagged,
}

// ---------------------------------------------------------------------------
// Mathematical views
// ---------------------------------------------------------------------------

pub open spec fn string_option_view(o: Option<String>) -> Option<Seq<char>> {
    match o {
        Some(s) => Some(s@),
        None => None,
    }
}

pub open spec fn column_view<T>(o: Option<Vec<T>>) -> Option<Seq<T>> {
    match o {
        Some(v) => Some(v@),
        None => None,
    }
}

pub open spec fn string_column_view(o: Option<Vec<String>>) -> Option<Seq<Seq<char>>> {
    match o {
        Some(v) => Some(v@.map_values(|s: String| s@)),
        None => None,
    }
}

/// Bounds as sequences; strings are taken by their characters.
pub enum BoundsView<F> {
    Bool(Seq<Option<bool>>),
    I64(Seq<Option<i64>>),
    F64(Seq<Option<F>>),
    Str(Seq<Option<Seq<char>>>),
}

/// Categories as sequences; strings are taken by their characters.
pub enum CategoriesView<F> {
    Bool(Seq<Option<Seq<bool>>>),
    I64(Seq<Option<Seq<i64>>>),
    F64(Seq<Option<Seq<F>>>),
    Str(Seq<Option<Seq<Seq<char>>>>),
}

pub enum NatureView<F> {
    Continuous { min: BoundsView<F>, max: BoundsView<F> },
    Categorical(CategoriesView<F>),
}

pub struct ArrayPropertiesView<F> {
    pub num_records: Option<i64>,
    pub num_columns: Option<i64>,
    pub nullity: bool,
    pub releasable: bool,
    pub c_stability: Seq<F>,
    pub aggregator: Option<AggregatorProperties>,
    pub nature: Option<NatureView<F>>,
    pub data_type: DataType,
    pub dataset_id: Option<i64>,
}

pub enum ValuePropertiesView<F> {
    Array(ArrayPropertiesView<F>),
    Hashmap,
    Jagged,
}

impl<F> View for Vector1DNull<F> {
    type V = BoundsView<F>;

    open spec fn view(&self) -> BoundsView<F> {
        match self {
            Vector1DNull::Bool(v) => BoundsView::Bool(v@),
            Vector1DNull::I64(v) => BoundsView::I64(v@),
            Vector1DNull::F64(v) => BoundsView::F64(v@),
            Vector1DNull::Str(v) => BoundsView::Str(v@.map_values(|o: Option<String>| string_option_view(o))),
        }
    }
}

impl<F> View for Jagged<F> {
    type V = CategoriesView<F>;

    open spec fn view(&self) -> CategoriesView<F> {
        match self {
            Jagged::Bool(v) => CategoriesView::Bool(v@.map_values(|o: Option<Vec<bool>>| column_view(o))),
            Jagged::I64(v) => CategoriesView::I64(v@.map_values(|o: Option<Vec<i64>>| column_view(o))),
            Jagged::F64(v) => CategoriesView::F64(v@.map_values(|o: Option<Vec<F>>| column_view(o))),
            Jagged::Str(v) => CategoriesView::Str(v@.map_values(|o: Option<Vec<String>>| string_column_view(o))),
        }
    }
}

impl<F> View for Nature<F> {
    type V = NatureView<F>;

    open spec fn view(&self) -> NatureView<F> {
        match self {
            Nature::Continuous(c) => NatureView::Continuous { min: c.min@, max: c.max@ },
            Nature::Categorical(c) => NatureView::Categorical(c.categories@),
        }
    }
}

pub open spec fn nature_option_view<F>(n: Option<Nature<F>>) -> Option<NatureView<F>> {
    match n {
        Some(n) => Some(n@),
        None => None,
    }
}

impl<F> View for ArrayProperties<F> {
    type V = ArrayPropertiesView<F>;

    open spec fn view(&self) -> ArrayPropertiesView<F> {
        ArrayPropertiesView {
            num_records: self.num_records,
            num_columns: self.num_columns,
            nullity: self.nullity,
            releasable: self.releasable,
            c_stability: self.c_stability@,
            aggregator: self.aggregator,
            nature: nature_option_view(self.nature),
            data_type: self.data_type,
            dataset_id: self.dataset_id,
        }
    }
}

impl<F> View for ValueProperties<F> {
    type V = ValuePropertiesView<F>;

    open spec fn view(&self) -> ValuePropertiesView<F> {
        match self {
            ValueProperties::Array(a) => ValuePropertiesView::Array(a@),
            ValueProperties::Hashmap => ValuePropertiesView::Hashmap,
            ValueProperties::Jagged => ValuePropertiesView::Jagged,
        }
    }
}

// ---------------------------------------------------------------------------
// Accessors
// ---------------------------------------------------------------------------

pub open spec fn known_or<T>(o: Option<T>, e: Error) -> Result<T, Error> {
    match o {
        Some(v) => Ok(v),
        None => Err(e),
    }
}

/// Every entry of the sequence is known.
pub open spec fn all_known<T>(s: Seq<Option<T>>) -> bool {
    forall|i: int| 0 <= i < s.len() ==> (#[trigger] s[i]) is Some
}

/// The entries of a sequence whose entries are all known.
pub open spec fn unwrap_all<T>(s: Seq<Option<T>>) -> Seq<T> {
    Seq::new(s.len(), |i: int| s[i]->0)
}

/// The lower (`lower == true`) or upper bounds of a nature, when they are
/// all known and of the type that `pick` selects.
pub open spec fn known_bounds<F, T>(
    nature: Option<NatureView<F>>,
    lower: bool,
    pick: spec_fn(BoundsView<F>) -> Option<Seq<Option<T>>>,
) -> Result<Seq<T>, Error> {
    match nature {
        Some(NatureView::Continuous { min, max }) => {
            let b = if lower { min } else { max };
            match pick(b) {
                Some(s) => if all_known(s) { Ok(unwrap_all(s)) } else { Err(Error::BoundsUnknown) },
                None => Err(Error::BoundsWrongType),
            }
        },
        _ => Err(Error::NotContinuous),
    }
}

pub open spec fn pick_i64<F>(b: BoundsView<F>) -> Option<Seq<Option<i64>>> {
    match b {
        BoundsView::I64(s) => Some(s),
        _ => None,
    }
}

pub open spec fn pick_float<F>(b: BoundsView<F>) -> Option<Seq<Option<F>>> {
    match b {
        BoundsView::F64(s) => Some(s),
        _ => None,
    }
}

/// Collects the entries of a column of bounds, failing when one is unknown.
fn collect_known<T: Clone>(v: &Vec<Option<T>>) -> (r: Result<Vec<T>, Error>)
    requires
        clone_exact::<T>(),
    ensures
        match r {
            Ok(out) => all_known(v@) && out@ == unwrap_all(v@),
            Err(e) => !all_known(v@) && e == Error::BoundsUnknown,
        },
{
    let mut out: Vec<T> = Vec::new();
    let mut i: usize = 0;
    while i < v.len()
        invariant
            i <= v.len(),
            clone_exact::<T>(),
            out@.len() == i,
            forall|j: int| 0 <= j < i ==> (#[trigger] v@[j]) is Some && out@[j] == v@[j]->0,
        decreases v.len() - i,
    {
        match &v[i] {
            Some(x) => {
                let y = x.clone();
                assert(cloned(*x, y));
                out.push(y);
            },
            None => {
                return Err(Error::BoundsUnknown);
            },
        }
        i = i + 1;
    }
    assert(out@ =~= unwrap_all(v@));
    Ok(out)
}

impl<F: Clone> ArrayProperties<F> {
    /// The number of columns, which must be known.
    pub fn num_columns(&self) -> (r: Result<i64, Error>)
        ensures
            r == known_or(self.num_columns, Error::UnknownColumnCount),
    {
        match self.num_columns {
            Some(n) => Ok(n),
            None => Err(Error::UnknownColumnCount),
        }
    }

    /// The number of rows, which must be known.
    pub fn num_records(&self) -> (r: Result<i64, Error>)
        ensures
            r == known_or(self.num_records, Error::UnknownRowCount),
    {
        match self.num_records {
            Some(n) => Ok(n),
            None => Err(Error::UnknownRowCount),
        }
    }

    /// Fails on the output of an aggregation.
    pub fn assert_is_not_aggregated(&self) -> (r: Result<(), Error>)
        ensures
            r == (if self.aggregator is Some { Err(Error::AggregatedData) } else { Ok(()) }),
    {
        match self.aggregator {
            Some(_) => Err(Error::AggregatedData),
            None => Ok(()),
        }
    }

    /// The lower bounds of integer data, all of which must be known.
    pub fn min_i64(&self) -> (r: Result<Vec<i64>, Error>)
        ensures
            match (r, known_bounds(self@.nature, true, |b| pick_i64::<F>(b))) {
                (Ok(v), Ok(s)) => v@ == s,
                (Err(e), Err(f)) => e == f,
                _ => false,
            },
    {
        match &self.nature {
            Some(Nature::Continuous(c)) => match &c.min {
                Vector1DNull::I64(v) => collect_known(v),
                _ => Err(Error::BoundsWrongType),
            },
            _ => Err(Error::NotContinuous),
        }
    }

    /// The lower bounds of floating-point data, all of which must be known.
    pub fn min_float(&self) -> (r: Result<Vec<F>, Error>)
        requires
            clone_exact::<F>(),
        ensures
            match (r, known_bounds(self@.nature, true, |b| pick_float::<F>(b))) {
                (Ok(v), Ok(s)) => v@ == s,
                (Err(e), Err(f)) => e == f,
                _ => false,
            },
    {
        match &self.nature {
            Some(Nature::Continuous(c)) => match &c.min {
                Vector1DNull::F64(v) => collect_known(v),
                _ => Err(Error::BoundsWrongType),
            },
            _ => Err(Error::NotContinuous),
        }
    }

    /// The upper bounds of floating-point data, all of which must be known.
    pub fn max_float(&self) -> (r: Result<Vec<F>, Error>)
        requires
            clone_exact::<F>(),
        ensures
            match (r, known_bounds(self@.nature, false, |b| pick_float::<F>(b))) {
                (Ok(v), Ok(s)) => v@ == s,
                (Err(e), Err(f)) => e == f,
                _ => false,
            },
    {
        match &self.nature {
            Some(Nature::Continuous(c)) => match &c.max {
                Vector1DNull::F64(v) => collect_known(v),
                _ => Err(Error::BoundsWrongType),
            },
            _ => Err(Error::NotContinuous),
        }
    }
}

impl<F> ValueProperties<F> {
    /// The properties of an array-valued node.
    pub fn array(&self) -> (r: Option<&ArrayProperties<F>>)
        ensures
            match self {
                ValueProperties::Array(a) => r == Some(a),
                _ => r is None,
            },
    {
        match self {
            ValueProperties::Array(a) => Some(a),
            _ => None,
        }
    }
}

// ---------------------------------------------------------------------------
// The properties of the arguments of a node, by argument name
// ---------------------------------------------------------------------------

#[verifier::reject_recursive_types(F)]
pub struct NodeProperties<F> {
    map: StringHashMap<ValueProperties<F>>,
}

impl<F> View for NodeProperties<F> {
    type V = Map<Seq<char>, ValueProperties<F>>;

    closed spec fn view(&self) -> Map<Seq<char>, ValueProperties<F>> {
        self.map@
    }
}

impl<F> NodeProperties<F> {
    pub fn new() -> (r: Self)
        ensures
            r@ == Map::<Seq<char>, ValueProperties<F>>::empty(),
    {
        NodeProperties { map: StringHashMap::new() }
    }

    pub fn insert(&mut self, name: &str, value: ValueProperties<F>)
        ensures
            final(self)@ == old(self)@.insert(name@, value),
    {
        self.map.insert(name.to_owned(), value);
    }

    pub fn get(&self, name: &str) -> (r: Option<&ValueProperties<F>>)
        ensures
            match r {
                Some(v) => self@.contains_key(name@) && *v == self@[name@],
                None => !self@.contains_key(name@),
            },
    {
        self.map.get(name)
    }
}

/// The array properties of argument `key`, reported as `name` when it is
/// missing or not an array.
pub open spec fn array_argument_spec<F>(
    properties: Map<Seq<char>, ValueProperties<F>>,
    key: Seq<char>,
    name: ArgumentName,
) -> Result<ArrayProperties<F>, Error> {
    if !properties.contains_key(key) {
        Err(Error::MissingProperty(name))
    } else {
        match properties[key] {
            ValueProperties::Array(a) => Ok(a),
            _ => Err(Error::NotAnArray(name)),
        }
    }
}

pub fn array_argument<'a, F>(properties: &'a NodeProperties<F>, key: &str, name: ArgumentName) -> (r:
    Result<&'a ArrayProperties<F>, Error>)
    ensures
        match (r, array_argument_spec(properties@, key@, name)) {
            (Ok(a), Ok(b)) => *a == b,
            (Err(e), Err(f)) => e == f,
            _ => false,
        },
{
    match properties.get(key) {
        Some(value) => match value.array() {
            Some(a) => Ok(a),
            None => Err(Error::NotAnArray(name)),
        },
        None => Err(Error::MissingProperty(name)),
    }
}


// ---------------------------------------------------------------------------
// Categories
// ---------------------------------------------------------------------------

pub proof fn lemma_clone_exact_string()
    ensures
        clone_exact::<String>(),
{
}

pub proof fn lemma_clone_exact_option<T: Clone>()
    requires
        clone_exact::<T>(),
    ensures
        clone_exact::<Option<T>>(),
{
    assert forall|a: Option<T>, b: Option<T>| #[trigger] cloned(a, b) implies a == b by {
        if a is Some && b is Some {
            assert(cloned(a->0, b->0));
        }
    }
}

proof fn lemma_cloned_column<T: Clone>(a: Option<Vec<T>>, b: Option<Vec<T>>)
    requires
        clone_exact::<T>(),
        cloned(a, b),
    ensures
        column_view(a) == column_view(b),
{
    if a is Some && b is Some && a != b {
        let x = a->0;
        let y = b->0;
        if x != y {
            assert(cloned(x, y));
            assert(y.len() == x.len());
            assert forall|i: int| 0 <= i < x.len() implies y@[i] == x@[i] by {
                assert(cloned(x@[i], y@[i]));
            }
            assert(y@ =~= x@);
        }
    }
}

proof fn lemma_cloned_string_column(a: Option<Vec<String>>, b: Option<Vec<String>>)
    requires
        cloned(a, b),
    ensures
        string_column_view(a) == string_column_view(b),
{
    lemma_clone_exact_string();
    lemma_cloned_column(a, b);
}

/// `broadcast_spec` applied to a view of each entry.
pub open spec fn broadcast_map<A, B>(s: Seq<A>, n: i64, f: spec_fn(A) -> B) -> Option<Seq<B>> {
    match broadcast_spec(s, n) {
        Some(t) => Some(t.map_values(f)),
        None => None,
    }
}

proof fn lemma_broadcast_map<A, B>(s: Seq<A>, n: i64, f: spec_fn(A) -> B)
    ensures
        broadcast_spec(s.map_values(f), n) == broadcast_map(s, n, f),
{
    if s.len() as i64 != n && s.len() == 1 {
        let t = broadcast_spec(s, n)->0;
        assert(broadcast_spec(s.map_values(f), n)->0 =~= t.map_values(f));
    }
}

/// Categories stretched to `n` columns.
pub open spec fn standardize_spec<F>(c: CategoriesView<F>, n: i64) -> Option<CategoriesView<F>> {
    match c {
        CategoriesView::Bool(s) => match broadcast_spec(s, n) {
            Some(t) => Some(CategoriesView::Bool(t)),
            None => None,
        },
        CategoriesView::I64(s) => match broadcast_spec(s, n) {
            Some(t) => Some(CategoriesView::I64(t)),
            None => None,
        },
        CategoriesView::F64(s) => match broadcast_spec(s, n) {
            Some(t) => Some(CategoriesView::F64(t)),
            None => None,
        },
        CategoriesView::Str(s) => match broadcast_spec(s, n) {
            Some(t) => Some(CategoriesView::Str(t)),
            None => None,
        },
    }
}

/// Stretches the columns of categories to `n` columns.
fn standardize_columns<T: Clone>(v: &Vec<Option<Vec<T>>>, n: &i64) -> (r: Result<Vec<Option<Vec<T>>>, Error>)
    requires
        clone_exact::<T>(),
    ensures
        match r {
            Ok(out) => broadcast_spec(v@.map_values(|o: Option<Vec<T>>| column_view(o)), *n)
                == Some(out@.map_values(|o: Option<Vec<T>>| column_view(o))),
            Err(e) => broadcast_spec(v@, *n) is None && e == Error::BroadcastFailed,
        },
{
    let out = broadcast(v.as_slice(), n)?;
    proof {
        let t = broadcast_spec(v@, *n)->0;
        assert(clones_of(t, out@));
        assert forall|i: int| 0 <= i < t.len() implies column_view(out@[i]) == column_view(t[i]) by {
            assert(cloned(t[i], out@[i]));
            lemma_cloned_column(t[i], out@[i]);
        }
        assert(out@.map_values(|o: Option<Vec<T>>| column_view(o)) =~= t.map_values(|o: Option<Vec<T>>| column_view(o)));
        lemma_broadcast_map(v@, *n, |o: Option<Vec<T>>| column_view(o));
    }
    Ok(out)
}

fn standardize_string_columns(v: &Vec<Option<Vec<String>>>, n: &i64) -> (r: Result<Vec<Option<Vec<String>>>, Error>)
    ensures
        match r {
            Ok(out) => broadcast_spec(v@.map_values(|o: Option<Vec<String>>| string_column_view(o)), *n)
                == Some(out@.map_values(|o: Option<Vec<String>>| string_column_view(o))),
            Err(e) => broadcast_spec(v@, *n) is None && e == Error::BroadcastFailed,
        },
{
    let out = broadcast(v.as_slice(), n)?;
    proof {
        let t = broadcast_spec(v@, *n)->0;
        assert(clones_of(t, out@));
        assert forall|i: int| 0 <= i < t.len() implies string_column_view(out@[i]) == string_column_view(t[i]) by {
            assert(cloned(t[i], out@[i]));
            lemma_cloned_string_column(t[i], out@[i]);
        }
        assert(out@.map_values(|o: Option<Vec<String>>| string_column_view(o)) =~= t.map_values(|o: Option<Vec<String>>| string_column_view(o)));
        lemma_broadcast_map(v@, *n, |o: Option<Vec<String>>| string_column_view(o));
    }
    Ok(out)
}

/// The distinct entries of `s`, each where it first occurs.
pub open spec fn unique_seq<T>(s: Seq<T>) -> Seq<T>
    decreases s.len(),
{
    if s.len() == 0 {
        Seq::empty()
    } else {
        let u = unique_seq(s.drop_last());
        if u.contains(s.last()) {
            u
        } else {
            u.push(s.last())
        }
    }
}

pub open spec fn unique_option<T>(o: Option<Seq<T>>) -> Option<Seq<T>> {
    match o {
        Some(s) => Some(unique_seq(s)),
        None => None,
    }
}

/// Categories with the repeated values of each column removed; float
/// categories are refused.
pub open spec fn deduplicate_spec<F>(c: CategoriesView<F>) -> Result<CategoriesView<F>, Error> {
    match c {
        CategoriesView::F64(_) => Err(Error::FloatCategories),
        CategoriesView::Bool(s) => Ok(CategoriesView::Bool(s.map_values(|o: Option<Seq<bool>>| unique_option(o)))),
        CategoriesView::I64(s) => Ok(CategoriesView::I64(s.map_values(|o: Option<Seq<i64>>| unique_option(o)))),
        CategoriesView::Str(s) => Ok(CategoriesView::Str(s.map_values(|o: Option<Seq<Seq<char>>>| unique_option(o)))),
    }
}

proof fn lemma_push_contains<T>(s: Seq<T>, a: T, x: T)
    ensures
        s.push(a).contains(x) <==> (s.contains(x) || a == x),
{
    if s.contains(x) {
        let k = choose|k: int| 0 <= k < s.len() && s[k] == x;
        assert(s.push(a)[k] == x);
    }
    if a == x {
        assert(s.push(a)[s.len() as int] == x);
    }
    if s.push(a).contains(x) && a != x {
        let k = choose|k: int| 0 <= k < s.len() + 1 && s.push(a)[k] == x;
        assert(s[k] == x);
    }
}

proof fn lemma_unique_step<T>(s: Seq<T>, i: int)
    requires
        0 <= i < s.len(),
    ensures
        unique_seq(s.take(i + 1)) == (if unique_seq(s.take(i)).contains(s[i]) {
            unique_seq(s.take(i))
        } else {
            unique_seq(s.take(i)).push(s[i])
        }),
{
    assert(s.take(i + 1).drop_last() =~= s.take(i));
}

fn unique_i64(v: &Vec<i64>) -> (r: Vec<i64>)
    ensures
        r@ == unique_seq(v@),
{
    let mut out: Vec<i64> = Vec::new();
    let mut i: usize = 0;
    while i < v.len()
        invariant
            i <= v.len(),
            out@ == unique_seq(v@.take(i as int)),
        decreases v.len() - i,
    {
        let x = v[i];
        let mut found = false;
        let mut j: usize = 0;
        while j < out.len()
            invariant
                j <= out.len(),
                found == out@.take(j as int).contains(x),
            decreases out.len() - j,
        {
            assert(out@.take(j + 1) =~= out@.take(j as int).push(out@[j as int]));
            proof {
                lemma_push_contains(out@.take(j as int), out@[j as int], x);
            }
            if out[j] == x {
                found = true;
            }
            j = j + 1;
        }
        assert(out@.take(out@.len() as int) =~= out@);
        proof {
            lemma_unique_step(v@, i as int);
        }
        if !found {
            out.push(x);
        }
        i = i + 1;
    }
    assert(v@.take(v@.len() as int) =~= v@);
    out
}

fn unique_bool(v: &Vec<bool>) -> (r: Vec<bool>)
    ensures
        r@ == unique_seq(v@),
{
    let mut out: Vec<bool> = Vec::new();
    let mut i: usize = 0;
    while i < v.len()
        invariant
            i <= v.len(),
            out@ == unique_seq(v@.take(i as int)),
        decreases v.len() - i,
    {
        let x = v[i];
        let mut found = false;
        let mut j: usize = 0;
        while j < out.len()
            invariant
                j <= out.len(),
                found == out@.take(j as int).contains(x),
            decreases out.len() - j,
        {
            assert(out@.take(j + 1) =~= out@.take(j as int).push(out@[j as int]));
            proof {
                lemma_push_contains(out@.take(j as int), out@[j as int], x);
            }
            if out[j] == x {
                found = true;
            }
            j = j + 1;
        }
        assert(out@.take(out@.len() as int) =~= out@);
        proof {
            lemma_unique_step(v@, i as int);
        }
        if !found {
            out.push(x);
        }
        i = i + 1;
    }
    assert(v@.take(v@.len() as int) =~= v@);
    out
}

pub open spec fn strings_view(v: Seq<String>) -> Seq<Seq<char>> {
    v.map_values(|s: String| s@)
}

fn unique_strings(v: &Vec<String>) -> (r: Vec<String>)
    ensures
        strings_view(r@) == unique_seq(strings_view(v@)),
{
    let mut out: Vec<String> = Vec::new();
    let mut i: usize = 0;
    while i < v.len()
        invariant
            i <= v.len(),
            strings_view(out@) == unique_seq(strings_view(v@).take(i as int)),
        decreases v.len() - i,
    {
        let x = &v[i];
        let mut found = false;
        let mut j: usize = 0;
        while j < out.len()
            invariant
                j <= out.len(),
                found == strings_view(out@).take(j as int).contains(x@),
            decreases out.len() - j,
        {
            assert(strings_view(out@).take(j + 1) =~= strings_view(out@).take(j as int).push(out@[j as int]@));
            proof {
                lemma_push_contains(strings_view(out@).take(j as int), out@[j as int]@, x@);
            }
            if out[j] == *x {
                found = true;
            }
            j = j + 1;
        }
        assert(strings_view(out@).take(out@.len() as int) =~= strings_view(out@));
        proof {
            lemma_unique_step(strings_view(v@), i as int);
        }
        if !found {
            let y = x.clone();
            assert(strings_view(out@.push(y)) =~= strings_view(out@).push(x@));
            out.push(y);
        }
        i = i + 1;
    }
    assert(strings_view(v@).take(v@.len() as int) =~= strings_view(v@));
    out
}

impl<F: Clone> Jagged<F> {
    /// The categories stretched to `num_columns` columns.
    pub fn standardize(&self, num_columns: &i64) -> (r: Result<Jagged<F>, Error>)
        requires
            clone_exact::<F>(),
        ensures
            match (r, standardize_spec(self@, *num_columns)) {
                (Ok(j), Some(c)) => j@ == c,
                (Err(e), None) => e == Error::BroadcastFailed,
                _ => false,
            },
    {
        match self {
            Jagged::Bool(v) => Ok(Jagged::Bool(standardize_columns(v, num_columns)?)),
            Jagged::I64(v) => Ok(Jagged::I64(standardize_columns(v, num_columns)?)),
            Jagged::F64(v) => Ok(Jagged::F64(standardize_columns(v, num_columns)?)),
            Jagged::Str(v) => Ok(Jagged::Str(standardize_string_columns(v, num_columns)?)),
        }
    }

    /// The categories with the repeated values of each column removed.
    pub fn deduplicate(&self) -> (r: Result<Jagged<F>, Error>)
        ensures
            match (r, deduplicate_spec(self@)) {
                (Ok(j), Ok(c)) => j@ == c,
                (Err(e), Err(f)) => e == f,
                _ => false,
            },
    {
        match self {
            Jagged::F64(_) => Err(Error::FloatCategories),
            Jagged::I64(v) => {
                let mut out: Vec<Option<Vec<i64>>> = Vec::new();
                let mut i: usize = 0;
                while i < v.len()
                    invariant
                        i <= v.len(),
                        out@.len() == i,
                        forall|j: int| 0 <= j < i ==> #[trigger] column_view(out@[j]) == unique_option(column_view(v@[j])),
                    decreases v.len() - i,
                {
                    match &v[i] {
                        Some(c) => out.push(Some(unique_i64(c))),
                        None => out.push(None),
                    }
                    i = i + 1;
                }
                let ghost s = v@.map_values(|o: Option<Vec<i64>>| column_view(o));
                assert(out@.map_values(|o: Option<Vec<i64>>| column_view(o)) =~= s.map_values(|o: Option<Seq<i64>>| unique_option(o)));
                Ok(Jagged::I64(out))
            },
            Jagged::Bool(v) => {
                let mut out: Vec<Option<Vec<bool>>> = Vec::new();
                let mut i: usize = 0;
                while i < v.len()
                    invariant
                        i <= v.len(),
                        out@.len() == i,
                        forall|j: int| 0 <= j < i ==> #[trigger] column_view(out@[j]) == unique_option(column_view(v@[j])),
                    decreases v.len() - i,
                {
                    match &v[i] {
                        Some(c) => out.push(Some(unique_bool(c))),
                        None => out.push(None),
                    }
                    i = i + 1;
                }
                let ghost s = v@.map_values(|o: Option<Vec<bool>>| column_view(o));
                assert(out@.map_values(|o: Option<Vec<bool>>| column_view(o)) =~= s.map_values(|o: Option<Seq<bool>>| unique_option(o)));
                Ok(Jagged::Bool(out))
            },
            Jagged::Str(v) => {
                let mut out: Vec<Option<Vec<String>>> = Vec::new();
                let mut i: usize = 0;
                while i < v.len()
                    invariant
                        i <= v.len(),
                        out@.len() == i,
                        forall|j: int| 0 <= j < i ==> #[trigger] string_column_view(out@[j]) == unique_option(string_column_view(v@[j])),
                    decreases v.len() - i,
                {
                    match &v[i] {
                        Some(c) => out.push(Some(unique_strings(c))),
                        None => out.push(None),
                    }
                    i = i + 1;
                }
                let ghost s = v@.map_values(|o: Option<Vec<String>>| string_column_view(o));
                assert(out@.map_values(|o: Option<Vec<String>>| string_column_view(o)) =~= s.map_values(|o: Option<Seq<Seq<char>>>| unique_option(o)));
                Ok(Jagged::Str(out))
            },
        }
    }
}

// ---------------------------------------------------------------------------
// Laws of de-duplication
// ---------------------------------------------------------------------------

/// De-duplication keeps exactly the values that occur.
pub proof fn law_unique_same_values<T>(s: Seq<T>, x: T)
    ensures
        unique_seq(s).contains(x) <==> s.contains(x),
    decreases s.len(),
{
    if s.len() > 0 {
        law_unique_same_values(s.drop_last(), x);
        if s.contains(x) && !s.drop_last().contains(x) {
            let k = choose|k: int| 0 <= k < s.len() && s[k] == x;
            if k < s.len() - 1 {
                assert(s.drop_last()[k] == x);
            }
        }
        if s.drop_last().contains(x) {
            let k = choose|k: int| 0 <= k < s.len() - 1 && s.drop_last()[k] == x;
            assert(s[k] == x);
        }
        let u = unique_seq(s.drop_last());
        if !u.contains(s.last()) {
            if u.push(s.last()).contains(x) && x != s.last() {
                let k = choose|k: int| 0 <= k < u.len() + 1 && u.push(s.last())[k] == x;
                assert(u[k] == x);
            }
            if u.contains(x) {
                let k = choose|k: int| 0 <= k < u.len() && u[k] == x;
                assert(u.push(s.last())[k] == x);
            }
            assert(u.push(s.last())[u.len() as int] == s.last());
        }
        assert(s[s.len() - 1] == s.last());
    }
}

/// After de-duplication no value occurs twice.
pub proof fn law_unique_no_repeats<T>(s: Seq<T>)
    ensures
        unique_seq(s).no_duplicates(),
    decreases s.len(),
{
    if s.len() > 0 {
        law_unique_no_repeats(s.drop_last());
    }
}

/// A sequence without repeated values is its own de-duplication.
pub proof fn law_unique_of_distinct<T>(s: Seq<T>)
    requires
        s.no_duplicates(),
    ensures
        unique_seq(s) == s,
    decreases s.len(),
{
    if s.len() > 0 {
        let t = s.drop_last();
        assert(t.no_duplicates());
        law_unique_of_distinct(t);
        law_unique_same_values(t, s.last());
        if t.contains(s.last()) {
            let k = choose|k: int| 0 <= k < t.len() && t[k] == s.last();
            assert(s[k] == s[s.len() - 1]);
        }
        assert(t.push(s.last()) =~= s);
    }
}

/// De-duplicating twice is de-duplicating once.
pub proof fn law_unique_idempotent<T>(s: Seq<T>)
    ensures
        unique_seq(unique_seq(s)) == unique_seq(s),
{
    law_unique_no_repeats(s);
    law_unique_of_distinct(unique_seq(s));
}

} // verus!
