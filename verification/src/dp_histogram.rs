//! The differentially private histogram, which expands into a binning
//! component followed by a differentially private count.

use vstd::prelude::*;
use vstd::hash_map::{HashMapWithView, StringHashMap};
use crate::error::{ArgumentName, Error};
use crate::properties::{clone_exact, NodeProperties, ValueProperties};

verus! {

// ---------------------------------------------------------------------------
// Components of an analysis graph
// ---------------------------------------------------------------------------

/// The arguments of a component: for each argument name, the id of the node
/// that feeds it.
pub struct ComponentArguments {
    map: StringHashMap<u32>,
}

impl View for ComponentArguments {
    type V = Map<Seq<char>, u32>;

    closed spec fn view(&self) -> Map<Seq<char>, u32> {
        self.map@
    }
}

impl ComponentArguments {
    pub fn new() -> (r: Self)
        ensures
            r@ == Map::<Seq<char>, u32>::empty(),
    {
        ComponentArguments { map: StringHashMap::new() }
    }

    pub fn insert(&mut self, name: &str, id: u32)
        ensures
            final(self)@ == old(self)@.insert(name@, id),
    {
        self.map.insert(name.to_owned(), id);
    }

    pub fn get(&self, name: &str) -> (r: Option<u32>)
        ensures
            match r {
                Some(id) => self@.contains_key(name@) && id == self@[name@],
                None => !self@.contains_key(name@),
            },
    {
        match self.map.get(name) {
            Some(id) => Some(*id),
            None => None,
        }
    }

    pub fn len(&self) -> (r: usize)
        ensures
            r == self@.len(),
    {
        self.map.len()
    }
}

/// Sorts data into bins.
pub struct Bin {
    pub side: String,
}

/// Counts records under differential privacy; `P` is the type of a privacy
/// usage.
pub struct DpCount<P> {
    pub privacy_usage: Vec<P>,
    pub implementation: String,
}

/// A histogram under differential privacy.
pub struct DpHistogram<P> {
    pub side: String,
    pub privacy_usage: Vec<P>,
    pub implementation: String,
}

/// What a component computes.
pub enum Variant<P> {
    Bin(Bin),
    DpCount(DpCount<P>),
    DpHistogram(DpHistogram<P>),
}

/// A node of an analysis graph.
pub struct Component<P> {
    pub arguments: ComponentArguments,
    pub variant: Option<Variant<P>>,
    pub omit: bool,
    pub batch: u32,
}

pub enum VariantView<P> {
    Bin { side: Seq<char> },
    DpCount { privacy_usage: Seq<P>, implementation: Seq<char> },
    DpHistogram { side: Seq<char>, privacy_usage: Seq<P>, implementation: Seq<char> },
}

pub struct ComponentView<P> {
    pub arguments: Map<Seq<char>, u32>,
    pub variant: Option<VariantView<P>>,
    pub omit: bool,
    pub batch: u32,
}

impl<P> View for Variant<P> {
    type V = VariantView<P>;

    open spec fn view(&self) -> VariantView<P> {
        match self {
            Variant::Bin(b) => VariantView::Bin { side: b.side@ },
            Variant::DpCount(c) => VariantView::DpCount { privacy_usage: c.privacy_usage@, implementation: c.implementation@ },
            Variant::DpHistogram(h) => VariantView::DpHistogram {
                side: h.side@,
                privacy_usage: h.privacy_usage@,
                implementation: h.implementation@,
            },
        }
    }
}

pub open spec fn variant_option_view<P>(v: Option<Variant<P>>) -> Option<VariantView<P>> {
    match v {
        Some(v) => Some(v@),
        None => None,
    }
}

impl<P> View for Component<P> {
    type V = ComponentView<P>;

    open spec fn view(&self) -> ComponentView<P> {
        ComponentView {
            arguments: self.arguments@,
            variant: variant_option_view(self.variant),
            omit: self.omit,
            batch: self.batch,
        }
    }
}

/// Components by id: the part of a graph that replaces an expanded
/// component.
#[verifier::reject_recursive_types(P)]
pub struct GraphExpansion<P> {
    map: HashMapWithView<u32, Component<P>>,
}

impl<P> View for GraphExpansion<P> {
    type V = Map<u32, ComponentView<P>>;

    closed spec fn view(&self) -> Map<u32, ComponentView<P>> {
        self.map@.map_values(|c: Component<P>| c@)
    }
}

impl<P> GraphExpansion<P> {
    pub fn new() -> (r: Self)
        ensures
            r@ == Map::<u32, ComponentView<P>>::empty(),
    {
        let r = GraphExpansion { map: HashMapWithView::new() };
        assert(r@ =~= Map::<u32, ComponentView<P>>::empty());
        r
    }

    pub fn insert(&mut self, id: u32, component: Component<P>)
        ensures
            final(self)@ == old(self)@.insert(id, component@),
    {
        self.map.insert(id, component);
        assert(self@ =~= old(self)@.insert(id, component@));
    }

    pub fn get(&self, id: u32) -> (r: Option<&Component<P>>)
        ensures
            match r {
                Some(c) => self@.contains_key(id) && c@ == self@[id],
                None => !self@.contains_key(id),
            },
    {
        self.map.get(&id)
    }

    pub fn len(&self) -> (r: usize)
        ensures
            r == self@.len(),
    {
        assert(self@.dom() =~= self.map@.dom());
        self.map.len()
    }
}

// ---------------------------------------------------------------------------
// Expansion
// ---------------------------------------------------------------------------

/// The ids of the arguments `data`, `edges`, `null`, `inclusive_left`,
/// `count_min` and `count_max`, or the first of them that is missing.
pub open spec fn histogram_arguments(args: Map<Seq<char>, u32>) -> Result<(u32, u32, u32, u32, u32, u32), Error> {
    if !args.contains_key("data"@) {
        Err(Error::MissingHistogramArgument(ArgumentName::Data))
    } else if !args.contains_key("edges"@) {
        Err(Error::MissingHistogramArgument(ArgumentName::Edges))
    } else if !args.contains_key("null"@) {
        Err(Error::MissingHistogramArgument(ArgumentName::Null))
    } else if !args.contains_key("inclusive_left"@) {
        Err(Error::MissingHistogramArgument(ArgumentName::InclusiveLeft))
    } else if !args.contains_key("count_min"@) {
        Err(Error::MissingHistogramArgument(ArgumentName::CountMin))
    } else if !args.contains_key("count_max"@) {
        Err(Error::MissingHistogramArgument(ArgumentName::CountMax))
    } else {
        Ok((args["data"@], args["edges"@], args["null"@], args["inclusive_left"@], args["count_min"@], args["count_max"@]))
    }
}

/// The binning component of the expansion, with id `bin_id`, and the
/// counting component that takes its place under `component_id`.
pub open spec fn histogram_expansion<P>(
    side: Seq<char>,
    privacy_usage: Seq<P>,
    implementation: Seq<char>,
    batch: u32,
    component_id: u32,
    bin_id: u32,
    ids: (u32, u32, u32, u32, u32, u32),
) -> Map<u32, ComponentView<P>> {
    let bin = ComponentView {
        arguments: Map::empty().insert("data"@, ids.0).insert("edges"@, ids.1).insert("null"@, ids.2)
            .insert("inclusive_left"@, ids.3),
        variant: Some(VariantView::Bin { side }),
        omit: true,
        batch,
    };
    let count = ComponentView {
        arguments: Map::empty().insert("data"@, bin_id).insert("count_min"@, ids.4).insert("count_max"@, ids.5),
        variant: Some(VariantView::DpCount { privacy_usage, implementation }),
        omit: false,
        batch,
    };
    Map::empty().insert(bin_id, bin).insert(component_id, count)
}

fn required_argument(args: &ComponentArguments, name: &str, argument: ArgumentName) -> (r: Result<u32, Error>)
    ensures
        match r {
            Ok(id) => args@.contains_key(name@) && id == args@[name@],
            Err(e) => !args@.contains_key(name@) && e == Error::MissingHistogramArgument(argument),
        },
{
    match args.get(name) {
        Some(id) => Ok(id),
        None => Err(Error::MissingHistogramArgument(argument)),
    }
}

fn copy_usage<P: Clone>(v: &Vec<P>) -> (r: Vec<P>)
    requires
        clone_exact::<P>(),
    ensures
        r@ == v@,
{
    let r = v.clone();
    assert forall|i: int| 0 <= i < v@.len() implies r@[i] == v@[i] by {
        assert(cloned(v@[i], r@[i]));
    }
    assert(r@ =~= v@);
    r
}

impl<P: Clone> DpHistogram<P> {
    /// Replaces the histogram by a binning component under the next free id
    /// (`maximum_id + 1`), which receives the data, edges, null value and
    /// side of the bins, and a count under differential privacy under
    /// `component_id`, which counts the bins; both keep the batch of the
    /// histogram.  Returns the largest id in use and the new components.
    pub fn expand_component(&self, component: &Component<P>, component_id: u32, maximum_id: u32) -> (r: Result<
        (u32, GraphExpansion<P>),
        Error,
    >)
        requires
            clone_exact::<P>(),
            histogram_arguments(component@.arguments) is Ok ==> maximum_id < u32::MAX,
        ensures
            match histogram_arguments(component@.arguments) {
                Err(e) => r matches Err(f) && f == e,
                Ok(ids) => r matches Ok((id, expansion)) && id == maximum_id + 1 && expansion@ == histogram_expansion(
                    self.side@, self.privacy_usage@, self.implementation@, component.batch, component_id, id, ids),
            },
    {
        let args = &component.arguments;
        let data_id = required_argument(args, "data", ArgumentName::Data)?;
        let edges_id = required_argument(args, "edges", ArgumentName::Edges)?;
        let null_id = required_argument(args, "null", ArgumentName::Null)?;
        let inclusive_left_id = required_argument(args, "inclusive_left", ArgumentName::InclusiveLeft)?;
        let count_min_id = required_argument(args, "count_min", ArgumentName::CountMin)?;
        let count_max_id = required_argument(args, "count_max", ArgumentName::CountMax)?;

        let current_id = maximum_id + 1;
        let id_bin = current_id;

        let mut bin_arguments = ComponentArguments::new();
        bin_arguments.insert("data", data_id);
        bin_arguments.insert("edges", edges_id);
        bin_arguments.insert("null", null_id);
        bin_arguments.insert("inclusive_left", inclusive_left_id);
        let bin = Component {
            arguments: bin_arguments,
            variant: Some(Variant::Bin(Bin { side: self.side.clone() })),
            omit: true,
            batch: component.batch,
        };

        let mut count_arguments = ComponentArguments::new();
        count_arguments.insert("data", id_bin);
        count_arguments.insert("count_min", count_min_id);
        count_arguments.insert("count_max", count_max_id);
        let count = Component {
            arguments: count_arguments,
            variant: Some(Variant::DpCount(DpCount {
                privacy_usage: copy_usage(&self.privacy_usage),
                implementation: self.implementation.clone(),
            })),
            omit: false,
            batch: component.batch,
        };

        let mut graph_expansion = GraphExpansion::new();
        graph_expansion.insert(id_bin, bin);
        graph_expansion.insert(component_id, count);
        Ok((current_id, graph_expansion))
    }

    /// A histogram is expanded before its properties are needed, so it has
    /// none of its own.
    pub fn propagate_property<F>(&self, properties: &NodeProperties<F>) -> (r: Result<ValueProperties<F>, Error>)
        ensures
            r matches Err(e) && e == Error::NoPropertyPropagation,
    {
        Err(Error::NoPropertyPropagation)
    }

    /// The names of the output are not derived for a histogram.
    pub fn get_names<F>(&self, properties: &NodeProperties<F>) -> (r: Result<Vec<String>, Error>)
        ensures
            r matches Err(e) && e == Error::NamesNotImplemented,
    {
        Err(Error::NamesNotImplemented)
    }

    /// No privacy usage is derived from an accuracy for a histogram.
    pub fn accuracy_to_privacy_usage<F, A>(&self, properties: &NodeProperties<F>, accuracy: &A) -> (r: Option<P>)
        ensures
            r is None,
    {
        None
    }

    /// No accuracy is derived from the privacy usage of a histogram.
    pub fn privacy_usage_to_accuracy<F, A>(&self, properties: &NodeProperties<F>) -> (r: Option<A>)
        ensures
            r is None,
    {
        None
    }

    /// A histogram adds nothing to the summary of a release.
    pub fn summarize<F, R>(&self, node_id: &u32, component: &Component<P>, properties: &NodeProperties<F>) -> (r: Result<
        Option<Vec<R>>,
        Error,
    >)
        ensures
            r matches Ok(s) && s is None,
    {
        Ok(None)
    }
}

/// In the expansion of a histogram, the binning component reads the
/// histogram's data and is left out of the release, and the count that
/// takes the histogram's place reads the bins and is released.
pub proof fn law_histogram_count_reads_bins<P>(
    side: Seq<char>,
    privacy_usage: Seq<P>,
    implementation: Seq<char>,
    batch: u32,
    component_id: u32,
    bin_id: u32,
    ids: (u32, u32, u32, u32, u32, u32),
)
    requires
        component_id != bin_id,
    ensures
        ({
            let g = histogram_expansion(side, privacy_usage, implementation, batch, component_id, bin_id, ids);
            &&& g.dom() == set![bin_id, component_id]
            &&& g[bin_id].arguments["data"@] == ids.0
            &&& g[bin_id].omit
            &&& g[component_id].arguments["data"@] == bin_id
            &&& g[component_id].arguments["count_min"@] == ids.4
            &&& g[component_id].arguments["count_max"@] == ids.5
            &&& !g[component_id].omit
        }),
{
    reveal_strlit("data");
    reveal_strlit("edges");
    reveal_strlit("null");
    reveal_strlit("inclusive_left");
    reveal_strlit("count_min");
    reveal_strlit("count_max");
    let g = histogram_expansion(side, privacy_usage, implementation, batch, component_id, bin_id, ids);
    assert(g.dom() =~= set![bin_id, component_id]);
    assert("data"@[0] != "edges"@[0]);
    assert("data"@[0] != "null"@[0]);
    assert("data"@[0] != "inclusive_left"@[0]);
    assert("data"@[0] != "count_min"@[0]);
    assert("data"@[0] != "count_max"@[0]);
    assert("count_min"@[7] != "count_max"@[7]);
}

} // verus!
