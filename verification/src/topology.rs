//! The wiring of the graph, kept in a `daggy::Dag` that holds no weights:
//! nodes and edges are known by their indices alone.
//!
//! Nothing in this file is proved. Each function states what the call it
//! makes does to the wiring, as `daggy` and `petgraph` define it.

use vstd::prelude::*;
use daggy::petgraph::algo::toposort;
use daggy::{Dag, NodeIndex, EdgeIndex, Walker, WouldCycle};
use crate::paths::{cyclic, Edge};

verus! {

/// A `daggy::Dag<(), (), usize>`.
#[verifier::external_body]
pub struct Topology {
    dag: Dag<(), (), usize>,
}

/// `daggy::WouldCycle`, the error of `Dag::add_edge`.
#[verifier::external_type_specification]
#[verifier::external_body]
#[verifier::reject_recursive_types(E)]
pub struct ExWouldCycle<E>(WouldCycle<E>);

/// Number of nodes in the wiring. Node indices run from zero up to it.
pub uninterp spec fn topology_nodes(t: Topology) -> nat;

/// The edges of the wiring, each at the place of its edge index.
pub uninterp spec fn topology_edges(t: Topology) -> Seq<Edge>;

/// What a walk over the children of node `n` yields: for each edge that
/// leaves `n`, the index of the edge and the node it leads to.
pub uninterp spec fn topology_outputs(t: Topology, n: usize) -> Seq<(usize, usize)>;

/// What a walk over the parents of node `n` yields: for each edge that
/// enters `n`, the index of the edge and the node it comes from.
pub uninterp spec fn topology_inputs(t: Topology, n: usize) -> Seq<(usize, usize)>;

/// The nodes in the order in which `petgraph::algo::toposort` returns them.
pub uninterp spec fn topology_order(t: Topology) -> Seq<usize>;

/// Whether `listing` names each edge that leaves `n` (or, for `!outgoing`,
/// enters it) exactly once, together with the node at its other end.
pub open spec fn lists_edges(
    listing: Seq<(usize, usize)>,
    edges: Seq<Edge>,
    n: usize,
    outgoing: bool,
) -> bool {
    &&& forall|i: int|
        0 <= i < listing.len() ==> (#[trigger] listing[i]).0 < edges.len() && edges[listing[i].0 as int]
            == if outgoing {
            (n, listing[i].1)
        } else {
            (listing[i].1, n)
        }
    &&& forall|i: int, j: int|
        0 <= i < j < listing.len() ==> (#[trigger] listing[i]).0 != (#[trigger] listing[j]).0
    &&& forall|e: int|
        0 <= e < edges.len() && (if outgoing {
            (#[trigger] edges[e]).0
        } else {
            edges[e].1
        }) == n ==> exists|i: int| 0 <= i < listing.len() && #[trigger] listing[i].0 == e
}

/// Whether `order` holds node indices, none twice, each after every node
/// that has an edge to it.
pub open spec fn sorted_by_edges(order: Seq<usize>, edges: Seq<Edge>, nodes: nat) -> bool {
    &&& forall|i: int| 0 <= i < order.len() ==> #[trigger] order[i] < nodes
    &&& forall|i: int, j: int|
        0 <= i < j < order.len() ==> #[trigger] order[i] != #[trigger] order[j]
    &&& forall|i: int, j: int|
        0 <= i < order.len() && 0 <= j < order.len() && edges.contains(
            (#[trigger] order[i], #[trigger] order[j]),
        ) ==> i < j
}

/// The edges after the edge at index `e` is taken out: the last edge moves
/// into its place.
pub open spec fn swap_removed(edges: Seq<Edge>, e: int) -> Seq<Edge> {
    if e == edges.len() - 1 {
        edges.drop_last()
    } else {
        edges.update(e, edges.last()).drop_last()
    }
}

/// `Dag::new`: a wiring without nodes or edges.
#[verifier::external_body]
pub(crate) fn new_topology() -> (t: Topology)
    ensures
        topology_nodes(t) == 0,
        topology_edges(t) == Seq::<Edge>::empty(),
{
    Topology { dag: Dag::new() }
}

/// `Dag::edge_count`.
#[verifier::external_body]
pub(crate) fn edge_count(t: &Topology) -> (n: usize)
    ensures
        n == topology_edges(*t).len(),
{
    t.dag.edge_count()
}

/// `Dag::add_node`: the new node takes the next index and has no edges.
#[verifier::external_body]
pub(crate) fn add_node(t: &mut Topology) -> (n: usize)
    ensures
        n == topology_nodes(*old(t)),
        topology_nodes(*final(t)) == topology_nodes(*old(t)) + 1,
        topology_edges(*final(t)) == topology_edges(*old(t)),
{
    t.dag.add_node(()).index()
}

/// `Dag::add_edge` between two different nodes of a wiring without cycles.
/// The edge is refused exactly when a cycle would run through it, and the
/// wiring is then as it was; otherwise the edge takes the next edge index.
#[verifier::external_body]
pub(crate) fn add_edge(t: &mut Topology, a: usize, b: usize) -> (r: Result<usize, WouldCycle<()>>)
    requires
        a < topology_nodes(*old(t)),
        b < topology_nodes(*old(t)),
        a != b,
        !cyclic(topology_edges(*old(t)).to_multiset()),
    ensures
        topology_nodes(*final(t)) == topology_nodes(*old(t)),
        match r {
            Ok(e) => e == topology_edges(*old(t)).len() && topology_edges(*final(t))
                == topology_edges(*old(t)).push((a, b)) && !cyclic(
                topology_edges(*final(t)).to_multiset(),
            ),
            Err(_) => *final(t) == *old(t) && cyclic(
                topology_edges(*old(t)).push((a, b)).to_multiset(),
            ),
        },
{
    t.dag.add_edge(NodeIndex::new(a), NodeIndex::new(b), ()).map(|e| e.index())
}

/// `Dag::find_edge`: the index of an edge from `a` to `b`, if there is one.
#[verifier::external_body]
pub(crate) fn find_edge(t: &Topology, a: usize, b: usize) -> (r: Option<usize>)
    ensures
        match r {
            Some(e) => e < topology_edges(*t).len() && topology_edges(*t)[e as int] == (a, b),
            None => !topology_edges(*t).contains((a, b)),
        },
{
    t.dag.find_edge(NodeIndex::new(a), NodeIndex::new(b)).map(|e| e.index())
}

/// `Dag::remove_edge`: takes out the edge at index `e` and says whether
/// there was one. The last edge takes over the index that falls free.
#[verifier::external_body]
pub(crate) fn remove_edge(t: &mut Topology, e: usize) -> (removed: bool)
    ensures
        topology_nodes(*final(t)) == topology_nodes(*old(t)),
        removed == (e < topology_edges(*old(t)).len()),
        removed ==> topology_edges(*final(t)) == swap_removed(topology_edges(*old(t)), e as int),
        !removed ==> *final(t) == *old(t),
{
    t.dag.remove_edge(EdgeIndex::new(e)).is_some()
}

/// `Dag::children`, walked to its end: every edge that leaves `n`, once,
/// with the node it leads to.
#[verifier::external_body]
pub(crate) fn children(t: &Topology, n: usize) -> (out: Vec<(usize, usize)>)
    ensures
        out@ == topology_outputs(*t, n),
        lists_edges(out@, topology_edges(*t), n, true),
{
    t.dag.children(NodeIndex::new(n)).iter(&t.dag).map(|(e, c)| (e.index(), c.index())).collect()
}

/// `Dag::parents`, walked to its end: every edge that enters `n`, once,
/// with the node it comes from.
#[verifier::external_body]
pub(crate) fn parents(t: &Topology, n: usize) -> (ins: Vec<(usize, usize)>)
    ensures
        ins@ == topology_inputs(*t, n),
        lists_edges(ins@, topology_edges(*t), n, false),
{
    t.dag.parents(NodeIndex::new(n)).iter(&t.dag).map(|(e, p)| (e.index(), p.index())).collect()
}

/// `petgraph::algo::toposort` on the graph inside the `Dag`: no node comes
/// before a node that has an edge to it, and in a wiring without cycles
/// every node has its place.
#[verifier::external_body]
pub(crate) fn sorted(t: &Topology) -> (order: Vec<usize>)
    ensures
        order@ == topology_order(*t),
        sorted_by_edges(order@, topology_edges(*t), topology_nodes(*t)),
        !cyclic(topology_edges(*t).to_multiset()) ==> order@.len() == topology_nodes(*t),
{
    toposort(t.dag.graph()).into_iter().map(|n| n.index()).collect()
}

} // verus!
