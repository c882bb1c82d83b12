//! The signal graph: an arena of nodes, the directed edges between them,
//! and the one node that is the root of the audio.
//!
//! Audio flows along the edges towards the root. A handle is the index of
//! a node in the arena; nodes are never taken out, so a handle stays good
//! for as long as the graph lives.

use vstd::prelude::*;
use vstd::multiset::Multiset;
use crate::action::{queue_view, Action};
use crate::node::{
    anchored, audio_spec, dispatch_all, dispatch_spec, flush_spec, keeps_anchors,
    lemma_dispatch_all_keeps_anchors, lemma_flush_keeps_anchors, Module, ModuleView,
};
use crate::paths::{cyclic, lemma_cycle_iff_back_path, lemma_cyclic_within, lemma_empty_acyclic, reaches, within, Edge};
use crate::topology;
use crate::topology::{lists_edges, sorted_by_edges, swap_removed, topology_edges, topology_inputs, topology_nodes, topology_order, topology_outputs, Topology};

verus! {

/// The edge that was asked for would have closed a cycle.
#[derive(Clone, Copy, Debug, PartialEq, Eq, Structural)]
pub struct CycleError;

pub struct Graph {
    nodes: Vec<Module>,
    wires: Topology,
    visit_order: Vec<usize>,
    master: usize,
}

/// The graph as a mathematical value: its nodes by handle, its edges with
/// their multiplicity, and the handle of the root.
pub struct GraphView {
    pub nodes: Seq<ModuleView>,
    pub edges: Multiset<Edge>,
    pub master: usize,
}

/// The nodes of an arena as mathematical values.
pub open spec fn views(nodes: Seq<Module>) -> Seq<ModuleView> {
    Seq::new(nodes.len(), |i: int| nodes[i]@)
}

/// The nodes at the far ends of a listing of edges.
pub open spec fn far_ends(listing: Seq<(usize, usize)>) -> Seq<usize> {
    Seq::new(listing.len(), |i: int| listing[i].1)
}

impl View for Graph {
    type V = GraphView;

    closed spec fn view(&self) -> GraphView {
        GraphView {
            nodes: views(self.nodes@),
            edges: topology_edges(self.wires).to_multiset(),
            master: self.master,
        }
    }
}

/// The arena after each node of `targets`, in turn, is handed the
/// messages `msgs`. A node that is named twice gets them twice.
pub open spec fn deliver(nodes: Seq<ModuleView>, targets: Seq<usize>, msgs: Seq<Action>) -> Seq<
    ModuleView,
>
    decreases targets.len(),
{
    if targets.len() == 0 {
        nodes
    } else {
        let before = deliver(nodes, targets.drop_last(), msgs);
        let t = targets.last() as int;
        before.update(t, dispatch_all(before[t], msgs))
    }
}

/// As `deliver`, where there may be nothing to hand out.
pub open spec fn deliver_if_any(
    nodes: Seq<ModuleView>,
    targets: Seq<usize>,
    msgs: Option<Seq<Action>>,
) -> Seq<ModuleView> {
    match msgs {
        Some(m) => deliver(nodes, targets, m),
        None => nodes,
    }
}

/// The id of the first operator among the nodes `ins`, or zero when none
/// of them is an operator.
pub open spec fn operator_id(nodes: Seq<ModuleView>, ins: Seq<usize>) -> u16
    decreases ins.len(),
{
    if ins.len() == 0 {
        0
    } else {
        match nodes[ins.first() as int] {
            ModuleView::Operator(_, _, id) => id,
            _ => operator_id(nodes, ins.drop_first()),
        }
    }
}

/// The messages `msgs` as the client gets them: each but `Noop` addressed
/// from the module `op`.
pub open spec fn tagged(msgs: Seq<Action>, op: u16) -> Seq<Action>
    decreases msgs.len(),
{
    if msgs.len() == 0 {
        Seq::empty()
    } else {
        let before = tagged(msgs.drop_last(), op);
        if msgs.last() is Noop {
            before
        } else {
            before.push(Action::At(op, Box::new(msgs.last())))
        }
    }
}

/// The arena after a walk or a part of it, and what was sent to the client
/// on the way.
pub struct Walked {
    pub nodes: Seq<ModuleView>,
    pub client: Seq<Action>,
}

/// The turn of node `n` in a walk: the node is emptied of what it has to
/// send; every output gets the messages for the outputs and every input
/// those for the inputs; the messages for the client are addressed from the
/// first operator among the inputs of `n`.
pub open spec fn visit(g: Graph, nodes: Seq<ModuleView>, n: usize) -> Walked {
    let f = flush_spec(nodes[n as int]);
    let flushed = nodes.update(n as int, f.node);
    let sent_on = deliver_if_any(flushed, g.outputs(n), f.outputs);
    let sent_back = deliver_if_any(sent_on, g.inputs(n), f.inputs);
    Walked {
        nodes: sent_back,
        client: match f.client {
            Some(c) => tagged(c, operator_id(sent_back, g.inputs(n))),
            None => Seq::empty(),
        },
    }
}

/// A walk over the nodes of `order` from the last to the first, each
/// taking its turn in the arena that the turns before left.
pub open spec fn walk(g: Graph, nodes: Seq<ModuleView>, order: Seq<usize>) -> Walked
    decreases order.len(),
{
    if order.len() == 0 {
        Walked { nodes, client: Seq::empty() }
    } else {
        let turn = visit(g, nodes, order.last());
        let rest = walk(g, turn.nodes, order.drop_last());
        Walked { nodes: rest.nodes, client: turn.client + rest.client }
    }
}

/// The arena after `frames` frames of audio have passed over the nodes of
/// `order`, from the first up to and including the root.
pub open spec fn render(nodes: Seq<ModuleView>, order: Seq<usize>, master: usize, frames: nat) -> Seq<
    ModuleView,
>
    decreases order.len(),
{
    if order.len() == 0 {
        nodes
    } else {
        let n = order.first();
        let stepped = nodes.update(n as int, audio_spec(nodes[n as int], frames));
        if n == master {
            stepped
        } else {
            render(stepped, order.drop_first(), master, frames)
        }
    }
}

impl Graph {
    /// The invariant of the graph: every edge joins two different nodes of
    /// the arena, no walk along the edges returns to its start, the visit
    /// order is a topological order of all nodes, and the root is a
    /// `Master` node of the arena.
    pub closed spec fn wf(&self) -> bool {
        let edges = topology_edges(self.wires);
        &&& topology_nodes(self.wires) == self.nodes@.len()
        &&& forall|i: int|
            0 <= i < edges.len() ==> (#[trigger] edges[i]).0 < self.nodes@.len() && edges[i].1
                < self.nodes@.len() && edges[i].0 != edges[i].1
        &&& !cyclic(edges.to_multiset())
        &&& self.visit_order@ == topology_order(self.wires)
        &&& sorted_by_edges(self.visit_order@, edges, self.nodes@.len())
        &&& self.visit_order@.len() == self.nodes@.len()
        &&& self.master < self.nodes@.len()
        &&& self.nodes@[self.master as int]@ is Master
    }

    /// The nodes that `n` feeds, one for each edge that leaves `n`, in the
    /// order in which messages are handed to them.
    pub closed spec fn outputs(&self, n: usize) -> Seq<usize> {
        far_ends(topology_outputs(self.wires, n))
    }

    /// The nodes that feed `n`, one for each edge that enters `n`, in the
    /// order in which messages are handed to them.
    pub closed spec fn inputs(&self, n: usize) -> Seq<usize> {
        far_ends(topology_inputs(self.wires, n))
    }

    /// The order in which audio passes over the nodes: producers first.
    pub closed spec fn order(&self) -> Seq<usize> {
        self.visit_order@
    }

    /// Whether two graphs are wired alike: the same edges under the same
    /// indices, walked in the same order, and the same root.
    pub closed spec fn same_wiring(&self, other: &Graph) -> bool {
        self.wires == other.wires && self.visit_order@ == other.visit_order@ && self.master
            == other.master
    }

    /// Graphs that are wired alike agree on everything but their nodes.
    pub proof fn lemma_same_wiring(&self, other: &Graph)
        requires
            self.same_wiring(other),
        ensures
            self@.edges == other@.edges,
            self@.master == other@.master,
            self.order() == other.order(),
            forall|n: usize| self.outputs(n) == other.outputs(n),
            forall|n: usize| self.inputs(n) == other.inputs(n),
    {
    }

    /// What the invariant says of the graph as a value: handles in edges,
    /// in the visit order and at the root are good, and there is no cycle.
    pub proof fn lemma_wf(&self)
        requires
            self.wf(),
        ensures
            !cyclic(self@.edges),
            forall|e: Edge|
                self@.edges.count(e) > 0 ==> e.0 < self@.nodes.len() && e.1 < self@.nodes.len()
                    && e.0 != e.1,
            self@.master < self@.nodes.len(),
            self@.nodes[self@.master as int] is Master,
            self.order().len() == self@.nodes.len(),
            forall|i: int| 0 <= i < self.order().len() ==> #[trigger] self.order()[i] < self@.nodes.len(),
            forall|i: int, j: int|
                0 <= i < j < self.order().len() ==> #[trigger] self.order()[i]
                    != #[trigger] self.order()[j],
            forall|i: int, j: int|
                0 <= i < self.order().len() && 0 <= j < self.order().len() && self@.edges.count(
                    (#[trigger] self.order()[i], #[trigger] self.order()[j]),
                ) > 0 ==> i < j,
    {
        broadcast use vstd::seq_lib::group_to_multiset_ensures;

        let edges = topology_edges(self.wires);
        assert forall|e: Edge| self@.edges.count(e) > 0 implies e.0 < self@.nodes.len() && e.1
            < self@.nodes.len() && e.0 != e.1 by {
            assert(edges.contains(e));
            let i = choose|i: int| 0 <= i < edges.len() && edges[i] == e;
            assert(edges[i] == e);
        }
        assert forall|i: int, j: int|
            0 <= i < self.order().len() && 0 <= j < self.order().len() && self@.edges.count(
                (#[trigger] self.order()[i], #[trigger] self.order()[j]),
            ) > 0 implies i < j by {
            assert(edges.contains((self.order()[i], self.order()[j])));
        }
    }

    /// A graph that holds its root, a `Master` node at handle zero, and
    /// nothing else.
    pub fn new() -> (g: Graph)
        ensures
            g.wf(),
            g@.nodes == seq![ModuleView::Master],
            g@.edges == Multiset::<Edge>::empty(),
            g@.master == 0,
    {
        let mut wires = topology::new_topology();
        let master = topology::add_node(&mut wires);
        let mut nodes: Vec<Module> = Vec::new();
        nodes.push(Module::Master);
        proof {
            lemma_empty_acyclic();
            assert(topology_edges(wires).to_multiset() =~= Multiset::<Edge>::empty()) by {
                broadcast use vstd::seq_lib::group_to_multiset_ensures;

            }
        }
        let visit_order = topology::sorted(&wires);
        let g = Graph { nodes, wires, visit_order, master };
        assert(g@.nodes =~= seq![ModuleView::Master]);
        g
    }

    /// Number of nodes.
    pub fn node_count(&self) -> (n: usize)
        ensures
            n == self@.nodes.len(),
    {
        self.nodes.len()
    }

    /// Number of edges, each counted as often as it was added.
    pub fn connection_count(&self) -> (n: usize)
        ensures
            n == self@.edges.len(),
    {
        proof {
            broadcast use vstd::seq_lib::group_to_multiset_ensures;

        }
        topology::edge_count(&self.wires)
    }

    /// The handle of the root.
    pub fn master_index(&self) -> (m: usize)
        ensures
            m == self@.master,
    {
        self.master
    }

    /// Puts a node into the arena and returns its handle. The node has no
    /// edges yet.
    pub fn add_node(&mut self, node: Module) -> (handle: usize)
        requires
            old(self).wf(),
        ensures
            final(self).wf(),
            handle == old(self)@.nodes.len(),
            final(self)@.nodes == old(self)@.nodes.push(node@),
            final(self)@.edges == old(self)@.edges,
            final(self)@.master == old(self)@.master,
    {
        let handle = topology::add_node(&mut self.wires);
        self.nodes.push(node);
        self.visit_order = topology::sorted(&self.wires);
        assert(self@.nodes =~= old(self)@.nodes.push(node@));
        handle
    }

    /// Adds an edge from `from` to `to`, unless a cycle would run through
    /// it: the edge is refused when `from` and `to` are the same node or
    /// `to` already leads to `from`, and the graph is then left as it was.
    pub fn add_edge(&mut self, from: usize, to: usize) -> (r: Result<(), CycleError>)
        requires
            old(self).wf(),
            from < old(self)@.nodes.len(),
            to < old(self)@.nodes.len(),
        ensures
            final(self).wf(),
            r is Err <==> from == to || reaches(old(self)@.edges, to, from),
            r is Err ==> *final(self) == *old(self),
            r is Ok ==> final(self)@.edges == old(self)@.edges.insert((from, to)),
            final(self)@.nodes == old(self)@.nodes,
            final(self)@.master == old(self)@.master,
    {
        if from == to {
            return Err(CycleError);
        }
        proof {
            broadcast use vstd::seq_lib::group_to_multiset_ensures;

            lemma_cycle_iff_back_path(old(self)@.edges, from, to);
        }
        match topology::add_edge(&mut self.wires, from, to) {
            Ok(_) => {
                self.visit_order = topology::sorted(&self.wires);
                assert(self@.nodes =~= old(self)@.nodes);
                Ok(())
            },
            Err(_) => {
                assert(self.nodes == old(self).nodes);
                Err(CycleError)
            },
        }
    }

    /// Whether there is an edge from `a` to `b`.
    pub fn has_edge(&self, a: usize, b: usize) -> (found: bool)
        ensures
            found == (self@.edges.count((a, b)) > 0),
    {
        proof {
            broadcast use vstd::seq_lib::group_to_multiset_ensures;

        }
        topology::find_edge(&self.wires, a, b).is_some()
    }

    /// Takes out one edge from `a` to `b`, if there is one, and says
    /// whether there was.
    pub fn remove_connection(&mut self, a: usize, b: usize) -> (removed: bool)
        requires
            old(self).wf(),
        ensures
            final(self).wf(),
            removed == (old(self)@.edges.count((a, b)) > 0),
            final(self)@.edges == old(self)@.edges.remove((a, b)),
            final(self)@.nodes == old(self)@.nodes,
            final(self)@.master == old(self)@.master,
    {
        proof {
            broadcast use vstd::seq_lib::group_to_multiset_ensures;

        }
        match topology::find_edge(&self.wires, a, b) {
            Some(e) => {
                self.remove_at(e);
                true
            },
            None => {
                assert(self@.edges.remove((a, b)) =~= self@.edges);
                false
            },
        }
    }

    /// Detaches `n` from all its neighbours: every edge that leaves or
    /// enters `n` is taken out, and no other.
    pub fn remove_all_edges(&mut self, n: usize)
        requires
            old(self).wf(),
        ensures
            final(self).wf(),
            final(self)@.edges == old(self)@.edges.filter(|e: Edge| e.0 != n && e.1 != n),
            final(self)@.nodes == old(self)@.nodes,
            final(self)@.master == old(self)@.master,
    {
        loop
            invariant
                self.wf(),
                self.nodes == old(self).nodes,
                self.master == old(self).master,
                forall|e: Edge| e.0 != n ==> self@.edges.count(e) == old(self)@.edges.count(e),
            ensures
                forall|e: Edge| e.0 == n ==> self@.edges.count(e) == 0,
            decreases topology_edges(self.wires).len(),
        {
            let outs = topology::children(&self.wires, n);
            if outs.len() == 0 {
                proof {
                    broadcast use vstd::seq_lib::group_to_multiset_ensures;

                    let edges = topology_edges(self.wires);
                    assert forall|e: Edge| e.0 == n implies self@.edges.count(e) == 0 by {
                        if edges.contains(e) {
                            let i = choose|i: int| 0 <= i < edges.len() && edges[i] == e;
                            assert(edges[i].0 == n);
                        }
                    }
                }
                break ;
            }
            let first = outs[0];
            proof {
                broadcast use vstd::multiset::group_multiset_axioms;

                assert(outs@[0].0 < topology_edges(self.wires).len());
            }
            self.remove_at(first.0);
        }
        loop
            invariant
                self.wf(),
                self.nodes == old(self).nodes,
                self.master == old(self).master,
                forall|e: Edge|
                    e.0 != n && e.1 != n ==> self@.edges.count(e) == old(self)@.edges.count(e),
                forall|e: Edge| e.0 == n ==> self@.edges.count(e) == 0,
            ensures
                forall|e: Edge| e.1 == n ==> self@.edges.count(e) == 0,
            decreases topology_edges(self.wires).len(),
        {
            let ins = topology::parents(&self.wires, n);
            if ins.len() == 0 {
                proof {
                    broadcast use vstd::seq_lib::group_to_multiset_ensures;

                    let edges = topology_edges(self.wires);
                    assert forall|e: Edge| e.1 == n implies self@.edges.count(e) == 0 by {
                        if edges.contains(e) {
                            let i = choose|i: int| 0 <= i < edges.len() && edges[i] == e;
                            assert(edges[i].1 == n);
                        }
                    }
                }
                break ;
            }
            let first = ins[0];
            proof {
                broadcast use vstd::multiset::group_multiset_axioms;

                assert(ins@[0].0 < topology_edges(self.wires).len());
            }
            self.remove_at(first.0);
        }
        proof {
            broadcast use vstd::multiset::group_multiset_axioms;

            assert(self@.edges =~= old(self)@.edges.filter(|e: Edge| e.0 != n && e.1 != n));
            assert(self@.nodes =~= old(self)@.nodes);
        }
    }

    /// The nodes that `n` feeds, one for each edge that leaves `n`.
    pub fn outputs_of(&self, n: usize) -> (outs: Vec<usize>)
        requires
            self.wf(),
        ensures
            outs@ == self.outputs(n),
            forall|i: int| 0 <= i < outs@.len() ==> #[trigger] outs@[i] < self@.nodes.len(),
            forall|i: int| 0 <= i < outs@.len() ==> self@.edges.count((n, #[trigger] outs@[i])) > 0,
            forall|m: usize| self@.edges.count((n, m)) > 0 ==> outs@.contains(m),
            forall|m: usize| outs@.to_multiset().count(m) == self@.edges.count((n, m)),
    {
        let listing = topology::children(&self.wires, n);
        let outs = ends_of(&listing);
        proof {
            assert forall|m: usize| outs@.to_multiset().count(m) == self@.edges.count((n, m)) by {
                lemma_listing_counts(listing@, topology_edges(self.wires), n, true, m);
            }
            broadcast use vstd::seq_lib::group_to_multiset_ensures;

            let edges = topology_edges(self.wires);
            assert forall|i: int| 0 <= i < outs@.len() implies #[trigger] outs@[i]
                < self@.nodes.len() && self@.edges.count((n, outs@[i])) > 0 by {
                let e = listing@[i].0 as int;
                assert(edges[e] == (n, outs@[i]));
            }
            assert forall|m: usize| self@.edges.count((n, m)) > 0 implies outs@.contains(m) by {
                assert(edges.contains((n, m)));
                let e = choose|e: int| 0 <= e < edges.len() && edges[e] == (n, m);
                assert(edges[e].0 == n);
                let i = choose|i: int| 0 <= i < listing@.len() && #[trigger] listing@[i].0 == e;
                assert(outs@[i] == m);
            }
        }
        outs
    }

    /// The nodes that feed `n`, one for each edge that enters `n`.
    pub fn inputs_of(&self, n: usize) -> (ins: Vec<usize>)
        requires
            self.wf(),
        ensures
            ins@ == self.inputs(n),
            forall|i: int| 0 <= i < ins@.len() ==> #[trigger] ins@[i] < self@.nodes.len(),
            forall|i: int| 0 <= i < ins@.len() ==> self@.edges.count((#[trigger] ins@[i], n)) > 0,
            forall|m: usize| self@.edges.count((m, n)) > 0 ==> ins@.contains(m),
            forall|m: usize| ins@.to_multiset().count(m) == self@.edges.count((m, n)),
    {
        let listing = topology::parents(&self.wires, n);
        let ins = ends_of(&listing);
        proof {
            assert forall|m: usize| ins@.to_multiset().count(m) == self@.edges.count((m, n)) by {
                lemma_listing_counts(listing@, topology_edges(self.wires), n, false, m);
            }
            broadcast use vstd::seq_lib::group_to_multiset_ensures;

            let edges = topology_edges(self.wires);
            assert forall|i: int| 0 <= i < ins@.len() implies #[trigger] ins@[i]
                < self@.nodes.len() && self@.edges.count((ins@[i], n)) > 0 by {
                let e = listing@[i].0 as int;
                assert(edges[e] == (ins@[i], n));
            }
            assert forall|m: usize| self@.edges.count((m, n)) > 0 implies ins@.contains(m) by {
                assert(edges.contains((m, n)));
                let e = choose|e: int| 0 <= e < edges.len() && edges[e] == (m, n);
                assert(edges[e].1 == n);
                let i = choose|i: int| 0 <= i < listing@.len() && #[trigger] listing@[i].0 == e;
                assert(ins@[i] == m);
            }
        }
        ins
    }

    /// The order in which audio passes over the nodes.
    pub fn visit_order(&self) -> (order: Vec<usize>)
        ensures
            order@ == self.order(),
    {
        let order = self.visit_order.clone();
        assert(order@ =~= self.visit_order@);
        order
    }

    /// The node behind a handle.
    pub fn node(&self, n: usize) -> (m: &Module)
        requires
            n < self@.nodes.len(),
        ensures
            m@ == self@.nodes[n as int],
    {
        &self.nodes[n]
    }

    /// Hands one message to the node behind a handle.
    pub fn dispatch(&mut self, n: usize, a: Action)
        requires
            old(self).wf(),
            n < old(self)@.nodes.len(),
        ensures
            final(self).wf(),
            final(self).same_wiring(old(self)),
            final(self)@.nodes == old(self)@.nodes.update(
                n as int,
                dispatch_spec(old(self)@.nodes[n as int], a),
            ),
            keeps_handles(old(self)@.nodes, final(self)@.nodes),
            final(self)@.edges == old(self)@.edges,
            final(self)@.master == old(self)@.master,
    {
        self.nodes[n].dispatch(a);
        proof {
            crate::node::lemma_dispatch_keeps_anchors(old(self)@.nodes[n as int], a);
            lemma_update_keeps_handles(
                old(self)@.nodes,
                n as int,
                dispatch_spec(old(self)@.nodes[n as int], a),
            );
            lemma_dispatch_keeps_kind(old(self)@.nodes[n as int], a);
            assert(self@.nodes =~= old(self)@.nodes.update(
                n as int,
                dispatch_spec(old(self)@.nodes[n as int], a),
            ));
        }
    }

    /// Gives the operator behind a handle the node `h` as a further pair
    /// of anchors. A node that is no operator stays as it is.
    pub fn add_anchors(&mut self, n: usize, h: usize)
        requires
            old(self).wf(),
            n < old(self)@.nodes.len(),
        ensures
            final(self).wf(),
            final(self).same_wiring(old(self)),
            final(self)@.nodes == old(self)@.nodes.update(
                n as int,
                anchored(old(self)@.nodes[n as int], h),
            ),
            keeps_handles(old(self)@.nodes, final(self)@.nodes),
            final(self)@.edges == old(self)@.edges,
            final(self)@.master == old(self)@.master,
    {
        self.nodes[n].add_anchors(h);
        proof {
            crate::node::lemma_anchored_keeps_anchors(old(self)@.nodes[n as int], h);
            lemma_update_keeps_handles(
                old(self)@.nodes,
                n as int,
                anchored(old(self)@.nodes[n as int], h),
            );
        }
        assert(self@.nodes =~= old(self)@.nodes.update(
            n as int,
            anchored(old(self)@.nodes[n as int], h),
        ));
    }

    /// Hands the messages `msgs` to each node of `targets` in turn.
    fn deliver(&mut self, targets: &Vec<usize>, msgs: &Vec<Action>)
        requires
            old(self).wf(),
            forall|i: int| 0 <= i < targets@.len() ==> #[trigger] targets@[i] < old(self)@.nodes.len(),
        ensures
            final(self).wf(),
            final(self).same_wiring(old(self)),
            final(self)@.nodes == deliver(old(self)@.nodes, targets@, msgs@),
            keeps_handles(old(self)@.nodes, final(self)@.nodes),
    {
        proof {
            lemma_deliver_keeps_handles(old(self)@.nodes, targets@, msgs@);
        }
        let mut i: usize = 0;
        assert(targets@.take(0) =~= Seq::<usize>::empty());
        while i < targets.len()
            invariant
                i <= targets@.len(),
                self.wf(),
                self.same_wiring(old(self)),
                self@.nodes.len() == old(self)@.nodes.len(),
                forall|i: int|
                    0 <= i < targets@.len() ==> #[trigger] targets@[i] < old(self)@.nodes.len(),
                self@.nodes == deliver(old(self)@.nodes, targets@.take(i as int), msgs@),
            decreases targets@.len() - i,
        {
            let t = targets[i];
            let ghost before = self@.nodes;
            let mut j: usize = 0;
            assert(msgs@.take(0) =~= Seq::<Action>::empty());
            while j < msgs.len()
                invariant
                    j <= msgs@.len(),
                    self.wf(),
                    self.same_wiring(old(self)),
                    t < before.len(),
                    self@.nodes == before.update(
                        t as int,
                        dispatch_all(before[t as int], msgs@.take(j as int)),
                    ),
                decreases msgs@.len() - j,
            {
                proof {
                    assert(msgs@.take(j + 1).drop_last() =~= msgs@.take(j as int));
                }
                self.dispatch(t, msgs[j].clone());
                j += 1;
                assert(self@.nodes =~= before.update(
                    t as int,
                    dispatch_all(before[t as int], msgs@.take(j as int)),
                ));
            }
            proof {
                assert(msgs@.take(msgs@.len() as int) =~= msgs@);
                assert(targets@.take(i + 1).drop_last() =~= targets@.take(i as int));
            }
            i += 1;
        }
        assert(targets@.take(targets@.len() as int) =~= targets@);
    }

    /// The id of the first operator among the nodes `ins`.
    fn first_operator(&self, ins: &Vec<usize>) -> (id: u16)
        requires
            forall|i: int| 0 <= i < ins@.len() ==> #[trigger] ins@[i] < self@.nodes.len(),
        ensures
            id == operator_id(self@.nodes, ins@),
    {
        let mut i: usize = 0;
        assert(ins@.skip(0) =~= ins@);
        while i < ins.len()
            invariant
                i <= ins@.len(),
                forall|i: int| 0 <= i < ins@.len() ==> #[trigger] ins@[i] < self@.nodes.len(),
                operator_id(self@.nodes, ins@) == operator_id(self@.nodes, ins@.skip(i as int)),
            decreases ins@.len() - i,
        {
            proof {
                assert(ins@.skip(i as int).drop_first() =~= ins@.skip(i + 1));
            }
            match &self.nodes[ins[i]] {
                Module::Operator(_, _, id) => {
                    return *id;
                },
                _ => {},
            }
            i += 1;
        }
        0
    }

    /// The turn of node `n` in a walk.
    fn visit(&mut self, n: usize, client: &mut Vec<Action>)
        requires
            old(self).wf(),
            n < old(self)@.nodes.len(),
        ensures
            final(self).wf(),
            final(self).same_wiring(old(self)),
            final(self)@.nodes == visit(*old(self), old(self)@.nodes, n).nodes,
            final(client)@ == old(client)@ + visit(*old(self), old(self)@.nodes, n).client,
            keeps_handles(old(self)@.nodes, final(self)@.nodes),
    {
        let ghost f = flush_spec(self@.nodes[n as int]);
        let (out_d, in_d, client_d) = self.nodes[n].dispatch_requested();
        proof {
            lemma_flush_keeps_kind(old(self)@.nodes[n as int]);
            assert(self@.nodes =~= old(self)@.nodes.update(n as int, f.node));
            lemma_flush_keeps_anchors(old(self)@.nodes[n as int], 0);
            lemma_update_keeps_handles(old(self)@.nodes, n as int, f.node);
        }
        let ghost flushed = self@.nodes;
        if let Some(out_a) = out_d {
            let outs = self.outputs_of(n);
            self.deliver(&outs, &out_a);
        }
        let ghost sent_on = self@.nodes;
        proof {
            if out_d is None {
                assert(keeps_handles(flushed, sent_on)) by {
                    assert forall|h: int| 0 <= h < flushed.len() implies keeps_anchors(
                        #[trigger] flushed[h],
                        sent_on[h],
                    ) by {
                        lemma_flush_keeps_anchors(flushed[h], 0);
                    }
                }
            }
            lemma_keeps_handles_trans(old(self)@.nodes, flushed, sent_on);
        }
        if let Some(in_a) = in_d {
            let ins = self.inputs_of(n);
            self.deliver(&ins, &in_a);
        }
        proof {
            if in_d is None {
                assert(keeps_handles(sent_on, self@.nodes)) by {
                    assert forall|h: int| 0 <= h < sent_on.len() implies keeps_anchors(
                        #[trigger] sent_on[h],
                        self@.nodes[h],
                    ) by {
                        lemma_flush_keeps_anchors(sent_on[h], 0);
                    }
                }
            }
            lemma_keeps_handles_trans(old(self)@.nodes, sent_on, self@.nodes);
        }
        if let Some(client_a) = client_d {
            let ins = self.inputs_of(n);
            let op_id = self.first_operator(&ins);
            let mut i: usize = 0;
            assert(client_a@.take(0) =~= Seq::<Action>::empty());
            while i < client_a.len()
                invariant
                    i <= client_a@.len(),
                    client@ == old(client)@ + tagged(client_a@.take(i as int), op_id),
                decreases client_a@.len() - i,
            {
                proof {
                    assert(client_a@.take(i + 1).drop_last() =~= client_a@.take(i as int));
                }
                match &client_a[i] {
                    Action::Noop => {},
                    a => {
                        client.push(Action::At(op_id, Box::new(a.clone())));
                    },
                }
                i += 1;
            }
            assert(client_a@.take(client_a@.len() as int) =~= client_a@);
        } else {
            assert(client@ =~= old(client)@ + Seq::<Action>::empty());
        }
    }

    /// One round of message passing. The nodes take their turns against
    /// the flow of audio, the root first: each is emptied of what it has to
    /// send, and its neighbours are handed those messages. What the nodes
    /// sent to the client is returned, each message addressed from the
    /// module that it came from.
    pub fn walk_dispatch(&mut self) -> (client: Vec<Action>)
        requires
            old(self).wf(),
        ensures
            final(self).wf(),
            final(self).same_wiring(old(self)),
            final(self)@.nodes == walk(*old(self), old(self)@.nodes, old(self).order()).nodes,
            final(self)@.nodes.len() == old(self)@.nodes.len(),
            keeps_handles(old(self)@.nodes, final(self)@.nodes),
            client@ == walk(*old(self), old(self)@.nodes, old(self).order()).client,
            final(self)@.edges == old(self)@.edges,
            final(self)@.master == old(self)@.master,
    {
        let mut client: Vec<Action> = Vec::new();
        let mut k: usize = self.visit_order.len();
        let ghost order = self.visit_order@;
        let ghost whole = walk(*old(self), old(self)@.nodes, order);
        assert(order.take(k as int) =~= order);
        assert(client@ + whole.client =~= whole.client);
        proof {
            assert forall|h: int| 0 <= h < self@.nodes.len() implies keeps_anchors(
                #[trigger] self@.nodes[h],
                self@.nodes[h],
            ) by {
                lemma_flush_keeps_anchors(self@.nodes[h], 0);
            }
        }
        while k > 0
            invariant
                k <= order.len(),
                self.wf(),
                keeps_handles(old(self)@.nodes, self@.nodes),
                self.same_wiring(old(self)),
                order == self.visit_order@,
                self@.nodes.len() == old(self)@.nodes.len(),
                whole == walk(*old(self), old(self)@.nodes, order),
                whole.nodes == walk(*old(self), self@.nodes, order.take(k as int)).nodes,
                whole.client == client@ + walk(
                    *old(self),
                    self@.nodes,
                    order.take(k as int),
                ).client,
            decreases k,
        {
            let n = self.visit_order[k - 1];
            let ghost here = *self;
            proof {
                assert(order.take(k as int).drop_last() =~= order.take(k - 1));
                assert(order.take(k as int).last() == n);
                assert(forall|m: usize| here.outputs(m) == old(self).outputs(m));
                assert(forall|m: usize| here.inputs(m) == old(self).inputs(m));
                assert(visit(here, here@.nodes, n) == visit(*old(self), here@.nodes, n));
            }
            self.visit(n, &mut client);
            k -= 1;
            proof {
                lemma_keeps_handles_trans(old(self)@.nodes, here@.nodes, self@.nodes);
                let turn = visit(*old(self), here@.nodes, n);
                let rest = walk(*old(self), turn.nodes, order.take(k as int));
                assert(client@ + rest.client =~= (client@.take(client@.len() - turn.client.len())
                    + turn.client) + rest.client);
            }
        }
        assert(order.take(0) =~= Seq::<usize>::empty());
        assert(client@ + Seq::<Action>::empty() =~= client@);
        client
    }

    /// Lets `frames` frames of audio pass over the graph: over each node
    /// in the order of the audio flow, up to and including the root.
    pub fn audio_requested(&mut self, frames: usize)
        requires
            old(self).wf(),
        ensures
            final(self).wf(),
            final(self).same_wiring(old(self)),
            final(self)@.nodes == render(
                old(self)@.nodes,
                old(self).order(),
                old(self)@.master,
                frames as nat,
            ),
            final(self)@.nodes.len() == old(self)@.nodes.len(),
            keeps_handles(old(self)@.nodes, final(self)@.nodes),
            final(self)@.edges == old(self)@.edges,
            final(self)@.master == old(self)@.master,
    {
        let mut i: usize = 0;
        let ghost order = self.visit_order@;
        assert(order.skip(0) =~= order);
        proof {
            assert forall|h: int| 0 <= h < self@.nodes.len() implies keeps_anchors(
                #[trigger] self@.nodes[h],
                self@.nodes[h],
            ) by {
                lemma_flush_keeps_anchors(self@.nodes[h], 0);
            }
        }
        while i < self.visit_order.len()
            invariant
                i <= order.len(),
                self.wf(),
                keeps_handles(old(self)@.nodes, self@.nodes),
                self.same_wiring(old(self)),
                order == self.visit_order@,
                self@.nodes.len() == old(self)@.nodes.len(),
                render(old(self)@.nodes, order, self.master, frames as nat) == render(
                    self@.nodes,
                    order.skip(i as int),
                    self.master,
                    frames as nat,
                ),
            decreases order.len() - i,
        {
            let n = self.visit_order[i];
            let ghost before = self@.nodes;
            proof {
                assert(order.skip(i as int).drop_first() =~= order.skip(i + 1));
                assert(order.skip(i as int).first() == n);
                lemma_audio_keeps_kind(before[n as int], frames as nat);
            }
            self.nodes[n].audio_requested(frames);
            assert(self@.nodes =~= before.update(n as int, audio_spec(before[n as int], frames as nat)));
            proof {
                lemma_flush_keeps_anchors(before[n as int], frames as nat);
                lemma_update_keeps_handles(before, n as int, audio_spec(before[n as int], frames as nat));
                lemma_keeps_handles_trans(old(self)@.nodes, before, self@.nodes);
            }
            if n == self.master {
                return ;
            }
            i += 1;
        }
    }

    /// Takes out the edge with index `e`.
    fn remove_at(&mut self, e: usize)
        requires
            old(self).wf(),
            e < topology_edges(old(self).wires).len(),
        ensures
            final(self).wf(),
            final(self)@.edges == old(self)@.edges.remove(topology_edges(old(self).wires)[e as int]),
            topology_edges(final(self).wires) == swap_removed(
                topology_edges(old(self).wires),
                e as int,
            ),
            final(self).nodes == old(self).nodes,
            final(self).master == old(self).master,
    {
        let ghost before = topology_edges(self.wires);
        let removed = topology::remove_edge(&mut self.wires, e);
        proof {
            lemma_swap_removed(before, e as int);
            let after = topology_edges(self.wires);
            assert(within(after.to_multiset(), before.to_multiset())) by {
                broadcast use vstd::multiset::group_multiset_axioms;

            }
            if cyclic(after.to_multiset()) {
                lemma_cyclic_within(after.to_multiset(), before.to_multiset());
            }
            assert forall|i: int| 0 <= i < after.len() implies (#[trigger] after[i]).0
                < self.nodes@.len() && after[i].1 < self.nodes@.len() && after[i].0
                != after[i].1 by {
                if i == e {
                    assert(after[i] == before[before.len() - 1]);
                } else {
                    assert(after[i] == before[i]);
                }
            }
        }
        self.visit_order = topology::sorted(&self.wires);
    }
}

/// Taking the edge at one index out of the list takes one such edge out of
/// the multiset.
proof fn lemma_swap_removed(edges: Seq<Edge>, e: int)
    requires
        0 <= e < edges.len(),
    ensures
        swap_removed(edges, e).to_multiset() == edges.to_multiset().remove(edges[e]),
{
    broadcast use vstd::seq_lib::group_to_multiset_ensures;
    broadcast use vstd::multiset::group_multiset_axioms;

    let last = edges.last();
    if e == edges.len() - 1 {
        assert(edges.drop_last().push(last) =~= edges);
        assert(edges.drop_last().to_multiset() =~= edges.to_multiset().remove(last));
    } else {
        let t = swap_removed(edges, e);
        let r = edges.remove(e);
        let q = r.drop_last();
        assert(t.remove(e) =~= q);
        assert(q.push(last) =~= r);
        assert(t[e] == last);
        assert(t.to_multiset() =~= q.to_multiset().insert(last));
        assert(r.to_multiset() =~= q.to_multiset().insert(last));
        assert(t.to_multiset() =~= edges.to_multiset().remove(edges[e]));
    }
}

/// The far ends of a listing of edges.
fn ends_of(listing: &Vec<(usize, usize)>) -> (ends: Vec<usize>)
    ensures
        ends@ == far_ends(listing@),
{
    let mut ends: Vec<usize> = Vec::new();
    let mut i: usize = 0;
    while i < listing.len()
        invariant
            i <= listing@.len(),
            ends@ =~= far_ends(listing@.take(i as int)),
        decreases listing@.len() - i,
    {
        ends.push(listing[i].1);
        i += 1;
    }
    assert(listing@.take(listing@.len() as int) =~= listing@);
    ends
}

/// A `Master` node stays one whatever message it is handed.
pub proof fn lemma_dispatch_keeps_kind(m: ModuleView, a: Action)
    ensures
        m is Master <==> dispatch_spec(m, a) is Master,
{
}

/// A `Master` node stays one when it is emptied.
pub proof fn lemma_flush_keeps_kind(m: ModuleView)
    ensures
        m is Master <==> flush_spec(m).node is Master,
{
}

/// A `Master` node stays one when audio passes over it.
pub proof fn lemma_audio_keeps_kind(m: ModuleView, frames: nat)
    ensures
        m is Master <==> audio_spec(m, frames) is Master,
    decreases frames,
{
    if frames > 0 {
        lemma_audio_keeps_kind(m, (frames - 1) as nat);
    }
}

/// Whether the arena still holds every node it held, under the same
/// handle, and every operator among them with the anchors it had.
pub open spec fn keeps_handles(before: Seq<ModuleView>, after: Seq<ModuleView>) -> bool {
    &&& after.len() >= before.len()
    &&& forall|h: int| 0 <= h < before.len() ==> keeps_anchors(#[trigger] before[h], after[h])
}

/// Keeping handles carries over from step to step.
pub proof fn lemma_keeps_handles_trans(a: Seq<ModuleView>, b: Seq<ModuleView>, c: Seq<ModuleView>)
    requires
        keeps_handles(a, b),
        keeps_handles(b, c),
    ensures
        keeps_handles(a, c),
{
    assert forall|h: int| 0 <= h < a.len() implies keeps_anchors(#[trigger] a[h], c[h]) by {
        assert(keeps_anchors(a[h], b[h]));
        assert(keeps_anchors(b[h], c[h]));
        match a[h] {
            ModuleView::Operator(_, x, _) => {
                let y = b[h]->Operator_1;
                let z = c[h]->Operator_1;
                assert(x.is_prefix_of(y) && y.is_prefix_of(z));
                assert(x.is_prefix_of(z)) by {
                    assert(x =~= z.subrange(0, x.len() as int)) by {
                        assert(x =~= y.subrange(0, x.len() as int));
                        assert(y =~= z.subrange(0, y.len() as int));
                    }
                }
            },
            _ => {},
        }
    }
}

/// Changing one node into a node that keeps its anchors keeps all handles.
pub proof fn lemma_update_keeps_handles(nodes: Seq<ModuleView>, t: int, m: ModuleView)
    requires
        0 <= t < nodes.len() ==> keeps_anchors(nodes[t], m),
    ensures
        0 <= t < nodes.len() ==> keeps_handles(nodes, nodes.update(t, m)),
{
    if 0 <= t < nodes.len() {
        let after = nodes.update(t, m);
        assert forall|h: int| 0 <= h < nodes.len() implies keeps_anchors(
            #[trigger] nodes[h],
            after[h],
        ) by {
            lemma_flush_keeps_anchors(nodes[h], 0);
        }
    }
}

/// Handing out messages keeps all handles.
proof fn lemma_deliver_keeps_handles(nodes: Seq<ModuleView>, targets: Seq<usize>, msgs: Seq<Action>)
    requires
        forall|i: int| 0 <= i < targets.len() ==> #[trigger] targets[i] < nodes.len(),
    ensures
        keeps_handles(nodes, deliver(nodes, targets, msgs)),
        deliver(nodes, targets, msgs).len() == nodes.len(),
    decreases targets.len(),
{
    if targets.len() == 0 {
        assert forall|h: int| 0 <= h < nodes.len() implies keeps_anchors(
            #[trigger] nodes[h],
            nodes[h],
        ) by {
            lemma_flush_keeps_anchors(nodes[h], 0);
        }
    } else {
        let init = targets.drop_last();
        assert forall|i: int| 0 <= i < init.len() implies #[trigger] init[i] < nodes.len() by {
            assert(init[i] == targets[i]);
        }
        lemma_deliver_keeps_handles(nodes, init, msgs);
        let before = deliver(nodes, init, msgs);
        let t = targets.last() as int;
        assert(targets[targets.len() - 1] < nodes.len());
        lemma_dispatch_all_keeps_anchors(before[t], msgs);
        lemma_update_keeps_handles(before, t, dispatch_all(before[t], msgs));
        lemma_keeps_handles_trans(nodes, before, deliver(nodes, targets, msgs));
    }
}

/// The edge between `n` and `m`: from `n` for an edge that leaves `n`, to
/// `n` for one that enters it.
pub open spec fn edge_between(n: usize, m: usize, outgoing: bool) -> Edge {
    if outgoing {
        (n, m)
    } else {
        (m, n)
    }
}

/// A listing of the edges at `n` names each neighbour as often as there
/// are edges between `n` and that neighbour.
proof fn lemma_listing_counts(
    listing: Seq<(usize, usize)>,
    edges: Seq<Edge>,
    n: usize,
    outgoing: bool,
    m: usize,
)
    requires
        lists_edges(listing, edges, n, outgoing),
    ensures
        far_ends(listing).to_multiset().count(m) == edges.to_multiset().count(
            edge_between(n, m, outgoing),
        ),
    decreases edges.len(),
{
    broadcast use vstd::seq_lib::group_to_multiset_ensures;
    broadcast use vstd::multiset::group_multiset_axioms;

    let target = edge_between(n, m, outgoing);
    if edges.len() == 0 {
        if listing.len() > 0 {
            assert(listing[0].0 < edges.len());
        }
        assert(far_ends(listing) =~= Seq::<usize>::empty());
        assert(edges =~= Seq::<Edge>::empty());
    } else {
        let last = edges.len() - 1;
        let init = edges.drop_last();
        assert(init.push(edges[last]) =~= edges);
        assert(edges.to_multiset() =~= init.to_multiset().insert(edges[last]));
        let at_n = (if outgoing { edges[last].0 } else { edges[last].1 }) == n;
        if at_n {
            let i = choose|i: int| 0 <= i < listing.len() && #[trigger] listing[i].0 == last;
            let rest = listing.remove(i);
            assert(lists_edges(rest, init, n, outgoing)) by {
                assert forall|k: int| 0 <= k < rest.len() implies (#[trigger] rest[k]).0
                    < init.len() && init[rest[k].0 as int] == edge_between(n, rest[k].1, outgoing) by {
                    let j = if k < i { k } else { k + 1 };
                    assert(rest[k] == listing[j]);
                    assert(listing[j].0 != listing[i].0) by {
                        if j < i {
                            assert(listing[j].0 != listing[i].0);
                        } else {
                            assert(listing[i].0 != listing[j].0);
                        }
                    }
                    assert(listing[j].0 < edges.len());
                }
                assert forall|a: int, b: int| 0 <= a < b < rest.len() implies (#[trigger] rest[a]).0
                    != (#[trigger] rest[b]).0 by {
                    let ja = if a < i { a } else { a + 1 };
                    let jb = if b < i { b } else { b + 1 };
                    assert(rest[a] == listing[ja] && rest[b] == listing[jb]);
                    assert(listing[ja].0 != listing[jb].0);
                }
                assert forall|e: int|
                    0 <= e < init.len() && (if outgoing {
                        (#[trigger] init[e]).0
                    } else {
                        init[e].1
                    }) == n implies exists|k: int| 0 <= k < rest.len() && #[trigger] rest[k].0 == e by {
                    assert(edges[e] == init[e]);
                    let j = choose|j: int| 0 <= j < listing.len() && #[trigger] listing[j].0 == e;
                    assert(j != i);
                    let k = if j < i { j } else { j - 1 };
                    assert(rest[k] == listing[j]);
                }
            }
            lemma_listing_counts(rest, init, n, outgoing, m);
            assert(far_ends(rest) =~= far_ends(listing).remove(i));
            assert(far_ends(listing)[i] == listing[i].1);
            assert(edges[last] == edge_between(n, listing[i].1, outgoing));
            assert(far_ends(listing).remove(i).to_multiset() =~= far_ends(listing).to_multiset().remove(
                listing[i].1,
            ));
            assert(far_ends(listing).to_multiset().count(listing[i].1) > 0) by {
                assert(far_ends(listing).contains(far_ends(listing)[i]));
            }
        } else {
            assert(lists_edges(listing, init, n, outgoing)) by {
                assert forall|k: int| 0 <= k < listing.len() implies (#[trigger] listing[k]).0
                    < init.len() && init[listing[k].0 as int] == edge_between(
                    n,
                    listing[k].1,
                    outgoing,
                ) by {
                    assert(listing[k].0 < edges.len());
                    assert(listing[k].0 != last);
                }
                assert forall|e: int|
                    0 <= e < init.len() && (if outgoing {
                        (#[trigger] init[e]).0
                    } else {
                        init[e].1
                    }) == n implies exists|k: int|
                    0 <= k < listing.len() && #[trigger] listing[k].0 == e by {
                    assert(edges[e] == init[e]);
                }
            }
            lemma_listing_counts(listing, init, n, outgoing, m);
            assert(edges[last] != target);
        }
    }
}

/// The node after it is handed the messages `msgs` over again, `times`
/// times in all.
pub open spec fn handed(m: ModuleView, msgs: Seq<Action>, times: nat) -> ModuleView
    decreases times,
{
    if times == 0 {
        m
    } else {
        dispatch_all(handed(m, msgs, (times - 1) as nat), msgs)
    }
}

/// When messages are handed to the neighbours of a node, each node gets
/// them as often as it is named among the neighbours, which is once for
/// every edge that joins the two; a node that is not named stays as it is.
pub proof fn lemma_deliver_counts(
    nodes: Seq<ModuleView>,
    targets: Seq<usize>,
    msgs: Seq<Action>,
    t: usize,
)
    requires
        forall|i: int| 0 <= i < targets.len() ==> #[trigger] targets[i] < nodes.len(),
        t < nodes.len(),
    ensures
        deliver(nodes, targets, msgs).len() == nodes.len(),
        deliver(nodes, targets, msgs)[t as int] == handed(
            nodes[t as int],
            msgs,
            targets.to_multiset().count(t),
        ),
    decreases targets.len(),
{
    broadcast use vstd::seq_lib::group_to_multiset_ensures;
    broadcast use vstd::multiset::group_multiset_axioms;

    if targets.len() == 0 {
        assert(targets =~= Seq::<usize>::empty());
    } else {
        let init = targets.drop_last();
        assert forall|i: int| 0 <= i < init.len() implies #[trigger] init[i] < nodes.len() by {
            assert(init[i] == targets[i]);
        }
        lemma_deliver_counts(nodes, init, msgs, t);
        assert(targets[targets.len() - 1] < nodes.len());
        assert(init.push(targets.last()) =~= targets);
        assert(targets.to_multiset() =~= init.to_multiset().insert(targets.last()));
    }
}

/// Whether a list of messages that may be absent holds no message.
pub open spec fn nothing(msgs: Option<Seq<Action>>) -> bool {
    match msgs {
        Some(m) => m.len() == 0,
        None => true,
    }
}

/// Whether a node has nothing to send, and emptying it leaves it as it is.
pub open spec fn quiet(m: ModuleView) -> bool {
    &&& flush_spec(m).node == m
    &&& nothing(flush_spec(m).outputs)
    &&& nothing(flush_spec(m).inputs)
    &&& nothing(flush_spec(m).client)
}

/// Handing out no message changes no node.
pub proof fn lemma_deliver_nothing(nodes: Seq<ModuleView>, targets: Seq<usize>)
    requires
        forall|i: int| 0 <= i < targets.len() ==> #[trigger] targets[i] < nodes.len(),
    ensures
        deliver(nodes, targets, Seq::empty()) == nodes,
    decreases targets.len(),
{
    if targets.len() > 0 {
        let init = targets.drop_last();
        assert forall|i: int| 0 <= i < init.len() implies #[trigger] init[i] < nodes.len() by {
            assert(init[i] == targets[i]);
        }
        lemma_deliver_nothing(nodes, init);
        assert(targets[targets.len() - 1] < nodes.len());
        assert(deliver(nodes, targets, Seq::empty()) =~= nodes);
    }
}

impl Graph {
    /// The turn of a node that has nothing to send changes no node and
    /// sends nothing to the client.
    pub proof fn lemma_quiet_turn(&self, nodes: Seq<ModuleView>, n: usize)
        requires
            n < nodes.len(),
            quiet(nodes[n as int]),
            forall|i: int|
                0 <= i < self.outputs(n).len() ==> #[trigger] self.outputs(n)[i] < nodes.len(),
            forall|i: int| 0 <= i < self.inputs(n).len() ==> #[trigger] self.inputs(n)[i] < nodes.len(),
        ensures
            visit(*self, nodes, n).nodes == nodes,
            visit(*self, nodes, n).client == Seq::<Action>::empty(),
    {
        let f = flush_spec(nodes[n as int]);
        let flushed = nodes.update(n as int, f.node);
        assert(flushed =~= nodes);
        lemma_deliver_nothing(nodes, self.outputs(n));
        lemma_deliver_nothing(nodes, self.inputs(n));
        match f.outputs {
            Some(m) => {
                assert(m =~= Seq::<Action>::empty());
            },
            None => {},
        }
        match f.inputs {
            Some(m) => {
                assert(m =~= Seq::<Action>::empty());
            },
            None => {},
        }
        match f.client {
            Some(c) => {
                assert(c =~= Seq::<Action>::empty());
            },
            None => {},
        }
    }
}

} // verus!
