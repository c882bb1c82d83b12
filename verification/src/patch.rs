//! The patch: the graph together with the two directories that address it
//! from outside, operators by module id and routes by route id.

use std::collections::HashMap;
use vstd::prelude::*;
use vstd::multiset::Multiset;
use vstd::string::StringExecFns;
use crate::action::{Action, Key, Param};
use crate::arpeggio;
use crate::chord;
use crate::directory::keys_of;
use crate::document::{
    blank, blank_view, find, lookup, named, with_params, Document, Element, ElementView, LoadError,
    Plug, Route, TrackView,
};
use crate::graph::{
    keeps_handles, lemma_keeps_handles_trans, lemma_update_keeps_handles, render, walk, Graph,
    GraphView,
};
use crate::node::{
    anchored, dispatch_spec, keeps_anchors, lemma_anchored_keeps_anchors,
    lemma_dispatch_keeps_anchors, lemma_flush_keeps_anchors, Module, ModuleView, HOME_OCTAVE,
};
use crate::paths::{lemma_sink_reaches_self, reaches, Edge};
use crate::plugin;
use crate::synth;
use crate::tape;
use crate::text::str_eq;

verus! {

/// The route that leads to the root.
pub const MASTER_ROUTE_ID: u16 = 1;

/// The module that notes from the keyboard are sent to.
pub const KEYBOARD_ID: u16 = 104;

pub struct Patch {
    graph: Graph,
    operators: HashMap<u16, usize>,
    routes: HashMap<u16, usize>,
    headers: HashMap<u16, tape::Header>,
}

/// The patch as a mathematical value: the graph, the two directories, and
/// for each timeline the header that it was built with.
pub struct PatchView {
    pub graph: GraphView,
    pub operators: Map<u16, usize>,
    pub routes: Map<u16, usize>,
    pub headers: Map<u16, tape::Header>,
}

impl View for Patch {
    type V = PatchView;

    closed spec fn view(&self) -> PatchView {
        PatchView {
            graph: self.graph@,
            operators: self.operators@,
            routes: self.routes@,
            headers: self.headers@,
        }
    }
}

/// The kinds of module that a project can hold.
#[derive(Clone, Copy, Debug, PartialEq, Eq, Structural)]
pub enum Kind {
    Timeline,
    Hammond,
    Arpeggio,
    Chord,
    Keyboard,
    Patch,
    Plugin,
}

/// The kind that a module name stands for: any name that is not one of
/// the built-in modules is the name of a plugin.
pub open spec fn kind_of(name: Seq<char>) -> Kind {
    if name == "timeline"@ {
        Kind::Timeline
    } else if name == "hammond"@ {
        Kind::Hammond
    } else if name == "arpeggio"@ {
        Kind::Arpeggio
    } else if name == "chord"@ {
        Kind::Chord
    } else if name == "keyboard"@ {
        Kind::Keyboard
    } else if name == "patch"@ {
        Kind::Patch
    } else {
        Kind::Plugin
    }
}

/// The kind that a module name stands for.
pub fn kind(name: &str) -> (k: Kind)
    ensures
        k == kind_of(name@),
{
    if str_eq(name, "timeline") {
        Kind::Timeline
    } else if str_eq(name, "hammond") {
        Kind::Hammond
    } else if str_eq(name, "arpeggio") {
        Kind::Arpeggio
    } else if str_eq(name, "chord") {
        Kind::Chord
    } else if str_eq(name, "keyboard") {
        Kind::Keyboard
    } else if str_eq(name, "patch") {
        Kind::Patch
    } else {
        Kind::Plugin
    }
}

/// The graph after a node is put into it.
pub open spec fn with_node(g: GraphView, m: ModuleView) -> GraphView {
    GraphView { nodes: g.nodes.push(m), ..g }
}

/// Whether the graph refuses an edge from `a` to `b` because a cycle
/// would run through it.
pub open spec fn refuses(g: GraphView, a: usize, b: usize) -> bool {
    a == b || reaches(g.edges, b, a)
}

/// The graph after an edge from `a` to `b` is asked for: it is there
/// unless the graph refuses it.
pub open spec fn with_edge(g: GraphView, a: usize, b: usize) -> GraphView {
    if refuses(g, a, b) {
        g
    } else {
        GraphView { edges: g.edges.insert((a, b)), ..g }
    }
}

/// The patch after the module `id` is added as one node `m` and an
/// operator that feeds it: the operator has two anchors, input and output,
/// which both are the node, and is entered in the directory under `id`.
/// The module is no timeline and has no header.
pub open spec fn with_instrument(p: PatchView, id: u16, m: ModuleView) -> PatchView {
    let h = p.graph.nodes.len() as usize;
    let op = (h + 1) as usize;
    PatchView {
        graph: GraphView {
            nodes: p.graph.nodes.push(m).push(ModuleView::Operator(Seq::empty(), seq![h, h], id)),
            edges: p.graph.edges.insert((op, h)),
            master: p.graph.master,
        },
        operators: p.operators.insert(id, op),
        routes: p.routes,
        headers: p.headers.remove(id),
    }
}

/// The octave that a keyboard module's parameter asks for, held to the
/// range of a key; a keyboard that is given none sits at `HOME_OCTAVE`.
pub open spec fn octave_of(params: Seq<(Seq<char>, Param)>) -> Key {
    match lookup(params, "octave"@) {
        Some(v) => if v < 0 {
            0
        } else if v > Key::MAX {
            Key::MAX
        } else {
            v as Key
        },
        None => HOME_OCTAVE,
    }
}

/// The tracks read so far, followed by what is read after them.
pub open spec fn prepend(
    acc: Seq<tape::StoreView>,
    r: Result<Seq<tape::StoreView>, LoadError>,
) -> Result<Seq<tape::StoreView>, LoadError> {
    match r {
        Ok(rest) => Ok(acc + rest),
        Err(e) => Err(e),
    }
}

/// All tracks of a timeline, read one after the other, or the reason why
/// the first one that cannot be read cannot.
pub open spec fn read_all(
    params: Seq<(Seq<char>, Param)>,
    marks: Seq<(Seq<char>, u32)>,
    tracks: Seq<TrackView>,
) -> Result<Seq<tape::StoreView>, LoadError>
    decreases tracks.len(),
{
    match tape::read_spec(params, marks, tracks) {
        Err(e) => Err(e),
        Ok(None) => Ok(Seq::empty()),
        Ok(Some(s)) => if tracks.len() == 0 {
            Ok(Seq::empty())
        } else {
            prepend(seq![s], read_all(params, marks, tracks.drop_first()))
        },
    }
}

/// The first place at or after `from` whose track has an id above `id`,
/// or the length of the list when there is none.
pub open spec fn place_after(sorted: Seq<tape::StoreView>, id: u16, from: int) -> int
    decreases sorted.len() - from,
{
    if from >= sorted.len() {
        sorted.len() as int
    } else if sorted[from].track_id > id {
        from
    } else {
        place_after(sorted, id, from + 1)
    }
}

/// The tracks in the order of their ids; tracks with the same id stay in
/// the order in which they were read.
pub open spec fn sort_tracks(tracks: Seq<tape::StoreView>) -> Seq<tape::StoreView>
    decreases tracks.len(),
{
    if tracks.len() == 0 {
        Seq::empty()
    } else {
        let sorted = sort_tracks(tracks.drop_last());
        sorted.insert(place_after(sorted, tracks.last().track_id, 0), tracks.last())
    }
}

/// The tracks of a list as mathematical values.
pub open spec fn track_views(tracks: Seq<tape::Store>) -> Seq<tape::StoreView> {
    Seq::new(tracks.len(), |i: int| tracks[i]@)
}

/// The edges after an operator `op` is joined to each of the `k` nodes
/// from handle `h` on.
pub open spec fn track_edges(edges: Multiset<Edge>, op: usize, h: int, k: nat) -> Multiset<Edge>
    decreases k,
{
    if k == 0 {
        edges
    } else {
        track_edges(edges, op, h, (k - 1) as nat).insert((op, (h + k - 1) as usize))
    }
}

/// The patch after the timeline `id` is added with the header `header`
/// and the tracks `tapes`: one node for each track, in their order, and an
/// operator that feeds each of them through one edge. The operator has two
/// anchors for each track, input and output, which both are the track's
/// node. The header is kept under the timeline's id.
pub open spec fn with_tracks(
    p: PatchView,
    id: u16,
    header: tape::Header,
    tapes: Seq<tape::StoreView>,
) -> PatchView {
    let h = p.graph.nodes.len();
    let op = (h + tapes.len()) as usize;
    PatchView {
        graph: GraphView {
            nodes: (p.graph.nodes + Seq::new(tapes.len(), |i: int| ModuleView::Tape(tapes[i]))).push(
                ModuleView::Operator(
                    Seq::empty(),
                    Seq::new(2 * tapes.len(), |i: int| (h + i / 2) as usize),
                    id,
                ),
            ),
            edges: track_edges(p.graph.edges, op, h as int, tapes.len()),
            master: p.graph.master,
        },
        operators: p.operators.insert(id, op),
        routes: p.routes,
        headers: p.headers.insert(id, header),
    }
}

/// The node that a plug stands for: the anchor at the plug's index of the
/// operator of the plug's module, if there is such a module, its operator
/// has that many anchors, and the anchor is a node of the graph.
pub open spec fn anchor_of(p: PatchView, module: u16, index: int) -> Option<usize> {
    if !p.operators.contains_key(module) || p.operators[module] >= p.graph.nodes.len() {
        None
    } else {
        match p.graph.nodes[p.operators[module] as int] {
            ModuleView::Operator(_, anchors, _) => if 0 <= index < anchors.len() && anchors[index]
                < p.graph.nodes.len() {
                Some(anchors[index])
            } else {
                None
            },
            _ => None,
        }
    }
}

/// A patch under construction, and whether every cable that was asked for
/// so far could be laid.
pub struct Wired {
    pub patch: PatchView,
    pub complete: bool,
}

/// The patch after a cable between the node `route` and an anchor is asked
/// for. The cable feeds the anchor from the route for an input and the
/// route from the anchor for an output. Nothing changes when the anchor
/// does not exist or the graph refuses the edge.
pub open spec fn plugged(
    p: PatchView,
    route: usize,
    module: u16,
    index: int,
    input: bool,
) -> Wired {
    match anchor_of(p, module, index) {
        None => Wired { patch: p, complete: false },
        Some(a) => {
            let from = if input { route } else { a };
            let to = if input { a } else { route };
            Wired {
                patch: PatchView { graph: with_edge(p.graph, from, to), ..p },
                complete: !refuses(p.graph, from, to),
            }
        },
    }
}

/// The patch after cables between `route` and each of `plugs` are asked
/// for, in order.
pub open spec fn plugged_all(w: Wired, route: usize, plugs: Seq<Plug>, input: bool) -> Wired
    decreases plugs.len(),
{
    if plugs.len() == 0 {
        w
    } else {
        let before = plugged_all(w, route, plugs.drop_last(), input);
        let next = plugged(before.patch, route, plugs.last().module, plugs.last().index as int, input);
        Wired { patch: next.patch, complete: before.complete && next.complete }
    }
}

/// The patch after a route of a project is added: a bus node entered in
/// the directory under the route's id, then the cables to its inputs, then
/// those to its outputs.
pub open spec fn with_route(w: Wired, r: Route) -> Wired {
    let h = w.patch.graph.nodes.len() as usize;
    let seeded = PatchView {
        graph: with_node(w.patch.graph, ModuleView::Passthru(Seq::empty())),
        routes: w.patch.routes.insert(r.id, h),
        ..w.patch
    };
    let fed = plugged_all(Wired { patch: seeded, complete: w.complete }, h, r.inputs@, true);
    plugged_all(fed, h, r.outputs@, false)
}

/// The patch after the routes of a project are added, in order.
pub open spec fn with_routes(w: Wired, routes: Seq<Route>) -> Wired
    decreases routes.len(),
{
    if routes.len() == 0 {
        w
    } else {
        with_route(with_routes(w, routes.drop_last()), routes.last())
    }
}

/// The patch after a module of a project is added, and whether every
/// cable it asked for could be laid; or the reason why the module cannot
/// be built, in which case the patch stays as it is.
pub open spec fn with_module(p: PatchView, el: ElementView) -> Result<Wired, LoadError> {
    match kind_of(el.name) {
        Kind::Timeline => match read_all(el.params, el.marks, el.tracks) {
            Err(e) => Err(e),
            Ok(tapes) => match tape::read_header(el.params, el.marks) {
                Err(e) => Err(e),
                Ok(head) => Ok(
                    Wired {
                        patch: with_tracks(p, el.id, tape::header_of(head), sort_tracks(tapes)),
                        complete: true,
                    },
                ),
            },
        },
        Kind::Hammond => Ok(
            Wired {
                patch: with_instrument(
                    p,
                    el.id,
                    ModuleView::Synth(synth::silent(synth::read_bars(el.params))),
                ),
                complete: true,
            },
        ),
        Kind::Arpeggio => Ok(
            Wired {
                patch: with_instrument(
                    p,
                    el.id,
                    ModuleView::Arpeggio(arpeggio::read_spec(el.params)),
                ),
                complete: true,
            },
        ),
        Kind::Chord => Ok(
            Wired {
                patch: with_instrument(p, el.id, ModuleView::Chord(chord::read_spec(el.notes))),
                complete: true,
            },
        ),
        Kind::Keyboard => Ok(
            Wired {
                patch: with_instrument(
                    p,
                    el.id,
                    ModuleView::Octave(Seq::empty(), octave_of(el.params)),
                ),
                complete: true,
            },
        ),
        Kind::Patch => Ok(with_routes(Wired { patch: p, complete: true }, el.routes)),
        Kind::Plugin => Ok(
            Wired {
                patch: with_instrument(
                    p,
                    el.id,
                    ModuleView::Plugin(plugin::StoreView { name: el.name, inbox: Seq::empty() }),
                ),
                complete: true,
            },
        ),
    }
}

/// The patch that a graph starts with: the root at handle zero, and the
/// route `MASTER_ROUTE_ID`, a bus at handle one that feeds the root.
pub open spec fn seed() -> PatchView {
    PatchView {
        graph: GraphView {
            nodes: seq![ModuleView::Master, ModuleView::Passthru(Seq::empty())],
            edges: Multiset::<Edge>::empty().insert((1usize, 0usize)),
            master: 0,
        },
        operators: Map::empty(),
        routes: Map::<u16, usize>::empty().insert(MASTER_ROUTE_ID, 1),
        headers: Map::empty(),
    }
}

/// The patch that holds the root and nothing else.
pub open spec fn bare() -> PatchView {
    PatchView {
        graph: GraphView {
            nodes: seq![ModuleView::Master],
            edges: Multiset::empty(),
            master: 0,
        },
        operators: Map::empty(),
        routes: Map::empty(),
        headers: Map::empty(),
    }
}

/// The patch after the modules of a project are added in order, or the
/// reason why the first module that cannot be built cannot.
pub open spec fn with_modules(w: Wired, els: Seq<Element>) -> Result<Wired, LoadError>
    decreases els.len(),
{
    if els.len() == 0 {
        Ok(w)
    } else {
        match with_modules(w, els.drop_last()) {
            Err(e) => Err(e),
            Ok(before) => match with_module(before.patch, els.last()@) {
                Err(e) => Err(e),
                Ok(next) => Ok(
                    Wired { patch: next.patch, complete: before.complete && next.complete },
                ),
            },
        }
    }
}

/// The patch with the route `MASTER_ROUTE_ID` feeding the root: the route
/// is added as a new bus if the patch has none under that id.
pub open spec fn with_master_route(w: Wired) -> Wired {
    let h = w.patch.graph.nodes.len() as usize;
    let routed = if w.patch.routes.contains_key(MASTER_ROUTE_ID) {
        w.patch
    } else {
        PatchView {
            graph: with_node(w.patch.graph, ModuleView::Passthru(Seq::empty())),
            routes: w.patch.routes.insert(MASTER_ROUTE_ID, h),
            ..w.patch
        }
    };
    let route = routed.routes[MASTER_ROUTE_ID];
    Wired {
        patch: PatchView { graph: with_edge(routed.graph, route, routed.graph.master), ..routed },
        complete: w.complete && !refuses(routed.graph, route, routed.graph.master),
    }
}

/// The patch that a project describes, and whether every cable it asked
/// for could be laid; or the reason why the first module that cannot be
/// built cannot.
pub open spec fn opened(modules: Seq<Element>) -> Result<Wired, LoadError> {
    match with_modules(Wired { patch: bare(), complete: true }, modules) {
        Err(e) => Err(e),
        Ok(w) => Ok(with_master_route(w)),
    }
}

/// How a message to the patch ended.
#[derive(Debug, PartialEq, Eq)]
pub enum Outcome {
    /// The message was carried out.
    Done,
    /// The project named is to be read and handed to `open_project`.
    Open(String),
    /// The graph refused an edge that would have closed a cycle.
    Cycle,
    /// No module has this id.
    UnknownOperator(u16),
    /// No route has this id.
    UnknownRoute(u16),
    /// The module has no anchor at this index.
    UnknownAnchor(u16, u16),
    /// The module could not be built.
    Invalid(LoadError),
    /// The module was added, but not every cable it asked for was laid.
    Incomplete,
    /// The patch has no use for the message.
    Unimplemented,
}

/// The patch after the node of operator `id` is handed a message.
pub open spec fn sent(p: PatchView, id: u16, a: Action) -> PatchView {
    let h = p.operators[id] as int;
    PatchView {
        graph: GraphView {
            nodes: p.graph.nodes.update(h, dispatch_spec(p.graph.nodes[h], a)),
            ..p.graph
        },
        ..p
    }
}

/// The track that a timeline is given while it runs: an empty track with
/// the id `t_id`.
pub open spec fn new_track(t_id: u16) -> tape::StoreView {
    tape::StoreView { track_id: t_id, ..tape::init_spec() }
}

/// The patch after the timeline `id` is given a new track: a node for the
/// track, fed by the timeline's operator, which gets the node as a further
/// pair of anchors.
pub open spec fn with_track(p: PatchView, id: u16, t_id: u16) -> PatchView {
    let op = p.operators[id];
    let h = p.graph.nodes.len() as usize;
    PatchView {
        graph: GraphView {
            nodes: p.graph.nodes.push(ModuleView::Tape(new_track(t_id))).update(
                op as int,
                anchored(p.graph.nodes[op as int], h),
            ),
            edges: p.graph.edges.insert((op, h)),
            master: p.graph.master,
        },
        ..p
    }
}

/// Whether the node `h` is the operator of some module.
pub open spec fn is_operator(p: PatchView, h: int) -> bool {
    exists|id: u16| #[trigger] p.operators.contains_key(id) && p.operators[id] == h
}

/// Whether `post` is `pre` after every operator is handed the message.
pub open spec fn sent_to_all(pre: PatchView, a: Action, post: PatchView) -> bool {
    &&& post.operators == pre.operators
    &&& post.routes == pre.routes
    &&& post.headers == pre.headers
    &&& post.graph.edges == pre.graph.edges
    &&& post.graph.master == pre.graph.master
    &&& post.graph.nodes.len() == pre.graph.nodes.len()
    &&& forall|h: int|
        0 <= h < pre.graph.nodes.len() ==> #[trigger] post.graph.nodes[h] == if is_operator(pre, h) {
            dispatch_spec(pre.graph.nodes[h], a)
        } else {
            pre.graph.nodes[h]
        }
}

/// The edge of a cable between a route and an anchor: it feeds the anchor
/// from the route for an input, and the route from the anchor for an
/// output.
pub open spec fn cable(route: usize, anchor: usize, input: bool) -> Edge {
    if input {
        (route, anchor)
    } else {
        (anchor, route)
    }
}

/// Whether `e` is the edge of a cable between some route and `anchor`.
pub open spec fn is_cable(p: PatchView, anchor: usize, input: bool, e: Edge) -> bool {
    exists|id: u16| #[trigger] p.routes.contains_key(id) && e == cable(p.routes[id], anchor, input)
}

/// Whether `post` is `pre` after the cables between `anchor` and the
/// routes are pulled: one edge for each route that has one.
pub open spec fn unplugged(pre: PatchView, anchor: usize, input: bool, post: PatchView) -> bool {
    &&& post.operators == pre.operators
    &&& post.routes == pre.routes
    &&& post.headers == pre.headers
    &&& post.graph.nodes == pre.graph.nodes
    &&& post.graph.master == pre.graph.master
    &&& forall|e: Edge| #[trigger]
        post.graph.edges.count(e) == if is_cable(pre, anchor, input, e) && pre.graph.edges.count(e)
            > 0 {
            pre.graph.edges.count(e) - 1
        } else {
            pre.graph.edges.count(e) as int
        }
}

/// The patch after the module `id` is taken out: every node that its
/// operator feeds loses all its edges, and the module leaves the directory,
/// with its header if it is a timeline. The nodes stay in the graph.
pub open spec fn without_module(p: PatchView, id: u16) -> PatchView {
    let op = p.operators[id];
    PatchView {
        graph: GraphView {
            edges: p.graph.edges.filter(
                |e: Edge| !(p.graph.edges.count((op, e.0)) > 0 || p.graph.edges.count((op, e.1)) > 0),
            ),
            ..p.graph
        },
        operators: p.operators.remove(id),
        routes: p.routes,
        headers: p.headers.remove(id),
    }
}

/// The patch after the route `id` is taken out: its bus loses all its
/// edges, and the route leaves the directory.
pub open spec fn without_route(p: PatchView, id: u16) -> PatchView {
    let r = p.routes[id];
    PatchView {
        graph: GraphView { edges: p.graph.edges.filter(|e: Edge| e.0 != r && e.1 != r), ..p.graph },
        routes: p.routes.remove(id),
        ..p
    }
}

/// The patch after a cable is asked for by message, and how that ended.
pub open spec fn patched(
    pre: PatchView,
    module: u16,
    index: u16,
    route: u16,
    input: bool,
    post: PatchView,
    out: Outcome,
) -> bool {
    if !pre.routes.contains_key(route) {
        post == pre && out == Outcome::UnknownRoute(route)
    } else if anchor_of(pre, module, index as int) is None {
        post == pre && out == Outcome::UnknownAnchor(module, index)
    } else {
        let w = plugged(pre, pre.routes[route], module, index as int, input);
        post == w.patch && out == if w.complete {
            Outcome::Done
        } else {
            Outcome::Cycle
        }
    }
}

/// Whether a message to the patch `pre` leaves the patch `post` and the
/// outcome `out`.
///
/// A message addressed to a module goes to the module's operator, except
/// that a new track is built at once. Tempo and meter go to every operator,
/// notes and octave steps to the keyboard module. Routes, cables and
/// modules are added and taken out as the message says. Where a message
/// names a module, route or anchor that does not exist, or asks for an
/// edge that the graph refuses, the patch stays as it is.
pub open spec fn applied(pre: PatchView, a: Action, post: PatchView, out: Outcome) -> bool {
    match a {
        Action::At(id, inner) => if !pre.operators.contains_key(id) {
            post == pre && out == Outcome::UnknownOperator(id)
        } else {
            match *inner {
                Action::AddTrack(t_id) => post == with_track(pre, id, t_id) && out == Outcome::Done,
                direct => post == sent(pre, id, direct) && out == Outcome::Done,
            }
        },
        Action::SetMeter(_, _) | Action::SetTempo(_) => sent_to_all(pre, a, post) && out
            == Outcome::Done,
        Action::NoteOn(_, _) | Action::NoteOff(_) | Action::Octave(_) => if pre.operators.contains_key(
            KEYBOARD_ID,
        ) {
            post == sent(pre, KEYBOARD_ID, a) && out == Outcome::Done
        } else {
            post == pre && out == Outcome::UnknownOperator(KEYBOARD_ID)
        },
        Action::AddRoute(r_id) => post == (PatchView {
            graph: with_node(pre.graph, ModuleView::Passthru(Seq::empty())),
            routes: pre.routes.insert(r_id, pre.graph.nodes.len() as usize),
            ..pre
        }) && out == Outcome::Done,
        Action::PatchIn(n_id, a_id, r_id) => patched(pre, n_id, a_id, r_id, true, post, out),
        Action::PatchOut(n_id, a_id, r_id) => patched(pre, n_id, a_id, r_id, false, post, out),
        Action::DelPatch(n_id, a_id, input) => match anchor_of(pre, n_id, a_id as int) {
            None => post == pre && out == Outcome::UnknownAnchor(n_id, a_id),
            Some(anchor) => unplugged(pre, anchor, input, post) && out == Outcome::Done,
        },
        Action::OpenProject(name) => post == pre && out == Outcome::Open(name),
        Action::AddModule(id, name) => match with_module(pre, blank_view(id, name@)) {
            Ok(w) => post == w.patch && out == if w.complete {
                Outcome::Done
            } else {
                Outcome::Incomplete
            },
            Err(e) => post == pre && out == Outcome::Invalid(e),
        },
        Action::DelModule(id) => if pre.operators.contains_key(id) {
            post == without_module(pre, id) && out == Outcome::Done
        } else {
            post == pre && out == Outcome::UnknownOperator(id)
        },
        Action::DelRoute(id) => if pre.routes.contains_key(id) {
            post == without_route(pre, id) && out == Outcome::Done
        } else {
            post == pre && out == Outcome::UnknownRoute(id)
        },
        _ => post == pre && out == Outcome::Unimplemented,
    }
}

/// The parameters that hold the octave of a keyboard in a project.
pub open spec fn written_octave(octave: Key) -> Seq<(Seq<char>, Param)> {
    seq![("octave"@, octave as i32)]
}

/// The node behind a handle, or the root's kind for a handle that the
/// graph does not have.
pub open spec fn node_at(nodes: Seq<ModuleView>, h: usize) -> ModuleView {
    if h < nodes.len() {
        nodes[h as int]
    } else {
        ModuleView::Master
    }
}

/// The tracks behind the first `k` pairs of anchors of a timeline.
pub open spec fn tapes_at(nodes: Seq<ModuleView>, anchors: Seq<usize>, k: int) -> Seq<
    tape::StoreView,
>
    decreases k,
{
    if k <= 0 {
        Seq::empty()
    } else {
        let before = tapes_at(nodes, anchors, k - 1);
        match node_at(nodes, anchors[2 * (k - 1)]) {
            ModuleView::Tape(t) => before.push(t),
            _ => before,
        }
    }
}

/// The track elements that hold the given tracks in a project.
pub open spec fn written_tracks(tapes: Seq<tape::StoreView>) -> Seq<TrackView> {
    Seq::new(tapes.len(), |i: int| tape::written_track(tapes[i]))
}

/// The timeline without tracks that holds a header in a project.
pub open spec fn written_header(header: tape::Header, id: u16) -> ElementView {
    ElementView {
        params: tape::written_params(tape::headed(header)),
        marks: tape::written_marks(tape::headed(header)),
        ..blank_view(id, "timeline"@)
    }
}

/// The module of a project that holds what stands behind the anchors of
/// an operator. The kind of the first anchor's node decides the kind of
/// the module; a timeline takes its tempo, meter, loop and length from its
/// first track. An operator without anchors is a timeline without tracks,
/// under the header that was kept for it.
pub open spec fn saved_cluster(
    nodes: Seq<ModuleView>,
    anchors: Seq<usize>,
    header: Option<tape::Header>,
    id: u16,
) -> ElementView {
    if anchors.len() == 0 {
        match header {
            Some(h) => written_header(h, id),
            None => blank_view(id, "timeline"@),
        }
    } else {
        match node_at(nodes, anchors[0]) {
            ModuleView::Synth(s) => with_params(id, "hammond"@, synth::written(s.bar_values)),
            ModuleView::Arpeggio(s) => with_params(id, "arpeggio"@, arpeggio::written(s.length)),
            ModuleView::Chord(s) => ElementView {
                notes: chord::written(s.intervals),
                ..blank_view(id, "chord"@)
            },
            ModuleView::Octave(_, n) => with_params(id, "keyboard"@, written_octave(n)),
            ModuleView::Plugin(s) => blank_view(id, s.name),
            ModuleView::Tape(t) => ElementView {
                params: tape::written_params(t),
                marks: tape::written_marks(t),
                tracks: written_tracks(tapes_at(nodes, anchors, anchors.len() as int / 2)),
                ..blank_view(id, "timeline"@)
            },
            _ => blank_view(id, "timeline"@),
        }
    }
}

/// The module of a project that holds the module `id` of the patch.
pub open spec fn saved(p: PatchView, id: u16) -> ElementView {
    match node_at(p.graph.nodes, p.operators[id]) {
        ModuleView::Operator(_, anchors, _) => saved_cluster(
            p.graph.nodes,
            anchors,
            if p.headers.contains_key(id) {
                Some(p.headers[id])
            } else {
                None
            },
            id,
        ),
        _ => blank_view(id, "timeline"@),
    }
}

impl Patch {
    /// The invariant of the patch: the graph is well formed, both
    /// directories hold handles of the graph, no two module ids share an
    /// operator, and no two route ids share a bus.
    pub closed spec fn wf(&self) -> bool {
        &&& self.graph.wf()
        &&& forall|id: u16| #[trigger]
            self.operators@.contains_key(id) ==> self.operators@[id] < self.graph@.nodes.len()
        &&& forall|id: u16| #[trigger]
            self.routes@.contains_key(id) ==> self.routes@[id] < self.graph@.nodes.len()
        &&& forall|a: u16, b: u16|
            self.operators@.contains_key(a) && self.operators@.contains_key(b) && a != b
                ==> #[trigger] self.operators@[a] != #[trigger] self.operators@[b]
        &&& forall|a: u16, b: u16|
            self.routes@.contains_key(a) && self.routes@.contains_key(b) && a != b
                ==> #[trigger] self.routes@[a] != #[trigger] self.routes@[b]
    }

    /// The graph of the patch.
    pub closed spec fn spec_graph(&self) -> Graph {
        self.graph
    }

    /// What the invariant says of the patch as a value.
    pub proof fn lemma_wf(&self)
        requires
            self.wf(),
        ensures
            self.spec_graph().wf(),
            self.spec_graph()@ == self@.graph,
            forall|id: u16| #[trigger]
                self@.operators.contains_key(id) ==> self@.operators[id] < self@.graph.nodes.len(),
            forall|id: u16| #[trigger]
                self@.routes.contains_key(id) ==> self@.routes[id] < self@.graph.nodes.len(),
            forall|a: u16, b: u16|
                self@.operators.contains_key(a) && self@.operators.contains_key(b) && a != b
                    ==> #[trigger] self@.operators[a] != #[trigger] self@.operators[b],
            forall|a: u16, b: u16|
                self@.routes.contains_key(a) && self@.routes.contains_key(b) && a != b
                    ==> #[trigger] self@.routes[a] != #[trigger] self@.routes[b],
    {
    }

    /// The graph of the patch.
    pub fn graph(&self) -> (g: &Graph)
        ensures
            *g == self.spec_graph(),
    {
        &self.graph
    }

    /// The handle of the operator of module `id`.
    pub fn operator(&self, id: u16) -> (h: Option<usize>)
        ensures
            h == if self@.operators.contains_key(id) {
                Some(self@.operators[id])
            } else {
                None
            },
    {
        broadcast use vstd::std_specs::hash::group_hash_axioms;

        match self.operators.get(&id) {
            Some(h) => Some(*h),
            None => None,
        }
    }

    /// The handle of the route `id`.
    pub fn route(&self, id: u16) -> (h: Option<usize>)
        ensures
            h == if self@.routes.contains_key(id) {
                Some(self@.routes[id])
            } else {
                None
            },
    {
        broadcast use vstd::std_specs::hash::group_hash_axioms;

        match self.routes.get(&id) {
            Some(h) => Some(*h),
            None => None,
        }
    }

    /// The patch that holds the root and nothing else.
    fn bare() -> (p: Patch)
        ensures
            p.wf(),
            p@ == bare(),
    {
        Patch {
            graph: Graph::new(),
            operators: HashMap::new(),
            routes: HashMap::new(),
            headers: HashMap::new(),
        }
    }

    /// Makes sure that the route `MASTER_ROUTE_ID` exists, and lets it
    /// feed the root. Says whether the graph took the edge.
    fn add_master_route(&mut self) -> (laid: bool)
        requires
            old(self).wf(),
        ensures
            final(self).wf(),
            final(self)@ == with_master_route(Wired { patch: old(self)@, complete: true }).patch,
            laid == with_master_route(Wired { patch: old(self)@, complete: true }).complete,
    {
        broadcast use vstd::std_specs::hash::group_hash_axioms;

        let route = match self.routes.get(&MASTER_ROUTE_ID) {
            Some(h) => *h,
            None => {
                let h = self.graph.add_node(Module::Passthru(Vec::new()));
                let _ = self.routes.insert(MASTER_ROUTE_ID, h);
                assert(self@.routes =~= old(self)@.routes.insert(MASTER_ROUTE_ID, h));
                h
            },
        };
        let root = self.graph.master_index();
        proof {
            self.graph.lemma_wf();
        }
        self.graph.add_edge(route, root).is_ok()
    }

    /// The patch that the engine starts with: the root, and the route
    /// `MASTER_ROUTE_ID` feeding it.
    pub fn new() -> (p: Patch)
        ensures
            p.wf(),
            p@ == seed(),
    {
        let mut p = Self::bare();
        let laid = p.add_master_route();
        proof {
            let g = with_node(bare().graph, ModuleView::Passthru(Seq::empty()));
            if reaches(g.edges, 0, 1) {
                lemma_sink_reaches_self(g.edges, 0, 1);
            }
            assert(p@.graph.nodes =~= seed().graph.nodes);
            assert(p@.routes =~= seed().routes);
        }
        p
    }

    /// Replaces the patch by the one that a project describes. Returns
    /// whether every cable that the project asked for could be laid. When
    /// a module of the project cannot be built, the patch stays as it was.
    pub fn open_project(&mut self, doc: Document) -> (r: Result<bool, LoadError>)
        requires
            old(self).wf(),
        ensures
            final(self).wf(),
            match opened(doc.modules@) {
                Ok(w) => r == Ok::<bool, LoadError>(w.complete) && final(self)@ == w.patch,
                Err(e) => r == Err::<bool, LoadError>(e) && final(self)@ == old(self)@,
            },
    {
        let mut next = Self::bare();
        let mut modules = doc.modules;
        let ghost all = modules@;
        let ghost start = Wired { patch: bare(), complete: true };
        let mut laid = true;
        let n = modules.len();
        let mut k: usize = 0;
        assert(all.take(0) =~= Seq::<Element>::empty());
        while k < n
            invariant
                k <= n,
                n == all.len(),
                next.wf(),
                self.wf(),
                *self == *old(self),
                all == doc.modules@,
                modules@ =~= all.skip(k as int),
                start == (Wired { patch: bare(), complete: true }),
                with_modules(start, all.take(k as int)) == Ok::<Wired, LoadError>(
                    Wired { patch: next@, complete: laid },
                ),
            decreases n - k,
        {
            let el = modules.remove(0);
            proof {
                assert(el == all[k as int]);
                assert(all.take(k + 1).drop_last() =~= all.take(k as int));
            }
            match next.add_module(el) {
                Ok(one) => {
                    laid = laid && one;
                },
                Err(e) => {
                    proof {
                        lemma_modules_fail(start, all, k + 1);
                    }
                    return Err(e);
                },
            }
            k += 1;
        }
        assert(all.take(n as int) =~= all);
        let ghost built = Wired { patch: next@, complete: laid };
        let rooted = next.add_master_route();
        assert(with_master_route(built).patch == next@);
        *self = next;
        Ok(laid && rooted)
    }

    /// Adds the module `id` as one node and an operator that feeds it.
    fn add_instrument(&mut self, id: u16, node: Module)
        requires
            old(self).wf(),
        ensures
            final(self).wf(),
            final(self)@ == with_instrument(old(self)@, id, node@),
    {
        broadcast use vstd::std_specs::hash::group_hash_axioms;

        let instrument = self.graph.add_node(node);
        let mut anchors: Vec<usize> = Vec::new();
        anchors.push(instrument);
        anchors.push(instrument);
        assert(anchors@ =~= seq![instrument, instrument]);
        let operator = self.graph.add_node(Module::Operator(Vec::new(), anchors, id));
        proof {
            old(self).graph.lemma_wf();
            let edges = self.graph@.edges;
            assert forall|x: usize| edges.count((instrument, x)) == 0 by {
                if edges.count((instrument, x)) > 0 {
                    assert((instrument, x).0 < old(self).graph@.nodes.len());
                }
            }
            if reaches(edges, instrument, operator) {
                lemma_sink_reaches_self(edges, instrument, operator);
            }
        }
        let wired = self.graph.add_edge(operator, instrument);
        assert(wired is Ok);
        let _ = self.operators.insert(id, operator);
        let _ = self.headers.remove(&id);
        assert(self@.operators =~= old(self)@.operators.insert(id, operator));
        assert(self@.headers =~= old(self)@.headers.remove(id));
    }

    /// Adds the timeline `id` with the header `header` and the tracks
    /// `tracks`.
    fn add_tracks(&mut self, id: u16, header: tape::Header, tracks: Vec<tape::Store>)
        requires
            old(self).wf(),
        ensures
            final(self).wf(),
            final(self)@ == with_tracks(old(self)@, id, header, track_views(tracks@)),
    {
        broadcast use vstd::std_specs::hash::group_hash_axioms;

        let ghost tapes = track_views(tracks@);
        let ghost h = self@.graph.nodes.len();
        let ghost pre = self@;
        let mut tracks = tracks;
        let mut anchors: Vec<usize> = Vec::new();
        let n = tracks.len();
        let mut k: usize = 0;
        proof {
            old(self).graph.lemma_wf();
        }
        while k < n
            invariant
                k <= n,
                n == tapes.len(),
                self.wf(),
                tracks@.len() == n - k,
                track_views(tracks@) =~= tapes.skip(k as int),
                self@.graph.nodes =~= pre.graph.nodes + Seq::new(
                    k as nat,
                    |i: int| ModuleView::Tape(tapes[i]),
                ),
                self@.graph.edges == pre.graph.edges,
                self@.graph.master == pre.graph.master,
                self@.operators == pre.operators,
                self@.routes == pre.routes,
                self@.headers == pre.headers,
                h == pre.graph.nodes.len(),
                anchors@ =~= Seq::new(2 * k as nat, |i: int| (h + i / 2) as usize),
            decreases n - k,
        {
            let ghost left = tracks@;
            let track = tracks.remove(0);
            assert(track@ == tapes[k as int]) by {
                assert(track_views(left)[0] == tapes.skip(k as int)[0]);
            }
            let tape = self.graph.add_node(Module::Tape(track));
            anchors.push(tape);
            anchors.push(tape);
            k += 1;
            assert(track_views(tracks@) =~= tapes.skip(k as int)) by {
                assert forall|i: int| 0 <= i < tracks@.len() implies track_views(tracks@)[i]
                    == tapes.skip(k as int)[i] by {
                    assert(track_views(left)[i + 1] == tapes.skip(k - 1)[i + 1]);
                }
            }
        }
        let held = anchors.clone();
        assert(held@ =~= anchors@);
        let operator = self.graph.add_node(Module::Operator(Vec::new(), held, id));
        let ghost built = self@.graph.nodes;
        let mut j: usize = 0;
        while j < anchors.len()
            invariant
                j <= anchors@.len(),
                self.wf(),
                anchors@.len() == 2 * n,
                anchors@ =~= Seq::new(2 * n as nat, |i: int| (h + i / 2) as usize),
                operator == h + n,
                h == pre.graph.nodes.len(),
                self@.graph.nodes == built,
                built.len() == h + n + 1,
                self@.graph.edges == track_edges(pre.graph.edges, operator, h as int, ((j + 1) / 2) as nat),
                self@.graph.master == pre.graph.master,
                self@.operators == pre.operators,
                self@.routes == pre.routes,
                self@.headers == pre.headers,
                forall|e: Edge| pre.graph.edges.count(e) > 0 ==> e.0 < h && e.1 < h,
            decreases anchors@.len() - j,
        {
            let anchor = anchors[j];
            let ghost done = ((j + 1) / 2) as nat;
            proof {
                assert(anchor == h + j / 2);
                lemma_track_edges_count(pre.graph.edges, operator, h as int, done, (operator, anchor));
            }
            if !self.graph.has_edge(operator, anchor) {
                proof {
                    let edges = self@.graph.edges;
                    assert forall|x: usize| edges.count((anchor, x)) == 0 by {
                        lemma_track_edges_count(pre.graph.edges, operator, h as int, done, (anchor, x));
                    }
                    if reaches(edges, anchor, operator) {
                        lemma_sink_reaches_self(edges, anchor, operator);
                    }
                }
                let wired = self.graph.add_edge(operator, anchor);
                assert(wired is Ok);
                assert(j % 2 == 0);
            } else {
                assert(j % 2 == 1);
            }
            j += 1;
        }
        let _ = self.operators.insert(id, operator);
        let _ = self.headers.insert(id, header);
        proof {
            assert(self@.operators =~= pre.operators.insert(id, operator));
            assert(self@.headers =~= pre.headers.insert(id, header));
            assert(self@.graph.nodes =~= with_tracks(pre, id, header, tapes).graph.nodes);
        }
    }

    /// Reads all tracks of a timeline, in the order of their ids.
    fn read_tracks(el: &mut Element) -> (r: Result<Vec<tape::Store>, LoadError>)
        ensures
            match read_all(old(el)@.params, old(el)@.marks, old(el)@.tracks) {
                Ok(tapes) => r matches Ok(tracks) && track_views(tracks@) == sort_tracks(tapes),
                Err(e) => r matches Err(f) && f == e,
            },
            final(el).id == old(el).id,
            final(el).name == old(el).name,
            final(el)@.params == old(el)@.params,
            final(el)@.marks == old(el)@.marks,
    {
        let mut sorted: Vec<tape::Store> = Vec::new();
        let ghost params = el@.params;
        let ghost marks = el@.marks;
        let ghost whole = read_all(params, marks, el@.tracks);
        let ghost mut acc: Seq<tape::StoreView> = Seq::empty();
        assert(acc + Seq::<tape::StoreView>::empty() =~= acc);
        loop
            invariant
                el@.params == params,
                el@.marks == marks,
                params == old(el)@.params,
                marks == old(el)@.marks,
                el.id == old(el).id,
                el.name == old(el).name,
                whole == read_all(old(el)@.params, old(el)@.marks, old(el)@.tracks),
                whole == prepend(acc, read_all(params, marks, el@.tracks)),
                track_views(sorted@) == sort_tracks(acc),
            decreases el.tracks@.len(),
        {
            let ghost left = el@.tracks;
            match tape::read(el) {
                Err(e) => {
                    return Err(e);
                },
                Ok(None) => {
                    proof {
                        assert(acc + Seq::<tape::StoreView>::empty() =~= acc);
                        assert(whole == Ok::<Seq<tape::StoreView>, LoadError>(acc));
                    }
                    return Ok(sorted);
                },
                Ok(Some(store)) => {
                    proof {
                        assert(el@.tracks =~= left.drop_first());
                        let rest = read_all(params, marks, left.drop_first());
                        match rest {
                            Ok(more) => {
                                assert(acc + (seq![store@] + more) =~= acc.push(store@) + more);
                            },
                            Err(_) => {},
                        }
                        assert(acc.push(store@).drop_last() =~= acc);
                    }
                    let at = place(&sorted, store.track_id);
                    let ghost before = sorted@;
                    sorted.insert(at, store);
                    proof {
                        assert(track_views(sorted@) =~= track_views(before).insert(at as int, store@));
                        acc = acc.push(store@);
                    }
                },
            }
        }
    }

    /// Adds a module of a project to the patch. Returns whether every
    /// cable that the module asked for could be laid. A module that cannot
    /// be built leaves the patch as it was.
    pub fn add_module(&mut self, el: Element) -> (r: Result<bool, LoadError>)
        requires
            old(self).wf(),
        ensures
            final(self).wf(),
            match with_module(old(self)@, el@) {
                Ok(w) => r == Ok::<bool, LoadError>(w.complete) && final(self)@ == w.patch,
                Err(e) => r == Err::<bool, LoadError>(e) && final(self)@ == old(self)@,
            },
    {
        let mut el = el;
        match kind(el.name.as_str()) {
            Kind::Timeline => {
                let tracks = match Self::read_tracks(&mut el) {
                    Ok(tracks) => tracks,
                    Err(e) => {
                        return Err(e);
                    },
                };
                let head = match tape::read_head(&el) {
                    Ok(head) => head,
                    Err(e) => {
                        return Err(e);
                    },
                };
                self.add_tracks(el.id, tape::header(&head), tracks);
                Ok(true)
            },
            Kind::Hammond => {
                let store = synth::read(&el).unwrap();
                self.add_instrument(el.id, Module::Synth(store));
                Ok(true)
            },
            Kind::Arpeggio => {
                let store = arpeggio::read(&el).unwrap();
                self.add_instrument(el.id, Module::Arpeggio(store));
                Ok(true)
            },
            Kind::Chord => {
                let store = chord::read(&el).unwrap();
                self.add_instrument(el.id, Module::Chord(store));
                Ok(true)
            },
            Kind::Keyboard => {
                let shift: Key = match find(&el.params, "octave") {
                    Some(v) => if v < 0 {
                        0
                    } else if v > 255 {
                        255
                    } else {
                        v as Key
                    },
                    None => HOME_OCTAVE,
                };
                self.add_instrument(el.id, Module::Octave(Vec::new(), shift));
                Ok(true)
            },
            Kind::Patch => {
                let laid = self.add_routes(&el.routes);
                Ok(laid)
            },
            Kind::Plugin => {
                let name = el.name.clone();
                self.add_instrument(el.id, Module::Plugin(plugin::init(name)));
                Ok(true)
            },
        }
    }

    /// Gives the timeline `id` a new track.
    fn add_track(&mut self, id: u16, t_id: u16)
        requires
            old(self).wf(),
            old(self)@.operators.contains_key(id),
        ensures
            final(self).wf(),
            final(self)@ == with_track(old(self)@, id, t_id),
    {
        broadcast use vstd::std_specs::hash::group_hash_axioms;

        let operator = *self.operators.get(&id).unwrap();
        let mut track = tape::init();
        track.track_id = t_id;
        let new_tape = self.graph.add_node(Module::Tape(track));
        proof {
            old(self).graph.lemma_wf();
            let edges = self.graph@.edges;
            assert forall|x: usize| edges.count((new_tape, x)) == 0 by {
                if edges.count((new_tape, x)) > 0 {
                    assert((new_tape, x).0 < old(self).graph@.nodes.len());
                }
            }
            if reaches(edges, new_tape, operator) {
                lemma_sink_reaches_self(edges, new_tape, operator);
            }
        }
        let wired = self.graph.add_edge(operator, new_tape);
        assert(wired is Ok);
        self.graph.add_anchors(operator, new_tape);
        assert(self@.graph.nodes =~= with_track(old(self)@, id, t_id).graph.nodes);
    }

    /// Hands a message to every operator.
    fn send_to_all(&mut self, a: &Action)
        requires
            old(self).wf(),
        ensures
            final(self).wf(),
            sent_to_all(old(self)@, *a, final(self)@),
    {
        broadcast use vstd::std_specs::hash::group_hash_axioms;

        let ids = keys_of(&self.operators);
        let ghost pre = self@;
        let mut i: usize = 0;
        while i < ids.len()
            invariant
                i <= ids@.len(),
                self.wf(),
                pre == old(self)@,
                ids@.no_duplicates(),
                forall|id: u16| ids@.contains(id) <==> pre.operators.contains_key(id),
                self@.operators == pre.operators,
                self@.routes == pre.routes,
                self@.headers == pre.headers,
                self@.graph.edges == pre.graph.edges,
                self@.graph.master == pre.graph.master,
                self@.graph.nodes.len() == pre.graph.nodes.len(),
                forall|h: int|
                    0 <= h < pre.graph.nodes.len() ==> #[trigger] self@.graph.nodes[h] == if exists|
                        j: int,
                    |
                        0 <= j < i && pre.operators[#[trigger] ids@[j]] == h {
                        dispatch_spec(pre.graph.nodes[h], *a)
                    } else {
                        pre.graph.nodes[h]
                    },
            decreases ids@.len() - i,
        {
            let id = ids[i];
            assert(ids@.contains(id));
            let node = *self.operators.get(&id).unwrap();
            let ghost before = self@.graph.nodes;
            proof {
                if exists|j: int| 0 <= j < i && pre.operators[#[trigger] ids@[j]] == node {
                    let j = choose|j: int| 0 <= j < i && pre.operators[#[trigger] ids@[j]] == node;
                    assert(ids@.contains(ids@[j]));
                    assert(ids@[j] != id);
                }
            }
            self.graph.dispatch(node, a.clone());
            proof {
                assert forall|h: int| 0 <= h < pre.graph.nodes.len() implies #[trigger] self@.graph.nodes[h]
                    == if exists|j: int| 0 <= j < i + 1 && pre.operators[#[trigger] ids@[j]] == h {
                    dispatch_spec(pre.graph.nodes[h], *a)
                } else {
                    pre.graph.nodes[h]
                } by {
                    if h == node {
                        assert(pre.operators[ids@[i as int]] == h);
                    } else {
                        assert(self@.graph.nodes[h] == before[h]);
                        if exists|j: int| 0 <= j < i + 1 && pre.operators[#[trigger] ids@[j]] == h {
                            let j = choose|j: int|
                                0 <= j < i + 1 && pre.operators[#[trigger] ids@[j]] == h;
                            assert(j < i);
                        }
                    }
                }
            }
            i += 1;
        }
        proof {
            assert forall|h: int| 0 <= h < pre.graph.nodes.len() implies #[trigger] self@.graph.nodes[h]
                == if is_operator(pre, h) {
                dispatch_spec(pre.graph.nodes[h], *a)
            } else {
                pre.graph.nodes[h]
            } by {
                if is_operator(pre, h) {
                    let id = choose|id: u16| #[trigger]
                        pre.operators.contains_key(id) && pre.operators[id] == h;
                    assert(ids@.contains(id));
                    let j = choose|j: int| 0 <= j < ids@.len() && ids@[j] == id;
                    assert(pre.operators[ids@[j]] == h);
                } else {
                    if exists|j: int| 0 <= j < i && pre.operators[#[trigger] ids@[j]] == h {
                        let j = choose|j: int| 0 <= j < i && pre.operators[#[trigger] ids@[j]] == h;
                        assert(ids@.contains(ids@[j]));
                        assert(pre.operators.contains_key(ids@[j]));
                    }
                }
            }
        }
    }

    /// Lays a cable that a message asks for.
    fn patch_cable(&mut self, module: u16, index: u16, route: u16, input: bool) -> (out: Outcome)
        requires
            old(self).wf(),
        ensures
            final(self).wf(),
            patched(old(self)@, module, index, route, input, final(self)@, out),
    {
        broadcast use vstd::std_specs::hash::group_hash_axioms;

        let bus = match self.routes.get(&route) {
            Some(h) => *h,
            None => {
                return Outcome::UnknownRoute(route);
            },
        };
        if self.anchor(module, index as usize).is_none() {
            return Outcome::UnknownAnchor(module, index);
        }
        if self.plug(bus, module, index as usize, input) {
            Outcome::Done
        } else {
            Outcome::Cycle
        }
    }

    /// Pulls the cables between an anchor and the routes.
    fn del_patch(&mut self, module: u16, index: u16, input: bool) -> (out: Outcome)
        requires
            old(self).wf(),
        ensures
            final(self).wf(),
            match anchor_of(old(self)@, module, index as int) {
                None => final(self)@ == old(self)@ && out == Outcome::UnknownAnchor(module, index),
                Some(anchor) => unplugged(old(self)@, anchor, input, final(self)@) && out
                    == Outcome::Done,
            },
    {
        broadcast use vstd::std_specs::hash::group_hash_axioms;
        broadcast use vstd::multiset::group_multiset_axioms;

        let anchor = match self.anchor(module, index as usize) {
            Some(a) => a,
            None => {
                return Outcome::UnknownAnchor(module, index);
            },
        };
        let ids = keys_of(&self.routes);
        let ghost pre = self@;
        let mut i: usize = 0;
        while i < ids.len()
            invariant
                i <= ids@.len(),
                self.wf(),
                pre == old(self)@,
                ids@.no_duplicates(),
                forall|id: u16| ids@.contains(id) <==> pre.routes.contains_key(id),
                self@.operators == pre.operators,
                self@.routes == pre.routes,
                self@.headers == pre.headers,
                self@.graph.nodes == pre.graph.nodes,
                self@.graph.master == pre.graph.master,
                forall|e: Edge| #[trigger]
                    self@.graph.edges.count(e) == if (exists|j: int|
                        0 <= j < i && e == cable(pre.routes[#[trigger] ids@[j]], anchor, input))
                        && pre.graph.edges.count(e) > 0 {
                        pre.graph.edges.count(e) - 1
                    } else {
                        pre.graph.edges.count(e) as int
                    },
            decreases ids@.len() - i,
        {
            let id = ids[i];
            assert(ids@.contains(id));
            let bus = *self.routes.get(&id).unwrap();
            let ghost before = self@.graph.edges;
            let ghost target = cable(bus, anchor, input);
            proof {
                if exists|j: int|
                    0 <= j < i && target == cable(pre.routes[#[trigger] ids@[j]], anchor, input) {
                    let j = choose|j: int|
                        0 <= j < i && target == cable(pre.routes[#[trigger] ids@[j]], anchor, input);
                    assert(ids@.contains(ids@[j]));
                    assert(ids@[j] != id);
                    assert(pre.routes[ids@[j]] == bus);
                }
                assert(before.count(target) == pre.graph.edges.count(target));
            }
            if input {
                let _ = self.graph.remove_connection(bus, anchor);
            } else {
                let _ = self.graph.remove_connection(anchor, bus);
            }
            proof {
                assert(self@.graph.edges == before.remove(target));
                assert forall|e: Edge| #[trigger]
                    self@.graph.edges.count(e) == if (exists|j: int|
                        0 <= j < i + 1 && e == cable(pre.routes[#[trigger] ids@[j]], anchor, input))
                        && pre.graph.edges.count(e) > 0 {
                        pre.graph.edges.count(e) - 1
                    } else {
                        pre.graph.edges.count(e) as int
                    } by {
                    if e == target {
                        assert(e == cable(pre.routes[ids@[i as int]], anchor, input));
                    } else {
                        assert(self@.graph.edges.count(e) == before.count(e));
                        if exists|j: int|
                            0 <= j < i + 1 && e == cable(
                                pre.routes[#[trigger] ids@[j]],
                                anchor,
                                input,
                            ) {
                            let j = choose|j: int|
                                0 <= j < i + 1 && e == cable(
                                    pre.routes[#[trigger] ids@[j]],
                                    anchor,
                                    input,
                                );
                            assert(j < i);
                        }
                    }
                }
            }
            i += 1;
        }
        proof {
            assert forall|e: Edge| #[trigger]
                self@.graph.edges.count(e) == if is_cable(pre, anchor, input, e)
                    && pre.graph.edges.count(e) > 0 {
                    pre.graph.edges.count(e) - 1
                } else {
                    pre.graph.edges.count(e) as int
                } by {
                if is_cable(pre, anchor, input, e) {
                    let id = choose|id: u16| #[trigger]
                        pre.routes.contains_key(id) && e == cable(pre.routes[id], anchor, input);
                    assert(ids@.contains(id));
                    let j = choose|j: int| 0 <= j < ids@.len() && ids@[j] == id;
                    assert(e == cable(pre.routes[ids@[j]], anchor, input));
                } else {
                    if exists|j: int|
                        0 <= j < i && e == cable(pre.routes[#[trigger] ids@[j]], anchor, input) {
                        let j = choose|j: int|
                            0 <= j < i && e == cable(pre.routes[#[trigger] ids@[j]], anchor, input);
                        assert(ids@.contains(ids@[j]));
                        assert(pre.routes.contains_key(ids@[j]));
                    }
                }
            }
        }
        Outcome::Done
    }

    /// Takes the module `id` out of the patch.
    fn del_module(&mut self, id: u16) -> (out: Outcome)
        requires
            old(self).wf(),
        ensures
            final(self).wf(),
            applied(old(self)@, Action::DelModule(id), final(self)@, out),
    {
        broadcast use vstd::std_specs::hash::group_hash_axioms;
        broadcast use vstd::multiset::group_multiset_axioms;

        let operator = match self.operators.remove(&id) {
            Some(h) => h,
            None => {
                assert(self@.operators =~= old(self)@.operators);
                return Outcome::UnknownOperator(id);
            },
        };
        let _ = self.headers.remove(&id);
        assert(self@.operators =~= old(self)@.operators.remove(id));
        assert(self@.headers =~= old(self)@.headers.remove(id));
        let cluster = self.graph.outputs_of(operator);
        let ghost pre = old(self)@;
        let mut i: usize = 0;
        while i < cluster.len()
            invariant
                i <= cluster@.len(),
                self.wf(),
                self@.operators == pre.operators.remove(id),
                self@.headers == pre.headers.remove(id),
                self@.routes == pre.routes,
                self@.graph.nodes == pre.graph.nodes,
                self@.graph.master == pre.graph.master,
                forall|e: Edge| #[trigger]
                    self@.graph.edges.count(e) == if exists|j: int|
                        0 <= j < i && (e.0 == #[trigger] cluster@[j] || e.1 == cluster@[j]) {
                        0
                    } else {
                        pre.graph.edges.count(e)
                    },
            decreases cluster@.len() - i,
        {
            let ghost before = self@.graph.edges;
            let member = cluster[i];
            self.graph.remove_all_edges(member);
            proof {
                assert forall|e: Edge| #[trigger]
                    self@.graph.edges.count(e) == if exists|j: int|
                        0 <= j < i + 1 && (e.0 == #[trigger] cluster@[j] || e.1 == cluster@[j]) {
                        0
                    } else {
                        pre.graph.edges.count(e)
                    } by {
                    if e.0 == member || e.1 == member {
                        assert(e.0 == cluster@[i as int] || e.1 == cluster@[i as int]);
                    } else {
                        assert(self@.graph.edges.count(e) == before.count(e));
                        if exists|j: int|
                            0 <= j < i + 1 && (e.0 == #[trigger] cluster@[j] || e.1 == cluster@[j]) {
                            let j = choose|j: int|
                                0 <= j < i + 1 && (e.0 == #[trigger] cluster@[j] || e.1
                                    == cluster@[j]);
                            assert(j < i);
                        }
                    }
                }
            }
            i += 1;
        }
        proof {
            let op = pre.operators[id];
            let kept = |e: Edge|
                !(pre.graph.edges.count((op, e.0)) > 0 || pre.graph.edges.count((op, e.1)) > 0);
            assert forall|e: Edge| #[trigger]
                self@.graph.edges.count(e) == pre.graph.edges.filter(kept).count(e) by {
                if exists|j: int|
                    0 <= j < i && (e.0 == #[trigger] cluster@[j] || e.1 == cluster@[j]) {
                    let j = choose|j: int|
                        0 <= j < i && (e.0 == #[trigger] cluster@[j] || e.1 == cluster@[j]);
                    assert(pre.graph.edges.count((op, cluster@[j])) > 0);
                } else {
                    if pre.graph.edges.count((op, e.0)) > 0 {
                        assert(cluster@.contains(e.0));
                        let j = choose|j: int| 0 <= j < cluster@.len() && cluster@[j] == e.0;
                        assert(e.0 == cluster@[j]);
                    }
                    if pre.graph.edges.count((op, e.1)) > 0 {
                        assert(cluster@.contains(e.1));
                        let j = choose|j: int| 0 <= j < cluster@.len() && cluster@[j] == e.1;
                        assert(e.1 == cluster@[j]);
                    }
                }
            }
            assert(self@.graph.edges =~= pre.graph.edges.filter(kept));
        }
        Outcome::Done
    }

    /// Takes the route `id` out of the patch.
    fn del_route(&mut self, id: u16) -> (out: Outcome)
        requires
            old(self).wf(),
        ensures
            final(self).wf(),
            applied(old(self)@, Action::DelRoute(id), final(self)@, out),
    {
        broadcast use vstd::std_specs::hash::group_hash_axioms;

        let bus = match self.routes.remove(&id) {
            Some(h) => h,
            None => {
                assert(self@.routes =~= old(self)@.routes);
                return Outcome::UnknownRoute(id);
            },
        };
        assert(self@.routes =~= old(self)@.routes.remove(id));
        self.graph.remove_all_edges(bus);
        Outcome::Done
    }

    /// Carries out one message to the patch and says how that ended.
    pub fn dispatch(&mut self, a: Action) -> (out: Outcome)
        requires
            old(self).wf(),
        ensures
            final(self).wf(),
            applied(old(self)@, a, final(self)@, out),
    {
        broadcast use vstd::std_specs::hash::group_hash_axioms;

        match a {
            Action::At(n_id, action) => {
                let operator = match self.operators.get(&n_id) {
                    Some(h) => *h,
                    None => {
                        return Outcome::UnknownOperator(n_id);
                    },
                };
                match *action {
                    Action::AddTrack(t_id) => {
                        self.add_track(n_id, t_id);
                    },
                    direct_action => {
                        self.graph.dispatch(operator, direct_action);
                    },
                }
                Outcome::Done
            },
            Action::SetMeter(_, _) | Action::SetTempo(_) => {
                self.send_to_all(&a);
                Outcome::Done
            },
            Action::NoteOn(_, _) | Action::NoteOff(_) | Action::Octave(_) => {
                let operator = match self.operators.get(&KEYBOARD_ID) {
                    Some(h) => *h,
                    None => {
                        return Outcome::UnknownOperator(KEYBOARD_ID);
                    },
                };
                self.graph.dispatch(operator, a);
                Outcome::Done
            },
            Action::AddRoute(r_id) => {
                let route = self.graph.add_node(Module::Passthru(Vec::new()));
                let _ = self.routes.insert(r_id, route);
                assert(self@.routes =~= old(self)@.routes.insert(r_id, route));
                Outcome::Done
            },
            Action::PatchIn(n_id, a_id, r_id) => self.patch_cable(n_id, a_id, r_id, true),
            Action::PatchOut(n_id, a_id, r_id) => self.patch_cable(n_id, a_id, r_id, false),
            Action::DelPatch(n_id, a_id, input) => self.del_patch(n_id, a_id, input),
            Action::OpenProject(name) => Outcome::Open(name),
            Action::AddModule(id, name) => {
                match self.add_module(blank(id, name)) {
                    Ok(laid) => if laid {
                        Outcome::Done
                    } else {
                        Outcome::Incomplete
                    },
                    Err(e) => Outcome::Invalid(e),
                }
            },
            Action::DelModule(id) => self.del_module(id),
            Action::DelRoute(id) => self.del_route(id),
            _ => Outcome::Unimplemented,
        }
    }

    /// One round of message passing in the graph. Returns what the nodes
    /// sent to the client.
    pub fn walk_dispatch(&mut self) -> (client: Vec<Action>)
        requires
            old(self).wf(),
        ensures
            final(self).wf(),
            final(self).spec_graph().same_wiring(&old(self).spec_graph()),
            final(self)@.graph.nodes == walk(
                old(self).spec_graph(),
                old(self)@.graph.nodes,
                old(self).spec_graph().order(),
            ).nodes,
            client@ == walk(
                old(self).spec_graph(),
                old(self)@.graph.nodes,
                old(self).spec_graph().order(),
            ).client,
            keeps_handles(old(self)@.graph.nodes, final(self)@.graph.nodes),
            final(self)@.graph.edges == old(self)@.graph.edges,
            final(self)@.graph.master == old(self)@.graph.master,
            final(self)@.operators == old(self)@.operators,
            final(self)@.routes == old(self)@.routes,
            final(self)@.headers == old(self)@.headers,
    {
        self.graph.walk_dispatch()
    }

    /// Lets `frames` frames of audio pass over the graph.
    pub fn audio_requested(&mut self, frames: usize)
        requires
            old(self).wf(),
        ensures
            final(self).wf(),
            final(self).spec_graph().same_wiring(&old(self).spec_graph()),
            final(self)@.graph.nodes == render(
                old(self)@.graph.nodes,
                old(self).spec_graph().order(),
                old(self)@.graph.master,
                frames as nat,
            ),
            keeps_handles(old(self)@.graph.nodes, final(self)@.graph.nodes),
            final(self)@.graph.edges == old(self)@.graph.edges,
            final(self)@.graph.master == old(self)@.graph.master,
            final(self)@.operators == old(self)@.operators,
            final(self)@.routes == old(self)@.routes,
            final(self)@.headers == old(self)@.headers,
    {
        self.graph.audio_requested(frames)
    }

    /// The track elements that hold the tracks of a timeline.
    fn save_tracks(&self, anchors: &Vec<usize>) -> (tracks: Vec<crate::document::Track>)
        requires
            self.wf(),
        ensures
            crate::document::tracks_view(tracks@) == written_tracks(
                tapes_at(self@.graph.nodes, anchors@, anchors@.len() as int / 2),
            ),
    {
        let mut tracks: Vec<crate::document::Track> = Vec::new();
        let mut j: usize = 0;
        let ghost mut k: int = 0;
        while j + 1 < anchors.len()
            invariant
                j == 2 * k,
                0 <= k <= anchors@.len() as int / 2,
                self.wf(),
                tracks@.len() == tapes_at(self@.graph.nodes, anchors@, k).len(),
                forall|i: int|
                    0 <= i < tracks@.len() ==> (#[trigger] tracks@[i])@ == tape::written_track(
                        tapes_at(self@.graph.nodes, anchors@, k)[i],
                    ),
            decreases anchors@.len() - j,
        {
            let h = anchors[j];
            let ghost before = tapes_at(self@.graph.nodes, anchors@, k);
            if h < self.graph.node_count() {
                match self.graph.node(h) {
                    Module::Tape(t) => {
                        tracks.push(tape::write_track(t));
                    },
                    _ => {},
                }
            }
            j += 2;
            proof {
                k = k + 1;
                assert(tapes_at(self@.graph.nodes, anchors@, k - 1) == before);
            }
        }
        proof {
            assert(k == anchors@.len() as int / 2);
            assert(crate::document::tracks_view(tracks@) =~= written_tracks(
                tapes_at(self@.graph.nodes, anchors@, k),
            ));
        }
        tracks
    }

    /// The module of a project that holds the module `id` of the patch.
    fn save_module(&self, id: u16) -> (el: Element)
        requires
            self.wf(),
            self@.operators.contains_key(id),
        ensures
            el@ == saved(self@, id),
            el.id == id,
    {
        broadcast use vstd::std_specs::hash::group_hash_axioms;

        let operator = *self.operators.get(&id).unwrap();
        let anchors = match self.graph.node(operator) {
            Module::Operator(_, anchors, _) => anchors,
            _ => {
                return blank(id, String::from_str("timeline"));
            },
        };
        if anchors.len() == 0 {
            return match self.headers.get(&id) {
                Some(header) => {
                    let (params, marks) = tape::write_header(&tape::headed_store(*header));
                    let mut el = blank(id, String::from_str("timeline"));
                    el.params = params;
                    el.marks = marks;
                    el
                },
                None => blank(id, String::from_str("timeline")),
            };
        }
        if anchors[0] >= self.graph.node_count() {
            return blank(id, String::from_str("timeline"));
        }
        match self.graph.node(anchors[0]) {
            Module::Synth(store) => synth::write(store, id),
            Module::Arpeggio(store) => arpeggio::write(store, id),
            Module::Chord(store) => chord::write(store, id),
            Module::Octave(_, n) => {
                let mut params: Vec<(String, Param)> = Vec::new();
                params.push((String::from_str("octave"), *n as i32));
                assert(named(params@) =~= written_octave(*n));
                let mut el = blank(id, String::from_str("keyboard"));
                el.params = params;
                el
            },
            Module::Plugin(store) => blank(id, store.name.clone()),
            Module::Tape(store) => {
                let (params, marks) = tape::write_header(store);
                let tracks = self.save_tracks(anchors);
                let mut el = blank(id, String::from_str("timeline"));
                el.params = params;
                el.marks = marks;
                el.tracks = tracks;
                el
            },
            _ => blank(id, String::from_str("timeline")),
        }
    }

    /// The modules of the patch as modules of a project, in no particular
    /// order: one for each module id, holding what the module's nodes hold
    /// now. The patch cables are not among them.
    pub fn modules(&self) -> (list: Vec<Element>)
        requires
            self.wf(),
        ensures
            forall|i: int|
                0 <= i < list@.len() ==> self@.operators.contains_key((#[trigger] list@[i]).id)
                    && list@[i]@ == saved(self@, list@[i].id),
            forall|i: int, j: int|
                0 <= i < j < list@.len() ==> (#[trigger] list@[i]).id != (#[trigger] list@[j]).id,
            forall|id: u16|
                self@.operators.contains_key(id) ==> exists|i: int|
                    0 <= i < list@.len() && (#[trigger] list@[i]).id == id,
    {
        let ids = keys_of(&self.operators);
        let mut list: Vec<Element> = Vec::new();
        let mut i: usize = 0;
        while i < ids.len()
            invariant
                i <= ids@.len(),
                self.wf(),
                list@.len() == i,
                forall|id: u16| ids@.contains(id) <==> self@.operators.contains_key(id),
                forall|k: int|
                    0 <= k < i ==> (#[trigger] list@[k]).id == ids@[k] && list@[k]@ == saved(
                        self@,
                        ids@[k],
                    ),
            decreases ids@.len() - i,
        {
            assert(ids@.contains(ids@[i as int]));
            list.push(self.save_module(ids[i]));
            i += 1;
        }
        proof {
            assert forall|k: int| 0 <= k < list@.len() implies self@.operators.contains_key(
                (#[trigger] list@[k]).id,
            ) by {
                assert(ids@.contains(ids@[k]));
            }
            assert forall|id: u16| self@.operators.contains_key(id) implies exists|k: int|
                0 <= k < list@.len() && (#[trigger] list@[k]).id == id by {
                assert(ids@.contains(id));
                let k = choose|k: int| 0 <= k < ids@.len() && ids@[k] == id;
                assert(list@[k].id == id);
            }
        }
        list
    }

    /// The node that a plug stands for.
    fn anchor(&self, module: u16, index: usize) -> (a: Option<usize>)
        requires
            self.wf(),
        ensures
            a == anchor_of(self@, module, index as int),
            a matches Some(h) ==> h < self@.graph.nodes.len(),
    {
        broadcast use vstd::std_specs::hash::group_hash_axioms;

        let operator = match self.operators.get(&module) {
            Some(h) => *h,
            None => {
                return None;
            },
        };
        match self.graph.node(operator) {
            Module::Operator(_, anchors, _) => {
                if index < anchors.len() && anchors[index] < self.graph.node_count() {
                    Some(anchors[index])
                } else {
                    None
                }
            },
            _ => None,
        }
    }

    /// Asks for a cable between the node `route` and an anchor, and says
    /// whether it could be laid.
    fn plug(&mut self, route: usize, module: u16, index: usize, input: bool) -> (laid: bool)
        requires
            old(self).wf(),
            route < old(self)@.graph.nodes.len(),
        ensures
            final(self).wf(),
            final(self)@ == plugged(old(self)@, route, module, index as int, input).patch,
            laid == plugged(old(self)@, route, module, index as int, input).complete,
            final(self)@.graph.nodes == old(self)@.graph.nodes,
            final(self)@.operators == old(self)@.operators,
            final(self)@.routes == old(self)@.routes,
    {
        let anchor = match self.anchor(module, index) {
            Some(a) => a,
            None => {
                return false;
            },
        };
        let wired = if input {
            self.graph.add_edge(route, anchor)
        } else {
            self.graph.add_edge(anchor, route)
        };
        wired.is_ok()
    }

    /// Asks for cables between the node `route` and each of `plugs`, and
    /// says whether all could be laid.
    fn plug_all(&mut self, route: usize, plugs: &Vec<Plug>, input: bool) -> (laid: bool)
        requires
            old(self).wf(),
            route < old(self)@.graph.nodes.len(),
        ensures
            final(self).wf(),
            final(self)@ == plugged_all(
                Wired { patch: old(self)@, complete: true },
                route,
                plugs@,
                input,
            ).patch,
            laid == plugged_all(
                Wired { patch: old(self)@, complete: true },
                route,
                plugs@,
                input,
            ).complete,
            final(self)@.graph.nodes == old(self)@.graph.nodes,
            final(self)@.operators == old(self)@.operators,
            final(self)@.routes == old(self)@.routes,
    {
        let mut laid = true;
        let mut i: usize = 0;
        let ghost start = Wired { patch: self@, complete: true };
        assert(plugs@.take(0) =~= Seq::<Plug>::empty());
        while i < plugs.len()
            invariant
                i <= plugs@.len(),
                self.wf(),
                route < self@.graph.nodes.len(),
                self@.graph.nodes == old(self)@.graph.nodes,
                self@.operators == old(self)@.operators,
                self@.routes == old(self)@.routes,
                start == (Wired { patch: old(self)@, complete: true }),
                self@ == plugged_all(start, route, plugs@.take(i as int), input).patch,
                laid == plugged_all(start, route, plugs@.take(i as int), input).complete,
            decreases plugs@.len() - i,
        {
            proof {
                assert(plugs@.take(i + 1).drop_last() =~= plugs@.take(i as int));
            }
            let one = self.plug(route, plugs[i].module, plugs[i].index, input);
            laid = laid && one;
            i += 1;
        }
        assert(plugs@.take(plugs@.len() as int) =~= plugs@);
        laid
    }

    /// Adds the routes of a project and says whether every cable could be
    /// laid.
    fn add_routes(&mut self, routes: &Vec<Route>) -> (laid: bool)
        requires
            old(self).wf(),
        ensures
            final(self).wf(),
            final(self)@ == with_routes(Wired { patch: old(self)@, complete: true }, routes@).patch,
            laid == with_routes(Wired { patch: old(self)@, complete: true }, routes@).complete,
    {
        broadcast use vstd::std_specs::hash::group_hash_axioms;

        let mut laid = true;
        let mut i: usize = 0;
        let ghost start = Wired { patch: self@, complete: true };
        assert(routes@.take(0) =~= Seq::<Route>::empty());
        while i < routes.len()
            invariant
                i <= routes@.len(),
                self.wf(),
                start == (Wired { patch: old(self)@, complete: true }),
                self@ == with_routes(start, routes@.take(i as int)).patch,
                laid == with_routes(start, routes@.take(i as int)).complete,
            decreases routes@.len() - i,
        {
            proof {
                assert(routes@.take(i + 1).drop_last() =~= routes@.take(i as int));
            }
            let ghost before = Wired { patch: self@, complete: laid };
            let route = self.graph.add_node(Module::Passthru(Vec::new()));
            let _ = self.routes.insert(routes[i].id, route);
            proof {
                assert(self@.routes =~= before.patch.routes.insert(routes@[i as int].id, route));
                assert(self@.graph == with_node(before.patch.graph, ModuleView::Passthru(Seq::empty())));
            }
            let ghost seeded = self@;
            let fed = self.plug_all(route, &routes[i].inputs, true);
            let ghost mid = self@;
            let drained = self.plug_all(route, &routes[i].outputs, false);
            proof {
                lemma_plugged_all_complete(
                    Wired { patch: seeded, complete: true },
                    laid,
                    route,
                    routes@[i as int].inputs@,
                    true,
                );
                lemma_plugged_all_complete(
                    Wired { patch: mid, complete: true },
                    laid && fed,
                    route,
                    routes@[i as int].outputs@,
                    false,
                );
            }
            laid = laid && fed && drained;
            i += 1;
        }
        assert(routes@.take(routes@.len() as int) =~= routes@);
        laid
    }
}

/// Cables are laid alike whether or not an earlier one failed; the
/// failure is only remembered.
pub proof fn lemma_plugged_all_complete(
    w: Wired,
    complete: bool,
    route: usize,
    plugs: Seq<Plug>,
    input: bool,
)
    ensures
        plugged_all(Wired { patch: w.patch, complete }, route, plugs, input).patch == plugged_all(
            w,
            route,
            plugs,
            input,
        ).patch,
        w.complete ==> plugged_all(
            Wired { patch: w.patch, complete },
            route,
            plugs,
            input,
        ).complete == (complete && plugged_all(w, route, plugs, input).complete),
    decreases plugs.len(),
{
    if plugs.len() > 0 {
        lemma_plugged_all_complete(w, complete, route, plugs.drop_last(), input);
    }
}

/// The place at which a track with id `id` goes into a sorted list.
fn place(sorted: &Vec<tape::Store>, id: u16) -> (at: usize)
    ensures
        at == place_after(track_views(sorted@), id, 0),
        at <= sorted@.len(),
{
    let mut i: usize = 0;
    while i < sorted.len() && sorted[i].track_id <= id
        invariant
            i <= sorted@.len(),
            place_after(track_views(sorted@), id, 0) == place_after(
                track_views(sorted@),
                id,
                i as int,
            ),
        decreases sorted@.len() - i,
    {
        i += 1;
    }
    i
}

/// How often an edge occurs once an operator is joined to a run of nodes:
/// once more than before if it is one of the new edges.
pub proof fn lemma_track_edges_count(edges: Multiset<Edge>, op: usize, h: int, k: nat, e: Edge)
    requires
        0 <= h,
        h + k <= usize::MAX,
    ensures
        track_edges(edges, op, h, k).count(e) == edges.count(e) + if e.0 == op && h <= e.1 < h + k {
            1int
        } else {
            0int
        },
    decreases k,
{
    broadcast use vstd::multiset::group_multiset_axioms;

    if k > 0 {
        lemma_track_edges_count(edges, op, h, (k - 1) as nat, e);
    }
}

/// Once a module cannot be built, adding more modules does not mend it.
proof fn lemma_modules_fail(w: Wired, els: Seq<Element>, k: int)
    requires
        0 <= k <= els.len(),
        with_modules(w, els.take(k)) is Err,
    ensures
        with_modules(w, els) == with_modules(w, els.take(k)),
    decreases els.len() - k,
{
    if k < els.len() {
        assert(els.take(k + 1).drop_last() =~= els.take(k));
        lemma_modules_fail(w, els, k + 1);
    } else {
        assert(els.take(k) =~= els);
    }
}

/// Once a module is taken out, a message addressed to it finds nobody:
/// the module is gone from the directory, and the message changes nothing.
pub proof fn lemma_deleted_module_is_gone(
    pre: PatchView,
    mid: PatchView,
    post: PatchView,
    id: u16,
    msg: Action,
    first: Outcome,
    second: Outcome,
)
    requires
        applied(pre, Action::DelModule(id), mid, first),
        applied(mid, Action::At(id, Box::new(msg)), post, second),
    ensures
        !mid.operators.contains_key(id),
        post == mid,
        second == Outcome::UnknownOperator(id),
{
}

/// An arena keeps its own handles.
pub proof fn lemma_keeps_handles_self(nodes: Seq<ModuleView>)
    ensures
        keeps_handles(nodes, nodes),
{
    assert forall|h: int| 0 <= h < nodes.len() implies keeps_anchors(
        #[trigger] nodes[h],
        nodes[h],
    ) by {
        lemma_flush_keeps_anchors(nodes[h], 0);
    }
}

/// An arena that only grows at its end keeps its handles.
pub proof fn lemma_grown_keeps_handles(before: Seq<ModuleView>, after: Seq<ModuleView>)
    requires
        after.len() >= before.len(),
        forall|h: int| 0 <= h < before.len() ==> #[trigger] after[h] == before[h],
    ensures
        keeps_handles(before, after),
{
    assert forall|h: int| 0 <= h < before.len() implies keeps_anchors(
        #[trigger] before[h],
        after[h],
    ) by {
        lemma_flush_keeps_anchors(before[h], 0);
    }
}

proof fn lemma_plugged_all_nodes(w: Wired, route: usize, plugs: Seq<Plug>, input: bool)
    ensures
        plugged_all(w, route, plugs, input).patch.graph.nodes == w.patch.graph.nodes,
    decreases plugs.len(),
{
    if plugs.len() > 0 {
        lemma_plugged_all_nodes(w, route, plugs.drop_last(), input);
    }
}

proof fn lemma_routes_grow(w: Wired, routes: Seq<Route>)
    ensures
        with_routes(w, routes).patch.graph.nodes.len() >= w.patch.graph.nodes.len(),
        forall|h: int|
            0 <= h < w.patch.graph.nodes.len() ==> #[trigger] with_routes(
                w,
                routes,
            ).patch.graph.nodes[h] == w.patch.graph.nodes[h],
    decreases routes.len(),
{
    if routes.len() > 0 {
        lemma_routes_grow(w, routes.drop_last());
        let before = with_routes(w, routes.drop_last());
        let r = routes.last();
        let h = before.patch.graph.nodes.len() as usize;
        let seeded = PatchView {
            graph: with_node(before.patch.graph, ModuleView::Passthru(Seq::empty())),
            routes: before.patch.routes.insert(r.id, h),
            ..before.patch
        };
        let start = Wired { patch: seeded, complete: before.complete };
        lemma_plugged_all_nodes(start, h, r.inputs@, true);
        lemma_plugged_all_nodes(plugged_all(start, h, r.inputs@, true), h, r.outputs@, false);
    }
}

/// Adding a module takes no node out of the arena and changes none.
pub proof fn lemma_module_grows(p: PatchView, el: ElementView)
    requires
        with_module(p, el) is Ok,
    ensures
        keeps_handles(p.graph.nodes, with_module(p, el)->Ok_0.patch.graph.nodes),
{
    let after = with_module(p, el)->Ok_0.patch.graph.nodes;
    if kind_of(el.name) == Kind::Patch {
        lemma_routes_grow(Wired { patch: p, complete: true }, el.routes);
    }
    lemma_grown_keeps_handles(p.graph.nodes, after);
}

/// No message to the patch takes a node out of the arena or an anchor
/// from an operator: every handle that was good stays good, and every
/// anchor index of an operator keeps naming the node that it named.
pub proof fn lemma_applied_keeps_handles(pre: PatchView, a: Action, post: PatchView, out: Outcome)
    requires
        applied(pre, a, post, out),
        forall|id: u16| #[trigger]
            pre.operators.contains_key(id) ==> pre.operators[id] < pre.graph.nodes.len(),
    ensures
        keeps_handles(pre.graph.nodes, post.graph.nodes),
{
    lemma_keeps_handles_self(pre.graph.nodes);
    match a {
        Action::At(id, inner) => {
            if pre.operators.contains_key(id) {
                let h = pre.operators[id] as int;
                match *inner {
                    Action::AddTrack(t_id) => {
                        let grown = pre.graph.nodes.push(ModuleView::Tape(new_track(t_id)));
                        lemma_grown_keeps_handles(pre.graph.nodes, grown);
                        lemma_anchored_keeps_anchors(grown[h], pre.graph.nodes.len() as usize);
                        lemma_update_keeps_handles(
                            grown,
                            h,
                            anchored(grown[h], pre.graph.nodes.len() as usize),
                        );
                        lemma_keeps_handles_trans(pre.graph.nodes, grown, post.graph.nodes);
                    },
                    direct => {
                        lemma_dispatch_keeps_anchors(pre.graph.nodes[h], direct);
                        lemma_update_keeps_handles(
                            pre.graph.nodes,
                            h,
                            dispatch_spec(pre.graph.nodes[h], direct),
                        );
                    },
                }
            }
        },
        Action::SetMeter(_, _) | Action::SetTempo(_) => {
            assert forall|h: int| 0 <= h < pre.graph.nodes.len() implies keeps_anchors(
                #[trigger] pre.graph.nodes[h],
                post.graph.nodes[h],
            ) by {
                lemma_dispatch_keeps_anchors(pre.graph.nodes[h], a);
                lemma_flush_keeps_anchors(pre.graph.nodes[h], 0);
            }
        },
        Action::NoteOn(_, _) | Action::NoteOff(_) | Action::Octave(_) => {
            if pre.operators.contains_key(KEYBOARD_ID) {
                let h = pre.operators[KEYBOARD_ID] as int;
                lemma_dispatch_keeps_anchors(pre.graph.nodes[h], a);
                lemma_update_keeps_handles(pre.graph.nodes, h, dispatch_spec(pre.graph.nodes[h], a));
            }
        },
        Action::AddRoute(_) => {
            lemma_grown_keeps_handles(pre.graph.nodes, post.graph.nodes);
        },
        Action::AddModule(id, name) => {
            if with_module(pre, blank_view(id, name@)) is Ok {
                lemma_module_grows(pre, blank_view(id, name@));
            }
        },
        _ => {},
    }
}

} // verus!
