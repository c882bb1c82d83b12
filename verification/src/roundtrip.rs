//! What a project keeps of a patch: a project that is opened and written
//! out again holds the same modules under the same ids.

use vstd::prelude::*;
use crate::arpeggio;
use crate::chord;
use crate::document::{blank_view, with_params, Element, ElementView, LoadError, TrackView};
use crate::graph::GraphView;
use crate::node::ModuleView;
use crate::patch::written_header;
use crate::patch::{
    bare, kind_of, node_at, octave_of, opened, place_after, plugged, plugged_all, prepend,
    read_all, saved, saved_cluster, sort_tracks, tapes_at, with_edge, with_instrument,
    with_master_route, with_module, with_modules, with_route, with_routes, with_tracks,
    written_octave, written_tracks, Kind, PatchView, Wired,
};
use crate::document::{lemma_lookup_at, Plug, Route};
use crate::synth;
use crate::tape;

verus! {

/// Whether the patch `q` still holds what the patch `p` held: the nodes of
/// `p` under their handles, the module `id` under its operator, and the
/// header of `id` if it has one.
pub open spec fn keeps(p: PatchView, q: PatchView, id: u16) -> bool {
    &&& q.graph.nodes.len() >= p.graph.nodes.len()
    &&& forall|h: int| 0 <= h < p.graph.nodes.len() ==> #[trigger] q.graph.nodes[h] == p.graph.nodes[h]
    &&& p.operators.contains_key(id) ==> q.operators.contains_key(id) && q.operators[id]
        == p.operators[id]
    &&& q.headers.contains_key(id) == p.headers.contains_key(id)
    &&& p.headers.contains_key(id) ==> q.headers[id] == p.headers[id]
}

/// Whether the module `id` of a patch refers to nodes of the patch only:
/// its operator, and every anchor of it.
pub open spec fn settled(p: PatchView, id: u16) -> bool {
    &&& p.operators.contains_key(id)
    &&& p.operators[id] < p.graph.nodes.len()
    &&& match p.graph.nodes[p.operators[id] as int] {
        ModuleView::Operator(_, anchors, _) => forall|i: int|
            0 <= i < anchors.len() ==> #[trigger] anchors[i] < p.graph.nodes.len(),
        _ => true,
    }
}

proof fn lemma_tapes_kept(p: Seq<ModuleView>, q: Seq<ModuleView>, anchors: Seq<usize>, k: int)
    requires
        q.len() >= p.len(),
        forall|h: int| 0 <= h < p.len() ==> #[trigger] q[h] == p[h],
        forall|i: int| 0 <= i < anchors.len() ==> #[trigger] anchors[i] < p.len(),
        0 <= k <= anchors.len() as int / 2,
    ensures
        tapes_at(q, anchors, k) == tapes_at(p, anchors, k),
    decreases k,
{
    if k > 0 {
        lemma_tapes_kept(p, q, anchors, k - 1);
        assert(anchors[2 * (k - 1)] < p.len());
    }
}

/// A module that refers to nodes of the patch only is written out alike
/// from any patch that keeps it.
pub proof fn lemma_saved_kept(p: PatchView, q: PatchView, id: u16)
    requires
        keeps(p, q, id),
        settled(p, id),
    ensures
        saved(q, id) == saved(p, id),
        settled(q, id),
{
    let op = p.operators[id];
    assert(q.graph.nodes[op as int] == p.graph.nodes[op as int]);
    match p.graph.nodes[op as int] {
        ModuleView::Operator(_, anchors, _) => {
            if anchors.len() > 0 {
                assert(anchors[0] < p.graph.nodes.len());
                assert(q.graph.nodes[anchors[0] as int] == p.graph.nodes[anchors[0] as int]);
                lemma_tapes_kept(p.graph.nodes, q.graph.nodes, anchors, anchors.len() as int / 2);
            }
        },
        _ => {},
    }
}

proof fn lemma_plugged_all_keeps(w: Wired, route: usize, plugs: Seq<Plug>, input: bool, id: u16)
    ensures
        keeps(w.patch, plugged_all(w, route, plugs, input).patch, id),
        plugged_all(w, route, plugs, input).patch.graph.nodes == w.patch.graph.nodes,
        plugged_all(w, route, plugs, input).patch.operators == w.patch.operators,
        plugged_all(w, route, plugs, input).patch.headers == w.patch.headers,
    decreases plugs.len(),
{
    if plugs.len() > 0 {
        lemma_plugged_all_keeps(w, route, plugs.drop_last(), input, id);
    }
}

proof fn lemma_routes_keep(w: Wired, routes: Seq<Route>, id: u16)
    ensures
        keeps(w.patch, with_routes(w, routes).patch, id),
        with_routes(w, routes).patch.operators == w.patch.operators,
        with_routes(w, routes).patch.headers == w.patch.headers,
    decreases routes.len(),
{
    if routes.len() > 0 {
        lemma_routes_keep(w, routes.drop_last(), id);
        let before = with_routes(w, routes.drop_last());
        let r = routes.last();
        let h = before.patch.graph.nodes.len() as usize;
        let seeded = PatchView {
            graph: crate::patch::with_node(before.patch.graph, ModuleView::Passthru(Seq::empty())),
            routes: before.patch.routes.insert(r.id, h),
            ..before.patch
        };
        let fed = plugged_all(Wired { patch: seeded, complete: before.complete }, h, r.inputs@, true);
        lemma_plugged_all_keeps(Wired { patch: seeded, complete: before.complete }, h, r.inputs@, true, id);
        lemma_plugged_all_keeps(fed, h, r.outputs@, false, id);
    }
}

/// Adding a module keeps every other module of the patch.
pub proof fn lemma_module_keeps(p: PatchView, el: ElementView, id: u16)
    requires
        with_module(p, el) is Ok,
        kind_of(el.name) == Kind::Patch || el.id != id,
    ensures
        keeps(p, with_module(p, el)->Ok_0.patch, id),
{
    match kind_of(el.name) {
        Kind::Patch => {
            lemma_routes_keep(Wired { patch: p, complete: true }, el.routes, id);
        },
        _ => {},
    }
}

/// The sorted tracks are the tracks that were sorted.
proof fn lemma_sort_holds(tracks: Seq<tape::StoreView>)
    ensures
        sort_tracks(tracks).len() == tracks.len(),
        forall|i: int|
            0 <= i < tracks.len() ==> exists|j: int|
                0 <= j < tracks.len() && #[trigger] sort_tracks(tracks)[i] == tracks[j],
    decreases tracks.len(),
{
    if tracks.len() > 0 {
        let init = tracks.drop_last();
        lemma_sort_holds(init);
        let sorted = sort_tracks(init);
        lemma_place(sorted, tracks.last().track_id, 0);
        let at = place_after(sorted, tracks.last().track_id, 0);
        let after = sorted.insert(at, tracks.last());
        assert forall|i: int| 0 <= i < tracks.len() implies exists|j: int|
            0 <= j < tracks.len() && #[trigger] after[i] == tracks[j] by {
            if i < at {
                assert(after[i] == sorted[i]);
                let j = choose|j: int| 0 <= j < init.len() && sorted[i] == init[j];
                assert(tracks[j] == init[j]);
            } else if i == at {
                assert(after[i] == tracks[tracks.len() - 1]);
            } else {
                assert(after[i] == sorted[i - 1]);
                let j = choose|j: int| 0 <= j < init.len() && sorted[i - 1] == init[j];
                assert(tracks[j] == init[j]);
            }
        }
    }
}

/// Whether the ids of the tracks never fall.
pub open spec fn rising(tracks: Seq<tape::StoreView>) -> bool {
    forall|i: int, j: int| 0 <= i <= j < tracks.len() ==> tracks[i].track_id <= tracks[j].track_id
}

proof fn lemma_place(sorted: Seq<tape::StoreView>, id: u16, from: int)
    requires
        0 <= from <= sorted.len(),
    ensures
        from <= place_after(sorted, id, from) <= sorted.len(),
        forall|i: int| from <= i < place_after(sorted, id, from) ==> sorted[i].track_id <= id,
        place_after(sorted, id, from) < sorted.len() ==> sorted[place_after(sorted, id, from)].track_id
            > id,
    decreases sorted.len() - from,
{
    if from < sorted.len() && sorted[from].track_id <= id {
        lemma_place(sorted, id, from + 1);
    }
}

/// Sorting puts the tracks in the order of their ids.
proof fn lemma_sort_rises(tracks: Seq<tape::StoreView>)
    ensures
        rising(sort_tracks(tracks)),
    decreases tracks.len(),
{
    if tracks.len() > 0 {
        let init = tracks.drop_last();
        lemma_sort_rises(init);
        lemma_sort_holds(init);
        let sorted = sort_tracks(init);
        let id = tracks.last().track_id;
        lemma_place(sorted, id, 0);
        let at = place_after(sorted, id, 0);
        let after = sorted.insert(at, tracks.last());
        assert forall|i: int, j: int| 0 <= i <= j < after.len() implies after[i].track_id
            <= after[j].track_id by {
            if i < at {
                assert(after[i] == sorted[i]);
            } else if i > at {
                assert(after[i] == sorted[i - 1]);
                if at < sorted.len() {
                    assert(sorted[at].track_id <= sorted[i - 1].track_id);
                }
            }
            if j < at {
                assert(after[j] == sorted[j]);
            } else if j > at {
                assert(after[j] == sorted[j - 1]);
                if at < sorted.len() {
                    assert(sorted[at].track_id <= sorted[j - 1].track_id);
                }
            }
        }
    }
}

/// Tracks that are in the order of their ids stay as they are when
/// sorted.
proof fn lemma_sort_fixed(tracks: Seq<tape::StoreView>)
    requires
        rising(tracks),
    ensures
        sort_tracks(tracks) == tracks,
    decreases tracks.len(),
{
    if tracks.len() > 0 {
        let init = tracks.drop_last();
        assert(rising(init)) by {
            assert forall|i: int, j: int| 0 <= i <= j < init.len() implies init[i].track_id
                <= init[j].track_id by {
                assert(tracks[i].track_id <= tracks[j].track_id);
            }
        }
        lemma_sort_fixed(init);
        let id = tracks.last().track_id;
        lemma_place(init, id, 0);
        let at = place_after(init, id, 0);
        if at < init.len() {
            assert(tracks[at].track_id <= tracks[tracks.len() - 1].track_id);
            assert(init[at] == tracks[at]);
        }
        assert(init.insert(init.len() as int, tracks.last()) =~= tracks);
        assert(sort_tracks(tracks) =~= tracks);
    }
}

/// Whether two tracks have the same tempo, meter, loop and length.
pub open spec fn same_header(a: tape::StoreView, b: tape::StoreView) -> bool {
    &&& a.bpm == b.bpm
    &&& a.duration == b.duration
    &&& a.meter_beat == b.meter_beat
    &&& a.meter_note == b.meter_note
    &&& a.loop_in == b.loop_in
    &&& a.loop_out == b.loop_out
}

/// Whether the tracks can all be held by one timeline of a project.
pub open spec fn one_timeline(tapes: Seq<tape::StoreView>) -> bool {
    forall|i: int|
        0 <= i < tapes.len() ==> tape::writable(#[trigger] tapes[i]) && tape::persisted(tapes[i])
            == tapes[i] && same_header(tapes[i], tapes[0])
}

/// The tracks that are read from one timeline can all be held by one
/// timeline, and there is one for each track element.
proof fn lemma_read_all_one(
    params: Seq<(Seq<char>, i32)>,
    marks: Seq<(Seq<char>, u32)>,
    tracks: Seq<TrackView>,
)
    ensures
        read_all(params, marks, tracks) matches Ok(tapes) ==> tapes.len() == tracks.len() && forall|
            i: int,
        |
            0 <= i < tapes.len() ==> tape::writable(#[trigger] tapes[i]) && tape::persisted(
                tapes[i],
            ) == tapes[i] && tape::read_header(params, marks) is Ok && same_header(
                tapes[i],
                tape::read_header(params, marks)->Ok_0,
            ),
    decreases tracks.len(),
{
    if tracks.len() > 0 {
        tape::lemma_read_writable(params, marks, tracks);
        lemma_read_all_one(params, marks, tracks.drop_first());
        match tape::read_spec(params, marks, tracks) {
            Ok(Some(s)) => {
                match read_all(params, marks, tracks.drop_first()) {
                    Ok(rest) => {
                        let tapes = seq![s] + rest;
                        assert forall|i: int| 0 <= i < tapes.len() implies tape::writable(
                            #[trigger] tapes[i],
                        ) && tape::persisted(tapes[i]) == tapes[i] && tape::read_header(
                            params,
                            marks,
                        ) is Ok && same_header(
                            tapes[i],
                            tape::read_header(params, marks)->Ok_0,
                        ) by {
                            if i > 0 {
                                assert(tapes[i] == rest[i - 1]);
                            }
                        }
                    },
                    Err(_) => {},
                }
            },
            _ => {},
        }
    }
}

/// Tracks that one timeline can hold, written to a project as one
/// timeline, read back as they were.
proof fn lemma_read_all_written(t0: tape::StoreView, tapes: Seq<tape::StoreView>)
    requires
        tape::writable(t0),
        forall|i: int|
            0 <= i < tapes.len() ==> tape::writable(#[trigger] tapes[i]) && tape::persisted(tapes[i])
                == tapes[i] && same_header(tapes[i], t0),
    ensures
        read_all(tape::written_params(t0), tape::written_marks(t0), written_tracks(tapes)) == Ok::<
            Seq<tape::StoreView>,
            LoadError,
        >(tapes),
    decreases tapes.len(),
{
    let params = tape::written_params(t0);
    let marks = tape::written_marks(t0);
    let tracks = written_tracks(tapes);
    tape::lemma_header_write_read(t0);
    if tapes.len() == 0 {
        assert(tapes =~= Seq::empty());
    } else {
        let rest = tapes.drop_first();
        assert forall|i: int| 0 <= i < rest.len() implies tape::writable(#[trigger] rest[i])
            && tape::persisted(rest[i]) == rest[i] && same_header(rest[i], t0) by {
            assert(rest[i] == tapes[i + 1]);
        }
        lemma_read_all_written(t0, rest);
        assert(tracks.drop_first() =~= written_tracks(rest));
        let s = tapes[0];
        assert(tape::writable(s) && tape::persisted(s) == s && same_header(s, t0));
        tape::lemma_regions_write_read(s.regions, s.regions.len() as int);
        assert(s.regions.take(s.regions.len() as int) =~= s.regions);
        assert(tracks[0] == tape::written_track(s));
        assert(tape::written_track(s).regions =~= Seq::new(
            s.regions.len(),
            |i: int| tape::written_region(s.regions[i], i),
        ));
        assert(tape::read_spec(params, marks, tracks) == Ok::<Option<tape::StoreView>, LoadError>(
            Some(s),
        ));
        assert(seq![s] + rest =~= tapes);
    }
}

proof fn lemma_tapes_at_cluster(
    nodes: Seq<ModuleView>,
    h: int,
    tapes: Seq<tape::StoreView>,
    anchors: Seq<usize>,
    k: int,
)
    requires
        0 <= k <= tapes.len(),
        0 <= h,
        h + tapes.len() <= nodes.len(),
        h + tapes.len() <= usize::MAX,
        anchors.len() == 2 * tapes.len(),
        forall|i: int| 0 <= i < anchors.len() ==> #[trigger] anchors[i] == (h + i / 2) as usize,
        forall|i: int| 0 <= i < tapes.len() ==> #[trigger] nodes[h + i] == ModuleView::Tape(tapes[i]),
    ensures
        tapes_at(nodes, anchors, k) == tapes.take(k),
    decreases k,
{
    if k == 0 {
        assert(tapes.take(0) =~= Seq::empty());
    } else {
        lemma_tapes_at_cluster(nodes, h, tapes, anchors, k - 1);
        let a = anchors[2 * (k - 1)];
        assert(a == (h + (2 * (k - 1)) / 2) as usize);
        assert((2 * (k - 1)) / 2 == k - 1);
        assert(nodes[h + (k - 1)] == ModuleView::Tape(tapes[k - 1]));
        assert(tapes.take(k - 1).push(tapes[k - 1]) =~= tapes.take(k));
    }
}

/// The words for the kinds of module stand for their kinds.
proof fn lemma_kind_words()
    ensures
        kind_of("timeline"@) == Kind::Timeline,
        kind_of("hammond"@) == Kind::Hammond,
        kind_of("arpeggio"@) == Kind::Arpeggio,
        kind_of("chord"@) == Kind::Chord,
        kind_of("keyboard"@) == Kind::Keyboard,
{
    reveal_strlit("timeline");
    reveal_strlit("hammond");
    reveal_strlit("arpeggio");
    reveal_strlit("chord");
    reveal_strlit("keyboard");
    assert("timeline"@.len() == 8 && "hammond"@.len() == 7 && "arpeggio"@.len() == 8 && "chord"@.len()
        == 5 && "keyboard"@.len() == 8);
    assert("timeline"@[0] != "arpeggio"@[0] && "timeline"@[0] != "keyboard"@[0] && "arpeggio"@[0]
        != "keyboard"@[0]);
}

/// A module that has just been added to a patch, written out and built
/// again in an empty patch, gives what the module itself gives there.
pub proof fn lemma_saved_fresh(p: PatchView, el: ElementView)
    requires
        with_module(p, el) is Ok,
        kind_of(el.name) != Kind::Patch,
        p.graph.nodes.len() + 2 <= usize::MAX,
        kind_of(el.name) == Kind::Timeline ==> p.graph.nodes.len() + el.tracks.len() + 2
            <= usize::MAX,
    ensures
        settled(with_module(p, el)->Ok_0.patch, el.id),
        saved(with_module(p, el)->Ok_0.patch, el.id).id == el.id,
        with_module(bare(), saved(with_module(p, el)->Ok_0.patch, el.id)) == with_module(bare(), el),
{
    lemma_kind_words();
    let w = with_module(p, el)->Ok_0.patch;
    let h = p.graph.nodes.len() as usize;
    match kind_of(el.name) {
        Kind::Timeline => {
            let read = read_all(el.params, el.marks, el.tracks)->Ok_0;
            let tapes = sort_tracks(read);
            let head = tape::read_header(el.params, el.marks)->Ok_0;
            let kept = tape::header_of(head);
            lemma_read_all_one(el.params, el.marks, el.tracks);
            lemma_sort_holds(read);
            lemma_sort_rises(read);
            lemma_sort_fixed(tapes);
            let n = tapes.len();
            let op = (h + n) as usize;
            assert(w == with_tracks(p, el.id, kept, tapes));
            let anchors = Seq::new(2 * n, |i: int| (h + i / 2) as usize);
            assert(w.graph.nodes[op as int] == ModuleView::Operator(Seq::empty(), anchors, el.id));
            if n == 0 {
                tape::lemma_header_write_read(tape::headed(kept));
                let s = saved(w, el.id);
                assert(s == written_header(kept, el.id));
                let back = tape::read_header(s.params, s.marks)->Ok_0;
                assert(tape::header_of(back) == kept);
                assert(read =~= Seq::empty());
                assert(read_all(s.params, s.marks, s.tracks) == Ok::<
                    Seq<tape::StoreView>,
                    LoadError,
                >(Seq::empty()));
            } else {
            assert forall|i: int| 0 <= i < anchors.len() implies #[trigger] anchors[i]
                < w.graph.nodes.len() by {
                assert(i / 2 < n) by (nonlinear_arith)
                    requires
                        0 <= i < 2 * n,
                ;
            }
            assert forall|i: int| 0 <= i < n implies #[trigger] w.graph.nodes[h + i]
                == ModuleView::Tape(tapes[i]) by {}
            lemma_tapes_at_cluster(w.graph.nodes, h as int, tapes, anchors, n as int);
            assert(tapes.take(n as int) =~= tapes);
            assert(anchors.len() as int / 2 == n);
            assert(anchors[0] == h);
            let t0 = tapes[0];
            assert(w.graph.nodes[h as int] == ModuleView::Tape(t0));
            assert(one_timeline(tapes)) by {
                assert forall|i: int| 0 <= i < tapes.len() implies tape::writable(
                    #[trigger] tapes[i],
                ) && tape::persisted(tapes[i]) == tapes[i] && same_header(tapes[i], tapes[0]) by {
                    let j = choose|j: int| 0 <= j < read.len() && tapes[i] == read[j];
                    let j0 = choose|j: int| 0 <= j < read.len() && tapes[0] == read[j];
                    assert(same_header(read[j], head));
                    assert(same_header(read[j0], head));
                }
            }
            lemma_read_all_written(t0, tapes);
            tape::lemma_header_write_read(t0);
            let s = saved(w, el.id);
            assert(s.params == tape::written_params(t0));
            assert(s.tracks == written_tracks(tapes));
            let back = tape::read_header(s.params, s.marks)->Ok_0;
            assert(same_header(t0, head)) by {
                let j0 = choose|j: int| 0 <= j < read.len() && tapes[0] == read[j];
                assert(same_header(read[j0], head));
            }
            assert(tape::header_of(back) == kept);
            }
        },
        Kind::Hammond => {
            synth::lemma_write_read(synth::read_bars(el.params));
        },
        Kind::Arpeggio => {
            arpeggio::lemma_read_fits(el.params);
            arpeggio::lemma_write_read(arpeggio::read_spec(el.params).length);
        },
        Kind::Chord => {
            chord::lemma_write_read(chord::read_spec(el.notes).intervals);
        },
        Kind::Keyboard => {
            lemma_lookup_at(written_octave(octave_of(el.params)), 0);
        },
        Kind::Plugin => {},
        Kind::Patch => {},
    }
}

/// The patch after the first `n` modules of a project are added.
pub open spec fn built(modules: Seq<Element>, n: int) -> Result<Wired, LoadError> {
    with_modules(Wired { patch: bare(), complete: true }, modules.take(n))
}

proof fn lemma_built_prefix(modules: Seq<Element>, n: int)
    requires
        0 <= n <= modules.len(),
        built(modules, modules.len() as int) is Ok,
    ensures
        built(modules, n) is Ok,
    decreases modules.len() - n,
{
    if n < modules.len() {
        lemma_built_prefix(modules, n + 1);
        assert(modules.take(n + 1).drop_last() =~= modules.take(n));
    }
}

/// Whether module `k` is the only module of the project with its id,
/// apart from the patch cables.
pub open spec fn only_one(modules: Seq<Element>, k: int) -> bool {
    forall|j: int|
        0 <= j < modules.len() && j != k && kind_of(#[trigger] modules[j]@.name) != Kind::Patch
            ==> modules[j]@.id != modules[k]@.id
}

proof fn lemma_built_keeps(modules: Seq<Element>, k: int, n: int)
    requires
        0 <= k < n <= modules.len(),
        built(modules, modules.len() as int) is Ok,
        only_one(modules, k),
    ensures
        built(modules, n) is Ok,
        built(modules, k + 1) is Ok,
        keeps(built(modules, k + 1)->Ok_0.patch, built(modules, n)->Ok_0.patch, modules[k]@.id),
    decreases n - k,
{
    lemma_built_prefix(modules, n);
    lemma_built_prefix(modules, k + 1);
    if n > k + 1 {
        lemma_built_keeps(modules, k, n - 1);
        assert(modules.take(n).drop_last() =~= modules.take(n - 1));
        assert(modules.take(n).last() == modules[n - 1]);
        let before = built(modules, n - 1)->Ok_0;
        lemma_module_keeps(before.patch, modules[n - 1]@, modules[k]@.id);
    }
}

/// A project's modules keep their ids and what they hold when the project
/// is opened and, with nothing done to the patch, written out again: each
/// module that is the only one with its id is in the directory of the
/// patch, is written out under its id, and, built again from what was
/// written, gives what the module itself gives.
pub proof fn lemma_round_trip(modules: Seq<Element>, k: int)
    requires
        opened(modules) is Ok,
        0 <= k < modules.len(),
        kind_of(modules[k]@.name) != Kind::Patch,
        only_one(modules, k),
        opened(modules)->Ok_0.patch.graph.nodes.len() < usize::MAX,
    ensures
        opened(modules)->Ok_0.patch.operators.contains_key(modules[k]@.id),
        saved(opened(modules)->Ok_0.patch, modules[k]@.id).id == modules[k]@.id,
        with_module(bare(), saved(opened(modules)->Ok_0.patch, modules[k]@.id)) == with_module(
            bare(),
            modules[k]@,
        ),
{
    let id = modules[k]@.id;
    let n = modules.len() as int;
    assert(modules.take(n) =~= modules);
    lemma_built_keeps(modules, k, n);
    lemma_built_prefix(modules, k);
    assert(modules.take(k + 1).drop_last() =~= modules.take(k));
    assert(modules.take(k + 1).last() == modules[k]);
    let before = built(modules, k)->Ok_0.patch;
    let fresh = built(modules, k + 1)->Ok_0.patch;
    let whole = built(modules, n)->Ok_0;
    assert(fresh == with_module(before, modules[k]@)->Ok_0.patch);
    assert(fresh.graph.nodes.len() <= whole.patch.graph.nodes.len());
    assert(whole.patch.graph.nodes.len() <= with_master_route(whole).patch.graph.nodes.len());
    lemma_grows(before, modules[k]@);
    lemma_saved_fresh(before, modules[k]@);
    lemma_saved_kept(fresh, whole.patch, id);
    let rooted = with_master_route(whole).patch;
    assert(keeps(whole.patch, rooted, id));
    lemma_saved_kept(whole.patch, rooted, id);
}

/// Adding a module adds at least two nodes for each of its tracks, or two
/// nodes if it is no timeline.
proof fn lemma_grows(p: PatchView, el: ElementView)
    requires
        with_module(p, el) is Ok,
        kind_of(el.name) != Kind::Patch,
    ensures
        kind_of(el.name) == Kind::Timeline ==> with_module(p, el)->Ok_0.patch.graph.nodes.len()
            == p.graph.nodes.len() + el.tracks.len() + 1,
        kind_of(el.name) != Kind::Timeline ==> with_module(p, el)->Ok_0.patch.graph.nodes.len()
            == p.graph.nodes.len() + 2,
{
    if kind_of(el.name) == Kind::Timeline {
        lemma_read_all_one(el.params, el.marks, el.tracks);
        lemma_sort_holds(read_all(el.params, el.marks, el.tracks)->Ok_0);
    }
}

/// Whether some module of the first `n` of a project, apart from the
/// patch cables, has the id `id`.
pub open spec fn names_module(modules: Seq<Element>, n: int, id: u16) -> bool {
    exists|j: int|
        0 <= j < n && kind_of(#[trigger] modules[j]@.name) != Kind::Patch && modules[j]@.id == id
}

/// Whether every module id in the directory leads to an operator of the
/// graph that carries that id.
pub open spec fn addressed(p: PatchView) -> bool {
    forall|id: u16| #[trigger]
        p.operators.contains_key(id) ==> p.operators[id] < p.graph.nodes.len() && (
        p.graph.nodes[p.operators[id] as int] matches ModuleView::Operator(_, _, carried)
            && carried == id)
}

/// Adding a module enters its id in the directory, under an operator that
/// carries the id, and takes no id out; adding patch cables leaves the
/// directory as it is.
pub proof fn lemma_module_addressed(p: PatchView, el: ElementView)
    requires
        addressed(p),
        with_module(p, el) is Ok,
        with_module(p, el)->Ok_0.patch.graph.nodes.len() <= usize::MAX,
    ensures
        addressed(with_module(p, el)->Ok_0.patch),
        forall|id: u16|
            with_module(p, el)->Ok_0.patch.operators.contains_key(id) <==> p.operators.contains_key(
                id,
            ) || (kind_of(el.name) != Kind::Patch && id == el.id),
{
    let w = with_module(p, el)->Ok_0.patch;
    crate::patch::lemma_module_grows(p, el);
    if kind_of(el.name) == Kind::Patch {
        lemma_routes_keep(Wired { patch: p, complete: true }, el.routes, 0);
    } else {
        lemma_grows(p, el);
    }
    assert forall|id: u16| #[trigger] w.operators.contains_key(id) implies w.operators[id]
        < w.graph.nodes.len() && (w.graph.nodes[w.operators[id] as int] matches ModuleView::Operator(
        _,
        _,
        carried,
    ) && carried == id) by {
        if kind_of(el.name) != Kind::Patch && id == el.id {
        } else {
            assert(p.operators.contains_key(id));
            assert(w.operators[id] == p.operators[id]);
            assert(crate::node::keeps_anchors(
                p.graph.nodes[p.operators[id] as int],
                w.graph.nodes[p.operators[id] as int],
            ));
        }
    }
}

/// After the first `n` modules of a project are added to a patch that
/// holds nothing but its root, the directory holds exactly the ids of those
/// modules, apart from the patch cables, and each id leads to an operator
/// that carries it.
pub proof fn lemma_built_ids(modules: Seq<Element>, n: int)
    requires
        0 <= n <= modules.len(),
        built(modules, n) is Ok,
        built(modules, n)->Ok_0.patch.graph.nodes.len() < usize::MAX,
    ensures
        addressed(built(modules, n)->Ok_0.patch),
        forall|id: u16|
            #![trigger built(modules, n)->Ok_0.patch.operators.contains_key(id)]
            #![trigger names_module(modules, n, id)]
            built(modules, n)->Ok_0.patch.operators.contains_key(id) <==> names_module(
                modules,
                n,
                id,
            ),
    decreases n,
{
    if n > 0 {
        assert(modules.take(n).drop_last() =~= modules.take(n - 1));
        assert(modules.take(n).last() == modules[n - 1]);
        let before = built(modules, n - 1)->Ok_0;
        let el = modules[n - 1]@;
        let after = built(modules, n)->Ok_0.patch;
        assert(after == with_module(before.patch, el)->Ok_0.patch);
        crate::patch::lemma_module_grows(before.patch, el);
        lemma_size(before.patch, el);
        lemma_built_ids(modules, n - 1);
        lemma_module_addressed(before.patch, el);
        assert forall|id: u16| after.operators.contains_key(id) <==> names_module(
            modules,
            n,
            id,
        ) by {
            if after.operators.contains_key(id) {
                if before.patch.operators.contains_key(id) {
                    assert(built(modules, n - 1)->Ok_0.patch.operators.contains_key(id));
                    assert(names_module(modules, n - 1, id));
                    let j = choose|j: int|
                        0 <= j < n - 1 && kind_of(#[trigger] modules[j]@.name) != Kind::Patch
                            && modules[j]@.id == id;
                    assert(kind_of(modules[j]@.name) != Kind::Patch && modules[j]@.id == id);
                } else {
                    assert(kind_of(modules[n - 1]@.name) != Kind::Patch && modules[n - 1]@.id == id);
                }
            }
            if names_module(modules, n, id) {
                let j = choose|j: int|
                    0 <= j < n && kind_of(#[trigger] modules[j]@.name) != Kind::Patch
                        && modules[j]@.id == id;
                if j < n - 1 {
                    assert(kind_of(modules[j]@.name) != Kind::Patch && modules[j]@.id == id);
                    assert(names_module(modules, n - 1, id));
                    assert(built(modules, n - 1)->Ok_0.patch.operators.contains_key(id));
                }
            }
        }
    } else {
        assert(modules.take(0) =~= Seq::<Element>::empty());
    }
}

/// Adding a module adds its nodes to those that are there: at most one for
/// each track element, and two more.
proof fn lemma_size(p: PatchView, el: ElementView)
    requires
        with_module(p, el) is Ok,
    ensures
        with_module(p, el)->Ok_0.patch.graph.nodes.len() >= p.graph.nodes.len(),
        kind_of(el.name) != Kind::Patch ==> with_module(p, el)->Ok_0.patch.graph.nodes.len()
            >= p.graph.nodes.len() + 1,
        kind_of(el.name) == Kind::Timeline ==> with_module(p, el)->Ok_0.patch.graph.nodes.len()
            == p.graph.nodes.len() + el.tracks.len() + 1,
{
    crate::patch::lemma_module_grows(p, el);
    if kind_of(el.name) != Kind::Patch {
        lemma_grows(p, el);
    }
}

/// The directory of a patch that was opened from a project holds exactly
/// the ids of the project's modules, apart from the patch cables, and each
/// id leads to an operator that carries it.
pub proof fn lemma_project_ids(modules: Seq<Element>)
    requires
        opened(modules) is Ok,
        opened(modules)->Ok_0.patch.graph.nodes.len() < usize::MAX,
    ensures
        addressed(opened(modules)->Ok_0.patch),
        forall|id: u16|
            #![trigger opened(modules)->Ok_0.patch.operators.contains_key(id)]
            #![trigger names_module(modules, modules.len() as int, id)]
            opened(modules)->Ok_0.patch.operators.contains_key(id) <==> names_module(
                modules,
                modules.len() as int,
                id,
            ),
{
    assert(modules.take(modules.len() as int) =~= modules);
    let whole = built(modules, modules.len() as int)->Ok_0;
    let rooted = with_master_route(whole).patch;
    lemma_built_ids(modules, modules.len() as int);
    assert forall|id: u16| #[trigger] rooted.operators.contains_key(id) implies rooted.operators[id]
        < rooted.graph.nodes.len() && (rooted.graph.nodes[rooted.operators[id] as int] matches ModuleView::Operator(
        _,
        _,
        carried,
    ) && carried == id) by {
        assert(whole.patch.operators.contains_key(id));
    }
}

} // verus!
