//! The state of the timeline view, as it is read from a project, and the
//! buttons of the timeline that turn a key press into a message for the
//! track.

use std::collections::HashMap;
use vstd::prelude::*;
use crate::action::{Action, Note, Offset};
use crate::directory::keys_of;
use crate::document::{find, lookup, named, Element, RegionEl, TrackView};

verus! {

/// A track as the view shows it.
#[derive(Clone, Copy, Debug, PartialEq, Eq, Structural)]
pub struct Track {
    pub id: u16,
    pub record: bool,
    pub mute: bool,
    pub solo: bool,
    /// The row of the track, counted from the top.
    pub index: u16,
}

/// A region as the view shows it.
#[derive(Clone, Copy, Debug, PartialEq, Eq, Structural)]
pub struct Region {
    pub asset_id: u16,
    pub asset_in: u32,
    pub asset_out: u32,
    pub offset: u32,
    pub track: u16,
}

/// An audio file as the view shows it.
pub struct Asset {
    pub src: String,
    pub duration: u32,
    pub channels: usize,
    pub waveform: Vec<(u8, u8)>,
}

pub struct TimelineState {
    pub tempo: u16,
    pub meter_beat: usize,
    pub meter_note: usize,
    pub seq_in: Offset,
    pub seq_out: Offset,
    pub loop_in: Offset,
    pub loop_out: Offset,
    pub sample_rate: u32,
    pub tracks: HashMap<u16, Track>,
    pub assets: HashMap<u16, Asset>,
    pub regions: HashMap<u16, Region>,
    pub notes: Vec<Note>,
    pub loop_mode: bool,
    pub tick: bool,
    pub playhead: Offset,
    pub zoom: usize,
    pub scroll_x: u16,
    pub scroll_y: u16,
    pub temp_tempo: Option<u16>,
    pub temp_zoom: Option<usize>,
    pub focus: (usize, usize),
}

/// The value of a parameter or mark, or `default` where the project gives
/// none.
pub open spec fn value_or<T>(entries: Seq<(Seq<char>, T)>, name: Seq<char>, default: T) -> T {
    match lookup(entries, name) {
        Some(v) => v,
        None => default,
    }
}

/// The tracks of the first `k` track elements of a timeline by their ids,
/// each on the row of its element. Of two elements with one id the later
/// counts.
pub open spec fn tracks_of(tracks: Seq<TrackView>, k: int) -> Map<u16, Track>
    decreases k,
{
    if k <= 0 {
        Map::empty()
    } else {
        tracks_of(tracks, k - 1).insert(
            tracks[k - 1].id,
            Track {
                id: tracks[k - 1].id,
                record: false,
                mute: false,
                solo: false,
                index: (k - 1) as u16,
            },
        )
    }
}

/// The region of the view for a region element on track `track`.
pub open spec fn region_of(el: RegionEl, track: u16) -> Region {
    Region {
        asset_id: el.asset,
        asset_in: el.asset_in,
        asset_out: el.asset_out,
        offset: el.offset,
        track,
    }
}

/// The regions by their ids after the first `k` region elements of a track
/// have joined `regions`.
pub open spec fn with_regions(regions: Map<u16, Region>, els: Seq<RegionEl>, track: u16, k: int) -> Map<
    u16,
    Region,
>
    decreases k,
{
    if k <= 0 {
        regions
    } else {
        with_regions(regions, els, track, k - 1).insert(els[k - 1].id, region_of(els[k - 1], track))
    }
}

/// The regions of the first `k` track elements of a timeline by their ids.
pub open spec fn regions_of(tracks: Seq<TrackView>, k: int) -> Map<u16, Region>
    decreases k,
{
    if k <= 0 {
        Map::empty()
    } else {
        with_regions(
            regions_of(tracks, k - 1),
            tracks[k - 1].regions,
            tracks[k - 1].id,
            tracks[k - 1].regions.len() as int,
        )
    }
}

/// The state of a timeline view that a project's module describes. What
/// the project does not give is set to the values of a new timeline.
pub fn read(doc: &Element) -> (state: TimelineState)
    requires
        doc.tracks@.len() <= u16::MAX,
    ensures
        state.tempo == value_or(doc@.params, "bpm"@, 127i32) as u16,
        state.meter_beat == value_or(doc@.params, "meter_beat"@, 4i32) as usize,
        state.meter_note == value_or(doc@.params, "meter_note"@, 4i32) as usize,
        state.seq_in == value_or(doc@.marks, "seq_in"@, 0u32),
        state.seq_out == value_or(doc@.marks, "seq_out"@, 48000u32),
        state.loop_in == value_or(doc@.marks, "loop_in"@, 0u32),
        state.loop_out == value_or(doc@.marks, "loop_out"@, 0u32),
        state.sample_rate == 44100,
        state.tracks@ == tracks_of(doc@.tracks, doc@.tracks.len() as int),
        state.regions@ == regions_of(doc@.tracks, doc@.tracks.len() as int),
        forall|id: u16|
            state.assets@.contains_key(id) <==> exists|i: int|
                0 <= i < doc.assets@.len() && #[trigger] doc.assets@[i].id == id,
        state.notes@.len() == 0,
        !state.loop_mode,
        state.tick,
        state.playhead == 0,
        state.zoom == 1,
        state.scroll_x == 0,
        state.scroll_y == 0,
        state.temp_tempo is None,
        state.temp_zoom is None,
        state.focus == (0usize, 0usize),
{
    broadcast use vstd::std_specs::hash::group_hash_axioms;

    let tempo = match find(&doc.params, "bpm") {
        Some(v) => v,
        None => 127,
    };
    let meter_beat = match find(&doc.params, "meter_beat") {
        Some(v) => v,
        None => 4,
    };
    let meter_note = match find(&doc.params, "meter_note") {
        Some(v) => v,
        None => 4,
    };
    let seq_in = match find(&doc.marks, "seq_in") {
        Some(v) => v,
        None => 0,
    };
    let seq_out = match find(&doc.marks, "seq_out") {
        Some(v) => v,
        None => 48000,
    };
    let loop_in = match find(&doc.marks, "loop_in") {
        Some(v) => v,
        None => 0,
    };
    let loop_out = match find(&doc.marks, "loop_out") {
        Some(v) => v,
        None => 0,
    };
    let mut tracks: HashMap<u16, Track> = HashMap::new();
    let mut regions: HashMap<u16, Region> = HashMap::new();
    let mut counter: u16 = 0;
    let n = doc.tracks.len();
    let mut k: usize = 0;
    while k < n
        invariant
            k <= n,
            n == doc.tracks@.len(),
            n <= u16::MAX,
            counter == k,
            tracks@ == tracks_of(doc@.tracks, k as int),
            regions@ == regions_of(doc@.tracks, k as int),
        decreases n - k,
    {
        let track = &doc.tracks[k];
        assert(doc@.tracks[k as int] == track@);
        let _ = tracks.insert(
            track.id,
            Track { id: track.id, record: false, mute: false, solo: false, index: counter },
        );
        let m = track.regions.len();
        let mut j: usize = 0;
        let ghost before = regions@;
        while j < m
            invariant
                j <= m,
                m == track.regions@.len(),
                regions@ == with_regions(before, track.regions@, track.id, j as int),
            decreases m - j,
        {
            let r = track.regions[j];
            let _ = regions.insert(
                r.id,
                Region {
                    asset_id: r.asset,
                    asset_in: r.asset_in,
                    asset_out: r.asset_out,
                    offset: r.offset,
                    track: track.id,
                },
            );
            j += 1;
        }
        counter += 1;
        k += 1;
    }
    let mut assets: HashMap<u16, Asset> = HashMap::new();
    let mut i: usize = 0;
    while i < doc.assets.len()
        invariant
            i <= doc.assets@.len(),
            forall|id: u16|
                assets@.contains_key(id) <==> exists|j: int|
                    0 <= j < i && #[trigger] doc.assets@[j].id == id,
        decreases doc.assets@.len() - i,
    {
        let a = &doc.assets[i];
        let ghost held = assets@;
        let _ = assets.insert(
            a.id,
            Asset { src: a.src.clone(), duration: a.size, channels: 2, waveform: Vec::new() },
        );
        proof {
            assert forall|id: u16| assets@.contains_key(id) <==> exists|j: int|
                0 <= j < i + 1 && #[trigger] doc.assets@[j].id == id by {
                if assets@.contains_key(id) {
                    if held.contains_key(id) {
                        let j = choose|j: int| 0 <= j < i && #[trigger] doc.assets@[j].id == id;
                        assert(doc.assets@[j].id == id);
                    } else {
                        assert(doc.assets@[i as int].id == id);
                    }
                }
                if exists|j: int| 0 <= j < i + 1 && #[trigger] doc.assets@[j].id == id {
                    let j = choose|j: int| 0 <= j < i + 1 && #[trigger] doc.assets@[j].id == id;
                    if j < i {
                        assert(held.contains_key(id));
                    }
                }
            }
        }
        i += 1;
    }
    TimelineState {
        tempo: #[verifier::truncate] (tempo as u16),
        meter_beat: #[verifier::truncate] (meter_beat as usize),
        meter_note: #[verifier::truncate] (meter_note as usize),
        seq_in,
        seq_out,
        loop_in,
        loop_out,
        sample_rate: 44100,
        tracks,
        assets,
        regions,
        notes: Vec::new(),
        loop_mode: false,
        tick: true,
        playhead: 0,
        zoom: 1,
        scroll_x: 0,
        scroll_y: 0,
        temp_tempo: None,
        temp_zoom: None,
        focus: (0, 0),
    }
}

/// The record button: the red key asks for recording, and a note that was
/// recorded passes through.
pub fn record_button(a: Action) -> (r: Action)
    ensures
        r == match a {
            Action::SelectR => Action::Record,
            Action::AddNote(_, _) => a,
            _ => Action::Noop,
        },
{
    match a {
        Action::SelectR => Action::Record,
        Action::AddNote(id, note) => Action::AddNote(id, note),
        _ => Action::Noop,
    }
}

/// The loop button: up, down and the yellow key switch looping on or off.
pub fn loop_button(state: &TimelineState, a: Action) -> (r: Action)
    ensures
        r == match a {
            Action::Up | Action::Down | Action::SelectY => Action::LoopMode(!state.loop_mode),
            _ => Action::Noop,
        },
{
    match a {
        Action::Up | Action::Down | Action::SelectY => Action::LoopMode(!state.loop_mode),
        _ => Action::Noop,
    }
}

/// The marker at the end of the loop: left and right move it by `step`
/// samples, but not below zero, and up puts it at the playhead. The loop
/// must not be moved past the last position.
pub fn loop_out_marker(state: &TimelineState, a: Action, step: Offset) -> (r: Action)
    requires
        a is Right ==> state.loop_out + step <= u32::MAX,
    ensures
        r == match a {
            Action::Left => Action::SetLoop(
                state.loop_in,
                if state.loop_out >= step {
                    (state.loop_out - step) as u32
                } else {
                    state.loop_out
                },
            ),
            Action::Right => Action::SetLoop(state.loop_in, (state.loop_out + step) as u32),
            Action::Up => Action::SetLoop(state.loop_in, state.playhead),
            _ => Action::Noop,
        },
{
    match a {
        Action::Left => Action::SetLoop(
            state.loop_in,
            if state.loop_out >= step {
                state.loop_out - step
            } else {
                state.loop_out
            },
        ),
        Action::Right => Action::SetLoop(state.loop_in, state.loop_out + step),
        Action::Up => Action::SetLoop(state.loop_in, state.playhead),
        _ => Action::Noop,
    }
}

/// The marker at the beginning of the loop: left and right move it by
/// `step` samples, but not below zero, and up puts it at the playhead.
/// The loop must not be moved past the last position.
pub fn loop_in_marker(state: &TimelineState, a: Action, step: Offset) -> (r: Action)
    requires
        a is Right ==> state.loop_in + step <= u32::MAX,
    ensures
        r == match a {
            Action::Left => Action::SetLoop(
                if state.loop_in >= step {
                    (state.loop_in - step) as u32
                } else {
                    state.loop_in
                },
                state.loop_out,
            ),
            Action::Right => Action::SetLoop((state.loop_in + step) as u32, state.loop_out),
            Action::Up => Action::SetLoop(state.playhead, state.loop_out),
            _ => Action::Noop,
        },
{
    match a {
        Action::Left => Action::SetLoop(
            if state.loop_in >= step {
                state.loop_in - step
            } else {
                state.loop_in
            },
            state.loop_out,
        ),
        Action::Right => Action::SetLoop(state.loop_in + step, state.loop_out),
        Action::Up => Action::SetLoop(state.playhead, state.loop_out),
        _ => Action::Noop,
    }
}

/// Whether `id` is the highest id among the tracks, or zero when there
/// are none.
pub open spec fn is_highest(tracks: Map<u16, Track>, id: u16) -> bool {
    &&& forall|k: u16| tracks.contains_key(k) ==> k <= id
    &&& id == 0 || tracks.contains_key(id)
}

/// The button for a new track: the blue key asks for a track with the id
/// after the highest in use. The ids must not be used up.
pub fn track_button(state: &TimelineState, a: Action) -> (r: Action)
    requires
        a is SelectB ==> !state.tracks@.contains_key(u16::MAX),
    ensures
        match a {
            Action::SelectB => r matches Action::AddTrack(id) && id > 0 && is_highest(
                state.tracks@,
                (id - 1) as u16,
            ),
            _ => r == Action::Noop,
        },
{
    match a {
        Action::SelectB => {
            let ids = keys_of(&state.tracks);
            let mut max: u16 = 0;
            let mut i: usize = 0;
            while i < ids.len()
                invariant
                    i <= ids@.len(),
                    forall|k: u16| ids@.contains(k) <==> state.tracks@.contains_key(k),
                    !state.tracks@.contains_key(u16::MAX),
                    forall|j: int| 0 <= j < i ==> ids@[j] <= max,
                    max == 0 || ids@.contains(max),
                    max < u16::MAX,
                decreases ids@.len() - i,
            {
                assert(ids@.contains(ids@[i as int]));
                if ids[i] > max {
                    max = ids[i];
                }
                i += 1;
            }
            proof {
                assert forall|k: u16| state.tracks@.contains_key(k) implies k <= max by {
                    assert(ids@.contains(k));
                    let j = choose|j: int| 0 <= j < ids@.len() && ids@[j] == k;
                    assert(ids@[j] <= max);
                }
            }
            Action::AddTrack(max + 1)
        },
        _ => Action::Noop,
    }
}

} // verus!
