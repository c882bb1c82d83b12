//! A tape track: transport, note recording and sample-accurate playback of
//! the notes it holds.
//!
//! The track is stepped once per sample. The sample data of its regions is
//! not kept here: a step reports the position that was played, and
//! `Region::sample_index` says which sample of a region sounds there.

use vstd::prelude::*;
use crate::action::{if_any, queue_view, Action, Key, Note, Offset, Param};
use vstd::string::StringExecFns;
use crate::document::{
    blank, blank_view, find, lemma_lookup_at, lookup, named, Element, ElementView, LoadError, RegionEl,
    Track, TrackView,
};

verus! {

/// A stretch of an audio asset placed on the track.
#[derive(Clone, Copy, Debug, PartialEq, Eq, Structural)]
pub struct Region {
    pub offset: u32,
    pub duration: u32,
    pub asset_in: u32,
    pub asset_out: u32,
    pub gain: Param,
    pub asset_id: u16,
}

impl Region {
    /// The sample of this region that sounds at `playhead`, if the region
    /// covers that position.
    pub open spec fn spec_sample_index(self, playhead: Offset) -> Option<u32> {
        if playhead >= self.offset && playhead - self.offset < self.duration {
            Some((playhead - self.offset) as u32)
        } else {
            None
        }
    }

    #[verifier::when_used_as_spec(spec_sample_index)]
    pub fn sample_index(self, playhead: Offset) -> (i: Option<u32>)
        ensures
            i == self.spec_sample_index(playhead),
    {
        if playhead >= self.offset && playhead - self.offset < self.duration {
            Some(playhead - self.offset)
        } else {
            None
        }
    }
}

pub struct Store {
    pub bpm: u16,
    pub meter_beat: usize,
    pub meter_note: usize,
    pub loop_on: bool,
    pub loop_in: u32,
    pub loop_out: u32,
    pub duration: u32,
    pub playhead: u32,
    pub regions: Vec<Region>,
    pub notes: Vec<Note>,
    pub velocity: i32,
    pub scrub: Option<bool>,
    pub recording: bool,
    pub monitor: bool,
    pub track_id: u16,
    pub out_queue: Vec<Action>,
    pub note_queue: Vec<Note>,
    pub sample_rate: u32,
    pub beat: u32,
}

/// The track as a mathematical value.
pub struct StoreView {
    pub bpm: u16,
    pub meter_beat: usize,
    pub meter_note: usize,
    pub loop_on: bool,
    pub loop_in: u32,
    pub loop_out: u32,
    pub duration: u32,
    pub playhead: u32,
    pub regions: Seq<Region>,
    pub notes: Seq<Note>,
    pub velocity: i32,
    pub scrub: Option<bool>,
    pub recording: bool,
    pub monitor: bool,
    pub track_id: u16,
    pub out_queue: Seq<Action>,
    pub note_queue: Seq<Note>,
    pub sample_rate: u32,
    pub beat: u32,
}

impl View for Store {
    type V = StoreView;

    open spec fn view(&self) -> StoreView {
        StoreView {
            bpm: self.bpm,
            meter_beat: self.meter_beat,
            meter_note: self.meter_note,
            loop_on: self.loop_on,
            loop_in: self.loop_in,
            loop_out: self.loop_out,
            duration: self.duration,
            playhead: self.playhead,
            regions: self.regions@,
            notes: self.notes@,
            velocity: self.velocity,
            scrub: self.scrub,
            recording: self.recording,
            monitor: self.monitor,
            track_id: self.track_id,
            out_queue: self.out_queue@,
            note_queue: self.note_queue@,
            sample_rate: self.sample_rate,
            beat: self.beat,
        }
    }
}

/// The track that carries the metronome.
pub const CLOCK_TRACK: u16 = 1;

/// A stopped, empty track that monitors its input.
pub open spec fn init_spec() -> StoreView {
    StoreView {
        bpm: 127,
        meter_beat: 4,
        meter_note: 4,
        loop_on: false,
        loop_in: 0,
        loop_out: 0,
        duration: 960000,
        playhead: 0,
        regions: Seq::empty(),
        notes: Seq::empty(),
        velocity: 0,
        scrub: None,
        recording: false,
        monitor: true,
        track_id: 0,
        out_queue: Seq::empty(),
        note_queue: Seq::empty(),
        sample_rate: 44180,
        beat: 0,
    }
}

pub fn init() -> (store: Store)
    ensures
        store@ == init_spec(),
{
    Store {
        bpm: 127,
        duration: 960000,
        meter_beat: 4,
        meter_note: 4,
        loop_on: false,
        loop_in: 0,
        loop_out: 0,
        playhead: 0,
        velocity: 0,
        scrub: None,
        monitor: true,
        recording: false,
        regions: Vec::new(),
        notes: Vec::new(),
        track_id: 0,
        out_queue: Vec::new(),
        note_queue: Vec::new(),
        sample_rate: 44180,
        beat: 0,
    }
}

/// Messages that go to the client rather than down the graph.
pub open spec fn for_client(a: Action) -> bool {
    a is AddNote || a is Tick
}

/// The part of a queue that goes to the outputs.
pub open spec fn output_part(q: Seq<Action>) -> Seq<Action> {
    q.filter(|a: Action| !for_client(a))
}

/// The part of a queue that goes to the client.
pub open spec fn client_part(q: Seq<Action>) -> Seq<Action> {
    q.filter(|a: Action| for_client(a))
}

/// Empties the outgoing queue: recorded notes and metronome ticks go to the
/// client, everything else to the outputs, each part in queue order.
pub fn dispatch_requested(store: &mut Store) -> (r: (
    Option<Vec<Action>>,
    Option<Vec<Action>>,
    Option<Vec<Action>>,
))
    ensures
        final(store)@ == (StoreView { out_queue: Seq::empty(), ..old(store)@ }),
        queue_view(r.0) == if_any(output_part(old(store)@.out_queue)),
        r.1 is None,
        queue_view(r.2) == if_any(client_part(old(store)@.out_queue)),
{
    let mut client_actions: Vec<Action> = Vec::new();
    let mut output_actions: Vec<Action> = Vec::new();
    let ghost client = |a: Action| for_client(a);
    let ghost output = |a: Action| !for_client(a);
    let n = store.out_queue.len();
    let mut i: usize = 0;
    proof {
        assert(store.out_queue@.take(0) =~= Seq::empty());
        Seq::<Action>::empty().lemma_filter_len(client);
        Seq::<Action>::empty().lemma_filter_len(output);
    }
    while i < n
        invariant
            i <= n,
            n == store.out_queue@.len(),
            *store == *old(store),
            client == (|a: Action| for_client(a)),
            output == (|a: Action| !for_client(a)),
            client_actions@ == store.out_queue@.take(i as int).filter(client),
            output_actions@ == store.out_queue@.take(i as int).filter(output),
        decreases n - i,
    {
        let a = store.out_queue[i].clone();
        proof {
            let prefix = store.out_queue@.take(i as int);
            assert(store.out_queue@.take(i + 1) =~= prefix.push(a));
            prefix.lemma_filter_push(a, client);
            prefix.lemma_filter_push(a, output);
        }
        match a {
            Action::AddNote(_, _) | Action::Tick(_) => client_actions.push(a),
            _ => output_actions.push(a),
        }
        i += 1;
    }
    proof {
        assert(store.out_queue@.take(n as int) =~= store.out_queue@);
    }
    store.out_queue.clear();
    (
        if output_actions.len() > 0 { Some(output_actions) } else { None },
        None,
        if client_actions.len() > 0 { Some(client_actions) } else { None },
    )
}

/// Direction in which the playhead moves: forward, backward or not at all.
/// While the track is scrubbing, the scrub direction decides and the
/// velocity is not consulted.
pub open spec fn motion(s: StoreView) -> int {
    match s.scrub {
        Some(true) => 1,
        Some(false) => -1,
        None => if s.velocity > 0 {
            1
        } else if s.velocity < 0 {
            -1
        } else {
            0
        },
    }
}

/// Index of the oldest held note of pitch `key` at or after `from`, or the
/// length of the list when there is none.
pub open spec fn find_held(q: Seq<Note>, key: Key, from: int) -> int
    decreases q.len() - from,
{
    if from >= q.len() {
        q.len() as int
    } else if q[from].note == key {
        from
    } else {
        find_held(q, key, from + 1)
    }
}

/// The held note `on`, closed at `playhead`.
pub open spec fn close_note(on: Note, playhead: Offset) -> Note {
    Note { id: on.id, t_in: on.t_in, t_out: playhead, note: on.note, vel: on.vel }
}

/// The track after a note-on: while recording, the note is held open from
/// the playhead; while monitoring, it is passed on.
pub open spec fn note_on_spec(s: StoreView, note: Key, vel: u8) -> StoreView {
    let held = Note { id: s.notes.len() as u16, t_in: s.playhead, t_out: 0, note, vel };
    StoreView {
        note_queue: if s.recording { s.note_queue.push(held) } else { s.note_queue },
        out_queue: if s.monitor { s.out_queue.push(Action::NoteOn(note, vel)) } else { s.out_queue },
        ..s
    }
}

/// The track after a note-off: while recording on a moving tape, the oldest
/// held note of that pitch is closed at the playhead, kept, and announced to
/// the client; while monitoring, the note-off is passed on.
pub open spec fn note_off_spec(s: StoreView, note: Key) -> StoreView {
    let at = find_held(s.note_queue, note, 0);
    let commits = at < s.note_queue.len() && s.recording && motion(s) != 0;
    let recorded = close_note(s.note_queue[at], s.playhead);
    let announced = if commits {
        s.out_queue.push(Action::AddNote(recorded.id, recorded))
    } else {
        s.out_queue
    };
    StoreView {
        note_queue: if commits { s.note_queue.remove(at) } else { s.note_queue },
        notes: if commits { s.notes.push(recorded) } else { s.notes },
        out_queue: if s.monitor { announced.push(Action::NoteOff(note)) } else { announced },
        ..s
    }
}

/// The track after one message. Play, stop and scrub set the transport;
/// the record toggle flips recording if it names the track's own id; goto
/// drops the held notes and moves the playhead; notes are recorded and
/// monitored. Any other message, a mute among them, leaves the track as it
/// is.
pub open spec fn dispatch_spec(s: StoreView, a: Action) -> StoreView {
    match a {
        Action::Scrub(_, dir) => StoreView { scrub: Some(dir), ..s },
        Action::Play(_) => StoreView { velocity: 1, scrub: None, ..s },
        Action::Stop(_) => StoreView {
            velocity: 0,
            scrub: None,
            playhead: if s.loop_on { s.loop_in } else { s.playhead },
            ..s
        },
        Action::RecordAt(_, t_id) => StoreView {
            recording: if s.track_id == t_id { !s.recording } else { s.recording },
            ..s
        },
        Action::Monitor(_) => StoreView { monitor: !s.monitor, ..s },
        Action::Loop(_, loop_in, loop_out) => StoreView { loop_in, loop_out, loop_on: true, ..s },
        Action::LoopOff(_) => StoreView { loop_on: false, ..s },
        Action::Goto(_, offset) => StoreView { note_queue: Seq::empty(), playhead: offset, ..s },
        Action::NoteOn(note, vel) => note_on_spec(s, note, vel),
        Action::NoteOff(note) => note_off_spec(s, note),
        _ => s,
    }
}

/// Whether the tape is moving.
fn moving(store: &Store) -> (m: bool)
    ensures
        m == (motion(store@) != 0),
{
    match store.scrub {
        Some(_) => true,
        None => store.velocity != 0,
    }
}

/// Position of the oldest held note of pitch `key`.
fn position_held(queue: &Vec<Note>, key: Key) -> (at: usize)
    ensures
        at == find_held(queue@, key, 0),
        at <= queue@.len(),
{
    let mut i: usize = 0;
    while i < queue.len() && queue[i].note != key
        invariant
            i <= queue@.len(),
            find_held(queue@, key, 0) == find_held(queue@, key, i as int),
        decreases queue@.len() - i,
    {
        i += 1;
    }
    i
}

/// Applies one message to the track.
pub fn dispatch(store: &mut Store, a: Action)
    ensures
        final(store)@ == dispatch_spec(old(store)@, a),
{
    match a {
        Action::Scrub(_, dir) => {
            store.scrub = Some(dir);
        },
        Action::Play(_) => {
            store.velocity = 1;
            store.scrub = None;
        },
        Action::Stop(_) => {
            store.velocity = 0;
            store.scrub = None;
            if store.loop_on {
                store.playhead = store.loop_in;
            }
        },
        Action::RecordAt(_, t_id) => {
            if store.track_id == t_id {
                store.recording = !store.recording;
            }
        },
        Action::Monitor(_) => {
            store.monitor = !store.monitor;
        },
        Action::Loop(_, loop_in, loop_out) => {
            store.loop_in = loop_in;
            store.loop_out = loop_out;
            store.loop_on = true;
        },
        Action::LoopOff(_) => {
            store.loop_on = false;
        },
        Action::Goto(_, offset) => {
            store.note_queue.clear();
            store.playhead = offset;
        },
        Action::NoteOn(note, vel) => {
            if store.recording {
                let id = #[verifier::truncate] (store.notes.len() as u16);
                store.note_queue.push(Note { id, t_in: store.playhead, t_out: 0, note, vel });
            }
            if store.monitor {
                store.out_queue.push(Action::NoteOn(note, vel));
            }
        },
        Action::NoteOff(note) => {
            let on_index = position_held(&store.note_queue, note);
            if on_index < store.note_queue.len() && store.recording && moving(store) {
                let on_note = store.note_queue.remove(on_index);
                let recorded_note = Note {
                    id: on_note.id,
                    t_in: on_note.t_in,
                    t_out: store.playhead,
                    note: on_note.note,
                    vel: on_note.vel,
                };
                store.out_queue.push(Action::AddNote(recorded_note.id, recorded_note));
                store.notes.push(recorded_note);
            }
            if store.monitor {
                store.out_queue.push(Action::NoteOff(note));
            }
        },
        _ => {},
    }
}

/// The note-ons and note-offs of the kept notes that fall on position `p`,
/// in the order in which the notes were recorded.
pub open spec fn note_events(notes: Seq<Note>, p: Offset) -> Seq<Action>
    decreases notes.len(),
{
    if notes.len() == 0 {
        Seq::empty()
    } else {
        let n = notes.last();
        let before = note_events(notes.drop_last(), p);
        let on = if n.t_in == p { before.push(Action::NoteOn(n.note, n.vel)) } else { before };
        if n.t_out == p { on.push(Action::NoteOff(n.note)) } else { on }
    }
}

/// Whether the track plays forward at normal speed.
pub open spec fn playing_forward(s: StoreView) -> bool {
    s.scrub is None && s.velocity > 0
}

/// Whether a step at the current position sounds the metronome: only the
/// clock track does, once every `beat` samples.
pub open spec fn ticks(s: StoreView) -> bool {
    s.beat > 0 && s.playhead % s.beat == 0 && s.track_id == CLOCK_TRACK
}

/// Where the playhead stands after a step of a moving tape: one sample on
/// (the last position a track can hold is not left), or one sample back
/// down to the start; a looping track that plays forward onto the end of
/// its loop starts over at the loop's beginning.
pub open spec fn next_playhead(s: StoreView) -> u32 {
    let p = s.playhead;
    let moved = if motion(s) > 0 {
        if p < u32::MAX { (p + 1) as u32 } else { p }
    } else if p > 0 {
        (p - 1) as u32
    } else {
        p
    };
    if s.loop_on && playing_forward(s) && moved == s.loop_out {
        s.loop_in
    } else {
        moved
    }
}

/// The track after one sample. A tape at rest does nothing. A moving tape
/// plays the notes that fall on the playhead, sounds the metronome, and
/// moves on; a tape that runs backward into the start stops there.
pub open spec fn compute_spec(s: StoreView) -> StoreView {
    if motion(s) == 0 {
        s
    } else {
        let played = s.out_queue + note_events(s.notes, s.playhead);
        let halted = motion(s) < 0 && s.playhead == 0;
        StoreView {
            out_queue: if ticks(s) { played.push(Action::Tick(s.playhead)) } else { played },
            playhead: next_playhead(s),
            scrub: if halted { None } else { s.scrub },
            velocity: if halted { 0 } else { s.velocity },
            ..s
        }
    }
}

/// The position whose audio a step renders, if the tape is moving.
pub open spec fn rendered(s: StoreView) -> Option<Offset> {
    if motion(s) == 0 { None } else { Some(s.playhead) }
}

/// Steps the track by one sample and returns the position that was played,
/// or `None` for a tape at rest.
pub fn compute(store: &mut Store) -> (at: Option<Offset>)
    ensures
        final(store)@ == compute_spec(old(store)@),
        at == rendered(old(store)@),
{
    if !moving(store) {
        return None;
    }
    let playhead = store.playhead;
    let forward = match store.scrub {
        Some(dir) => dir,
        None => store.velocity > 0,
    };
    let playing = store.scrub.is_none() && store.velocity > 0;
    let n = store.notes.len();
    let mut i: usize = 0;
    proof {
        assert(store.notes@.take(0) =~= Seq::empty());
    }
    while i < n
        invariant
            i <= n,
            n == store.notes@.len(),
            store@ == (StoreView {
                out_queue: old(store)@.out_queue + note_events(store.notes@.take(i as int), playhead),
                ..old(store)@
            }),
        decreases n - i,
    {
        let note = store.notes[i];
        proof {
            assert(store.notes@.take(i + 1).drop_last() =~= store.notes@.take(i as int));
        }
        if note.t_in == playhead {
            store.out_queue.push(Action::NoteOn(note.note, note.vel));
        }
        if note.t_out == playhead {
            store.out_queue.push(Action::NoteOff(note.note));
        }
        i += 1;
    }
    proof {
        assert(store.notes@.take(n as int) =~= store.notes@);
    }
    if !forward && playhead == 0 {
        store.scrub = None;
        store.velocity = 0;
    }
    if store.beat > 0 && playhead % store.beat == 0 && store.track_id == CLOCK_TRACK {
        store.out_queue.push(Action::Tick(playhead));
    }
    store.playhead = if forward {
        if playhead < u32::MAX { playhead + 1 } else { playhead }
    } else if playhead > 0 {
        playhead - 1
    } else {
        playhead
    };
    if store.loop_on && playing && store.playhead == store.loop_out {
        store.playhead = store.loop_in;
    }
    Some(playhead)
}

/// Gain of a region that a project places on a track: full scale.
pub const UNITY: Param = 1000;

/// The region that a project's region element describes.
pub open spec fn region_of(el: RegionEl) -> Region {
    Region {
        offset: el.offset,
        duration: (el.asset_out - el.asset_in) as u32,
        asset_in: el.asset_in,
        asset_out: el.asset_out,
        gain: UNITY,
        asset_id: el.asset,
    }
}

/// The regions that a track's region elements describe, in their order. A
/// region that ends before it begins is out of range.
pub open spec fn regions_of(els: Seq<RegionEl>) -> Result<Seq<Region>, LoadError>
    decreases els.len(),
{
    if els.len() == 0 {
        Ok(Seq::empty())
    } else {
        match regions_of(els.drop_last()) {
            Err(e) => Err(e),
            Ok(before) => if els.last().asset_out < els.last().asset_in {
                Err(LoadError::Range)
            } else {
                Ok(before.push(region_of(els.last())))
            },
        }
    }
}

/// The empty track that a timeline's parameters and marks describe. The
/// tempo `bpm`, the meter `meter_beat` over `meter_note`, and the marks
/// `seq_in`, `seq_out`, `loop_in` and `loop_out` must all be there; the
/// tempo must be a positive number of at most sixteen bits, the meter not
/// negative, and the sequence must not end before it begins.
pub open spec fn read_header(
    params: Seq<(Seq<char>, Param)>,
    marks: Seq<(Seq<char>, Offset)>,
) -> Result<
    StoreView,
    LoadError,
> {
    let bpm = lookup(params, "bpm"@);
    let seq_out = lookup(marks, "seq_out"@);
    let seq_in = lookup(marks, "seq_in"@);
    let meter_beat = lookup(params, "meter_beat"@);
    let meter_note = lookup(params, "meter_note"@);
    let loop_in = lookup(marks, "loop_in"@);
    let loop_out = lookup(marks, "loop_out"@);
    if bpm is None {
        Err(LoadError::Missing)
    } else if bpm->0 < 0 || bpm->0 > u16::MAX {
        Err(LoadError::Range)
    } else if seq_out is None || seq_in is None {
        Err(LoadError::Missing)
    } else if seq_out->0 < seq_in->0 {
        Err(LoadError::Range)
    } else if meter_beat is None {
        Err(LoadError::Missing)
    } else if meter_beat->0 < 0 {
        Err(LoadError::Range)
    } else if meter_note is None {
        Err(LoadError::Missing)
    } else if meter_note->0 < 0 {
        Err(LoadError::Range)
    } else if loop_in is None || loop_out is None {
        Err(LoadError::Missing)
    } else if bpm->0 == 0 {
        Err(LoadError::Range)
    } else {
        Ok(
            StoreView {
                bpm: bpm->0 as u16,
                duration: (seq_out->0 - seq_in->0) as u32,
                meter_beat: meter_beat->0 as usize,
                meter_note: meter_note->0 as usize,
                loop_in: loop_in->0,
                loop_out: loop_out->0,
                beat: ((60 * init_spec().sample_rate) / (bpm->0 as int)) as u32,
                ..init_spec()
            },
        )
    }
}

/// What reading one track from a timeline gives: the track described by
/// the timeline's header and by the first track element left, nothing when
/// no track element is left, or the reason why the timeline cannot be
/// read.
pub open spec fn read_spec(
    params: Seq<(Seq<char>, Param)>,
    marks: Seq<(Seq<char>, Offset)>,
    tracks: Seq<TrackView>,
) -> Result<Option<StoreView>, LoadError> {
    match read_header(params, marks) {
        Err(e) => Err(e),
        Ok(header) => if tracks.len() == 0 {
            Ok(None)
        } else {
            match regions_of(tracks[0].regions) {
                Err(e) => Err(e),
                Ok(regions) => Ok(Some(StoreView { track_id: tracks[0].id, regions, ..header })),
            }
        },
    }
}

fn read_regions(els: &Vec<RegionEl>) -> (r: Result<Vec<Region>, LoadError>)
    ensures
        match r {
            Ok(v) => regions_of(els@) == Ok::<Seq<Region>, LoadError>(v@),
            Err(e) => regions_of(els@) == Err::<Seq<Region>, LoadError>(e),
        },
{
    let mut regions: Vec<Region> = Vec::new();
    let mut i: usize = 0;
    assert(els@.take(0) =~= Seq::<RegionEl>::empty());
    while i < els.len()
        invariant
            i <= els@.len(),
            regions_of(els@.take(i as int)) == Ok::<Seq<Region>, LoadError>(regions@),
        decreases els@.len() - i,
    {
        let el = els[i];
        proof {
            assert(els@.take(i + 1).drop_last() =~= els@.take(i as int));
        }
        if el.asset_out < el.asset_in {
            proof {
                lemma_regions_fail(els@, i + 1);
            }
            return Err(LoadError::Range);
        }
        regions.push(
            Region {
                offset: el.offset,
                gain: UNITY,
                duration: el.asset_out - el.asset_in,
                asset_id: el.asset,
                asset_in: el.asset_in,
                asset_out: el.asset_out,
            },
        );
        i += 1;
    }
    assert(els@.take(els@.len() as int) =~= els@);
    Ok(regions)
}

/// Once a region is out of range, adding more regions does not mend it.
proof fn lemma_regions_fail(els: Seq<RegionEl>, k: int)
    requires
        0 <= k <= els.len(),
        regions_of(els.take(k)) is Err,
    ensures
        regions_of(els) == regions_of(els.take(k)),
    decreases els.len() - k,
{
    if k < els.len() {
        assert(els.take(k + 1).drop_last() =~= els.take(k));
        lemma_regions_fail(els, k + 1);
    } else {
        assert(els.take(k) =~= els);
    }
}

/// What a timeline holds for all its tracks alike: tempo, meter, loop and
/// length.
#[derive(Clone, Copy, Debug, PartialEq, Eq, Structural)]
pub struct Header {
    pub bpm: u16,
    pub meter_beat: usize,
    pub meter_note: usize,
    pub loop_in: u32,
    pub loop_out: u32,
    pub duration: u32,
}

/// The header of a track.
pub open spec fn header_of(s: StoreView) -> Header {
    Header {
        bpm: s.bpm,
        meter_beat: s.meter_beat,
        meter_note: s.meter_note,
        loop_in: s.loop_in,
        loop_out: s.loop_out,
        duration: s.duration,
    }
}

/// A new track under a header.
pub open spec fn headed(h: Header) -> StoreView {
    StoreView {
        bpm: h.bpm,
        meter_beat: h.meter_beat,
        meter_note: h.meter_note,
        loop_in: h.loop_in,
        loop_out: h.loop_out,
        duration: h.duration,
        ..init_spec()
    }
}

/// The header of a track.
pub fn header(s: &Store) -> (h: Header)
    ensures
        h == header_of(s@),
{
    Header {
        bpm: s.bpm,
        meter_beat: s.meter_beat,
        meter_note: s.meter_note,
        loop_in: s.loop_in,
        loop_out: s.loop_out,
        duration: s.duration,
    }
}

/// A new track under a header.
pub fn headed_store(h: Header) -> (s: Store)
    ensures
        s@ == headed(h),
{
    let mut s = init();
    s.bpm = h.bpm;
    s.meter_beat = h.meter_beat;
    s.meter_note = h.meter_note;
    s.loop_in = h.loop_in;
    s.loop_out = h.loop_out;
    s.duration = h.duration;
    s
}

/// Reads the empty track that a timeline's parameters and marks describe.
pub fn read_head(doc: &Element) -> (r: Result<Store, LoadError>)
    ensures
        match r {
            Ok(store) => read_header(doc@.params, doc@.marks) == Ok::<StoreView, LoadError>(store@),
            Err(e) => read_header(doc@.params, doc@.marks) == Err::<StoreView, LoadError>(e),
        },
{
    let mut store = init();
    let bpm = match find(&doc.params, "bpm") {
        Some(v) => v,
        None => { return Err(LoadError::Missing); },
    };
    if bpm < 0 || bpm > 65535 {
        return Err(LoadError::Range);
    }
    let seq_out = find(&doc.marks, "seq_out");
    let seq_in = find(&doc.marks, "seq_in");
    let (seq_out, seq_in) = match (seq_out, seq_in) {
        (Some(o), Some(i)) => (o, i),
        _ => { return Err(LoadError::Missing); },
    };
    if seq_out < seq_in {
        return Err(LoadError::Range);
    }
    let meter_beat = match find(&doc.params, "meter_beat") {
        Some(v) => v,
        None => { return Err(LoadError::Missing); },
    };
    if meter_beat < 0 {
        return Err(LoadError::Range);
    }
    let meter_note = match find(&doc.params, "meter_note") {
        Some(v) => v,
        None => { return Err(LoadError::Missing); },
    };
    if meter_note < 0 {
        return Err(LoadError::Range);
    }
    let loop_in = find(&doc.marks, "loop_in");
    let loop_out = find(&doc.marks, "loop_out");
    let (loop_in, loop_out) = match (loop_in, loop_out) {
        (Some(i), Some(o)) => (i, o),
        _ => { return Err(LoadError::Missing); },
    };
    if bpm == 0 {
        return Err(LoadError::Range);
    }
    store.bpm = bpm as u16;
    store.duration = seq_out - seq_in;
    store.meter_beat = meter_beat as usize;
    store.meter_note = meter_note as usize;
    store.loop_in = loop_in;
    store.loop_out = loop_out;
    store.beat = (60 * store.sample_rate) / (store.bpm as u32);
    Ok(store)
}

/// Reads one track from a timeline and takes its element out of `doc`.
/// Returns nothing when no track element is left. When the timeline cannot
/// be read, `doc` is left as it was.
pub fn read(doc: &mut Element) -> (r: Result<Option<Store>, LoadError>)
    ensures
        match r {
            Ok(Some(store)) => read_spec(old(doc)@.params, old(doc)@.marks, old(doc)@.tracks)
                == Ok::<Option<StoreView>, LoadError>(Some(store@))
                && final(doc).tracks@ == old(doc).tracks@.drop_first(),
            Ok(None) => read_spec(old(doc)@.params, old(doc)@.marks, old(doc)@.tracks) == Ok::<
                Option<StoreView>,
                LoadError,
            >(None) && final(doc).tracks@ == old(doc).tracks@,
            Err(e) => read_spec(old(doc)@.params, old(doc)@.marks, old(doc)@.tracks) == Err::<
                Option<StoreView>,
                LoadError,
            >(e) && final(doc).tracks@ == old(doc).tracks@,
        },
        final(doc).id == old(doc).id,
        final(doc).name == old(doc).name,
        final(doc).params == old(doc).params,
        final(doc).marks == old(doc).marks,
        final(doc).assets == old(doc).assets,
        final(doc).notes == old(doc).notes,
        final(doc).routes == old(doc).routes,
{
    let mut store = match read_head(doc) {
        Ok(store) => store,
        Err(e) => { return Err(e); },
    };
    if doc.tracks.len() == 0 {
        return Ok(None);
    }
    let regions = match read_regions(&doc.tracks[0].regions) {
        Ok(v) => v,
        Err(e) => { return Err(e); },
    };
    let track = doc.tracks.remove(0);
    assert(doc.tracks@ =~= old(doc).tracks@.drop_first());
    store.track_id = track.id;
    store.regions = regions;
    Ok(Some(store))
}

/// The track after `k` samples.
pub open spec fn run(s: StoreView, k: nat) -> StoreView
    decreases k,
{
    if k == 0 {
        s
    } else {
        compute_spec(run(s, (k - 1) as nat))
    }
}

/// Number of metronome ticks in a queue.
pub open spec fn tick_count(q: Seq<Action>) -> nat {
    q.filter(|a: Action| a is Tick).len()
}

/// Number of positions from `p` up to, not including, `p + k` that are
/// multiples of `beat`.
pub open spec fn beats_in(p: int, k: nat, beat: int) -> nat
    decreases k,
{
    if k == 0 {
        0
    } else {
        beats_in(p, (k - 1) as nat, beat) + if (p + k - 1) % beat == 0 {
            1nat
        } else {
            0nat
        }
    }
}

/// Number of multiples of `beat` below `x`.
spec fn beats_below(x: int, beat: int) -> int {
    (x + beat - 1) / beat
}

proof fn lemma_beats_below_step(x: int, beat: int)
    requires
        0 <= x,
        0 < beat,
    ensures
        beats_below(x + 1, beat) == beats_below(x, beat) + if x % beat == 0 {
            1int
        } else {
            0int
        },
{
    let y = x + beat - 1;
    vstd::arithmetic::div_mod::lemma_fundamental_div_mod(y, beat);
    vstd::arithmetic::div_mod::lemma_fundamental_div_mod(y + 1, beat);
    vstd::arithmetic::div_mod::lemma_mod_add_multiples_vanish(x, beat);
    vstd::arithmetic::div_mod::lemma_mod_pos_bound(y, beat);
    vstd::arithmetic::div_mod::lemma_mod_pos_bound(y + 1, beat);
    let q0 = y / beat;
    let q1 = (y + 1) / beat;
    let r0 = y % beat;
    let r1 = (y + 1) % beat;
    assert(beat * (q1 - q0) == 1 + r0 - r1) by (nonlinear_arith)
        requires
            y == beat * q0 + r0,
            y + 1 == beat * q1 + r1,
    ;
    assert(q1 - q0 == 0 || q1 - q0 == 1) by (nonlinear_arith)
        requires
            beat * (q1 - q0) == 1 + r0 - r1,
            0 <= r0 < beat,
            0 <= r1 < beat,
            0 < beat,
    ;
    if q1 - q0 == 1 {
        assert(r1 == 0) by (nonlinear_arith)
            requires
                beat * (q1 - q0) == 1 + r0 - r1,
                q1 - q0 == 1,
                0 <= r0 < beat,
                0 <= r1 < beat,
        ;
    } else {
        assert(r1 != 0) by (nonlinear_arith)
            requires
                beat * (q1 - q0) == 1 + r0 - r1,
                q1 - q0 == 0,
                0 <= r0 < beat,
                0 <= r1 < beat,
        ;
    }
    assert((y + 1) % beat == x % beat);
}

proof fn lemma_beats_in(p: int, k: nat, beat: int)
    requires
        0 <= p,
        0 < beat,
    ensures
        beats_in(p, k, beat) == beats_below(p + k, beat) - beats_below(p, beat),
    decreases k,
{
    if k > 0 {
        lemma_beats_in(p, (k - 1) as nat, beat);
        lemma_beats_below_step(p + k - 1, beat);
    }
}

/// Any `beat` positions in a row hold exactly one multiple of `beat`.
pub proof fn lemma_one_beat_per_window(p: int, beat: int)
    requires
        0 <= p,
        0 < beat,
    ensures
        beats_in(p, beat as nat, beat) == 1,
{
    lemma_beats_in(p, beat as nat, beat);
    vstd::arithmetic::div_mod::lemma_div_plus_one(p + beat - 1, beat);
}

/// The notes on a track are no metronome ticks.
proof fn lemma_notes_do_not_tick(q: Seq<Action>, notes: Seq<Note>, p: Offset)
    ensures
        tick_count(q + note_events(notes, p)) == tick_count(q),
    decreases notes.len(),
{
    let is_tick = |a: Action| a is Tick;
    if notes.len() == 0 {
        assert(q + note_events(notes, p) =~= q);
    } else {
        let n = notes.last();
        let before = note_events(notes.drop_last(), p);
        lemma_notes_do_not_tick(q, notes.drop_last(), p);
        let on = if n.t_in == p { before.push(Action::NoteOn(n.note, n.vel)) } else { before };
        if n.t_in == p {
            (q + before).lemma_filter_push(Action::NoteOn(n.note, n.vel), is_tick);
            assert((q + before).push(Action::NoteOn(n.note, n.vel)) =~= q + on);
        }
        if n.t_out == p {
            (q + on).lemma_filter_push(Action::NoteOff(n.note), is_tick);
            assert((q + on).push(Action::NoteOff(n.note)) =~= q + note_events(notes, p));
        }
    }
}

/// A step adds one tick to the queue when it sounds the metronome, and
/// none otherwise.
pub proof fn lemma_step_ticks(s: StoreView)
    ensures
        tick_count(compute_spec(s).out_queue) == tick_count(s.out_queue) + if motion(s) != 0
            && ticks(s) {
            1nat
        } else {
            0nat
        },
{
    if motion(s) != 0 {
        let played = s.out_queue + note_events(s.notes, s.playhead);
        lemma_notes_do_not_tick(s.out_queue, s.notes, s.playhead);
        if ticks(s) {
            played.lemma_filter_push(Action::Tick(s.playhead), |a: Action| a is Tick);
        }
    }
}

/// A track that plays forward without looping moves one position per
/// sample, and its queue gains one tick for every beat it passes if it is
/// the clock track.
proof fn lemma_run_forward(s: StoreView, k: nat)
    requires
        playing_forward(s),
        !s.loop_on,
        s.playhead + k <= u32::MAX,
        s.beat > 0,
    ensures
        playing_forward(run(s, k)),
        !run(s, k).loop_on,
        run(s, k).playhead == s.playhead + k,
        run(s, k).beat == s.beat,
        run(s, k).track_id == s.track_id,
        tick_count(run(s, k).out_queue) == tick_count(s.out_queue) + if s.track_id
            == CLOCK_TRACK {
            beats_in(s.playhead as int, k, s.beat as int)
        } else {
            0nat
        },
    decreases k,
{
    if k > 0 {
        lemma_run_forward(s, (k - 1) as nat);
        lemma_step_ticks(run(s, (k - 1) as nat));
    }
}

/// The clock track sounds the metronome exactly once in every stretch of
/// `beat` samples that it plays forward without looping.
pub proof fn lemma_one_tick_per_beat(s: StoreView)
    requires
        playing_forward(s),
        !s.loop_on,
        s.track_id == CLOCK_TRACK,
        s.beat > 0,
        s.playhead + s.beat <= u32::MAX,
    ensures
        tick_count(run(s, s.beat as nat).out_queue) == tick_count(s.out_queue) + 1,
{
    lemma_run_forward(s, s.beat as nat);
    lemma_one_beat_per_window(s.playhead as int, s.beat as int);
}

/// A track that is not the clock track never sounds the metronome, however
/// long it runs.
pub proof fn lemma_only_clock_ticks(s: StoreView, k: nat)
    requires
        s.track_id != CLOCK_TRACK,
    ensures
        run(s, k).track_id == s.track_id,
        tick_count(run(s, k).out_queue) == tick_count(s.out_queue),
    decreases k,
{
    if k > 0 {
        lemma_only_clock_ticks(s, (k - 1) as nat);
        lemma_step_ticks(run(s, (k - 1) as nat));
    }
}

/// A meter as a parameter value, held to what a parameter can hold.
pub open spec fn as_param(meter: usize) -> Param {
    if meter > i32::MAX {
        i32::MAX
    } else {
        meter as i32
    }
}

/// The parameters that hold a track's tempo and meter in a project.
pub open spec fn written_params(s: StoreView) -> Seq<(Seq<char>, Param)> {
    seq![
        ("bpm"@, s.bpm as i32),
        ("meter_beat"@, as_param(s.meter_beat)),
        ("meter_note"@, as_param(s.meter_note)),
    ]
}

/// The marks that hold a track's loop and length in a project: the
/// sequence begins at zero and ends at the track's duration.
pub open spec fn written_marks(s: StoreView) -> Seq<(Seq<char>, Offset)> {
    seq![("loop_in"@, s.loop_in), ("loop_out"@, s.loop_out), ("seq_out"@, s.duration), ("seq_in"@, 0u32)]
}

/// The element that holds a region in a project.
pub open spec fn written_region(r: Region, i: int) -> RegionEl {
    RegionEl {
        id: i as u16,
        asset: r.asset_id,
        offset: r.offset,
        asset_in: r.asset_in,
        asset_out: r.asset_out,
    }
}

/// The track element that holds a track in a project.
pub open spec fn written_track(s: StoreView) -> TrackView {
    TrackView {
        id: s.track_id,
        regions: Seq::new(s.regions.len(), |i: int| written_region(s.regions[i], i)),
    }
}

/// The timeline that holds one track in a project.
pub open spec fn written(s: StoreView, id: u16) -> ElementView {
    ElementView {
        params: written_params(s),
        marks: written_marks(s),
        tracks: seq![written_track(s)],
        ..blank_view(id, "timeline"@)
    }
}

/// The track element that holds the track in a project.
pub fn write_track(s: &Store) -> (track: Track)
    ensures
        track@ == written_track(s@),
{
    let mut regions: Vec<RegionEl> = Vec::new();
    let n = s.regions.len();
    let mut i: usize = 0;
    while i < n
        invariant
            i <= n,
            n == s.regions@.len(),
            regions@ =~= Seq::new(i as nat, |j: int| written_region(s.regions@[j], j)),
        decreases n - i,
    {
        let r = s.regions[i];
        regions.push(
            RegionEl {
                id: #[verifier::truncate] (i as u16),
                asset: r.asset_id,
                offset: r.offset,
                asset_in: r.asset_in,
                asset_out: r.asset_out,
            },
        );
        i += 1;
    }
    Track { id: s.track_id, regions }
}

/// The parameters and marks that hold the track's tempo, meter, loop and
/// length in a project.
pub fn write_header(s: &Store) -> (r: (Vec<(String, Param)>, Vec<(String, Offset)>))
    ensures
        named(r.0@) == written_params(s@),
        named(r.1@) == written_marks(s@),
{
    let mut params: Vec<(String, Param)> = Vec::new();
    let beat: Param = if s.meter_beat > 2147483647 { 2147483647 } else { s.meter_beat as i32 };
    let note: Param = if s.meter_note > 2147483647 { 2147483647 } else { s.meter_note as i32 };
    params.push((String::from_str("bpm"), s.bpm as i32));
    params.push((String::from_str("meter_beat"), beat));
    params.push((String::from_str("meter_note"), note));
    assert(named(params@) =~= written_params(s@));
    let mut marks: Vec<(String, Offset)> = Vec::new();
    marks.push((String::from_str("loop_in"), s.loop_in));
    marks.push((String::from_str("loop_out"), s.loop_out));
    marks.push((String::from_str("seq_out"), s.duration));
    marks.push((String::from_str("seq_in"), 0));
    assert(named(marks@) =~= written_marks(s@));
    (params, marks)
}

/// The track as a timeline module of a project.
pub fn write(s: &Store, id: u16) -> (el: Element)
    ensures
        el@ == written(s@, id),
{
    let (params, marks) = write_header(s);
    let mut tracks: Vec<Track> = Vec::new();
    tracks.push(write_track(s));
    let mut el = blank(id, String::from_str("timeline"));
    el.params = params;
    el.marks = marks;
    el.tracks = tracks;
    assert(el@.tracks =~= seq![written_track(s@)]);
    el
}

/// What a project holds of a track: tempo, meter, loop, length, id and
/// regions. Everything else is as in a new track.
pub open spec fn persisted(s: StoreView) -> StoreView {
    StoreView {
        bpm: s.bpm,
        duration: s.duration,
        meter_beat: s.meter_beat,
        meter_note: s.meter_note,
        loop_in: s.loop_in,
        loop_out: s.loop_out,
        beat: ((60 * init_spec().sample_rate) / (s.bpm as int)) as u32,
        track_id: s.track_id,
        regions: s.regions,
        ..init_spec()
    }
}

/// Whether a project can hold the track: the tempo is positive, the meter
/// fits a parameter, and every region runs at full gain from its beginning
/// to its end.
pub open spec fn writable(s: StoreView) -> bool {
    &&& s.bpm > 0
    &&& s.meter_beat <= i32::MAX
    &&& s.meter_note <= i32::MAX
    &&& forall|i: int|
        0 <= i < s.regions.len() ==> (#[trigger] s.regions[i]).asset_in <= s.regions[i].asset_out
            && s.regions[i].duration == s.regions[i].asset_out - s.regions[i].asset_in
            && s.regions[i].gain == UNITY
}

/// The header of a track that is written to a project reads back as it
/// was.
pub proof fn lemma_header_write_read(s: StoreView)
    requires
        s.bpm > 0,
        s.meter_beat <= i32::MAX,
        s.meter_note <= i32::MAX,
    ensures
        read_header(written_params(s), written_marks(s)) == Ok::<StoreView, LoadError>(
            StoreView { track_id: 0, regions: Seq::empty(), ..persisted(s) },
        ),
{
    reveal_strlit("bpm");
    reveal_strlit("meter_beat");
    reveal_strlit("meter_note");
    reveal_strlit("loop_in");
    reveal_strlit("loop_out");
    reveal_strlit("seq_out");
    reveal_strlit("seq_in");
    assert("bpm"@.len() == 3 && "meter_beat"@.len() == 10 && "meter_note"@.len() == 10);
    assert("meter_beat"@[6] != "meter_note"@[6]);
    assert("loop_in"@.len() == 7 && "loop_out"@.len() == 8 && "seq_out"@.len() == 7 && "seq_in"@.len()
        == 6);
    assert("loop_in"@[0] != "seq_out"@[0]);
    let p = written_params(s);
    let m = written_marks(s);
    lemma_lookup_at(p, 0);
    lemma_lookup_at(p, 1);
    lemma_lookup_at(p, 2);
    lemma_lookup_at(m, 0);
    lemma_lookup_at(m, 1);
    lemma_lookup_at(m, 2);
    lemma_lookup_at(m, 3);
}

/// The regions of a track that are written to a project read back as they
/// were.
pub proof fn lemma_regions_write_read(regions: Seq<Region>, k: int)
    requires
        0 <= k <= regions.len(),
        forall|i: int|
            0 <= i < regions.len() ==> (#[trigger] regions[i]).asset_in <= regions[i].asset_out
                && regions[i].duration == regions[i].asset_out - regions[i].asset_in
                && regions[i].gain == UNITY,
    ensures
        regions_of(Seq::new(k as nat, |i: int| written_region(regions[i], i))) == Ok::<
            Seq<Region>,
            LoadError,
        >(regions.take(k)),
    decreases k,
{
    let els = Seq::new(k as nat, |i: int| written_region(regions[i], i));
    if k == 0 {
        assert(regions.take(0) =~= Seq::empty());
    } else {
        lemma_regions_write_read(regions, k - 1);
        assert(els.drop_last() =~= Seq::new((k - 1) as nat, |i: int| written_region(regions[i], i)));
        assert(regions[k - 1].asset_in <= regions[k - 1].asset_out);
        assert(region_of(els.last()) == regions[k - 1]);
        assert(regions.take(k - 1).push(regions[k - 1]) =~= regions.take(k));
    }
}

/// A track that is written to a project reads back as what a project
/// holds of it.
pub proof fn lemma_write_read(s: StoreView, id: u16)
    requires
        writable(s),
    ensures
        read_spec(written(s, id).params, written(s, id).marks, written(s, id).tracks) == Ok::<
            Option<StoreView>,
            LoadError,
        >(Some(persisted(s))),
{
    lemma_header_write_read(s);
    lemma_regions_write_read(s.regions, s.regions.len() as int);
    assert(s.regions.take(s.regions.len() as int) =~= s.regions);
    assert(written_track(s).regions =~= Seq::new(
        s.regions.len(),
        |i: int| written_region(s.regions[i], i),
    ));
}

/// Every region that is read from a project runs at full gain from its
/// beginning to its end.
pub proof fn lemma_regions_read(els: Seq<RegionEl>)
    ensures
        regions_of(els) matches Ok(regions) ==> regions.len() == els.len() && forall|i: int|
            0 <= i < regions.len() ==> (#[trigger] regions[i]).asset_in <= regions[i].asset_out
                && regions[i].duration == regions[i].asset_out - regions[i].asset_in
                && regions[i].gain == UNITY,
    decreases els.len(),
{
    if els.len() > 0 {
        lemma_regions_read(els.drop_last());
    }
}

/// A track that is read from a project can be written back, and holds
/// nothing but what a project holds of it.
pub proof fn lemma_read_writable(
    params: Seq<(Seq<char>, Param)>,
    marks: Seq<(Seq<char>, Offset)>,
    tracks: Seq<TrackView>,
)
    ensures
        read_spec(params, marks, tracks) matches Ok(Some(s)) ==> writable(s) && persisted(s) == s,
{
    if tracks.len() > 0 {
        lemma_regions_read(tracks[0].regions);
    }
}

/// Samples that pass leave the notes of a track as they are, and move a
/// track that plays forward without looping one position each.
pub proof fn lemma_run_keeps(s: StoreView, k: nat)
    requires
        playing_forward(s),
        !s.loop_on,
        s.playhead + k <= u32::MAX,
    ensures
        playing_forward(run(s, k)),
        !run(s, k).loop_on,
        run(s, k).playhead == s.playhead + k,
        run(s, k).notes == s.notes,
        run(s, k).note_queue == s.note_queue,
        run(s, k).recording == s.recording,
        run(s, k).monitor == s.monitor,
    decreases k,
{
    if k > 0 {
        lemma_run_keeps(s, (k - 1) as nat);
    }
}

/// A note that joins the end of the held notes is found there if no note
/// of its pitch was held before.
proof fn lemma_find_pushed(q: Seq<Note>, held: Note, from: int)
    requires
        0 <= from <= q.len(),
        find_held(q, held.note, from) == q.len(),
    ensures
        find_held(q.push(held), held.note, from) == q.len(),
    decreases q.len() - from,
{
    if from < q.len() {
        assert(q.push(held)[from] == q[from]);
        lemma_find_pushed(q, held, from + 1);
    }
}

/// A note that is played on a recording track is kept with both its ends:
/// when the note-on comes at some position, the track plays on for `k`
/// samples, and the note-off comes, the track holds exactly one more note,
/// which runs from the one position to the other with the pitch and the
/// velocity of the note-on, and the client is told of it.
pub proof fn lemma_recorded_note(s: StoreView, note: Key, vel: u8, k: nat)
    requires
        s.recording,
        playing_forward(s),
        !s.loop_on,
        find_held(s.note_queue, note, 0) == s.note_queue.len(),
        s.playhead + k <= u32::MAX,
    ensures
        ({
            let held = dispatch_spec(s, Action::NoteOn(note, vel));
            let later = run(held, k);
            let done = dispatch_spec(later, Action::NoteOff(note));
            let recorded = Note {
                id: s.notes.len() as u16,
                t_in: s.playhead,
                t_out: (s.playhead + k) as u32,
                note,
                vel,
            };
            &&& done.notes == s.notes.push(recorded)
            &&& done.note_queue == s.note_queue
            &&& done.out_queue == if s.monitor {
                later.out_queue.push(Action::AddNote(recorded.id, recorded)).push(
                    Action::NoteOff(note),
                )
            } else {
                later.out_queue.push(Action::AddNote(recorded.id, recorded))
            }
        }),
{
    let held = dispatch_spec(s, Action::NoteOn(note, vel));
    let open = Note { id: s.notes.len() as u16, t_in: s.playhead, t_out: 0, note, vel };
    lemma_find_pushed(s.note_queue, open, 0);
    lemma_run_keeps(held, k);
    let later = run(held, k);
    assert(later.note_queue == s.note_queue.push(open));
    assert(s.note_queue.push(open).remove(s.note_queue.len() as int) =~= s.note_queue);
}

/// The metronome ticks in a queue, in the order of the queue.
pub open spec fn ticks_of(q: Seq<Action>) -> Seq<Action> {
    q.filter(|a: Action| a is Tick)
}

/// The ticks at the positions from `p` up to, not including, `p + k` that
/// are multiples of `beat`, in rising order.
pub open spec fn beat_ticks(p: int, k: nat, beat: int) -> Seq<Action>
    decreases k,
{
    if k == 0 {
        Seq::empty()
    } else {
        let before = beat_ticks(p, (k - 1) as nat, beat);
        if (p + k - 1) % beat == 0 {
            before.push(Action::Tick((p + k - 1) as u32))
        } else {
            before
        }
    }
}

/// The ticks of a stretch are one for each multiple of the beat in it,
/// each at its position, and they rise.
pub proof fn lemma_beat_ticks(p: int, k: nat, beat: int)
    requires
        0 <= p,
        p + k <= u32::MAX,
        0 < beat,
    ensures
        beat_ticks(p, k, beat).len() == beats_in(p, k, beat),
        forall|i: int|
            0 <= i < beat_ticks(p, k, beat).len() ==> (#[trigger] beat_ticks(p, k, beat)[i]
                matches Action::Tick(q) && p <= q < p + k && (q as int) % beat == 0),
        forall|i: int, j: int|
            0 <= i < j < beat_ticks(p, k, beat).len() ==> (#[trigger] beat_ticks(
                p,
                k,
                beat,
            )[i])->Tick_0 < (#[trigger] beat_ticks(p, k, beat)[j])->Tick_0,
        forall|q: int|
            p <= q < p + k && #[trigger] (q % beat) == 0 ==> beat_ticks(p, k, beat).contains(
                Action::Tick(q as u32),
            ),
    decreases k,
{
    if k > 0 {
        lemma_beat_ticks(p, (k - 1) as nat, beat);
        let before = beat_ticks(p, (k - 1) as nat, beat);
        let after = beat_ticks(p, k, beat);
        let last = p + k - 1;
        assert forall|q: int| p <= q < p + k && #[trigger] (q % beat) == 0 implies after.contains(
            Action::Tick(q as u32),
        ) by {
            if q < last {
                assert(before.contains(Action::Tick(q as u32)));
                let i = choose|i: int| 0 <= i < before.len() && before[i] == Action::Tick(q as u32);
                assert(after[i] == Action::Tick(q as u32));
            } else {
                assert(after[after.len() - 1] == Action::Tick(q as u32));
            }
        }
        assert forall|i: int| 0 <= i < after.len() implies (#[trigger] after[i] matches Action::Tick(
            q,
        ) && p <= q < p + k && (q as int) % beat == 0) by {
            if i < before.len() {
                assert(after[i] == before[i]);
            }
        }
        assert forall|i: int, j: int| 0 <= i < j < after.len() implies (#[trigger] after[i])->Tick_0
            < (#[trigger] after[j])->Tick_0 by {
            assert(after[i] == before[i]);
            if j < before.len() {
                assert(after[j] == before[j]);
            }
        }
    }
}

/// The notes on a track are no metronome ticks.
proof fn lemma_notes_hold_no_ticks(notes: Seq<Note>, p: Offset)
    ensures
        ticks_of(note_events(notes, p)) == Seq::<Action>::empty(),
{
    lemma_notes_do_not_tick(Seq::empty(), notes, p);
    assert(Seq::<Action>::empty() + note_events(notes, p) =~= note_events(notes, p));
    Seq::<Action>::empty().lemma_filter_len(|a: Action| a is Tick);
    assert(ticks_of(note_events(notes, p)).len() == 0);
    assert(ticks_of(note_events(notes, p)) =~= Seq::<Action>::empty());
}

/// The clock track, while it plays forward without looping, sounds the
/// metronome at every position that is a multiple of the beat, in the
/// order of the positions, each once, and nowhere else: after `k` samples
/// from position `p` its queue has gained the ticks at the multiples of
/// the beat from `p` up to, not including, `p + k`.
pub proof fn lemma_ticks_at_beats(s: StoreView, k: nat)
    requires
        playing_forward(s),
        !s.loop_on,
        s.track_id == CLOCK_TRACK,
        s.beat > 0,
        s.playhead + k <= u32::MAX,
    ensures
        ticks_of(run(s, k).out_queue) == ticks_of(s.out_queue) + beat_ticks(
            s.playhead as int,
            k,
            s.beat as int,
        ),
    decreases k,
{
    let is_tick = |a: Action| a is Tick;
    if k == 0 {
        assert(ticks_of(s.out_queue) + Seq::<Action>::empty() =~= ticks_of(s.out_queue));
    } else {
        lemma_ticks_at_beats(s, (k - 1) as nat);
        lemma_run_forward(s, (k - 1) as nat);
        let t = run(s, (k - 1) as nat);
        let events = note_events(t.notes, t.playhead);
        let played = t.out_queue + events;
        lemma_notes_hold_no_ticks(t.notes, t.playhead);
        Seq::filter_distributes_over_add(t.out_queue, events, is_tick);
        assert(ticks_of(played) =~= ticks_of(t.out_queue));
        let before = beat_ticks(s.playhead as int, (k - 1) as nat, s.beat as int);
        if ticks(t) {
            played.lemma_filter_push(Action::Tick(t.playhead), is_tick);
            assert(ticks_of(run(s, k).out_queue) =~= ticks_of(s.out_queue) + before.push(
                Action::Tick(t.playhead),
            ));
        }
    }
}

} // verus!
