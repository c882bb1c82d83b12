//! The chord transformer: every note that comes in goes out once for each
//! interval of the chord.

use vstd::prelude::*;
use crate::action::{take_queue, Action, Key, Note};
use vstd::string::StringExecFns;
use crate::document::{blank, blank_view, Element, ElementView};

verus! {

pub struct Store {
    pub thru_queue: Vec<Action>,
    pub intervals: Vec<Key>,
}

/// The chord as a mathematical value.
pub struct StoreView {
    pub thru_queue: Seq<Action>,
    pub intervals: Seq<Key>,
}

impl View for Store {
    type V = StoreView;

    open spec fn view(&self) -> StoreView {
        StoreView { thru_queue: self.thru_queue@, intervals: self.intervals@ }
    }
}

/// The pitch `interval` semitones above `note`, held to the top of the key
/// range.
pub open spec fn raise(note: Key, interval: Key) -> Key {
    if note + interval > Key::MAX { Key::MAX } else { (note + interval) as Key }
}

/// The major triad: root, major third and fifth.
pub open spec fn major() -> Seq<Key> {
    seq![0, 4, 7]
}

/// A major chord with nothing queued.
pub fn init() -> (store: Store)
    ensures
        store@.thru_queue == Seq::<Action>::empty(),
        store@.intervals == major(),
{
    let mut intervals: Vec<Key> = Vec::new();
    intervals.push(0);
    intervals.push(4);
    intervals.push(7);
    assert(intervals@ =~= major());
    Store { thru_queue: Vec::new(), intervals }
}

/// The chord that a project module's notes describe.
pub open spec fn read_spec(notes: Seq<Note>) -> StoreView {
    StoreView {
        thru_queue: Seq::empty(),
        intervals: Seq::new(notes.len(), |i: int| notes[i].note),
    }
}

/// A chord whose intervals are the pitches of a project module's notes.
pub fn read(doc: &Element) -> (r: Option<Store>)
    ensures
        r matches Some(store) && store@ == read_spec(doc.notes@),
{
    let mut intervals: Vec<Key> = Vec::new();
    let n = doc.notes.len();
    let mut i: usize = 0;
    while i < n
        invariant
            i <= n,
            n == doc.notes@.len(),
            intervals@ =~= Seq::new(i as nat, |j: int| doc.notes@[j].note),
        decreases n - i,
    {
        intervals.push(doc.notes[i].note);
        i += 1;
    }
    Some(Store { thru_queue: Vec::new(), intervals })
}

/// What one message turns into: a note-on or note-off becomes one for each
/// interval, in the order of the intervals; anything else is dropped.
pub open spec fn fan_out(intervals: Seq<Key>, a: Action) -> Seq<Action> {
    match a {
        Action::NoteOn(note, vol) => Seq::new(
            intervals.len(),
            |i: int| Action::NoteOn(raise(note, intervals[i]), vol),
        ),
        Action::NoteOff(note) => Seq::new(
            intervals.len(),
            |i: int| Action::NoteOff(raise(note, intervals[i])),
        ),
        _ => Seq::empty(),
    }
}

/// The chord after one message.
pub open spec fn dispatch_spec(s: StoreView, a: Action) -> StoreView {
    StoreView { thru_queue: s.thru_queue + fan_out(s.intervals, a), ..s }
}

/// Applies one message to the chord.
pub fn dispatch(store: &mut Store, action: Action)
    ensures
        final(store)@ == dispatch_spec(old(store)@, action),
{
    let n = store.intervals.len();
    match action {
        Action::NoteOn(note, vol) => {
            let mut i: usize = 0;
            while i < n
                invariant
                    i <= n,
                    n == store.intervals@.len(),
                    store.intervals@ == old(store)@.intervals,
                    store.thru_queue@ =~= old(store)@.thru_queue + Seq::new(
                        i as nat,
                        |j: int| Action::NoteOn(raise(note, store.intervals@[j]), vol),
                    ),
                decreases n - i,
            {
                let dnote = store.intervals[i];
                store.thru_queue.push(Action::NoteOn(note.saturating_add(dnote), vol));
                i += 1;
            }
        },
        Action::NoteOff(note) => {
            let mut i: usize = 0;
            while i < n
                invariant
                    i <= n,
                    n == store.intervals@.len(),
                    store.intervals@ == old(store)@.intervals,
                    store.thru_queue@ =~= old(store)@.thru_queue + Seq::new(
                        i as nat,
                        |j: int| Action::NoteOff(raise(note, store.intervals@[j])),
                    ),
                decreases n - i,
            {
                let dnote = store.intervals[i];
                store.thru_queue.push(Action::NoteOff(note.saturating_add(dnote)));
                i += 1;
            }
        },
        _ => {
            assert(store.thru_queue@ =~= old(store)@.thru_queue + Seq::<Action>::empty());
        },
    }
}

/// Empties the queue: everything in it goes to the outputs.
pub fn dispatch_requested(store: &mut Store) -> (r: (
    Option<Vec<Action>>,
    Option<Vec<Action>>,
    Option<Vec<Action>>,
))
    ensures
        final(store)@ == (StoreView { thru_queue: Seq::empty(), ..old(store)@ }),
        r.0 matches Some(carry) && carry@ == old(store)@.thru_queue,
        r.1 is None,
        r.2 is None,
{
    let carry = take_queue(&mut store.thru_queue);
    (Some(carry), None, None)
}

/// The note that holds an interval in a project.
pub open spec fn as_note(interval: Key, i: int) -> Note {
    Note { id: i as u16, t_in: 0, t_out: 0, note: interval, vel: 0 }
}

/// The notes that hold the intervals of a chord in a project.
pub open spec fn written(intervals: Seq<Key>) -> Seq<Note> {
    Seq::new(intervals.len(), |i: int| as_note(intervals[i], i))
}

/// The chord as a module of a project: one note for each interval.
pub fn write(store: &Store, id: u16) -> (el: Element)
    ensures
        el@ == (ElementView { notes: written(store@.intervals), ..blank_view(id, "chord"@) }),
{
    let mut notes: Vec<Note> = Vec::new();
    let n = store.intervals.len();
    let mut i: usize = 0;
    while i < n
        invariant
            i <= n,
            n == store.intervals@.len(),
            notes@ =~= Seq::new(i as nat, |j: int| as_note(store.intervals@[j], j)),
        decreases n - i,
    {
        notes.push(
            Note {
                id: #[verifier::truncate] (i as u16),
                t_in: 0,
                t_out: 0,
                note: store.intervals[i],
                vel: 0,
            },
        );
        i += 1;
    }
    let mut el = blank(id, String::from_str("chord"));
    el.notes = notes;
    el
}

/// Intervals that are written to a project read back as they were.
pub proof fn lemma_write_read(intervals: Seq<Key>)
    ensures
        read_spec(written(intervals)) == (StoreView { thru_queue: Seq::empty(), intervals }),
{
    assert(read_spec(written(intervals)).intervals =~= intervals);
}

} // verus!
