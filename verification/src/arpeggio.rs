//! The arpeggiator: it passes notes on and keeps its place in a pattern
//! that the audio clock advances.

use vstd::prelude::*;
use crate::action::{take_queue, Action};
use vstd::string::StringExecFns;
use crate::document::{blank, find, lemma_lookup_at, lookup, named, with_params, Element};
use crate::text::str_eq;

verus! {

/// Pattern length of an arpeggiator that is given none.
pub const DEFAULT_LENGTH: u32 = 4;

pub struct Store {
    pub length: u32,
    pub step: u32,
    pub queue: Vec<Action>,
}

/// The arpeggiator as a mathematical value.
pub struct StoreView {
    pub length: u32,
    pub step: u32,
    pub queue: Seq<Action>,
}

impl View for Store {
    type V = StoreView;

    open spec fn view(&self) -> StoreView {
        StoreView { length: self.length, step: self.step, queue: self.queue@ }
    }
}

/// The pattern length that a parameter value asks for: a negative value
/// asks for none.
pub open spec fn length_of(value: i32) -> u32 {
    if value < 0 { 0 } else { value as u32 }
}

/// An arpeggiator at the start of a pattern of `DEFAULT_LENGTH` steps.
pub fn init() -> (store: Store)
    ensures
        store@ == (StoreView { length: DEFAULT_LENGTH, step: 0, queue: Seq::empty() }),
{
    Store { length: DEFAULT_LENGTH, step: 0, queue: Vec::new() }
}

/// The arpeggiator that a project's parameters describe.
pub open spec fn read_spec(params: Seq<(Seq<char>, i32)>) -> StoreView {
    StoreView {
        length: match lookup(params, "length"@) {
            Some(v) => length_of(v),
            None => DEFAULT_LENGTH,
        },
        step: 0,
        queue: Seq::empty(),
    }
}

/// An arpeggiator with the pattern length of a project's module.
pub fn read(doc: &Element) -> (r: Option<Store>)
    ensures
        r matches Some(store) && store@ == read_spec(named(doc.params@)),
{
    let length = match find(&doc.params, "length") {
        Some(v) => if v < 0 { 0 } else { v as u32 },
        None => DEFAULT_LENGTH,
    };
    Some(Store { length, step: 0, queue: Vec::new() })
}

/// The arpeggiator after one message: the parameter `length` sets the
/// pattern length, notes are queued to be passed on.
pub open spec fn dispatch_spec(s: StoreView, a: Action) -> StoreView {
    match a {
        Action::SetParam(name, value) => if name@ == "length"@ {
            StoreView { length: length_of(value), ..s }
        } else {
            s
        },
        Action::NoteOn(_, _) | Action::NoteOff(_) => StoreView { queue: s.queue.push(a), ..s },
        _ => s,
    }
}

/// Applies one message to the arpeggiator.
pub fn dispatch(store: &mut Store, action: Action)
    ensures
        final(store)@ == dispatch_spec(old(store)@, action),
{
    match action {
        Action::SetParam(name, value) => {
            if str_eq(name.as_str(), "length") {
                store.length = if value < 0 { 0 } else { value as u32 };
            }
        },
        Action::NoteOn(_, _) | Action::NoteOff(_) => {
            store.queue.push(action);
        },
        _ => {},
    }
}

/// The arpeggiator after one sample: the next step of the pattern, and
/// back to the first after the last.
pub open spec fn compute_spec(s: StoreView) -> StoreView {
    StoreView {
        step: if s.length == 0 || s.step >= s.length - 1 { 0 } else { (s.step + 1) as u32 },
        ..s
    }
}

/// Advances the pattern by one sample.
pub fn compute(store: &mut Store)
    ensures
        final(store)@ == compute_spec(old(store)@),
{
    store.step = if store.length == 0 || store.step >= store.length - 1 {
        0
    } else {
        store.step + 1
    };
}

/// Empties the queue: everything in it goes to the outputs.
pub fn dispatch_requested(store: &mut Store) -> (r: (
    Option<Vec<Action>>,
    Option<Vec<Action>>,
    Option<Vec<Action>>,
))
    ensures
        final(store)@ == (StoreView { queue: Seq::empty(), ..old(store)@ }),
        r.0 matches Some(carry) && carry@ == old(store)@.queue,
        r.1 is None,
        r.2 is None,
{
    let carry = take_queue(&mut store.queue);
    (Some(carry), None, None)
}

/// A pattern length as a parameter value, held to what a parameter can
/// hold.
pub open spec fn as_param(length: u32) -> i32 {
    if length > i32::MAX {
        i32::MAX
    } else {
        length as i32
    }
}

/// The parameters that hold the pattern length in a project.
pub open spec fn written(length: u32) -> Seq<(Seq<char>, i32)> {
    seq![("length"@, as_param(length))]
}

/// The arpeggiator as a module of a project.
pub fn write(store: &Store, id: u16) -> (el: Element)
    ensures
        el@ == with_params(id, "arpeggio"@, written(store@.length)),
{
    let mut params: Vec<(String, i32)> = Vec::new();
    let v: i32 = if store.length > 2147483647 {
        2147483647
    } else {
        store.length as i32
    };
    params.push((String::from_str("length"), v));
    assert(named(params@) =~= written(store@.length));
    let mut el = blank(id, String::from_str("arpeggio"));
    el.params = params;
    el
}

/// A pattern length that is written to a project reads back as it was,
/// unless it is too long for a parameter.
pub proof fn lemma_write_read(length: u32)
    requires
        length <= i32::MAX,
    ensures
        read_spec(written(length)) == (StoreView { length, step: 0, queue: Seq::empty() }),
{
    lemma_lookup_at(written(length), 0);
}

/// What is read from a project is short enough to be written back.
pub proof fn lemma_read_fits(params: Seq<(Seq<char>, i32)>)
    ensures
        read_spec(params).length <= i32::MAX,
{
}

} // verus!
