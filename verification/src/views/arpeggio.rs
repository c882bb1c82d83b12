//! The view of an arpeggiator module: it shows the pattern length, and
//! offers the module's two anchors to the patch view.

use vstd::prelude::*;
use vstd::string::StringExecFns;
use crate::action::{Action, Anchor};
use crate::document::{find, lookup, named, Element};

verus! {

/// Pattern length shown for a module that is given none.
pub const DEFAULT_LENGTH: i32 = 4;

#[derive(Clone, Debug)]
pub struct ArpeggioState {
    pub length: u32,
}

pub struct Arpeggio {
    pub x: u16,
    pub y: u16,
    pub width: u16,
    pub height: u16,
    pub state: ArpeggioState,
    pub history: Vec<ArpeggioState>,
}

/// A parameter value as a length: a negative value counts down from two
/// to the thirty-second.
pub open spec fn as_length(v: i32) -> u32 {
    if v < 0 {
        (v + 0x1_0000_0000) as u32
    } else {
        v as u32
    }
}

/// The pattern length that a module's parameters give.
pub open spec fn length_of(params: Seq<(Seq<char>, i32)>) -> u32 {
    match lookup(params, "length"@) {
        Some(v) => as_length(v),
        None => as_length(DEFAULT_LENGTH),
    }
}

/// Advances the state by one message: no message changes it.
pub fn reduce(state: ArpeggioState, action: Action) -> (next: ArpeggioState)
    ensures
        next.length == state.length,
{
    ArpeggioState { length: state.length }
}

/// What the view hands back to the layer stack for `action`: a request for
/// routing is answered by showing the anchors, up and down pass through.
pub open spec fn arpeggio_reply(action: Action) -> Action {
    match action {
        Action::Route => Action::ShowAnchors,
        Action::Up => Action::Up,
        Action::Down => Action::Down,
        _ => Action::Noop,
    }
}

impl Arpeggio {
    /// A view at `(x, y)` of the arpeggiator module `doc`.
    pub fn new(x: u16, y: u16, width: u16, height: u16, doc: &Element) -> (a: Self)
        ensures
            a.x == x,
            a.y == y,
            a.width == width,
            a.height == height,
            a.state.length == length_of(named(doc.params@)),
            a.history@.len() == 0,
    {
        let v = match find(&doc.params, "length") {
            Some(v) => v,
            None => DEFAULT_LENGTH,
        };
        let length: u32 = if v < 0 {
            ((v as i64) + 0x1_0000_0000) as u32
        } else {
            v as u32
        };
        Arpeggio { x, y, width, height, history: Vec::new(), state: ArpeggioState { length } }
    }

    /// Applies `action` to the state and answers with the message for the
    /// layer stack.
    pub fn dispatch(&mut self, action: Action) -> (reply: Action)
        ensures
            final(self).x == old(self).x,
            final(self).y == old(self).y,
            final(self).width == old(self).width,
            final(self).height == old(self).height,
            final(self).state.length == old(self).state.length,
            final(self).history == old(self).history,
            reply == arpeggio_reply(action),
    {
        self.state = reduce(ArpeggioState { length: self.state.length }, action.clone());
        match action {
            Action::Route => Action::ShowAnchors,
            Action::Up => Action::Up,
            Action::Down => Action::Down,
            _ => Action::Noop,
        }
    }

    /// The anchors that the module offers: its output at index zero and
    /// its input at index one. The layer stack fills in the module's id.
    pub fn anchors(&self) -> (list: Vec<Anchor>)
        ensures
            list@.len() == 2,
            list@[0].index == 0 && list@[0].module_id == 0 && list@[0].name@ == "Arp Out"@
                && !list@[0].input,
            list@[1].index == 1 && list@[1].module_id == 0 && list@[1].name@ == "Arp In"@
                && list@[1].input,
    {
        let mut list: Vec<Anchor> = Vec::new();
        list.push(
            Anchor { index: 0, module_id: 0, name: String::from_str("Arp Out"), input: false },
        );
        list.push(Anchor { index: 1, module_id: 0, name: String::from_str("Arp In"), input: true });
        list
    }

    /// The view records no history: undoing leaves it as it is.
    pub fn undo(&mut self)
        ensures
            *final(self) == *old(self),
    {
    }

    /// The view records no history: redoing leaves it as it is.
    pub fn redo(&mut self)
        ensures
            *final(self) == *old(self),
    {
    }

    /// The arpeggiator view covers whatever lies below it.
    pub fn alpha(&self) -> (a: bool)
        ensures
            !a,
    {
        false
    }
}

} // verus!
