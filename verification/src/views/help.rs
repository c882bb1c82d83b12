//! The help view: a keyboard on which the notes played so far are marked.

use vstd::prelude::*;
use vstd::string::StringExecFns;
use crate::document::Element;
use crate::action::{copy_queue, Action};

verus! {

#[derive(Clone, Debug)]
pub struct HelpState {
    pub title: String,
    pub active: Vec<Action>,
}

pub struct Help {
    pub x: u16,
    pub y: u16,
    pub width: u16,
    pub height: u16,
    pub state: HelpState,
    pub history: Vec<HelpState>,
}

/// The notes marked after `action`: a note-on joins them.
pub open spec fn next_active(active: Seq<Action>, action: Action) -> Seq<Action> {
    match action {
        Action::NoteOn(_, _) => active.push(action),
        _ => active,
    }
}

/// Advances the state by one message.
pub fn reduce(state: HelpState, action: Action) -> (next: HelpState)
    ensures
        next.title == state.title,
        next.active@ == next_active(state.active@, action),
{
    let HelpState { title, active } = state;
    let mut active = active;
    match action {
        Action::NoteOn(_, _) => {
            active.push(action);
        },
        _ => {},
    }
    HelpState { title, active }
}

/// What the view hands back to the layer stack for `action`: back and the
/// red button close the view.
pub open spec fn help_reply(action: Action) -> Action {
    match action {
        Action::Back | Action::SelectR => Action::Cancel,
        _ => Action::Noop,
    }
}

impl Help {
    pub fn new(x: u16, y: u16, width: u16, height: u16) -> (h: Self)
        ensures
            h.x == x,
            h.y == y,
            h.width == width,
            h.height == height,
            h.state.title@ == "KEYBOARD"@,
            h.state.active@.len() == 0,
            h.history@.len() == 0,
    {
        let initial_state = HelpState { title: String::from_str("KEYBOARD"), active: Vec::new() };
        Help { x, y, width, height, history: Vec::new(), state: initial_state }
    }

    /// Applies `action` to the state and answers with the message for the
    /// layer stack.
    pub fn dispatch(&mut self, action: Action) -> (reply: Action)
        ensures
            final(self).x == old(self).x,
            final(self).y == old(self).y,
            final(self).width == old(self).width,
            final(self).height == old(self).height,
            final(self).state.title == old(self).state.title,
            final(self).state.active@ == next_active(old(self).state.active@, action),
            final(self).history == old(self).history,
            reply == help_reply(action),
    {
        let state = HelpState {
            title: self.state.title.clone(),
            active: copy_queue(&self.state.active),
        };
        self.state = reduce(state, action.clone());
        match action {
            Action::Back | Action::SelectR => Action::Cancel,
            _ => Action::Noop,
        }
    }

    /// The view has nothing to put into a project.
    pub fn save(&self) -> (el: Option<Element>)
        ensures
            el is None,
    {
        None
    }

    /// The help view is drawn over the layer below it.
    pub fn alpha(&self) -> (a: bool)
        ensures
            a,
    {
        true
    }
}

} // verus!
