//! The view that asks for the name of a new project: one letter at a time is
//! chosen with up and down and appended with right.

use vstd::prelude::*;
use vstd::string::StringExecFns;
use crate::action::Action;
use crate::text::{push_char, pop_char};

verus! {

/// The highest letter code that can be chosen.
pub const ASCII_MAX: u8 = 126;

/// The lowest letter code that can be chosen.
pub const ASCII_MIN: u8 = 48;

#[derive(Clone, Debug)]
pub struct TitleState {
    pub title: String,
    pub title_val: String,
    pub letter: u8,
}

pub struct Title {
    pub x: u16,
    pub y: u16,
    pub width: u16,
    pub height: u16,
    pub state: TitleState,
}

/// The name being typed after `action`.
pub open spec fn next_title_val(val: Seq<char>, letter: u8, action: Action) -> Seq<char> {
    match action {
        Action::Right => val.push(letter as char),
        Action::Left => val.drop_last(),
        Action::SelectG => val + ".xml"@,
        Action::SelectY => Seq::empty(),
        _ => val,
    }
}

/// The letter under the cursor after `action`: up and down step through the
/// codes from `ASCII_MIN` to `ASCII_MAX` and wrap at both ends.
pub open spec fn next_letter(letter: u8, action: Action) -> int {
    match action {
        Action::Up => if letter == ASCII_MAX { ASCII_MIN as int } else { letter + 1 },
        Action::Down => if letter == ASCII_MIN { ASCII_MAX as int } else { letter - 1 },
        _ => letter as int,
    }
}

/// Advances the state by one message. Deleting from an empty name and
/// stepping outside the range of a byte are left out.
pub fn reduce(state: TitleState, action: Action) -> (next: TitleState)
    requires
        action is Left ==> state.title_val@.len() > 0,
        action is Up ==> state.letter < 255 || state.letter == ASCII_MAX,
        action is Down ==> state.letter > 0 || state.letter == ASCII_MIN,
    ensures
        next.title@ == state.title@,
        next.title_val@ == next_title_val(state.title_val@, state.letter, action),
        next.letter == next_letter(state.letter, action),
{
    let TitleState { title, title_val, letter } = state;
    let mut val = title_val;
    match action {
        Action::Right => {
            push_char(&mut val, letter as char);
        },
        Action::Left => {
            let _ = pop_char(&mut val);
        },
        Action::SelectG => {
            val = val.concat(".xml");
        },
        Action::SelectY => {
            val = String::new();
        },
        _ => {},
    }
    let next_letter = match action {
        Action::Up => if letter == ASCII_MAX { ASCII_MIN } else { letter + 1 },
        Action::Down => if letter == ASCII_MIN { ASCII_MAX } else { letter - 1 },
        _ => letter,
    };
    TitleState { title, title_val: val, letter: next_letter }
}

/// What the view hands back to the layer stack for `action`, given the name
/// typed once the action has been applied.
pub open spec fn title_reply(action: Action, reply: Action, val: Seq<char>) -> bool {
    match action {
        Action::Back => reply == Action::Cancel,
        Action::SelectR => reply matches Action::CreateProject(name) && name@ == val,
        _ => reply == Action::Noop,
    }
}

impl Title {
    pub fn new(x: u16, y: u16, width: u16, height: u16) -> (t: Self)
        ensures
            t.x == x,
            t.y == y,
            t.width == width,
            t.height == height,
            t.state.letter == ASCII_MIN,
            t.state.title_val@ == "/usr/local/palit/"@,
            t.state.title@ == "What's it called?"@,
    {
        let initial_state = TitleState {
            letter: ASCII_MIN,
            title_val: String::from_str("/usr/local/palit/"),
            title: String::from_str("What's it called?"),
        };
        Title { x, y, width, height, state: initial_state }
    }

    /// Applies `action` to the state and answers with the message for the
    /// layer stack: back cancels, the red button creates the project under
    /// the name typed so far.
    pub fn dispatch(&mut self, action: Action) -> (reply: Action)
        requires
            action is Left ==> old(self).state.title_val@.len() > 0,
            action is Up ==> old(self).state.letter < 255 || old(self).state.letter == ASCII_MAX,
            action is Down ==> old(self).state.letter > 0 || old(self).state.letter == ASCII_MIN,
        ensures
            final(self).x == old(self).x,
            final(self).y == old(self).y,
            final(self).width == old(self).width,
            final(self).height == old(self).height,
            final(self).state.title@ == old(self).state.title@,
            final(self).state.title_val@ == next_title_val(
                old(self).state.title_val@,
                old(self).state.letter,
                action,
            ),
            final(self).state.letter == next_letter(old(self).state.letter, action),
            title_reply(action, reply, final(self).state.title_val@),
    {
        let state = TitleState {
            title: self.state.title.clone(),
            title_val: self.state.title_val.clone(),
            letter: self.state.letter,
        };
        self.state = reduce(state, action.clone());
        match action {
            Action::Back => Action::Cancel,
            Action::SelectR => Action::CreateProject(self.state.title_val.clone()),
            _ => Action::Noop,
        }
    }

    /// The view keeps no history: undoing leaves it as it is.
    pub fn undo(&mut self)
        ensures
            *final(self) == *old(self),
    {
    }

    /// The view keeps no history: redoing leaves it as it is.
    pub fn redo(&mut self)
        ensures
            *final(self) == *old(self),
    {
    }

    /// The title view is drawn over the layer below it.
    pub fn alpha(&self) -> (a: bool)
        ensures
            a,
    {
        true
    }
}

} // verus!
