//! The message bus as the engine sees it: a batch of text comes in, the
//! messages in it are read and carried out in order, and the loop around
//! the engine learns when it has to act itself.

use vstd::prelude::*;
use crate::action::{Action, ActionView};
use crate::patch::{applied, Outcome, Patch, PatchView};
use crate::text::{chars_of, split, split_at};
use crate::wire::{parse_spec, piece_views};

verus! {

/// The messages of a list as mathematical values.
pub open spec fn action_views(actions: Seq<Action>) -> Seq<ActionView> {
    Seq::new(actions.len(), |i: int| actions[i]@)
}

/// The messages that a row of texts stands for, in order: a text that
/// stands for no message is passed over, and so is `Noop`.
pub open spec fn read_all(tokens: Seq<Seq<char>>) -> Seq<ActionView>
    decreases tokens.len(),
{
    if tokens.len() == 0 {
        Seq::empty()
    } else {
        let before = read_all(tokens.drop_last());
        match parse_spec(tokens.last()) {
            Some(a) => if a is Noop {
                before
            } else {
                before.push(a)
            },
            None => before,
        }
    }
}

/// The messages in a batch of text: the batch is cut at white space, and
/// each piece is read as one message.
pub open spec fn batch(text: Seq<char>) -> Seq<ActionView> {
    read_all(split(text, false))
}

/// Reads the messages in a batch of text.
pub fn ipc_action(buf: &str) -> (events: Vec<Action>)
    ensures
        action_views(events@) == batch(buf@),
{
    let chars = chars_of(buf);
    let tokens = split_at(&chars, false);
    let ghost all = piece_views(tokens@);
    assert(all =~= split(buf@, false));
    let mut events: Vec<Action> = Vec::new();
    let mut i: usize = 0;
    assert(all.take(0) =~= Seq::<Seq<char>>::empty());
    while i < tokens.len()
        invariant
            i <= tokens@.len(),
            all == piece_views(tokens@),
            action_views(events@) =~= read_all(all.take(i as int)),
        decreases tokens@.len() - i,
    {
        proof {
            assert(all.take(i + 1).drop_last() =~= all.take(i as int));
            assert(all.take(i + 1).last() == tokens@[i as int]@);
        }
        match crate::wire::parse_token(&tokens[i]) {
            Some(Action::Noop) => {},
            Some(a) => {
                events.push(a);
            },
            None => {},
        }
        i += 1;
    }
    assert(all.take(all.len() as int) =~= all);
    events
}

/// Why the engine stopped carrying out a batch.
#[derive(Debug, PartialEq, Eq)]
pub enum Pause {
    /// Every message of the batch was carried out.
    Finished,
    /// The batch asked the engine to leave.
    Exit,
    /// The batch asked for a project: it is to be read and handed to
    /// `Patch::open_project` before the rest of the batch is carried out.
    Open(String),
}

/// Whether a message makes the engine stop and hand over to the loop
/// around it.
pub open spec fn pauses(a: Action) -> bool {
    a is Exit || a is OpenProject
}

/// The place of the first message at or after `from` at which the engine
/// stops, or the length of the batch when there is none.
pub open spec fn first_pause(msgs: Seq<Action>, from: int) -> int
    decreases msgs.len() - from,
{
    if from >= msgs.len() {
        msgs.len() as int
    } else if pauses(msgs[from]) {
        from
    } else {
        first_pause(msgs, from + 1)
    }
}

/// Whether carrying out the messages `msgs` in order leads from the patch
/// `pre` to the patch `post`, with the outcomes `outs`.
pub open spec fn ran(pre: PatchView, msgs: Seq<Action>, post: PatchView, outs: Seq<Outcome>) -> bool
    decreases msgs.len(),
{
    if msgs.len() == 0 {
        post == pre && outs.len() == 0
    } else {
        outs.len() == msgs.len() && exists|mid: PatchView|
            ran(pre, msgs.drop_last(), mid, outs.drop_last()) && #[trigger] applied(
                mid,
                msgs.last(),
                post,
                outs.last(),
            )
    }
}

/// What carrying out a part of a batch came to.
pub struct Ran {
    /// The place in the batch at which to go on.
    pub next: usize,
    /// Why the engine stopped.
    pub pause: Pause,
    /// How each message that was carried out ended.
    pub outcomes: Vec<Outcome>,
}

/// Where to go on after the engine stopped at place `k` of a batch.
pub open spec fn resume(msgs: Seq<Action>, k: int) -> int {
    if k < msgs.len() {
        k + 1
    } else {
        k
    }
}

/// Why the engine stopped at place `k` of a batch.
pub open spec fn pause_at(msgs: Seq<Action>, k: int) -> Pause {
    if k >= msgs.len() {
        Pause::Finished
    } else {
        match msgs[k] {
            Action::OpenProject(name) => Pause::Open(name),
            _ => Pause::Exit,
        }
    }
}

/// Carries out the messages of a batch from place `from` on, in order,
/// up to the first that asks the engine to leave or to open a project.
/// What was carried out before stays carried out.
pub fn ipc_dispatch(patch: &mut Patch, actions: &Vec<Action>, from: usize) -> (r: Ran)
    requires
        old(patch).wf(),
        from <= actions@.len(),
    ensures
        final(patch).wf(),
        from <= first_pause(actions@, from as int) <= actions@.len(),
        r.next == resume(actions@, first_pause(actions@, from as int)),
        r.pause == pause_at(actions@, first_pause(actions@, from as int)),
        ran(
            old(patch)@,
            actions@.subrange(from as int, first_pause(actions@, from as int)),
            final(patch)@,
            r.outcomes@,
        ),
{
    let mut outcomes: Vec<Outcome> = Vec::new();
    let mut i: usize = from;
    assert(actions@.subrange(from as int, from as int) =~= Seq::<Action>::empty());
    while i < actions.len()
        invariant
            from <= i <= actions@.len(),
            patch.wf(),
            first_pause(actions@, from as int) == first_pause(actions@, i as int),
            ran(old(patch)@, actions@.subrange(from as int, i as int), patch@, outcomes@),
        decreases actions@.len() - i,
    {
        match &actions[i] {
            Action::Exit => {
                return Ran { next: i + 1, pause: Pause::Exit, outcomes };
            },
            Action::OpenProject(name) => {
                return Ran { next: i + 1, pause: Pause::Open(name.clone()), outcomes };
            },
            a => {
                let ghost before = patch@;
                let ghost outs = outcomes@;
                let out = patch.dispatch(a.clone());
                outcomes.push(out);
                proof {
                    let part = actions@.subrange(from as int, i + 1);
                    assert(part.drop_last() =~= actions@.subrange(from as int, i as int));
                    assert(part.last() == *a);
                    assert(outcomes@.drop_last() =~= outs);
                    assert(applied(before, part.last(), patch@, outcomes@.last()));
                }
            },
        }
        i += 1;
    }
    Ran { next: i, pause: Pause::Finished, outcomes }
}

} // verus!
