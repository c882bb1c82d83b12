//! The nodes of the signal graph: what each kind does with a message, what
//! it sends on when the graph asks, and what the passing of audio frames
//! does to it.

use vstd::prelude::*;
use crate::action::{copy_queue, if_any, queue_view, take_queue, Action, Key};
use crate::arpeggio;
use crate::chord;
use crate::plugin;
use crate::synth;
use crate::tape;

verus! {

/// Channels of the audio output.
pub const CHANNELS: usize = 2;

/// Frames rendered per tick.
pub const FRAMES: u32 = 128;

/// Frames between two flushes of a `DebugKeys` node.
pub const DEBUG_KEY_PERIOD: u16 = 24100;

/// The octave at which an `Octave` node leaves pitches as they are.
pub const HOME_OCTAVE: Key = 3;

/// One node of the graph.
pub enum Module {
    /// The root of the graph: mixes its inputs.
    Master,
    /// A bus that passes on what it receives.
    Passthru(Vec<Action>),
    /// Transposes notes by whole octaves: the queue and the octave.
    Octave(Vec<Action>, Key),
    /// Passes note-ons on and, once per period, sends the note-offs that go
    /// with them: the queue of note-ons, the pending note-offs, and the
    /// frames left in the period.
    DebugKeys(Vec<Action>, Vec<Action>, u16),
    /// The address of a module: its queue, the handles of its anchors, and
    /// the module's id.
    Operator(Vec<Action>, Vec<usize>, u16),
    Synth(synth::Store),
    Tape(tape::Store),
    Chord(chord::Store),
    Arpeggio(arpeggio::Store),
    Plugin(plugin::Store),
}

/// A node as a mathematical value.
pub enum ModuleView {
    Master,
    Passthru(Seq<Action>),
    Octave(Seq<Action>, Key),
    DebugKeys(Seq<Action>, Seq<Action>, u16),
    Operator(Seq<Action>, Seq<usize>, u16),
    Synth(synth::StoreView),
    Tape(tape::StoreView),
    Chord(chord::StoreView),
    Arpeggio(arpeggio::StoreView),
    Plugin(plugin::StoreView),
}

impl View for Module {
    type V = ModuleView;

    open spec fn view(&self) -> ModuleView {
        match self {
            Module::Master => ModuleView::Master,
            Module::Passthru(q) => ModuleView::Passthru(q@),
            Module::Octave(q, n) => ModuleView::Octave(q@, *n),
            Module::DebugKeys(on, off, timer) => ModuleView::DebugKeys(on@, off@, *timer),
            Module::Operator(q, anchors, id) => ModuleView::Operator(q@, anchors@, *id),
            Module::Synth(s) => ModuleView::Synth(s@),
            Module::Tape(s) => ModuleView::Tape(s@),
            Module::Chord(s) => ModuleView::Chord(s@),
            Module::Arpeggio(s) => ModuleView::Arpeggio(s@),
            Module::Plugin(s) => ModuleView::Plugin(s@),
        }
    }
}

/// The octave after a step up or down: it stops at the ends of its range.
pub open spec fn shift_octave(n: Key, up: bool) -> Key {
    if up {
        if n < Key::MAX { (n + 1) as Key } else { n }
    } else {
        if n > 0 { (n - 1) as Key } else { 0 }
    }
}

/// The node after one message.
pub open spec fn dispatch_spec(m: ModuleView, a: Action) -> ModuleView {
    match m {
        ModuleView::Master => m,
        ModuleView::Passthru(q) => ModuleView::Passthru(q.push(a)),
        ModuleView::Operator(q, anchors, id) => ModuleView::Operator(q.push(a), anchors, id),
        ModuleView::DebugKeys(on, off, timer) => ModuleView::DebugKeys(on.push(a), off, timer),
        ModuleView::Synth(s) => ModuleView::Synth(synth::dispatch_spec(s, a)),
        ModuleView::Tape(s) => ModuleView::Tape(tape::dispatch_spec(s, a)),
        ModuleView::Chord(s) => ModuleView::Chord(chord::dispatch_spec(s, a)),
        ModuleView::Octave(q, n) => match a {
            Action::NoteOn(_, _) | Action::NoteOff(_) => ModuleView::Octave(q.push(a), n),
            Action::Octave(up) => ModuleView::Octave(q, shift_octave(n, up)),
            _ => m,
        },
        ModuleView::Arpeggio(s) => ModuleView::Arpeggio(arpeggio::dispatch_spec(s, a)),
        ModuleView::Plugin(s) => ModuleView::Plugin(plugin::dispatch_spec(s, a)),
    }
}

/// The node after a run of messages, taken in order.
pub open spec fn dispatch_all(m: ModuleView, msgs: Seq<Action>) -> ModuleView
    decreases msgs.len(),
{
    if msgs.len() == 0 {
        m
    } else {
        dispatch_spec(dispatch_all(m, msgs.drop_last()), msgs.last())
    }
}

/// An operator after it is given the node `h` as a further pair of
/// anchors, input and output; any other node stays as it is.
pub open spec fn anchored(m: ModuleView, h: usize) -> ModuleView {
    match m {
        ModuleView::Operator(q, anchors, id) => ModuleView::Operator(q, anchors.push(h).push(h), id),
        _ => m,
    }
}

/// The pitch `n` moved by the octave `octave`: twelve semitones for every
/// octave above or below `HOME_OCTAVE`, held to the key range at both ends.
pub open spec fn transpose(n: Key, octave: Key) -> Key {
    let t = n + 12 * (octave - HOME_OCTAVE);
    if t < 0 {
        0
    } else if t > Key::MAX {
        Key::MAX
    } else {
        t as Key
    }
}

/// A note message moved by the octave `octave`; anything else turns into
/// `Noop`.
pub open spec fn shifted(a: Action, octave: Key) -> Action {
    match a {
        Action::NoteOn(n, v) => Action::NoteOn(transpose(n, octave), v),
        Action::NoteOff(n) => Action::NoteOff(transpose(n, octave)),
        _ => Action::Noop,
    }
}

/// The note-off that ends a note-on; anything else turns into `Noop`.
pub open spec fn mirrored(a: Action) -> Action {
    match a {
        Action::NoteOn(n, _) => Action::NoteOff(n),
        _ => Action::Noop,
    }
}

/// What a node sends on when the graph asks, and the node afterwards.
pub struct Flushed {
    pub node: ModuleView,
    pub outputs: Option<Seq<Action>>,
    pub inputs: Option<Seq<Action>>,
    pub client: Option<Seq<Action>>,
}

/// What a node sends on when the graph asks. Buses and operators pass their
/// queue to the outputs. An octave node sends its notes, transposed and
/// newest first, to the outputs and to the client. A `DebugKeys` node sends
/// its note-ons to the outputs, or, when its period has run out, all
/// pending note-offs instead.
pub open spec fn flush_spec(m: ModuleView) -> Flushed {
    match m {
        ModuleView::Master => Flushed { node: m, outputs: None, inputs: None, client: None },
        ModuleView::Passthru(q) => Flushed {
            node: ModuleView::Passthru(Seq::empty()),
            outputs: Some(q),
            inputs: None,
            client: None,
        },
        ModuleView::Operator(q, anchors, id) => Flushed {
            node: ModuleView::Operator(Seq::empty(), anchors, id),
            outputs: Some(q),
            inputs: None,
            client: None,
        },
        ModuleView::Octave(q, n) => {
            let carry = Seq::new(q.len(), |i: int| shifted(q[q.len() - 1 - i], n));
            Flushed {
                node: ModuleView::Octave(Seq::empty(), n),
                outputs: Some(carry),
                inputs: None,
                client: Some(carry),
            }
        },
        ModuleView::DebugKeys(on, off, timer) => {
            let pending = off + Seq::new(on.len(), |i: int| mirrored(on[on.len() - 1 - i]));
            if timer == 0 {
                Flushed {
                    node: ModuleView::DebugKeys(Seq::empty(), Seq::empty(), DEBUG_KEY_PERIOD),
                    outputs: Some(pending),
                    inputs: None,
                    client: None,
                }
            } else {
                Flushed {
                    node: ModuleView::DebugKeys(Seq::empty(), pending, timer),
                    outputs: Some(on),
                    inputs: None,
                    client: None,
                }
            }
        },
        ModuleView::Tape(s) => Flushed {
            node: ModuleView::Tape(tape::StoreView { out_queue: Seq::empty(), ..s }),
            outputs: if_any(tape::output_part(s.out_queue)),
            inputs: None,
            client: if_any(tape::client_part(s.out_queue)),
        },
        ModuleView::Chord(s) => Flushed {
            node: ModuleView::Chord(chord::StoreView { thru_queue: Seq::empty(), ..s }),
            outputs: Some(s.thru_queue),
            inputs: None,
            client: None,
        },
        ModuleView::Arpeggio(s) => Flushed {
            node: ModuleView::Arpeggio(arpeggio::StoreView { queue: Seq::empty(), ..s }),
            outputs: Some(s.queue),
            inputs: None,
            client: None,
        },
        ModuleView::Synth(s) => Flushed {
            node: ModuleView::Synth(synth::StoreView { queue: Seq::empty(), ..s }),
            outputs: None,
            inputs: None,
            client: Some(s.queue),
        },
        ModuleView::Plugin(s) => Flushed { node: m, outputs: None, inputs: None, client: None },
    }
}

/// The timer of a `DebugKeys` node after `frames` frames: it counts down to
/// zero. Only the low sixteen bits of `frames` count.
pub open spec fn count_down(timer: u16, frames: usize) -> u16 {
    let dl = frames as u16;
    if timer > dl { (timer - dl) as u16 } else { 0 }
}

/// The node after `frames` frames of audio: a synth, a tape and an
/// arpeggiator take one step per frame, a `DebugKeys` node counts down.
pub open spec fn audio_spec(m: ModuleView, frames: nat) -> ModuleView
    decreases frames,
{
    match m {
        ModuleView::Synth(s) => if frames == 0 {
            m
        } else {
            match audio_spec(m, (frames - 1) as nat) {
                ModuleView::Synth(t) => ModuleView::Synth(synth::compute_spec(t)),
                other => other,
            }
        },
        ModuleView::Tape(s) => if frames == 0 {
            m
        } else {
            match audio_spec(m, (frames - 1) as nat) {
                ModuleView::Tape(t) => ModuleView::Tape(tape::compute_spec(t)),
                other => other,
            }
        },
        ModuleView::Arpeggio(s) => if frames == 0 {
            m
        } else {
            match audio_spec(m, (frames - 1) as nat) {
                ModuleView::Arpeggio(t) => ModuleView::Arpeggio(arpeggio::compute_spec(t)),
                other => other,
            }
        },
        ModuleView::DebugKeys(on, off, timer) => ModuleView::DebugKeys(
            on,
            off,
            count_down(timer, frames as usize),
        ),
        _ => m,
    }
}

/// Moves a pitch by an octave setting.
fn transposed(n: Key, octave: Key) -> (t: Key)
    ensures
        t == transpose(n, octave),
{
    let t: i32 = (n as i32) + 12 * ((octave as i32) - (HOME_OCTAVE as i32));
    if t < 0 {
        0
    } else if t > 255 {
        255
    } else {
        t as Key
    }
}

impl Module {
    /// Hands one message to the node.
    pub fn dispatch(&mut self, a: Action)
        ensures
            final(self)@ == dispatch_spec(old(self)@, a),
    {
        match self {
            Module::Master => {},
            Module::Operator(queue, _, _) => {
                queue.push(a);
            },
            Module::Passthru(queue) => {
                queue.push(a);
            },
            Module::DebugKeys(onqueue, _, _) => {
                onqueue.push(a);
            },
            Module::Synth(store) => synth::dispatch(store, a),
            Module::Tape(store) => tape::dispatch(store, a),
            Module::Chord(store) => chord::dispatch(store, a),
            Module::Octave(queue, n) => {
                match a {
                    Action::NoteOn(_, _) | Action::NoteOff(_) => {
                        queue.push(a);
                    },
                    Action::Octave(up) => {
                        if up {
                            *n = if *n < Key::MAX { *n + 1 } else { *n };
                        } else {
                            *n = if *n > 0 { *n - 1 } else { 0 };
                        }
                    },
                    _ => {},
                }
            },
            Module::Arpeggio(store) => arpeggio::dispatch(store, a),
            Module::Plugin(store) => plugin::dispatch(store, a),
        }
    }

    /// Gives an operator the node `h` as a further pair of anchors.
    pub fn add_anchors(&mut self, h: usize)
        ensures
            final(self)@ == anchored(old(self)@, h),
    {
        match self {
            Module::Operator(_, anchors, _) => {
                anchors.push(h);
                anchors.push(h);
            },
            _ => {},
        }
    }

    /// Empties what the node has to send and hands it back: the messages
    /// for its outputs, for its inputs, and for the client.
    pub fn dispatch_requested(&mut self) -> (r: (
        Option<Vec<Action>>,
        Option<Vec<Action>>,
        Option<Vec<Action>>,
    ))
        ensures
            final(self)@ == flush_spec(old(self)@).node,
            queue_view(r.0) == flush_spec(old(self)@).outputs,
            queue_view(r.1) == flush_spec(old(self)@).inputs,
            queue_view(r.2) == flush_spec(old(self)@).client,
    {
        match self {
            Module::Operator(queue, _, _) => {
                let carry = take_queue(queue);
                (Some(carry), None, None)
            },
            Module::Passthru(queue) => {
                let carry = take_queue(queue);
                (Some(carry), None, None)
            },
            Module::Octave(queue, dn) => {
                let mut client_carry: Vec<Action> = Vec::new();
                let mut carry: Vec<Action> = Vec::new();
                let ghost q = queue@;
                let octave = *dn;
                while queue.len() > 0
                    invariant
                        queue@.len() <= q.len(),
                        queue@ == q.take(queue@.len() as int),
                        carry@ == client_carry@,
                        carry@ =~= Seq::new(
                            (q.len() - queue@.len()) as nat,
                            |i: int| shifted(q[q.len() - 1 - i], octave),
                        ),
                    decreases queue@.len(),
                {
                    let note = queue.pop().unwrap();
                    let shifted_note = match note {
                        Action::NoteOn(n, v) => Action::NoteOn(transposed(n, octave), v),
                        Action::NoteOff(n) => Action::NoteOff(transposed(n, octave)),
                        _ => Action::Noop,
                    };
                    carry.push(shifted_note.clone());
                    client_carry.push(shifted_note);
                }
                assert(queue@ =~= Seq::<Action>::empty());
                (Some(carry), None, Some(client_carry))
            },
            Module::DebugKeys(onqueue, offqueue, timer) => {
                let carry = copy_queue(onqueue);
                let ghost on = onqueue@;
                let ghost off = offqueue@;
                while onqueue.len() > 0
                    invariant
                        onqueue@.len() <= on.len(),
                        onqueue@ == on.take(onqueue@.len() as int),
                        offqueue@ =~= off + Seq::new(
                            (on.len() - onqueue@.len()) as nat,
                            |i: int| mirrored(on[on.len() - 1 - i]),
                        ),
                    decreases onqueue@.len(),
                {
                    let note = onqueue.pop().unwrap();
                    offqueue.push(
                        match note {
                            Action::NoteOn(n, _) => Action::NoteOff(n),
                            _ => Action::Noop,
                        },
                    );
                }
                assert(onqueue@ =~= Seq::<Action>::empty());
                if *timer == 0 {
                    *timer = DEBUG_KEY_PERIOD;
                    let pending = take_queue(offqueue);
                    (Some(pending), None, None)
                } else {
                    (Some(carry), None, None)
                }
            },
            Module::Tape(store) => tape::dispatch_requested(store),
            Module::Chord(store) => chord::dispatch_requested(store),
            Module::Arpeggio(store) => arpeggio::dispatch_requested(store),
            Module::Synth(store) => synth::dispatch_requested(store),
            Module::Plugin(store) => plugin::dispatch_requested(store),
            Module::Master => (None, None, None),
        }
    }

    /// Lets `frames` frames of audio pass over the node.
    pub fn audio_requested(&mut self, frames: usize)
        ensures
            final(self)@ == audio_spec(old(self)@, frames as nat),
    {
        let ghost start = self@;
        match self {
            Module::Synth(store) => {
                let mut i: usize = 0;
                while i < frames
                    invariant
                        i <= frames,
                        start is Synth,
                        ModuleView::Synth(store@) == audio_spec(start, i as nat),
                    decreases frames - i,
                {
                    synth::compute(store);
                    i += 1;
                }
            },
            Module::Tape(store) => {
                let mut i: usize = 0;
                while i < frames
                    invariant
                        i <= frames,
                        start is Tape,
                        ModuleView::Tape(store@) == audio_spec(start, i as nat),
                    decreases frames - i,
                {
                    let _ = tape::compute(store);
                    i += 1;
                }
            },
            Module::DebugKeys(_, _, timer) => {
                let dl = #[verifier::truncate] (frames as u16);
                if *timer > dl {
                    *timer = *timer - dl;
                } else {
                    *timer = 0;
                }
            },
            Module::Arpeggio(store) => {
                let mut i: usize = 0;
                while i < frames
                    invariant
                        i <= frames,
                        start is Arpeggio,
                        ModuleView::Arpeggio(store@) == audio_spec(start, i as nat),
                    decreases frames - i,
                {
                    arpeggio::compute(store);
                    i += 1;
                }
            },
            _ => {},
        }
    }
}

/// Whether an operator is still the operator it was, with the anchors it
/// had under the indices they had; new anchors may have joined at the end.
/// Of a node that is no operator this says nothing.
pub open spec fn keeps_anchors(before: ModuleView, after: ModuleView) -> bool {
    before matches ModuleView::Operator(_, anchors, id) ==> after matches ModuleView::Operator(
        _,
        longer,
        same,
    ) && same == id && anchors.is_prefix_of(longer)
}

/// No message takes an anchor from an operator or moves one.
pub proof fn lemma_dispatch_keeps_anchors(m: ModuleView, a: Action)
    ensures
        keeps_anchors(m, dispatch_spec(m, a)),
{
}

/// No run of messages takes an anchor from an operator or moves one.
pub proof fn lemma_dispatch_all_keeps_anchors(m: ModuleView, msgs: Seq<Action>)
    ensures
        keeps_anchors(m, dispatch_all(m, msgs)),
    decreases msgs.len(),
{
    if msgs.len() > 0 {
        lemma_dispatch_all_keeps_anchors(m, msgs.drop_last());
        lemma_dispatch_keeps_anchors(dispatch_all(m, msgs.drop_last()), msgs.last());
    }
}

/// Emptying an operator leaves its anchors alone, and so does audio.
pub proof fn lemma_flush_keeps_anchors(m: ModuleView, frames: nat)
    ensures
        keeps_anchors(m, flush_spec(m).node),
        keeps_anchors(m, audio_spec(m, frames)),
        keeps_anchors(m, m),
{
}

/// New anchors join at the end.
pub proof fn lemma_anchored_keeps_anchors(m: ModuleView, h: usize)
    ensures
        keeps_anchors(m, anchored(m, h)),
{
}

} // verus!
