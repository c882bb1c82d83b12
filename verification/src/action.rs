//! Control messages exchanged between the client, the input reader and the
//! sound engine.

use vstd::prelude::*;

verus! {

/// A pitch, as a MIDI key number.
pub type Key = u8;

/// A note velocity.
pub type Volume = u8;

/// A position on a track, in samples.
pub type Offset = u32;

/// A module parameter, in thousandths of full scale.
pub type Param = i32;

/// A note recorded on a track. `t_out` is zero while the note is still held.
#[derive(Clone, Copy, Debug, PartialEq, Eq, Structural)]
pub struct Note {
    pub id: u16,
    pub t_in: Offset,
    pub t_out: Offset,
    pub note: Key,
    pub vel: Volume,
}

/// A named connection point of a module, as the patch view lists it.
#[derive(Debug, PartialEq, Eq)]
pub struct Anchor {
    pub index: u16,
    pub module_id: u16,
    pub name: String,
    pub input: bool,
}

/// One control message.
#[derive(Debug, PartialEq, Eq)]
pub enum Action {
    Noop,
    Exit,
    // Navigation
    Up,
    Down,
    Left,
    Right,
    Back,
    Cancel,
    Close,
    Route,
    Deselect,
    Effect,
    Instrument,
    Record,
    SelectR,
    SelectG,
    SelectY,
    SelectB,
    SelectP,
    ShowAnchors,
    // Projects
    CreateProject(String),
    OpenProject(String),
    ShowProject(String),
    // Transport, addressed to a module
    Play(u16),
    Stop(u16),
    Scrub(u16, bool),
    Goto(u16, Offset),
    Loop(u16, Offset, Offset),
    LoopOff(u16),
    RecordAt(u16, u16),
    MuteAt(u16, u16),
    Monitor(u16),
    LoopMode(bool),
    SetLoop(Offset, Offset),
    // Notes
    NoteOn(Key, Volume),
    NoteOff(Key),
    Octave(bool),
    // Parameters
    SetParam(String, Param),
    SetTempo(u16),
    SetMeter(u16, u16),
    // Patch topology
    AddModule(u16, String),
    DelModule(u16),
    AddRoute(u16),
    DelRoute(u16),
    AddTrack(u16),
    PatchIn(u16, u16, u16),
    PatchOut(u16, u16, u16),
    DelPatch(u16, u16, bool),
    // Addressing
    At(u16, Box<Action>),
    // Notifications for the client
    Tick(Offset),
    AddNote(u16, Note),
}

/// A control message as a mathematical value: as `Action`, with every text
/// a row of characters.
pub enum ActionView {
    Noop,
    Exit,
    Up,
    Down,
    Left,
    Right,
    Back,
    Cancel,
    Close,
    Route,
    Deselect,
    Effect,
    Instrument,
    Record,
    SelectR,
    SelectG,
    SelectY,
    SelectB,
    SelectP,
    ShowAnchors,
    CreateProject(Seq<char>),
    OpenProject(Seq<char>),
    ShowProject(Seq<char>),
    Play(u16),
    Stop(u16),
    Scrub(u16, bool),
    Goto(u16, u32),
    Loop(u16, u32, u32),
    LoopOff(u16),
    RecordAt(u16, u16),
    MuteAt(u16, u16),
    Monitor(u16),
    LoopMode(bool),
    SetLoop(u32, u32),
    NoteOn(u8, u8),
    NoteOff(u8),
    Octave(bool),
    SetParam(Seq<char>, i32),
    SetTempo(u16),
    SetMeter(u16, u16),
    AddModule(u16, Seq<char>),
    DelModule(u16),
    AddRoute(u16),
    DelRoute(u16),
    AddTrack(u16),
    PatchIn(u16, u16, u16),
    PatchOut(u16, u16, u16),
    DelPatch(u16, u16, bool),
    At(u16, Box<ActionView>),
    Tick(u32),
    AddNote(u16, Note),
}

impl View for Action {
    type V = ActionView;

    open spec fn view(&self) -> ActionView
        decreases self,
    {
        match self {
            Action::Noop => ActionView::Noop,
            Action::Exit => ActionView::Exit,
            Action::Up => ActionView::Up,
            Action::Down => ActionView::Down,
            Action::Left => ActionView::Left,
            Action::Right => ActionView::Right,
            Action::Back => ActionView::Back,
            Action::Cancel => ActionView::Cancel,
            Action::Close => ActionView::Close,
            Action::Route => ActionView::Route,
            Action::Deselect => ActionView::Deselect,
            Action::Effect => ActionView::Effect,
            Action::Instrument => ActionView::Instrument,
            Action::Record => ActionView::Record,
            Action::SelectR => ActionView::SelectR,
            Action::SelectG => ActionView::SelectG,
            Action::SelectY => ActionView::SelectY,
            Action::SelectB => ActionView::SelectB,
            Action::SelectP => ActionView::SelectP,
            Action::ShowAnchors => ActionView::ShowAnchors,
            Action::CreateProject(x0) => ActionView::CreateProject(x0@),
            Action::OpenProject(x0) => ActionView::OpenProject(x0@),
            Action::ShowProject(x0) => ActionView::ShowProject(x0@),
            Action::Play(x0) => ActionView::Play(*x0),
            Action::Stop(x0) => ActionView::Stop(*x0),
            Action::Scrub(x0, x1) => ActionView::Scrub(*x0, *x1),
            Action::Goto(x0, x1) => ActionView::Goto(*x0, *x1),
            Action::Loop(x0, x1, x2) => ActionView::Loop(*x0, *x1, *x2),
            Action::LoopOff(x0) => ActionView::LoopOff(*x0),
            Action::RecordAt(x0, x1) => ActionView::RecordAt(*x0, *x1),
            Action::MuteAt(x0, x1) => ActionView::MuteAt(*x0, *x1),
            Action::Monitor(x0) => ActionView::Monitor(*x0),
            Action::LoopMode(x0) => ActionView::LoopMode(*x0),
            Action::SetLoop(x0, x1) => ActionView::SetLoop(*x0, *x1),
            Action::NoteOn(x0, x1) => ActionView::NoteOn(*x0, *x1),
            Action::NoteOff(x0) => ActionView::NoteOff(*x0),
            Action::Octave(x0) => ActionView::Octave(*x0),
            Action::SetParam(x0, x1) => ActionView::SetParam(x0@, *x1),
            Action::SetTempo(x0) => ActionView::SetTempo(*x0),
            Action::SetMeter(x0, x1) => ActionView::SetMeter(*x0, *x1),
            Action::AddModule(x0, x1) => ActionView::AddModule(*x0, x1@),
            Action::DelModule(x0) => ActionView::DelModule(*x0),
            Action::AddRoute(x0) => ActionView::AddRoute(*x0),
            Action::DelRoute(x0) => ActionView::DelRoute(*x0),
            Action::AddTrack(x0) => ActionView::AddTrack(*x0),
            Action::PatchIn(x0, x1, x2) => ActionView::PatchIn(*x0, *x1, *x2),
            Action::PatchOut(x0, x1, x2) => ActionView::PatchOut(*x0, *x1, *x2),
            Action::DelPatch(x0, x1, x2) => ActionView::DelPatch(*x0, *x1, *x2),
            Action::At(x0, x1) => ActionView::At(*x0, Box::new((**x1).view())),
            Action::Tick(x0) => ActionView::Tick(*x0),
            Action::AddNote(x0, x1) => ActionView::AddNote(*x0, *x1),
        }
    }
}

impl Clone for Action {
    fn clone(&self) -> (r: Self)
        ensures
            r == *self,
        decreases self,
    {
        match self {
            Action::Noop => Action::Noop,
            Action::Exit => Action::Exit,
            Action::Up => Action::Up,
            Action::Down => Action::Down,
            Action::Left => Action::Left,
            Action::Right => Action::Right,
            Action::Back => Action::Back,
            Action::Cancel => Action::Cancel,
            Action::Close => Action::Close,
            Action::Route => Action::Route,
            Action::Deselect => Action::Deselect,
            Action::Effect => Action::Effect,
            Action::Instrument => Action::Instrument,
            Action::Record => Action::Record,
            Action::SelectR => Action::SelectR,
            Action::SelectG => Action::SelectG,
            Action::SelectY => Action::SelectY,
            Action::SelectB => Action::SelectB,
            Action::SelectP => Action::SelectP,
            Action::ShowAnchors => Action::ShowAnchors,
            Action::CreateProject(s) => Action::CreateProject(s.clone()),
            Action::OpenProject(s) => Action::OpenProject(s.clone()),
            Action::ShowProject(s) => Action::ShowProject(s.clone()),
            Action::Play(m) => Action::Play(*m),
            Action::Stop(m) => Action::Stop(*m),
            Action::Scrub(m, d) => Action::Scrub(*m, *d),
            Action::Goto(m, o) => Action::Goto(*m, *o),
            Action::Loop(m, a, b) => Action::Loop(*m, *a, *b),
            Action::LoopOff(m) => Action::LoopOff(*m),
            Action::RecordAt(m, t) => Action::RecordAt(*m, *t),
            Action::MuteAt(m, t) => Action::MuteAt(*m, *t),
            Action::Monitor(m) => Action::Monitor(*m),
            Action::LoopMode(on) => Action::LoopMode(*on),
            Action::SetLoop(a, b) => Action::SetLoop(*a, *b),
            Action::NoteOn(k, v) => Action::NoteOn(*k, *v),
            Action::NoteOff(k) => Action::NoteOff(*k),
            Action::Octave(up) => Action::Octave(*up),
            Action::SetParam(s, v) => Action::SetParam(s.clone(), *v),
            Action::SetTempo(t) => Action::SetTempo(*t),
            Action::SetMeter(a, b) => Action::SetMeter(*a, *b),
            Action::AddModule(m, s) => Action::AddModule(*m, s.clone()),
            Action::DelModule(m) => Action::DelModule(*m),
            Action::AddRoute(r) => Action::AddRoute(*r),
            Action::DelRoute(r) => Action::DelRoute(*r),
            Action::AddTrack(t) => Action::AddTrack(*t),
            Action::PatchIn(m, a, r) => Action::PatchIn(*m, *a, *r),
            Action::PatchOut(m, a, r) => Action::PatchOut(*m, *a, *r),
            Action::DelPatch(m, a, i) => Action::DelPatch(*m, *a, *i),
            Action::At(m, inner) => {
                let copy = (&**inner).clone();
                Action::At(*m, Box::new(copy))
            },
            Action::Tick(o) => Action::Tick(*o),
            Action::AddNote(id, n) => Action::AddNote(*id, *n),
        }
    }
}

/// Empties a queue and hands back what it held, in order.
pub fn take_queue(queue: &mut Vec<Action>) -> (held: Vec<Action>)
    ensures
        held@ == old(queue)@,
        final(queue)@ == Seq::<Action>::empty(),
{
    let mut held: Vec<Action> = Vec::new();
    std::mem::swap(queue, &mut held);
    held
}

/// A copy of a list of messages.
pub fn copy_queue(queue: &Vec<Action>) -> (copy: Vec<Action>)
    ensures
        copy@ == queue@,
{
    let copy = queue.clone();
    assert(copy@ =~= queue@);
    copy
}

/// A list of messages that may be absent, as a mathematical value.
pub open spec fn queue_view(q: Option<Vec<Action>>) -> Option<Seq<Action>> {
    match q {
        Some(v) => Some(v@),
        None => None,
    }
}

/// The list `s` if it holds anything, and nothing otherwise.
pub open spec fn if_any(s: Seq<Action>) -> Option<Seq<Action>> {
    if s.len() == 0 {
        None
    } else {
        Some(s)
    }
}

} // verus!
