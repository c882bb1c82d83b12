//! The wire format of control messages: one message is a command word
//! followed by its values, each behind a colon; a batch is any number of
//! messages with white space between them.

use vstd::prelude::*;
use vstd::string::StringExecFns;
use vstd::string::StrSliceExecFns;
use crate::action::{Action, ActionView, Note};
use crate::text::{
    all_plain, chars_of, dec, dec_int, join, lemma_join_split, lemma_split_concat,
    lemma_split_one, lemma_split_plain, lemma_split_push, lemma_undec_dec, lemma_undec_dec_int,
    plain, push_char, read_number, split, split_at, string_of, undec, undec_int, write_number,
};

verus! {

/// The command words of the wire format, one for each kind of message.
#[derive(Clone, Copy, Debug, PartialEq, Eq, Structural)]
pub enum Cmd {
    Noop,
    Exit,
    Up,
    Down,
    Left,
    Right,
    Back,
    Cancel,
    Close,
    Route,
    Deselect,
    Effect,
    Instrument,
    Record,
    SelectR,
    SelectG,
    SelectY,
    SelectB,
    SelectP,
    ShowAnchors,
    CreateProject,
    OpenProject,
    ShowProject,
    Play,
    Stop,
    Scrub,
    Goto,
    Loop,
    LoopOff,
    RecordAt,
    MuteAt,
    Monitor,
    LoopMode,
    SetLoop,
    NoteOn,
    NoteOff,
    Octave,
    SetParam,
    SetTempo,
    SetMeter,
    AddModule,
    DelModule,
    AddRoute,
    DelRoute,
    AddTrack,
    PatchIn,
    PatchOut,
    DelPatch,
    At,
    Tick,
    AddNote,
}

/// The word that stands for a command.
pub open spec fn name_of(c: Cmd) -> Seq<char> {
    match c {
        Cmd::Noop => "NOOP"@,
        Cmd::Exit => "EXIT"@,
        Cmd::Up => "UP"@,
        Cmd::Down => "DN"@,
        Cmd::Left => "LT"@,
        Cmd::Right => "RT"@,
        Cmd::Back => "BACK"@,
        Cmd::Cancel => "CANCEL"@,
        Cmd::Close => "CLOSE"@,
        Cmd::Route => "ROUTE"@,
        Cmd::Deselect => "DESELECT"@,
        Cmd::Effect => "EFFECT"@,
        Cmd::Instrument => "INSTRUMENT"@,
        Cmd::Record => "RECORD"@,
        Cmd::SelectR => "SELECT_R"@,
        Cmd::SelectG => "SELECT_G"@,
        Cmd::SelectY => "SELECT_Y"@,
        Cmd::SelectB => "SELECT_B"@,
        Cmd::SelectP => "SELECT_P"@,
        Cmd::ShowAnchors => "SHOW_ANCHORS"@,
        Cmd::CreateProject => "CREATE_PROJECT"@,
        Cmd::OpenProject => "OPEN_PROJECT"@,
        Cmd::ShowProject => "SHOW_PROJECT"@,
        Cmd::Play => "PLAY"@,
        Cmd::Stop => "STOP"@,
        Cmd::Scrub => "SCRUB"@,
        Cmd::Goto => "GOTO"@,
        Cmd::Loop => "LOOP"@,
        Cmd::LoopOff => "LOOP_OFF"@,
        Cmd::RecordAt => "RECORD_AT"@,
        Cmd::MuteAt => "MUTE_AT"@,
        Cmd::Monitor => "MONITOR"@,
        Cmd::LoopMode => "LOOP_MODE"@,
        Cmd::SetLoop => "SET_LOOP"@,
        Cmd::NoteOn => "NOTE_ON"@,
        Cmd::NoteOff => "NOTE_OFF"@,
        Cmd::Octave => "OCTAVE"@,
        Cmd::SetParam => "SET_PARAM"@,
        Cmd::SetTempo => "SET_TEMPO"@,
        Cmd::SetMeter => "SET_METER"@,
        Cmd::AddModule => "ADD_MODULE"@,
        Cmd::DelModule => "DEL_MODULE"@,
        Cmd::AddRoute => "ADD_ROUTE"@,
        Cmd::DelRoute => "DEL_ROUTE"@,
        Cmd::AddTrack => "ADD_TRACK"@,
        Cmd::PatchIn => "PATCH_IN"@,
        Cmd::PatchOut => "PATCH_OUT"@,
        Cmd::DelPatch => "DEL_PATCH"@,
        Cmd::At => "AT"@,
        Cmd::Tick => "TICK"@,
        Cmd::AddNote => "ADD_NOTE"@,
    }
}

/// The command that a word stands for.
pub open spec fn command_of(word: Seq<char>) -> Option<Cmd> {
    if word == "NOOP"@ {
        Some(Cmd::Noop)
    } else if word == "EXIT"@ {
        Some(Cmd::Exit)
    } else if word == "UP"@ {
        Some(Cmd::Up)
    } else if word == "DN"@ {
        Some(Cmd::Down)
    } else if word == "LT"@ {
        Some(Cmd::Left)
    } else if word == "RT"@ {
        Some(Cmd::Right)
    } else if word == "BACK"@ {
        Some(Cmd::Back)
    } else if word == "CANCEL"@ {
        Some(Cmd::Cancel)
    } else if word == "CLOSE"@ {
        Some(Cmd::Close)
    } else if word == "ROUTE"@ {
        Some(Cmd::Route)
    } else if word == "DESELECT"@ {
        Some(Cmd::Deselect)
    } else if word == "EFFECT"@ {
        Some(Cmd::Effect)
    } else if word == "INSTRUMENT"@ {
        Some(Cmd::Instrument)
    } else if word == "RECORD"@ {
        Some(Cmd::Record)
    } else if word == "SELECT_R"@ {
        Some(Cmd::SelectR)
    } else if word == "SELECT_G"@ {
        Some(Cmd::SelectG)
    } else if word == "SELECT_Y"@ {
        Some(Cmd::SelectY)
    } else if word == "SELECT_B"@ {
        Some(Cmd::SelectB)
    } else if word == "SELECT_P"@ {
        Some(Cmd::SelectP)
    } else if word == "SHOW_ANCHORS"@ {
        Some(Cmd::ShowAnchors)
    } else if word == "CREATE_PROJECT"@ {
        Some(Cmd::CreateProject)
    } else if word == "OPEN_PROJECT"@ {
        Some(Cmd::OpenProject)
    } else if word == "SHOW_PROJECT"@ {
        Some(Cmd::ShowProject)
    } else if word == "PLAY"@ {
        Some(Cmd::Play)
    } else if word == "STOP"@ {
        Some(Cmd::Stop)
    } else if word == "SCRUB"@ {
        Some(Cmd::Scrub)
    } else if word == "GOTO"@ {
        Some(Cmd::Goto)
    } else if word == "LOOP"@ {
        Some(Cmd::Loop)
    } else if word == "LOOP_OFF"@ {
        Some(Cmd::LoopOff)
    } else if word == "RECORD_AT"@ {
        Some(Cmd::RecordAt)
    } else if word == "MUTE_AT"@ {
        Some(Cmd::MuteAt)
    } else if word == "MONITOR"@ {
        Some(Cmd::Monitor)
    } else if word == "LOOP_MODE"@ {
        Some(Cmd::LoopMode)
    } else if word == "SET_LOOP"@ {
        Some(Cmd::SetLoop)
    } else if word == "NOTE_ON"@ {
        Some(Cmd::NoteOn)
    } else if word == "NOTE_OFF"@ {
        Some(Cmd::NoteOff)
    } else if word == "OCTAVE"@ {
        Some(Cmd::Octave)
    } else if word == "SET_PARAM"@ {
        Some(Cmd::SetParam)
    } else if word == "SET_TEMPO"@ {
        Some(Cmd::SetTempo)
    } else if word == "SET_METER"@ {
        Some(Cmd::SetMeter)
    } else if word == "ADD_MODULE"@ {
        Some(Cmd::AddModule)
    } else if word == "DEL_MODULE"@ {
        Some(Cmd::DelModule)
    } else if word == "ADD_ROUTE"@ {
        Some(Cmd::AddRoute)
    } else if word == "DEL_ROUTE"@ {
        Some(Cmd::DelRoute)
    } else if word == "ADD_TRACK"@ {
        Some(Cmd::AddTrack)
    } else if word == "PATCH_IN"@ {
        Some(Cmd::PatchIn)
    } else if word == "PATCH_OUT"@ {
        Some(Cmd::PatchOut)
    } else if word == "DEL_PATCH"@ {
        Some(Cmd::DelPatch)
    } else if word == "AT"@ {
        Some(Cmd::At)
    } else if word == "TICK"@ {
        Some(Cmd::Tick)
    } else if word == "ADD_NOTE"@ {
        Some(Cmd::AddNote)
    } else {
        None
    }
}

/// Every command word stands for its command and holds no colon.
pub proof fn lemma_command_words(c: Cmd)
    ensures
        command_of(name_of(c)) == Some(c),
        plain(name_of(c)),
        name_of(c).len() >= 1,
{
    reveal_strlit("NOOP");
    reveal_strlit("EXIT");
    reveal_strlit("UP");
    reveal_strlit("DN");
    reveal_strlit("LT");
    reveal_strlit("RT");
    reveal_strlit("BACK");
    reveal_strlit("CANCEL");
    reveal_strlit("CLOSE");
    reveal_strlit("ROUTE");
    reveal_strlit("DESELECT");
    reveal_strlit("EFFECT");
    reveal_strlit("INSTRUMENT");
    reveal_strlit("RECORD");
    reveal_strlit("SELECT_R");
    reveal_strlit("SELECT_G");
    reveal_strlit("SELECT_Y");
    reveal_strlit("SELECT_B");
    reveal_strlit("SELECT_P");
    reveal_strlit("SHOW_ANCHORS");
    reveal_strlit("CREATE_PROJECT");
    reveal_strlit("OPEN_PROJECT");
    reveal_strlit("SHOW_PROJECT");
    reveal_strlit("PLAY");
    reveal_strlit("STOP");
    reveal_strlit("SCRUB");
    reveal_strlit("GOTO");
    reveal_strlit("LOOP");
    reveal_strlit("LOOP_OFF");
    reveal_strlit("RECORD_AT");
    reveal_strlit("MUTE_AT");
    reveal_strlit("MONITOR");
    reveal_strlit("LOOP_MODE");
    reveal_strlit("SET_LOOP");
    reveal_strlit("NOTE_ON");
    reveal_strlit("NOTE_OFF");
    reveal_strlit("OCTAVE");
    reveal_strlit("SET_PARAM");
    reveal_strlit("SET_TEMPO");
    reveal_strlit("SET_METER");
    reveal_strlit("ADD_MODULE");
    reveal_strlit("DEL_MODULE");
    reveal_strlit("ADD_ROUTE");
    reveal_strlit("DEL_ROUTE");
    reveal_strlit("ADD_TRACK");
    reveal_strlit("PATCH_IN");
    reveal_strlit("PATCH_OUT");
    reveal_strlit("DEL_PATCH");
    reveal_strlit("AT");
    reveal_strlit("TICK");
    reveal_strlit("ADD_NOTE");
    assert("NOOP"@.len() == 4);
    assert("EXIT"@.len() == 4);
    assert("UP"@.len() == 2);
    assert("DN"@.len() == 2);
    assert("LT"@.len() == 2);
    assert("RT"@.len() == 2);
    assert("BACK"@.len() == 4);
    assert("CANCEL"@.len() == 6);
    assert("CLOSE"@.len() == 5);
    assert("ROUTE"@.len() == 5);
    assert("DESELECT"@.len() == 8);
    assert("EFFECT"@.len() == 6);
    assert("INSTRUMENT"@.len() == 10);
    assert("RECORD"@.len() == 6);
    assert("SELECT_R"@.len() == 8);
    assert("SELECT_G"@.len() == 8);
    assert("SELECT_Y"@.len() == 8);
    assert("SELECT_B"@.len() == 8);
    assert("SELECT_P"@.len() == 8);
    assert("SHOW_ANCHORS"@.len() == 12);
    assert("CREATE_PROJECT"@.len() == 14);
    assert("OPEN_PROJECT"@.len() == 12);
    assert("SHOW_PROJECT"@.len() == 12);
    assert("PLAY"@.len() == 4);
    assert("STOP"@.len() == 4);
    assert("SCRUB"@.len() == 5);
    assert("GOTO"@.len() == 4);
    assert("LOOP"@.len() == 4);
    assert("LOOP_OFF"@.len() == 8);
    assert("RECORD_AT"@.len() == 9);
    assert("MUTE_AT"@.len() == 7);
    assert("MONITOR"@.len() == 7);
    assert("LOOP_MODE"@.len() == 9);
    assert("SET_LOOP"@.len() == 8);
    assert("NOTE_ON"@.len() == 7);
    assert("NOTE_OFF"@.len() == 8);
    assert("OCTAVE"@.len() == 6);
    assert("SET_PARAM"@.len() == 9);
    assert("SET_TEMPO"@.len() == 9);
    assert("SET_METER"@.len() == 9);
    assert("ADD_MODULE"@.len() == 10);
    assert("DEL_MODULE"@.len() == 10);
    assert("ADD_ROUTE"@.len() == 9);
    assert("DEL_ROUTE"@.len() == 9);
    assert("ADD_TRACK"@.len() == 9);
    assert("PATCH_IN"@.len() == 8);
    assert("PATCH_OUT"@.len() == 9);
    assert("DEL_PATCH"@.len() == 9);
    assert("AT"@.len() == 2);
    assert("TICK"@.len() == 4);
    assert("ADD_NOTE"@.len() == 8);
    match c {
        Cmd::Noop => {},
        Cmd::Exit => {
            assert("NOOP"@[0] != "EXIT"@[0]);
        },
        Cmd::Up => {},
        Cmd::Down => {
            assert("UP"@[0] != "DN"@[0]);
        },
        Cmd::Left => {
            assert("UP"@[0] != "LT"@[0]);
            assert("DN"@[0] != "LT"@[0]);
        },
        Cmd::Right => {
            assert("UP"@[0] != "RT"@[0]);
            assert("DN"@[0] != "RT"@[0]);
            assert("LT"@[0] != "RT"@[0]);
        },
        Cmd::Back => {
            assert("NOOP"@[0] != "BACK"@[0]);
            assert("EXIT"@[0] != "BACK"@[0]);
        },
        Cmd::Cancel => {},
        Cmd::Close => {},
        Cmd::Route => {
            assert("CLOSE"@[0] != "ROUTE"@[0]);
        },
        Cmd::Deselect => {},
        Cmd::Effect => {
            assert("CANCEL"@[0] != "EFFECT"@[0]);
        },
        Cmd::Instrument => {},
        Cmd::Record => {
            assert("CANCEL"@[0] != "RECORD"@[0]);
            assert("EFFECT"@[0] != "RECORD"@[0]);
        },
        Cmd::SelectR => {
            assert("DESELECT"@[0] != "SELECT_R"@[0]);
        },
        Cmd::SelectG => {
            assert("DESELECT"@[0] != "SELECT_G"@[0]);
            assert("SELECT_R"@[7] != "SELECT_G"@[7]);
        },
        Cmd::SelectY => {
            assert("DESELECT"@[0] != "SELECT_Y"@[0]);
            assert("SELECT_R"@[7] != "SELECT_Y"@[7]);
            assert("SELECT_G"@[7] != "SELECT_Y"@[7]);
        },
        Cmd::SelectB => {
            assert("DESELECT"@[0] != "SELECT_B"@[0]);
            assert("SELECT_R"@[7] != "SELECT_B"@[7]);
            assert("SELECT_G"@[7] != "SELECT_B"@[7]);
            assert("SELECT_Y"@[7] != "SELECT_B"@[7]);
        },
        Cmd::SelectP => {
            assert("DESELECT"@[0] != "SELECT_P"@[0]);
            assert("SELECT_R"@[7] != "SELECT_P"@[7]);
            assert("SELECT_G"@[7] != "SELECT_P"@[7]);
            assert("SELECT_Y"@[7] != "SELECT_P"@[7]);
            assert("SELECT_B"@[7] != "SELECT_P"@[7]);
        },
        Cmd::ShowAnchors => {},
        Cmd::CreateProject => {},
        Cmd::OpenProject => {
            assert("SHOW_ANCHORS"@[0] != "OPEN_PROJECT"@[0]);
        },
        Cmd::ShowProject => {
            assert("SHOW_ANCHORS"@[5] != "SHOW_PROJECT"@[5]);
            assert("OPEN_PROJECT"@[0] != "SHOW_PROJECT"@[0]);
        },
        Cmd::Play => {
            assert("NOOP"@[0] != "PLAY"@[0]);
            assert("EXIT"@[0] != "PLAY"@[0]);
            assert("BACK"@[0] != "PLAY"@[0]);
        },
        Cmd::Stop => {
            assert("NOOP"@[0] != "STOP"@[0]);
            assert("EXIT"@[0] != "STOP"@[0]);
            assert("BACK"@[0] != "STOP"@[0]);
            assert("PLAY"@[0] != "STOP"@[0]);
        },
        Cmd::Scrub => {
            assert("CLOSE"@[0] != "SCRUB"@[0]);
            assert("ROUTE"@[0] != "SCRUB"@[0]);
        },
        Cmd::Goto => {
            assert("NOOP"@[0] != "GOTO"@[0]);
            assert("EXIT"@[0] != "GOTO"@[0]);
            assert("BACK"@[0] != "GOTO"@[0]);
            assert("PLAY"@[0] != "GOTO"@[0]);
            assert("STOP"@[0] != "GOTO"@[0]);
        },
        Cmd::Loop => {
            assert("NOOP"@[0] != "LOOP"@[0]);
            assert("EXIT"@[0] != "LOOP"@[0]);
            assert("BACK"@[0] != "LOOP"@[0]);
            assert("PLAY"@[0] != "LOOP"@[0]);
            assert("STOP"@[0] != "LOOP"@[0]);
            assert("GOTO"@[0] != "LOOP"@[0]);
        },
        Cmd::LoopOff => {
            assert("DESELECT"@[0] != "LOOP_OFF"@[0]);
            assert("SELECT_R"@[0] != "LOOP_OFF"@[0]);
            assert("SELECT_G"@[0] != "LOOP_OFF"@[0]);
            assert("SELECT_Y"@[0] != "LOOP_OFF"@[0]);
            assert("SELECT_B"@[0] != "LOOP_OFF"@[0]);
            assert("SELECT_P"@[0] != "LOOP_OFF"@[0]);
        },
        Cmd::RecordAt => {},
        Cmd::MuteAt => {},
        Cmd::Monitor => {
            assert("MUTE_AT"@[1] != "MONITOR"@[1]);
        },
        Cmd::LoopMode => {
            assert("RECORD_AT"@[0] != "LOOP_MODE"@[0]);
        },
        Cmd::SetLoop => {
            assert("DESELECT"@[0] != "SET_LOOP"@[0]);
            assert("SELECT_R"@[2] != "SET_LOOP"@[2]);
            assert("SELECT_G"@[2] != "SET_LOOP"@[2]);
            assert("SELECT_Y"@[2] != "SET_LOOP"@[2]);
            assert("SELECT_B"@[2] != "SET_LOOP"@[2]);
            assert("SELECT_P"@[2] != "SET_LOOP"@[2]);
            assert("LOOP_OFF"@[0] != "SET_LOOP"@[0]);
        },
        Cmd::NoteOn => {
            assert("MUTE_AT"@[0] != "NOTE_ON"@[0]);
            assert("MONITOR"@[0] != "NOTE_ON"@[0]);
        },
        Cmd::NoteOff => {
            assert("DESELECT"@[0] != "NOTE_OFF"@[0]);
            assert("SELECT_R"@[0] != "NOTE_OFF"@[0]);
            assert("SELECT_G"@[0] != "NOTE_OFF"@[0]);
            assert("SELECT_Y"@[0] != "NOTE_OFF"@[0]);
            assert("SELECT_B"@[0] != "NOTE_OFF"@[0]);
            assert("SELECT_P"@[0] != "NOTE_OFF"@[0]);
            assert("LOOP_OFF"@[0] != "NOTE_OFF"@[0]);
            assert("SET_LOOP"@[0] != "NOTE_OFF"@[0]);
        },
        Cmd::Octave => {
            assert("CANCEL"@[0] != "OCTAVE"@[0]);
            assert("EFFECT"@[0] != "OCTAVE"@[0]);
            assert("RECORD"@[0] != "OCTAVE"@[0]);
        },
        Cmd::SetParam => {
            assert("RECORD_AT"@[0] != "SET_PARAM"@[0]);
            assert("LOOP_MODE"@[0] != "SET_PARAM"@[0]);
        },
        Cmd::SetTempo => {
            assert("RECORD_AT"@[0] != "SET_TEMPO"@[0]);
            assert("LOOP_MODE"@[0] != "SET_TEMPO"@[0]);
            assert("SET_PARAM"@[4] != "SET_TEMPO"@[4]);
        },
        Cmd::SetMeter => {
            assert("RECORD_AT"@[0] != "SET_METER"@[0]);
            assert("LOOP_MODE"@[0] != "SET_METER"@[0]);
            assert("SET_PARAM"@[4] != "SET_METER"@[4]);
            assert("SET_TEMPO"@[4] != "SET_METER"@[4]);
        },
        Cmd::AddModule => {
            assert("INSTRUMENT"@[0] != "ADD_MODULE"@[0]);
        },
        Cmd::DelModule => {
            assert("INSTRUMENT"@[0] != "DEL_MODULE"@[0]);
            assert("ADD_MODULE"@[0] != "DEL_MODULE"@[0]);
        },
        Cmd::AddRoute => {
            assert("RECORD_AT"@[0] != "ADD_ROUTE"@[0]);
            assert("LOOP_MODE"@[0] != "ADD_ROUTE"@[0]);
            assert("SET_PARAM"@[0] != "ADD_ROUTE"@[0]);
            assert("SET_TEMPO"@[0] != "ADD_ROUTE"@[0]);
            assert("SET_METER"@[0] != "ADD_ROUTE"@[0]);
        },
        Cmd::DelRoute => {
            assert("RECORD_AT"@[0] != "DEL_ROUTE"@[0]);
            assert("LOOP_MODE"@[0] != "DEL_ROUTE"@[0]);
            assert("SET_PARAM"@[0] != "DEL_ROUTE"@[0]);
            assert("SET_TEMPO"@[0] != "DEL_ROUTE"@[0]);
            assert("SET_METER"@[0] != "DEL_ROUTE"@[0]);
            assert("ADD_ROUTE"@[0] != "DEL_ROUTE"@[0]);
        },
        Cmd::AddTrack => {
            assert("RECORD_AT"@[0] != "ADD_TRACK"@[0]);
            assert("LOOP_MODE"@[0] != "ADD_TRACK"@[0]);
            assert("SET_PARAM"@[0] != "ADD_TRACK"@[0]);
            assert("SET_TEMPO"@[0] != "ADD_TRACK"@[0]);
            assert("SET_METER"@[0] != "ADD_TRACK"@[0]);
            assert("ADD_ROUTE"@[4] != "ADD_TRACK"@[4]);
            assert("DEL_ROUTE"@[0] != "ADD_TRACK"@[0]);
        },
        Cmd::PatchIn => {
            assert("DESELECT"@[0] != "PATCH_IN"@[0]);
            assert("SELECT_R"@[0] != "PATCH_IN"@[0]);
            assert("SELECT_G"@[0] != "PATCH_IN"@[0]);
            assert("SELECT_Y"@[0] != "PATCH_IN"@[0]);
            assert("SELECT_B"@[0] != "PATCH_IN"@[0]);
            assert("SELECT_P"@[0] != "PATCH_IN"@[0]);
            assert("LOOP_OFF"@[0] != "PATCH_IN"@[0]);
            assert("SET_LOOP"@[0] != "PATCH_IN"@[0]);
            assert("NOTE_OFF"@[0] != "PATCH_IN"@[0]);
        },
        Cmd::PatchOut => {
            assert("RECORD_AT"@[0] != "PATCH_OUT"@[0]);
            assert("LOOP_MODE"@[0] != "PATCH_OUT"@[0]);
            assert("SET_PARAM"@[0] != "PATCH_OUT"@[0]);
            assert("SET_TEMPO"@[0] != "PATCH_OUT"@[0]);
            assert("SET_METER"@[0] != "PATCH_OUT"@[0]);
            assert("ADD_ROUTE"@[0] != "PATCH_OUT"@[0]);
            assert("DEL_ROUTE"@[0] != "PATCH_OUT"@[0]);
            assert("ADD_TRACK"@[0] != "PATCH_OUT"@[0]);
        },
        Cmd::DelPatch => {
            assert("RECORD_AT"@[0] != "DEL_PATCH"@[0]);
            assert("LOOP_MODE"@[0] != "DEL_PATCH"@[0]);
            assert("SET_PARAM"@[0] != "DEL_PATCH"@[0]);
            assert("SET_TEMPO"@[0] != "DEL_PATCH"@[0]);
            assert("SET_METER"@[0] != "DEL_PATCH"@[0]);
            assert("ADD_ROUTE"@[0] != "DEL_PATCH"@[0]);
            assert("DEL_ROUTE"@[4] != "DEL_PATCH"@[4]);
            assert("ADD_TRACK"@[0] != "DEL_PATCH"@[0]);
            assert("PATCH_OUT"@[0] != "DEL_PATCH"@[0]);
        },
        Cmd::At => {
            assert("UP"@[0] != "AT"@[0]);
            assert("DN"@[0] != "AT"@[0]);
            assert("LT"@[0] != "AT"@[0]);
            assert("RT"@[0] != "AT"@[0]);
        },
        Cmd::Tick => {
            assert("NOOP"@[0] != "TICK"@[0]);
            assert("EXIT"@[0] != "TICK"@[0]);
            assert("BACK"@[0] != "TICK"@[0]);
            assert("PLAY"@[0] != "TICK"@[0]);
            assert("STOP"@[0] != "TICK"@[0]);
            assert("GOTO"@[0] != "TICK"@[0]);
            assert("LOOP"@[0] != "TICK"@[0]);
        },
        Cmd::AddNote => {
            assert("DESELECT"@[0] != "ADD_NOTE"@[0]);
            assert("SELECT_R"@[0] != "ADD_NOTE"@[0]);
            assert("SELECT_G"@[0] != "ADD_NOTE"@[0]);
            assert("SELECT_Y"@[0] != "ADD_NOTE"@[0]);
            assert("SELECT_B"@[0] != "ADD_NOTE"@[0]);
            assert("SELECT_P"@[0] != "ADD_NOTE"@[0]);
            assert("LOOP_OFF"@[0] != "ADD_NOTE"@[0]);
            assert("SET_LOOP"@[0] != "ADD_NOTE"@[0]);
            assert("NOTE_OFF"@[0] != "ADD_NOTE"@[0]);
            assert("PATCH_IN"@[0] != "ADD_NOTE"@[0]);
        },
    }
}

/// The word that stands for a command.
pub fn word(c: Cmd) -> (w: &'static str)
    ensures
        w@ == name_of(c),
{
    match c {
        Cmd::Noop => "NOOP",
        Cmd::Exit => "EXIT",
        Cmd::Up => "UP",
        Cmd::Down => "DN",
        Cmd::Left => "LT",
        Cmd::Right => "RT",
        Cmd::Back => "BACK",
        Cmd::Cancel => "CANCEL",
        Cmd::Close => "CLOSE",
        Cmd::Route => "ROUTE",
        Cmd::Deselect => "DESELECT",
        Cmd::Effect => "EFFECT",
        Cmd::Instrument => "INSTRUMENT",
        Cmd::Record => "RECORD",
        Cmd::SelectR => "SELECT_R",
        Cmd::SelectG => "SELECT_G",
        Cmd::SelectY => "SELECT_Y",
        Cmd::SelectB => "SELECT_B",
        Cmd::SelectP => "SELECT_P",
        Cmd::ShowAnchors => "SHOW_ANCHORS",
        Cmd::CreateProject => "CREATE_PROJECT",
        Cmd::OpenProject => "OPEN_PROJECT",
        Cmd::ShowProject => "SHOW_PROJECT",
        Cmd::Play => "PLAY",
        Cmd::Stop => "STOP",
        Cmd::Scrub => "SCRUB",
        Cmd::Goto => "GOTO",
        Cmd::Loop => "LOOP",
        Cmd::LoopOff => "LOOP_OFF",
        Cmd::RecordAt => "RECORD_AT",
        Cmd::MuteAt => "MUTE_AT",
        Cmd::Monitor => "MONITOR",
        Cmd::LoopMode => "LOOP_MODE",
        Cmd::SetLoop => "SET_LOOP",
        Cmd::NoteOn => "NOTE_ON",
        Cmd::NoteOff => "NOTE_OFF",
        Cmd::Octave => "OCTAVE",
        Cmd::SetParam => "SET_PARAM",
        Cmd::SetTempo => "SET_TEMPO",
        Cmd::SetMeter => "SET_METER",
        Cmd::AddModule => "ADD_MODULE",
        Cmd::DelModule => "DEL_MODULE",
        Cmd::AddRoute => "ADD_ROUTE",
        Cmd::DelRoute => "DEL_ROUTE",
        Cmd::AddTrack => "ADD_TRACK",
        Cmd::PatchIn => "PATCH_IN",
        Cmd::PatchOut => "PATCH_OUT",
        Cmd::DelPatch => "DEL_PATCH",
        Cmd::At => "AT",
        Cmd::Tick => "TICK",
        Cmd::AddNote => "ADD_NOTE",
    }
}

/// The command that a word stands for.
fn command(piece: &Vec<char>) -> (c: Option<Cmd>)
    ensures
        c == command_of(piece@),
{
    if same(piece, "NOOP") {
        Some(Cmd::Noop)
    } else if same(piece, "EXIT") {
        Some(Cmd::Exit)
    } else if same(piece, "UP") {
        Some(Cmd::Up)
    } else if same(piece, "DN") {
        Some(Cmd::Down)
    } else if same(piece, "LT") {
        Some(Cmd::Left)
    } else if same(piece, "RT") {
        Some(Cmd::Right)
    } else if same(piece, "BACK") {
        Some(Cmd::Back)
    } else if same(piece, "CANCEL") {
        Some(Cmd::Cancel)
    } else if same(piece, "CLOSE") {
        Some(Cmd::Close)
    } else if same(piece, "ROUTE") {
        Some(Cmd::Route)
    } else if same(piece, "DESELECT") {
        Some(Cmd::Deselect)
    } else if same(piece, "EFFECT") {
        Some(Cmd::Effect)
    } else if same(piece, "INSTRUMENT") {
        Some(Cmd::Instrument)
    } else if same(piece, "RECORD") {
        Some(Cmd::Record)
    } else if same(piece, "SELECT_R") {
        Some(Cmd::SelectR)
    } else if same(piece, "SELECT_G") {
        Some(Cmd::SelectG)
    } else if same(piece, "SELECT_Y") {
        Some(Cmd::SelectY)
    } else if same(piece, "SELECT_B") {
        Some(Cmd::SelectB)
    } else if same(piece, "SELECT_P") {
        Some(Cmd::SelectP)
    } else if same(piece, "SHOW_ANCHORS") {
        Some(Cmd::ShowAnchors)
    } else if same(piece, "CREATE_PROJECT") {
        Some(Cmd::CreateProject)
    } else if same(piece, "OPEN_PROJECT") {
        Some(Cmd::OpenProject)
    } else if same(piece, "SHOW_PROJECT") {
        Some(Cmd::ShowProject)
    } else if same(piece, "PLAY") {
        Some(Cmd::Play)
    } else if same(piece, "STOP") {
        Some(Cmd::Stop)
    } else if same(piece, "SCRUB") {
        Some(Cmd::Scrub)
    } else if same(piece, "GOTO") {
        Some(Cmd::Goto)
    } else if same(piece, "LOOP") {
        Some(Cmd::Loop)
    } else if same(piece, "LOOP_OFF") {
        Some(Cmd::LoopOff)
    } else if same(piece, "RECORD_AT") {
        Some(Cmd::RecordAt)
    } else if same(piece, "MUTE_AT") {
        Some(Cmd::MuteAt)
    } else if same(piece, "MONITOR") {
        Some(Cmd::Monitor)
    } else if same(piece, "LOOP_MODE") {
        Some(Cmd::LoopMode)
    } else if same(piece, "SET_LOOP") {
        Some(Cmd::SetLoop)
    } else if same(piece, "NOTE_ON") {
        Some(Cmd::NoteOn)
    } else if same(piece, "NOTE_OFF") {
        Some(Cmd::NoteOff)
    } else if same(piece, "OCTAVE") {
        Some(Cmd::Octave)
    } else if same(piece, "SET_PARAM") {
        Some(Cmd::SetParam)
    } else if same(piece, "SET_TEMPO") {
        Some(Cmd::SetTempo)
    } else if same(piece, "SET_METER") {
        Some(Cmd::SetMeter)
    } else if same(piece, "ADD_MODULE") {
        Some(Cmd::AddModule)
    } else if same(piece, "DEL_MODULE") {
        Some(Cmd::DelModule)
    } else if same(piece, "ADD_ROUTE") {
        Some(Cmd::AddRoute)
    } else if same(piece, "DEL_ROUTE") {
        Some(Cmd::DelRoute)
    } else if same(piece, "ADD_TRACK") {
        Some(Cmd::AddTrack)
    } else if same(piece, "PATCH_IN") {
        Some(Cmd::PatchIn)
    } else if same(piece, "PATCH_OUT") {
        Some(Cmd::PatchOut)
    } else if same(piece, "DEL_PATCH") {
        Some(Cmd::DelPatch)
    } else if same(piece, "AT") {
        Some(Cmd::At)
    } else if same(piece, "TICK") {
        Some(Cmd::Tick)
    } else if same(piece, "ADD_NOTE") {
        Some(Cmd::AddNote)
    } else {
        None
    }
}

/// The command of a message.
pub open spec fn cmd_of(a: ActionView) -> Cmd {
    match a {
        ActionView::Noop => Cmd::Noop,
        ActionView::Exit => Cmd::Exit,
        ActionView::Up => Cmd::Up,
        ActionView::Down => Cmd::Down,
        ActionView::Left => Cmd::Left,
        ActionView::Right => Cmd::Right,
        ActionView::Back => Cmd::Back,
        ActionView::Cancel => Cmd::Cancel,
        ActionView::Close => Cmd::Close,
        ActionView::Route => Cmd::Route,
        ActionView::Deselect => Cmd::Deselect,
        ActionView::Effect => Cmd::Effect,
        ActionView::Instrument => Cmd::Instrument,
        ActionView::Record => Cmd::Record,
        ActionView::SelectR => Cmd::SelectR,
        ActionView::SelectG => Cmd::SelectG,
        ActionView::SelectY => Cmd::SelectY,
        ActionView::SelectB => Cmd::SelectB,
        ActionView::SelectP => Cmd::SelectP,
        ActionView::ShowAnchors => Cmd::ShowAnchors,
        ActionView::CreateProject(_) => Cmd::CreateProject,
        ActionView::OpenProject(_) => Cmd::OpenProject,
        ActionView::ShowProject(_) => Cmd::ShowProject,
        ActionView::Play(_) => Cmd::Play,
        ActionView::Stop(_) => Cmd::Stop,
        ActionView::Scrub(_, _) => Cmd::Scrub,
        ActionView::Goto(_, _) => Cmd::Goto,
        ActionView::Loop(_, _, _) => Cmd::Loop,
        ActionView::LoopOff(_) => Cmd::LoopOff,
        ActionView::RecordAt(_, _) => Cmd::RecordAt,
        ActionView::MuteAt(_, _) => Cmd::MuteAt,
        ActionView::Monitor(_) => Cmd::Monitor,
        ActionView::LoopMode(_) => Cmd::LoopMode,
        ActionView::SetLoop(_, _) => Cmd::SetLoop,
        ActionView::NoteOn(_, _) => Cmd::NoteOn,
        ActionView::NoteOff(_) => Cmd::NoteOff,
        ActionView::Octave(_) => Cmd::Octave,
        ActionView::SetParam(_, _) => Cmd::SetParam,
        ActionView::SetTempo(_) => Cmd::SetTempo,
        ActionView::SetMeter(_, _) => Cmd::SetMeter,
        ActionView::AddModule(_, _) => Cmd::AddModule,
        ActionView::DelModule(_) => Cmd::DelModule,
        ActionView::AddRoute(_) => Cmd::AddRoute,
        ActionView::DelRoute(_) => Cmd::DelRoute,
        ActionView::AddTrack(_) => Cmd::AddTrack,
        ActionView::PatchIn(_, _, _) => Cmd::PatchIn,
        ActionView::PatchOut(_, _, _) => Cmd::PatchOut,
        ActionView::DelPatch(_, _, _) => Cmd::DelPatch,
        ActionView::At(_, _) => Cmd::At,
        ActionView::Tick(_) => Cmd::Tick,
        ActionView::AddNote(_, _) => Cmd::AddNote,
    }
}

/// The forms of message on the wire: a command word alone; one, two or
/// three values; a text; a note or another message.
pub open spec fn form_of(c: Cmd) -> nat {
    match c {
        Cmd::Noop | Cmd::Exit | Cmd::Up | Cmd::Down | Cmd::Left | Cmd::Right | Cmd::Back | Cmd::Cancel | Cmd::Close | Cmd::Route | Cmd::Deselect | Cmd::Effect | Cmd::Instrument | Cmd::Record | Cmd::SelectR | Cmd::SelectG | Cmd::SelectY | Cmd::SelectB | Cmd::SelectP | Cmd::ShowAnchors => 0,
        Cmd::Play | Cmd::Stop | Cmd::LoopOff | Cmd::Monitor | Cmd::SetTempo | Cmd::DelModule | Cmd::AddRoute | Cmd::DelRoute | Cmd::AddTrack | Cmd::NoteOff | Cmd::Tick | Cmd::Octave | Cmd::LoopMode => 1,
        Cmd::Scrub | Cmd::Goto | Cmd::RecordAt | Cmd::MuteAt | Cmd::NoteOn | Cmd::SetMeter | Cmd::SetLoop => 2,
        Cmd::Loop | Cmd::PatchIn | Cmd::PatchOut | Cmd::DelPatch => 3,
        Cmd::CreateProject | Cmd::OpenProject | Cmd::ShowProject | Cmd::SetParam | Cmd::AddModule => 4,
        Cmd::At | Cmd::AddNote => 5,
    }
}

/// A truth value on the wire: `1` for true, `0` for false.
pub open spec fn flag(b: bool) -> Seq<char> {
    if b {
        seq!['1']
    } else {
        seq!['0']
    }
}

/// The truth value that a field stands for.
pub open spec fn flag_of(s: Seq<char>) -> Option<bool> {
    if s == seq!['1'] {
        Some(true)
    } else if s == seq!['0'] {
        Some(false)
    } else {
        None
    }
}

/// The number of at most `max` that a field stands for.
pub open spec fn num(s: Seq<char>, max: nat) -> Option<nat> {
    match undec(s) {
        Some(v) => if v <= max {
            Some(v)
        } else {
            None
        },
        None => None,
    }
}

/// The whole number of thirty-two bits that a field stands for.
pub open spec fn num_int(s: Seq<char>) -> Option<int> {
    match undec_int(s) {
        Some(v) => if i32::MIN <= v <= i32::MAX {
            Some(v)
        } else {
            None
        },
        None => None,
    }
}

/// A truth value on the wire reads as that value, and holds no colon.
pub proof fn lemma_flag(b: bool)
    ensures
        flag_of(flag(b)) == Some(b),
        plain(flag(b)),
{
    assert(seq!['1'][0] != seq!['0'][0]);
}

/// A message as it goes over the wire: its command word, and after it
/// each of its values behind a colon. Numbers are written in decimal, truth
/// values as `1` and `0`, texts as they are; the message inside an
/// addressed message follows in the same form.
pub open spec fn wire_text(a: ActionView) -> Seq<char>
    decreases a,
{
    match a {
        ActionView::Noop => name_of(Cmd::Noop),
        ActionView::Exit => name_of(Cmd::Exit),
        ActionView::Up => name_of(Cmd::Up),
        ActionView::Down => name_of(Cmd::Down),
        ActionView::Left => name_of(Cmd::Left),
        ActionView::Right => name_of(Cmd::Right),
        ActionView::Back => name_of(Cmd::Back),
        ActionView::Cancel => name_of(Cmd::Cancel),
        ActionView::Close => name_of(Cmd::Close),
        ActionView::Route => name_of(Cmd::Route),
        ActionView::Deselect => name_of(Cmd::Deselect),
        ActionView::Effect => name_of(Cmd::Effect),
        ActionView::Instrument => name_of(Cmd::Instrument),
        ActionView::Record => name_of(Cmd::Record),
        ActionView::SelectR => name_of(Cmd::SelectR),
        ActionView::SelectG => name_of(Cmd::SelectG),
        ActionView::SelectY => name_of(Cmd::SelectY),
        ActionView::SelectB => name_of(Cmd::SelectB),
        ActionView::SelectP => name_of(Cmd::SelectP),
        ActionView::ShowAnchors => name_of(Cmd::ShowAnchors),
        ActionView::CreateProject(x0) => name_of(Cmd::CreateProject).push(':') + x0,
        ActionView::OpenProject(x0) => name_of(Cmd::OpenProject).push(':') + x0,
        ActionView::ShowProject(x0) => name_of(Cmd::ShowProject).push(':') + x0,
        ActionView::Play(x0) => name_of(Cmd::Play).push(':') + dec(x0 as nat),
        ActionView::Stop(x0) => name_of(Cmd::Stop).push(':') + dec(x0 as nat),
        ActionView::Scrub(x0, x1) => (name_of(Cmd::Scrub).push(':') + dec(x0 as nat)).push(':') + flag(x1),
        ActionView::Goto(x0, x1) => (name_of(Cmd::Goto).push(':') + dec(x0 as nat)).push(':') + dec(x1 as nat),
        ActionView::Loop(x0, x1, x2) => ((name_of(Cmd::Loop).push(':') + dec(x0 as nat)).push(':') + dec(x1 as nat)).push(':') + dec(x2 as nat),
        ActionView::LoopOff(x0) => name_of(Cmd::LoopOff).push(':') + dec(x0 as nat),
        ActionView::RecordAt(x0, x1) => (name_of(Cmd::RecordAt).push(':') + dec(x0 as nat)).push(':') + dec(x1 as nat),
        ActionView::MuteAt(x0, x1) => (name_of(Cmd::MuteAt).push(':') + dec(x0 as nat)).push(':') + dec(x1 as nat),
        ActionView::Monitor(x0) => name_of(Cmd::Monitor).push(':') + dec(x0 as nat),
        ActionView::LoopMode(x0) => name_of(Cmd::LoopMode).push(':') + flag(x0),
        ActionView::SetLoop(x0, x1) => (name_of(Cmd::SetLoop).push(':') + dec(x0 as nat)).push(':') + dec(x1 as nat),
        ActionView::NoteOn(x0, x1) => (name_of(Cmd::NoteOn).push(':') + dec(x0 as nat)).push(':') + dec(x1 as nat),
        ActionView::NoteOff(x0) => name_of(Cmd::NoteOff).push(':') + dec(x0 as nat),
        ActionView::Octave(x0) => name_of(Cmd::Octave).push(':') + flag(x0),
        ActionView::SetParam(x0, x1) => (name_of(Cmd::SetParam).push(':') + x0).push(':') + dec_int(x1 as int),
        ActionView::SetTempo(x0) => name_of(Cmd::SetTempo).push(':') + dec(x0 as nat),
        ActionView::SetMeter(x0, x1) => (name_of(Cmd::SetMeter).push(':') + dec(x0 as nat)).push(':') + dec(x1 as nat),
        ActionView::AddModule(x0, x1) => (name_of(Cmd::AddModule).push(':') + dec(x0 as nat)).push(':') + x1,
        ActionView::DelModule(x0) => name_of(Cmd::DelModule).push(':') + dec(x0 as nat),
        ActionView::AddRoute(x0) => name_of(Cmd::AddRoute).push(':') + dec(x0 as nat),
        ActionView::DelRoute(x0) => name_of(Cmd::DelRoute).push(':') + dec(x0 as nat),
        ActionView::AddTrack(x0) => name_of(Cmd::AddTrack).push(':') + dec(x0 as nat),
        ActionView::PatchIn(x0, x1, x2) => ((name_of(Cmd::PatchIn).push(':') + dec(x0 as nat)).push(':') + dec(x1 as nat)).push(':') + dec(x2 as nat),
        ActionView::PatchOut(x0, x1, x2) => ((name_of(Cmd::PatchOut).push(':') + dec(x0 as nat)).push(':') + dec(x1 as nat)).push(':') + dec(x2 as nat),
        ActionView::DelPatch(x0, x1, x2) => ((name_of(Cmd::DelPatch).push(':') + dec(x0 as nat)).push(':') + dec(x1 as nat)).push(':') + flag(x2),
        ActionView::At(x0, x1) => (name_of(Cmd::At).push(':') + dec(x0 as nat)).push(':') + wire_text(*x1),
        ActionView::Tick(x0) => name_of(Cmd::Tick).push(':') + dec(x0 as nat),
        ActionView::AddNote(x0, x1) => (((((name_of(Cmd::AddNote).push(':') + dec(x0 as nat)).push(':') + dec(x1.id as nat)).push(':') + dec(x1.t_in as nat)).push(':') + dec(x1.t_out as nat)).push(':') + dec(x1.note as nat)).push(':') + dec(x1.vel as nat),
    }
}

/// The message that a row of fields stands for: the first field is the
/// command word, the others are its values. A text takes up all fields
/// that are left for it, with the colons between them; so does the message
/// inside an addressed message. A row with too few or too many fields, a
/// number that is no number or too large, or a word that is no command,
/// stands for no message.
pub open spec fn from_fields(f: Seq<Seq<char>>) -> Option<ActionView>
    decreases f.len(),
{
    if f.len() == 0 {
        None
    } else {
        match command_of(f[0]) {
            None => None,
            Some(Cmd::Noop) => if f.len() == 1 {
                Some(ActionView::Noop)
            } else {
                None
            },
            Some(Cmd::Exit) => if f.len() == 1 {
                Some(ActionView::Exit)
            } else {
                None
            },
            Some(Cmd::Up) => if f.len() == 1 {
                Some(ActionView::Up)
            } else {
                None
            },
            Some(Cmd::Down) => if f.len() == 1 {
                Some(ActionView::Down)
            } else {
                None
            },
            Some(Cmd::Left) => if f.len() == 1 {
                Some(ActionView::Left)
            } else {
                None
            },
            Some(Cmd::Right) => if f.len() == 1 {
                Some(ActionView::Right)
            } else {
                None
            },
            Some(Cmd::Back) => if f.len() == 1 {
                Some(ActionView::Back)
            } else {
                None
            },
            Some(Cmd::Cancel) => if f.len() == 1 {
                Some(ActionView::Cancel)
            } else {
                None
            },
            Some(Cmd::Close) => if f.len() == 1 {
                Some(ActionView::Close)
            } else {
                None
            },
            Some(Cmd::Route) => if f.len() == 1 {
                Some(ActionView::Route)
            } else {
                None
            },
            Some(Cmd::Deselect) => if f.len() == 1 {
                Some(ActionView::Deselect)
            } else {
                None
            },
            Some(Cmd::Effect) => if f.len() == 1 {
                Some(ActionView::Effect)
            } else {
                None
            },
            Some(Cmd::Instrument) => if f.len() == 1 {
                Some(ActionView::Instrument)
            } else {
                None
            },
            Some(Cmd::Record) => if f.len() == 1 {
                Some(ActionView::Record)
            } else {
                None
            },
            Some(Cmd::SelectR) => if f.len() == 1 {
                Some(ActionView::SelectR)
            } else {
                None
            },
            Some(Cmd::SelectG) => if f.len() == 1 {
                Some(ActionView::SelectG)
            } else {
                None
            },
            Some(Cmd::SelectY) => if f.len() == 1 {
                Some(ActionView::SelectY)
            } else {
                None
            },
            Some(Cmd::SelectB) => if f.len() == 1 {
                Some(ActionView::SelectB)
            } else {
                None
            },
            Some(Cmd::SelectP) => if f.len() == 1 {
                Some(ActionView::SelectP)
            } else {
                None
            },
            Some(Cmd::ShowAnchors) => if f.len() == 1 {
                Some(ActionView::ShowAnchors)
            } else {
                None
            },
            Some(Cmd::CreateProject) => if f.len() >= 2 {
                match (Some(join(f.skip(1))),) {
                    (Some(x0),) => Some(ActionView::CreateProject(x0)),
                    _ => None,
                }
            } else {
                None
            },
            Some(Cmd::OpenProject) => if f.len() >= 2 {
                match (Some(join(f.skip(1))),) {
                    (Some(x0),) => Some(ActionView::OpenProject(x0)),
                    _ => None,
                }
            } else {
                None
            },
            Some(Cmd::ShowProject) => if f.len() >= 2 {
                match (Some(join(f.skip(1))),) {
                    (Some(x0),) => Some(ActionView::ShowProject(x0)),
                    _ => None,
                }
            } else {
                None
            },
            Some(Cmd::Play) => if f.len() == 2 {
                match (num(f[1], 65535),) {
                    (Some(x0),) => Some(ActionView::Play(x0 as u16)),
                    _ => None,
                }
            } else {
                None
            },
            Some(Cmd::Stop) => if f.len() == 2 {
                match (num(f[1], 65535),) {
                    (Some(x0),) => Some(ActionView::Stop(x0 as u16)),
                    _ => None,
                }
            } else {
                None
            },
            Some(Cmd::Scrub) => if f.len() == 3 {
                match (num(f[1], 65535), flag_of(f[2])) {
                    (Some(x0), Some(x1)) => Some(ActionView::Scrub(x0 as u16, x1)),
                    _ => None,
                }
            } else {
                None
            },
            Some(Cmd::Goto) => if f.len() == 3 {
                match (num(f[1], 65535), num(f[2], 4294967295)) {
                    (Some(x0), Some(x1)) => Some(ActionView::Goto(x0 as u16, x1 as u32)),
                    _ => None,
                }
            } else {
                None
            },
            Some(Cmd::Loop) => if f.len() == 4 {
                match (num(f[1], 65535), num(f[2], 4294967295), num(f[3], 4294967295)) {
                    (Some(x0), Some(x1), Some(x2)) => Some(ActionView::Loop(x0 as u16, x1 as u32, x2 as u32)),
                    _ => None,
                }
            } else {
                None
            },
            Some(Cmd::LoopOff) => if f.len() == 2 {
                match (num(f[1], 65535),) {
                    (Some(x0),) => Some(ActionView::LoopOff(x0 as u16)),
                    _ => None,
                }
            } else {
                None
            },
            Some(Cmd::RecordAt) => if f.len() == 3 {
                match (num(f[1], 65535), num(f[2], 65535)) {
                    (Some(x0), Some(x1)) => Some(ActionView::RecordAt(x0 as u16, x1 as u16)),
                    _ => None,
                }
            } else {
                None
            },
            Some(Cmd::MuteAt) => if f.len() == 3 {
                match (num(f[1], 65535), num(f[2], 65535)) {
                    (Some(x0), Some(x1)) => Some(ActionView::MuteAt(x0 as u16, x1 as u16)),
                    _ => None,
                }
            } else {
                None
            },
            Some(Cmd::Monitor) => if f.len() == 2 {
                match (num(f[1], 65535),) {
                    (Some(x0),) => Some(ActionView::Monitor(x0 as u16)),
                    _ => None,
                }
            } else {
                None
            },
            Some(Cmd::LoopMode) => if f.len() == 2 {
                match (flag_of(f[1]),) {
                    (Some(x0),) => Some(ActionView::LoopMode(x0)),
                    _ => None,
                }
            } else {
                None
            },
            Some(Cmd::SetLoop) => if f.len() == 3 {
                match (num(f[1], 4294967295), num(f[2], 4294967295)) {
                    (Some(x0), Some(x1)) => Some(ActionView::SetLoop(x0 as u32, x1 as u32)),
                    _ => None,
                }
            } else {
                None
            },
            Some(Cmd::NoteOn) => if f.len() == 3 {
                match (num(f[1], 255), num(f[2], 255)) {
                    (Some(x0), Some(x1)) => Some(ActionView::NoteOn(x0 as u8, x1 as u8)),
                    _ => None,
                }
            } else {
                None
            },
            Some(Cmd::NoteOff) => if f.len() == 2 {
                match (num(f[1], 255),) {
                    (Some(x0),) => Some(ActionView::NoteOff(x0 as u8)),
                    _ => None,
                }
            } else {
                None
            },
            Some(Cmd::Octave) => if f.len() == 2 {
                match (flag_of(f[1]),) {
                    (Some(x0),) => Some(ActionView::Octave(x0)),
                    _ => None,
                }
            } else {
                None
            },
            Some(Cmd::SetParam) => if f.len() >= 3 {
                match (Some(join(f.subrange(1, f.len() - 1))), num_int(f.last())) {
                    (Some(x0), Some(x1)) => Some(ActionView::SetParam(x0, x1 as i32)),
                    _ => None,
                }
            } else {
                None
            },
            Some(Cmd::SetTempo) => if f.len() == 2 {
                match (num(f[1], 65535),) {
                    (Some(x0),) => Some(ActionView::SetTempo(x0 as u16)),
                    _ => None,
                }
            } else {
                None
            },
            Some(Cmd::SetMeter) => if f.len() == 3 {
                match (num(f[1], 65535), num(f[2], 65535)) {
                    (Some(x0), Some(x1)) => Some(ActionView::SetMeter(x0 as u16, x1 as u16)),
                    _ => None,
                }
            } else {
                None
            },
            Some(Cmd::AddModule) => if f.len() >= 3 {
                match (num(f[1], 65535), Some(join(f.skip(2)))) {
                    (Some(x0), Some(x1)) => Some(ActionView::AddModule(x0 as u16, x1)),
                    _ => None,
                }
            } else {
                None
            },
            Some(Cmd::DelModule) => if f.len() == 2 {
                match (num(f[1], 65535),) {
                    (Some(x0),) => Some(ActionView::DelModule(x0 as u16)),
                    _ => None,
                }
            } else {
                None
            },
            Some(Cmd::AddRoute) => if f.len() == 2 {
                match (num(f[1], 65535),) {
                    (Some(x0),) => Some(ActionView::AddRoute(x0 as u16)),
                    _ => None,
                }
            } else {
                None
            },
            Some(Cmd::DelRoute) => if f.len() == 2 {
                match (num(f[1], 65535),) {
                    (Some(x0),) => Some(ActionView::DelRoute(x0 as u16)),
                    _ => None,
                }
            } else {
                None
            },
            Some(Cmd::AddTrack) => if f.len() == 2 {
                match (num(f[1], 65535),) {
                    (Some(x0),) => Some(ActionView::AddTrack(x0 as u16)),
                    _ => None,
                }
            } else {
                None
            },
            Some(Cmd::PatchIn) => if f.len() == 4 {
                match (num(f[1], 65535), num(f[2], 65535), num(f[3], 65535)) {
                    (Some(x0), Some(x1), Some(x2)) => Some(ActionView::PatchIn(x0 as u16, x1 as u16, x2 as u16)),
                    _ => None,
                }
            } else {
                None
            },
            Some(Cmd::PatchOut) => if f.len() == 4 {
                match (num(f[1], 65535), num(f[2], 65535), num(f[3], 65535)) {
                    (Some(x0), Some(x1), Some(x2)) => Some(ActionView::PatchOut(x0 as u16, x1 as u16, x2 as u16)),
                    _ => None,
                }
            } else {
                None
            },
            Some(Cmd::DelPatch) => if f.len() == 4 {
                match (num(f[1], 65535), num(f[2], 65535), flag_of(f[3])) {
                    (Some(x0), Some(x1), Some(x2)) => Some(ActionView::DelPatch(x0 as u16, x1 as u16, x2)),
                    _ => None,
                }
            } else {
                None
            },
            Some(Cmd::At) => if f.len() >= 3 {
                match (num(f[1], 65535), from_fields(f.skip(2))) {
                    (Some(x0), Some(x1)) => Some(ActionView::At(x0 as u16, Box::new(x1))),
                    _ => None,
                }
            } else {
                None
            },
            Some(Cmd::Tick) => if f.len() == 2 {
                match (num(f[1], 4294967295),) {
                    (Some(x0),) => Some(ActionView::Tick(x0 as u32)),
                    _ => None,
                }
            } else {
                None
            },
            Some(Cmd::AddNote) => if f.len() == 7 {
                match (num(f[1], 65535), num(f[2], 65535), num(f[3], 4294967295), num(f[4], 4294967295), num(f[5], 255), num(f[6], 255)) {
                    (Some(x0), Some(n0), Some(n1), Some(n2), Some(n3), Some(n4)) => Some(ActionView::AddNote(x0 as u16, Note { id: n0 as u16, t_in: n1 as u32, t_out: n2 as u32, note: n3 as u8, vel: n4 as u8 })),
                    _ => None,
                }
            } else {
                None
            },
        }
    }
}

/// The message that a text stands for, if it stands for one.
pub open spec fn parse_spec(text: Seq<char>) -> Option<ActionView> {
    from_fields(split(text, true))
}

/// Every message, written to the wire and read back, is the same
/// message.
pub proof fn lemma_parse_wire(a: ActionView)
    ensures
        parse_spec(wire_text(a)) == Some(a),
{
    lemma_fields_of(a);
}

/// The fields of messages that are a command word alone.
proof fn lemma_fields_bare(a: ActionView)
    requires
        form_of(cmd_of(a)) == 0,
    ensures
        from_fields(split(wire_text(a), true)) == Some(a),
        split(wire_text(a), true).len() >= 1,
{
    lemma_command_words(cmd_of(a));
    let c = name_of(cmd_of(a));
    lemma_split_one(c);
    match a {
        ActionView::Noop => {},
        ActionView::Exit => {},
        ActionView::Up => {},
        ActionView::Down => {},
        ActionView::Left => {},
        ActionView::Right => {},
        ActionView::Back => {},
        ActionView::Cancel => {},
        ActionView::Close => {},
        ActionView::Route => {},
        ActionView::Deselect => {},
        ActionView::Effect => {},
        ActionView::Instrument => {},
        ActionView::Record => {},
        ActionView::SelectR => {},
        ActionView::SelectG => {},
        ActionView::SelectY => {},
        ActionView::SelectB => {},
        ActionView::SelectP => {},
        ActionView::ShowAnchors => {},
        _ => {},
    }
}

/// The fields of messages with one value.
proof fn lemma_fields_single(a: ActionView)
    requires
        form_of(cmd_of(a)) == 1,
    ensures
        from_fields(split(wire_text(a), true)) == Some(a),
        split(wire_text(a), true).len() >= 1,
{
    lemma_command_words(cmd_of(a));
    let c = name_of(cmd_of(a));
    lemma_split_one(c);
    match a {
        ActionView::Play(x0) => {
            let t0 = c;
            let f0 = seq![c];
            lemma_undec_dec(x0 as nat);
            lemma_split_push(t0, dec(x0 as nat));
            let t1 = t0.push(':') + dec(x0 as nat);
            let f1 = f0.push(dec(x0 as nat));
            assert(wire_text(a) =~= t1);
            assert(split(wire_text(a), true) == f1);
            assert(f1[0] == c);
        },
        ActionView::Stop(x0) => {
            let t0 = c;
            let f0 = seq![c];
            lemma_undec_dec(x0 as nat);
            lemma_split_push(t0, dec(x0 as nat));
            let t1 = t0.push(':') + dec(x0 as nat);
            let f1 = f0.push(dec(x0 as nat));
            assert(wire_text(a) =~= t1);
            assert(split(wire_text(a), true) == f1);
            assert(f1[0] == c);
        },
        ActionView::LoopOff(x0) => {
            let t0 = c;
            let f0 = seq![c];
            lemma_undec_dec(x0 as nat);
            lemma_split_push(t0, dec(x0 as nat));
            let t1 = t0.push(':') + dec(x0 as nat);
            let f1 = f0.push(dec(x0 as nat));
            assert(wire_text(a) =~= t1);
            assert(split(wire_text(a), true) == f1);
            assert(f1[0] == c);
        },
        ActionView::Monitor(x0) => {
            let t0 = c;
            let f0 = seq![c];
            lemma_undec_dec(x0 as nat);
            lemma_split_push(t0, dec(x0 as nat));
            let t1 = t0.push(':') + dec(x0 as nat);
            let f1 = f0.push(dec(x0 as nat));
            assert(wire_text(a) =~= t1);
            assert(split(wire_text(a), true) == f1);
            assert(f1[0] == c);
        },
        ActionView::SetTempo(x0) => {
            let t0 = c;
            let f0 = seq![c];
            lemma_undec_dec(x0 as nat);
            lemma_split_push(t0, dec(x0 as nat));
            let t1 = t0.push(':') + dec(x0 as nat);
            let f1 = f0.push(dec(x0 as nat));
            assert(wire_text(a) =~= t1);
            assert(split(wire_text(a), true) == f1);
            assert(f1[0] == c);
        },
        ActionView::DelModule(x0) => {
            let t0 = c;
            let f0 = seq![c];
            lemma_undec_dec(x0 as nat);
            lemma_split_push(t0, dec(x0 as nat));
            let t1 = t0.push(':') + dec(x0 as nat);
            let f1 = f0.push(dec(x0 as nat));
            assert(wire_text(a) =~= t1);
            assert(split(wire_text(a), true) == f1);
            assert(f1[0] == c);
        },
        ActionView::AddRoute(x0) => {
            let t0 = c;
            let f0 = seq![c];
            lemma_undec_dec(x0 as nat);
            lemma_split_push(t0, dec(x0 as nat));
            let t1 = t0.push(':') + dec(x0 as nat);
            let f1 = f0.push(dec(x0 as nat));
            assert(wire_text(a) =~= t1);
            assert(split(wire_text(a), true) == f1);
            assert(f1[0] == c);
        },
        ActionView::DelRoute(x0) => {
            let t0 = c;
            let f0 = seq![c];
            lemma_undec_dec(x0 as nat);
            lemma_split_push(t0, dec(x0 as nat));
            let t1 = t0.push(':') + dec(x0 as nat);
            let f1 = f0.push(dec(x0 as nat));
            assert(wire_text(a) =~= t1);
            assert(split(wire_text(a), true) == f1);
            assert(f1[0] == c);
        },
        ActionView::AddTrack(x0) => {
            let t0 = c;
            let f0 = seq![c];
            lemma_undec_dec(x0 as nat);
            lemma_split_push(t0, dec(x0 as nat));
            let t1 = t0.push(':') + dec(x0 as nat);
            let f1 = f0.push(dec(x0 as nat));
            assert(wire_text(a) =~= t1);
            assert(split(wire_text(a), true) == f1);
            assert(f1[0] == c);
        },
        ActionView::NoteOff(x0) => {
            let t0 = c;
            let f0 = seq![c];
            lemma_undec_dec(x0 as nat);
            lemma_split_push(t0, dec(x0 as nat));
            let t1 = t0.push(':') + dec(x0 as nat);
            let f1 = f0.push(dec(x0 as nat));
            assert(wire_text(a) =~= t1);
            assert(split(wire_text(a), true) == f1);
            assert(f1[0] == c);
        },
        ActionView::Tick(x0) => {
            let t0 = c;
            let f0 = seq![c];
            lemma_undec_dec(x0 as nat);
            lemma_split_push(t0, dec(x0 as nat));
            let t1 = t0.push(':') + dec(x0 as nat);
            let f1 = f0.push(dec(x0 as nat));
            assert(wire_text(a) =~= t1);
            assert(split(wire_text(a), true) == f1);
            assert(f1[0] == c);
        },
        ActionView::Octave(x0) => {
            let t0 = c;
            let f0 = seq![c];
            lemma_flag(x0);
            lemma_split_push(t0, flag(x0));
            let t1 = t0.push(':') + flag(x0);
            let f1 = f0.push(flag(x0));
            assert(wire_text(a) =~= t1);
            assert(split(wire_text(a), true) == f1);
            assert(f1[0] == c);
        },
        ActionView::LoopMode(x0) => {
            let t0 = c;
            let f0 = seq![c];
            lemma_flag(x0);
            lemma_split_push(t0, flag(x0));
            let t1 = t0.push(':') + flag(x0);
            let f1 = f0.push(flag(x0));
            assert(wire_text(a) =~= t1);
            assert(split(wire_text(a), true) == f1);
            assert(f1[0] == c);
        },
        _ => {},
    }
}

/// The fields of messages with two values.
proof fn lemma_fields_pair(a: ActionView)
    requires
        form_of(cmd_of(a)) == 2,
    ensures
        from_fields(split(wire_text(a), true)) == Some(a),
        split(wire_text(a), true).len() >= 1,
{
    lemma_command_words(cmd_of(a));
    let c = name_of(cmd_of(a));
    lemma_split_one(c);
    match a {
        ActionView::Scrub(x0, x1) => {
            let t0 = c;
            let f0 = seq![c];
            lemma_undec_dec(x0 as nat);
            lemma_split_push(t0, dec(x0 as nat));
            let t1 = t0.push(':') + dec(x0 as nat);
            let f1 = f0.push(dec(x0 as nat));
            lemma_flag(x1);
            lemma_split_push(t1, flag(x1));
            let t2 = t1.push(':') + flag(x1);
            let f2 = f1.push(flag(x1));
            assert(wire_text(a) =~= t2);
            assert(split(wire_text(a), true) == f2);
            assert(f2[0] == c);
        },
        ActionView::Goto(x0, x1) => {
            let t0 = c;
            let f0 = seq![c];
            lemma_undec_dec(x0 as nat);
            lemma_split_push(t0, dec(x0 as nat));
            let t1 = t0.push(':') + dec(x0 as nat);
            let f1 = f0.push(dec(x0 as nat));
            lemma_undec_dec(x1 as nat);
            lemma_split_push(t1, dec(x1 as nat));
            let t2 = t1.push(':') + dec(x1 as nat);
            let f2 = f1.push(dec(x1 as nat));
            assert(wire_text(a) =~= t2);
            assert(split(wire_text(a), true) == f2);
            assert(f2[0] == c);
        },
        ActionView::RecordAt(x0, x1) => {
            let t0 = c;
            let f0 = seq![c];
            lemma_undec_dec(x0 as nat);
            lemma_split_push(t0, dec(x0 as nat));
            let t1 = t0.push(':') + dec(x0 as nat);
            let f1 = f0.push(dec(x0 as nat));
            lemma_undec_dec(x1 as nat);
            lemma_split_push(t1, dec(x1 as nat));
            let t2 = t1.push(':') + dec(x1 as nat);
            let f2 = f1.push(dec(x1 as nat));
            assert(wire_text(a) =~= t2);
            assert(split(wire_text(a), true) == f2);
            assert(f2[0] == c);
        },
        ActionView::MuteAt(x0, x1) => {
            let t0 = c;
            let f0 = seq![c];
            lemma_undec_dec(x0 as nat);
            lemma_split_push(t0, dec(x0 as nat));
            let t1 = t0.push(':') + dec(x0 as nat);
            let f1 = f0.push(dec(x0 as nat));
            lemma_undec_dec(x1 as nat);
            lemma_split_push(t1, dec(x1 as nat));
            let t2 = t1.push(':') + dec(x1 as nat);
            let f2 = f1.push(dec(x1 as nat));
            assert(wire_text(a) =~= t2);
            assert(split(wire_text(a), true) == f2);
            assert(f2[0] == c);
        },
        ActionView::NoteOn(x0, x1) => {
            let t0 = c;
            let f0 = seq![c];
            lemma_undec_dec(x0 as nat);
            lemma_split_push(t0, dec(x0 as nat));
            let t1 = t0.push(':') + dec(x0 as nat);
            let f1 = f0.push(dec(x0 as nat));
            lemma_undec_dec(x1 as nat);
            lemma_split_push(t1, dec(x1 as nat));
            let t2 = t1.push(':') + dec(x1 as nat);
            let f2 = f1.push(dec(x1 as nat));
            assert(wire_text(a) =~= t2);
            assert(split(wire_text(a), true) == f2);
            assert(f2[0] == c);
        },
        ActionView::SetMeter(x0, x1) => {
            let t0 = c;
            let f0 = seq![c];
            lemma_undec_dec(x0 as nat);
            lemma_split_push(t0, dec(x0 as nat));
            let t1 = t0.push(':') + dec(x0 as nat);
            let f1 = f0.push(dec(x0 as nat));
            lemma_undec_dec(x1 as nat);
            lemma_split_push(t1, dec(x1 as nat));
            let t2 = t1.push(':') + dec(x1 as nat);
            let f2 = f1.push(dec(x1 as nat));
            assert(wire_text(a) =~= t2);
            assert(split(wire_text(a), true) == f2);
            assert(f2[0] == c);
        },
        ActionView::SetLoop(x0, x1) => {
            let t0 = c;
            let f0 = seq![c];
            lemma_undec_dec(x0 as nat);
            lemma_split_push(t0, dec(x0 as nat));
            let t1 = t0.push(':') + dec(x0 as nat);
            let f1 = f0.push(dec(x0 as nat));
            lemma_undec_dec(x1 as nat);
            lemma_split_push(t1, dec(x1 as nat));
            let t2 = t1.push(':') + dec(x1 as nat);
            let f2 = f1.push(dec(x1 as nat));
            assert(wire_text(a) =~= t2);
            assert(split(wire_text(a), true) == f2);
            assert(f2[0] == c);
        },
        _ => {},
    }
}

/// The fields of messages with three values.
proof fn lemma_fields_triple(a: ActionView)
    requires
        form_of(cmd_of(a)) == 3,
    ensures
        from_fields(split(wire_text(a), true)) == Some(a),
        split(wire_text(a), true).len() >= 1,
{
    lemma_command_words(cmd_of(a));
    let c = name_of(cmd_of(a));
    lemma_split_one(c);
    match a {
        ActionView::Loop(x0, x1, x2) => {
            let t0 = c;
            let f0 = seq![c];
            lemma_undec_dec(x0 as nat);
            lemma_split_push(t0, dec(x0 as nat));
            let t1 = t0.push(':') + dec(x0 as nat);
            let f1 = f0.push(dec(x0 as nat));
            lemma_undec_dec(x1 as nat);
            lemma_split_push(t1, dec(x1 as nat));
            let t2 = t1.push(':') + dec(x1 as nat);
            let f2 = f1.push(dec(x1 as nat));
            lemma_undec_dec(x2 as nat);
            lemma_split_push(t2, dec(x2 as nat));
            let t3 = t2.push(':') + dec(x2 as nat);
            let f3 = f2.push(dec(x2 as nat));
            assert(wire_text(a) =~= t3);
            assert(split(wire_text(a), true) == f3);
            assert(f3[0] == c);
        },
        ActionView::PatchIn(x0, x1, x2) => {
            let t0 = c;
            let f0 = seq![c];
            lemma_undec_dec(x0 as nat);
            lemma_split_push(t0, dec(x0 as nat));
            let t1 = t0.push(':') + dec(x0 as nat);
            let f1 = f0.push(dec(x0 as nat));
            lemma_undec_dec(x1 as nat);
            lemma_split_push(t1, dec(x1 as nat));
            let t2 = t1.push(':') + dec(x1 as nat);
            let f2 = f1.push(dec(x1 as nat));
            lemma_undec_dec(x2 as nat);
            lemma_split_push(t2, dec(x2 as nat));
            let t3 = t2.push(':') + dec(x2 as nat);
            let f3 = f2.push(dec(x2 as nat));
            assert(wire_text(a) =~= t3);
            assert(split(wire_text(a), true) == f3);
            assert(f3[0] == c);
        },
        ActionView::PatchOut(x0, x1, x2) => {
            let t0 = c;
            let f0 = seq![c];
            lemma_undec_dec(x0 as nat);
            lemma_split_push(t0, dec(x0 as nat));
            let t1 = t0.push(':') + dec(x0 as nat);
            let f1 = f0.push(dec(x0 as nat));
            lemma_undec_dec(x1 as nat);
            lemma_split_push(t1, dec(x1 as nat));
            let t2 = t1.push(':') + dec(x1 as nat);
            let f2 = f1.push(dec(x1 as nat));
            lemma_undec_dec(x2 as nat);
            lemma_split_push(t2, dec(x2 as nat));
            let t3 = t2.push(':') + dec(x2 as nat);
            let f3 = f2.push(dec(x2 as nat));
            assert(wire_text(a) =~= t3);
            assert(split(wire_text(a), true) == f3);
            assert(f3[0] == c);
        },
        ActionView::DelPatch(x0, x1, x2) => {
            let t0 = c;
            let f0 = seq![c];
            lemma_undec_dec(x0 as nat);
            lemma_split_push(t0, dec(x0 as nat));
            let t1 = t0.push(':') + dec(x0 as nat);
            let f1 = f0.push(dec(x0 as nat));
            lemma_undec_dec(x1 as nat);
            lemma_split_push(t1, dec(x1 as nat));
            let t2 = t1.push(':') + dec(x1 as nat);
            let f2 = f1.push(dec(x1 as nat));
            lemma_flag(x2);
            lemma_split_push(t2, flag(x2));
            let t3 = t2.push(':') + flag(x2);
            let f3 = f2.push(flag(x2));
            assert(wire_text(a) =~= t3);
            assert(split(wire_text(a), true) == f3);
            assert(f3[0] == c);
        },
        _ => {},
    }
}

/// The fields of messages that hold a text.
proof fn lemma_fields_text(a: ActionView)
    requires
        form_of(cmd_of(a)) == 4,
    ensures
        from_fields(split(wire_text(a), true)) == Some(a),
        split(wire_text(a), true).len() >= 1,
{
    lemma_command_words(cmd_of(a));
    let c = name_of(cmd_of(a));
    lemma_split_one(c);
    match a {
        ActionView::CreateProject(x0) => {
            let t0 = c;
            let f0 = seq![c];
            lemma_split_concat(t0, x0);
            lemma_join_split(x0);
            lemma_split_plain(x0, true);
            let t1 = t0.push(':') + x0;
            let f1 = f0 + split(x0, true);
            assert(f1.skip(f0.len() as int) =~= split(x0, true));
            assert(wire_text(a) =~= t1);
            assert(split(wire_text(a), true) == f1);
            assert(f1[0] == c);
        },
        ActionView::OpenProject(x0) => {
            let t0 = c;
            let f0 = seq![c];
            lemma_split_concat(t0, x0);
            lemma_join_split(x0);
            lemma_split_plain(x0, true);
            let t1 = t0.push(':') + x0;
            let f1 = f0 + split(x0, true);
            assert(f1.skip(f0.len() as int) =~= split(x0, true));
            assert(wire_text(a) =~= t1);
            assert(split(wire_text(a), true) == f1);
            assert(f1[0] == c);
        },
        ActionView::ShowProject(x0) => {
            let t0 = c;
            let f0 = seq![c];
            lemma_split_concat(t0, x0);
            lemma_join_split(x0);
            lemma_split_plain(x0, true);
            let t1 = t0.push(':') + x0;
            let f1 = f0 + split(x0, true);
            assert(f1.skip(f0.len() as int) =~= split(x0, true));
            assert(wire_text(a) =~= t1);
            assert(split(wire_text(a), true) == f1);
            assert(f1[0] == c);
        },
        ActionView::SetParam(x0, x1) => {
            let t0 = c;
            let f0 = seq![c];
            lemma_split_concat(t0, x0);
            lemma_join_split(x0);
            lemma_split_plain(x0, true);
            let t1 = t0.push(':') + x0;
            let f1 = f0 + split(x0, true);
            assert(f1.push(dec_int(x1 as int)).subrange(f0.len() as int, f1.len() as int) =~= split(x0, true));
            lemma_undec_dec_int(x1 as int);
            lemma_split_push(t1, dec_int(x1 as int));
            let t2 = t1.push(':') + dec_int(x1 as int);
            let f2 = f1.push(dec_int(x1 as int));
            assert(wire_text(a) =~= t2);
            assert(split(wire_text(a), true) == f2);
            assert(f2[0] == c);
        },
        ActionView::AddModule(x0, x1) => {
            let t0 = c;
            let f0 = seq![c];
            lemma_undec_dec(x0 as nat);
            lemma_split_push(t0, dec(x0 as nat));
            let t1 = t0.push(':') + dec(x0 as nat);
            let f1 = f0.push(dec(x0 as nat));
            lemma_split_concat(t1, x1);
            lemma_join_split(x1);
            lemma_split_plain(x1, true);
            let t2 = t1.push(':') + x1;
            let f2 = f1 + split(x1, true);
            assert(f2.skip(f1.len() as int) =~= split(x1, true));
            assert(wire_text(a) =~= t2);
            assert(split(wire_text(a), true) == f2);
            assert(f2[0] == c);
        },
        _ => {},
    }
}

/// The fields of messages that hold a note or another message.
proof fn lemma_fields_nested(a: ActionView)
    requires
        form_of(cmd_of(a)) == 5,
        a matches ActionView::At(_, inner) ==> from_fields(split(wire_text(*inner), true)) == Some(
            *inner,
        ) && split(wire_text(*inner), true).len() >= 1,
    ensures
        from_fields(split(wire_text(a), true)) == Some(a),
        split(wire_text(a), true).len() >= 1,
{
    lemma_command_words(cmd_of(a));
    let c = name_of(cmd_of(a));
    lemma_split_one(c);
    match a {
        ActionView::At(x0, x1) => {
            let t0 = c;
            let f0 = seq![c];
            lemma_undec_dec(x0 as nat);
            lemma_split_push(t0, dec(x0 as nat));
            let t1 = t0.push(':') + dec(x0 as nat);
            let f1 = f0.push(dec(x0 as nat));
            lemma_split_concat(t1, wire_text(*x1));
            let t2 = t1.push(':') + wire_text(*x1);
            let f2 = f1 + split(wire_text(*x1), true);
            assert(f2.skip(f1.len() as int) =~= split(wire_text(*x1), true));
            assert(wire_text(a) =~= t2);
            assert(split(wire_text(a), true) == f2);
            assert(f2[0] == c);
        },
        ActionView::AddNote(x0, x1) => {
            let t0 = c;
            let f0 = seq![c];
            lemma_undec_dec(x0 as nat);
            lemma_split_push(t0, dec(x0 as nat));
            let t1 = t0.push(':') + dec(x0 as nat);
            let f1 = f0.push(dec(x0 as nat));
            lemma_undec_dec(x1.id as nat);
            lemma_undec_dec(x1.t_in as nat);
            lemma_undec_dec(x1.t_out as nat);
            lemma_undec_dec(x1.note as nat);
            lemma_undec_dec(x1.vel as nat);
            lemma_split_push(t1, dec(x1.id as nat));
            let t2 = t1.push(':') + dec(x1.id as nat);
            let f2 = f1.push(dec(x1.id as nat));
            lemma_split_push(t2, dec(x1.t_in as nat));
            let t3 = t2.push(':') + dec(x1.t_in as nat);
            let f3 = f2.push(dec(x1.t_in as nat));
            lemma_split_push(t3, dec(x1.t_out as nat));
            let t4 = t3.push(':') + dec(x1.t_out as nat);
            let f4 = f3.push(dec(x1.t_out as nat));
            lemma_split_push(t4, dec(x1.note as nat));
            let t5 = t4.push(':') + dec(x1.note as nat);
            let f5 = f4.push(dec(x1.note as nat));
            lemma_split_push(t5, dec(x1.vel as nat));
            let t6 = t5.push(':') + dec(x1.vel as nat);
            let f6 = f5.push(dec(x1.vel as nat));
            assert(wire_text(a) =~= t6);
            assert(split(wire_text(a), true) == f6);
            assert(f6[0] == c);
        },
        _ => {},
    }
}

/// The fields of a message on the wire stand for the message.
proof fn lemma_fields_of(a: ActionView)
    ensures
        from_fields(split(wire_text(a), true)) == Some(a),
        split(wire_text(a), true).len() >= 1,
    decreases a,
{
    match a {
        ActionView::At(_, inner) => {
            lemma_fields_of(*inner);
        },
        _ => {},
    }
    if form_of(cmd_of(a)) == 0 {
        lemma_fields_bare(a);
    } else if form_of(cmd_of(a)) == 1 {
        lemma_fields_single(a);
    } else if form_of(cmd_of(a)) == 2 {
        lemma_fields_pair(a);
    } else if form_of(cmd_of(a)) == 3 {
        lemma_fields_triple(a);
    } else if form_of(cmd_of(a)) == 4 {
        lemma_fields_text(a);
    } else {
        lemma_fields_nested(a);
    }
}

/// The pieces of a list as rows of characters.
pub open spec fn piece_views(pieces: Seq<Vec<char>>) -> Seq<Seq<char>> {
    Seq::new(pieces.len(), |i: int| pieces[i]@)
}

/// Whether a piece is the given word.
fn same(piece: &Vec<char>, lit: &str) -> (r: bool)
    ensures
        r == (piece@ == lit@),
{
    let n = lit.unicode_len();
    if piece.len() != n {
        return false;
    }
    let mut i: usize = 0;
    while i < n
        invariant
            i <= n,
            n == lit@.len(),
            n == piece@.len(),
            piece@.take(i as int) =~= lit@.take(i as int),
        decreases n - i,
    {
        if piece[i] != lit.get_char(i) {
            return false;
        }
        assert(piece@.take(i + 1) =~= piece@.take(i as int).push(piece@[i as int]));
        assert(lit@.take(i + 1) =~= lit@.take(i as int).push(lit@[i as int]));
        i += 1;
    }
    assert(piece@.take(n as int) =~= piece@);
    assert(lit@.take(n as int) =~= lit@);
    true
}

/// Reads a field as a number of at most `max`.
fn read_field(piece: &Vec<char>, max: u64) -> (r: Option<u64>)
    requires
        max <= u32::MAX,
    ensures
        match r {
            Some(v) => num(piece@, max as nat) == Some(v as nat) && v <= max,
            None => num(piece@, max as nat) is None,
        },
{
    assert(piece@.skip(0) =~= piece@);
    read_number(piece, 0, max)
}

/// Reads a field as a truth value.
fn read_flag(piece: &Vec<char>) -> (r: Option<bool>)
    ensures
        r == flag_of(piece@),
{
    if piece.len() != 1 {
        assert(seq!['1'].len() == 1 && seq!['0'].len() == 1);
        return None;
    }
    if piece[0] == '1' {
        assert(piece@ =~= seq!['1']);
        Some(true)
    } else if piece[0] == '0' {
        assert(piece@ =~= seq!['0']);
        assert(seq!['1'][0] != piece@[0]);
        Some(false)
    } else {
        assert(seq!['1'][0] != piece@[0]);
        assert(seq!['0'][0] != piece@[0]);
        None
    }
}

/// Reads a field as a whole number of thirty-two bits.
fn read_int(piece: &Vec<char>) -> (r: Option<i32>)
    ensures
        match r {
            Some(v) => num_int(piece@) == Some(v as int),
            None => num_int(piece@) is None,
        },
{
    if piece.len() > 0 && piece[0] == '-' {
        assert(piece@.skip(1) =~= piece@.drop_first());
        match read_number(piece, 1, 2147483648) {
            Some(v) => {
                let w: i64 = -(v as i64);
                Some(w as i32)
            },
            None => None,
        }
    } else {
        assert(piece@.skip(0) =~= piece@);
        match read_number(piece, 0, 2147483647) {
            Some(v) => Some(v as i32),
            None => None,
        }
    }
}

/// The pieces from place `from` up to `to`, joined by colons.
fn join_pieces(pieces: &Vec<Vec<char>>, from: usize, to: usize) -> (s: String)
    requires
        from <= to <= pieces@.len(),
    ensures
        s@ == join(piece_views(pieces@).subrange(from as int, to as int)),
{
    let mut s = String::new();
    let ghost f = piece_views(pieces@).subrange(from as int, to as int);
    let mut i: usize = from;
    assert(f.take(0) =~= Seq::<Seq<char>>::empty());
    while i < to
        invariant
            from <= i <= to,
            to <= pieces@.len(),
            f == piece_views(pieces@).subrange(from as int, to as int),
            s@ == join(f.take(i - from)),
        decreases to - i,
    {
        let ghost k = i - from;
        proof {
            assert(f.take(k + 1).drop_last() =~= f.take(k));
            assert(f.take(k + 1).last() == pieces@[i as int]@);
        }
        if i > from {
            push_char(&mut s, ':');
        }
        let piece = &pieces[i];
        let mut j: usize = 0;
        let ghost start = s@;
        while j < piece.len()
            invariant
                j <= piece@.len(),
                s@ =~= start + piece@.take(j as int),
            decreases piece@.len() - j,
        {
            push_char(&mut s, piece[j]);
            j += 1;
        }
        proof {
            assert(piece@.take(piece@.len() as int) =~= piece@);
            if k == 0 {
                assert(join(f.take(1)) == f.take(1)[0]);
                assert(s@ =~= piece@);
            } else {
                assert(s@ =~= join(f.take(k)).push(':') + piece@);
            }
        }
        i += 1;
    }
    assert(f.take(f.len() as int) =~= f);
    s
}

/// The form of a command's messages.
fn form(c: Cmd) -> (g: u8)
    ensures
        g == form_of(c),
{
    match c {
        Cmd::Noop | Cmd::Exit | Cmd::Up | Cmd::Down | Cmd::Left | Cmd::Right | Cmd::Back | Cmd::Cancel | Cmd::Close | Cmd::Route | Cmd::Deselect | Cmd::Effect | Cmd::Instrument | Cmd::Record | Cmd::SelectR | Cmd::SelectG | Cmd::SelectY | Cmd::SelectB | Cmd::SelectP | Cmd::ShowAnchors => 0,
        Cmd::Play | Cmd::Stop | Cmd::LoopOff | Cmd::Monitor | Cmd::SetTempo | Cmd::DelModule | Cmd::AddRoute | Cmd::DelRoute | Cmd::AddTrack | Cmd::NoteOff | Cmd::Tick | Cmd::Octave | Cmd::LoopMode => 1,
        Cmd::Scrub | Cmd::Goto | Cmd::RecordAt | Cmd::MuteAt | Cmd::NoteOn | Cmd::SetMeter | Cmd::SetLoop => 2,
        Cmd::Loop | Cmd::PatchIn | Cmd::PatchOut | Cmd::DelPatch => 3,
        Cmd::CreateProject | Cmd::OpenProject | Cmd::ShowProject | Cmd::SetParam | Cmd::AddModule => 4,
        Cmd::At | Cmd::AddNote => 5,
    }
}

/// Reads one of the messages that are a command word alone.
fn parse_bare(pieces: &Vec<Vec<char>>, from: usize, cmd: Cmd) -> (r: Option<Action>)
    requires
        from < pieces@.len(),
        command_of(pieces@[from as int]@) == Some(cmd),
        form_of(cmd) == 0,
    ensures
        match r {
            Some(a) => from_fields(piece_views(pieces@).skip(from as int)) == Some(a@),
            None => from_fields(piece_views(pieces@).skip(from as int)) is None,
        },
{
    let ghost f = piece_views(pieces@).skip(from as int);
    let n = pieces.len() - from;
    match cmd {
        Cmd::Noop => if n == 1 {
            Some(Action::Noop)
        } else {
            None
        },
        Cmd::Exit => if n == 1 {
            Some(Action::Exit)
        } else {
            None
        },
        Cmd::Up => if n == 1 {
            Some(Action::Up)
        } else {
            None
        },
        Cmd::Down => if n == 1 {
            Some(Action::Down)
        } else {
            None
        },
        Cmd::Left => if n == 1 {
            Some(Action::Left)
        } else {
            None
        },
        Cmd::Right => if n == 1 {
            Some(Action::Right)
        } else {
            None
        },
        Cmd::Back => if n == 1 {
            Some(Action::Back)
        } else {
            None
        },
        Cmd::Cancel => if n == 1 {
            Some(Action::Cancel)
        } else {
            None
        },
        Cmd::Close => if n == 1 {
            Some(Action::Close)
        } else {
            None
        },
        Cmd::Route => if n == 1 {
            Some(Action::Route)
        } else {
            None
        },
        Cmd::Deselect => if n == 1 {
            Some(Action::Deselect)
        } else {
            None
        },
        Cmd::Effect => if n == 1 {
            Some(Action::Effect)
        } else {
            None
        },
        Cmd::Instrument => if n == 1 {
            Some(Action::Instrument)
        } else {
            None
        },
        Cmd::Record => if n == 1 {
            Some(Action::Record)
        } else {
            None
        },
        Cmd::SelectR => if n == 1 {
            Some(Action::SelectR)
        } else {
            None
        },
        Cmd::SelectG => if n == 1 {
            Some(Action::SelectG)
        } else {
            None
        },
        Cmd::SelectY => if n == 1 {
            Some(Action::SelectY)
        } else {
            None
        },
        Cmd::SelectB => if n == 1 {
            Some(Action::SelectB)
        } else {
            None
        },
        Cmd::SelectP => if n == 1 {
            Some(Action::SelectP)
        } else {
            None
        },
        Cmd::ShowAnchors => if n == 1 {
            Some(Action::ShowAnchors)
        } else {
            None
        },
        _ => None,
    }
}

/// Reads one of the messages with one value.
fn parse_single(pieces: &Vec<Vec<char>>, from: usize, cmd: Cmd) -> (r: Option<Action>)
    requires
        from < pieces@.len(),
        command_of(pieces@[from as int]@) == Some(cmd),
        form_of(cmd) == 1,
    ensures
        match r {
            Some(a) => from_fields(piece_views(pieces@).skip(from as int)) == Some(a@),
            None => from_fields(piece_views(pieces@).skip(from as int)) is None,
        },
{
    let ghost f = piece_views(pieces@).skip(from as int);
    let n = pieces.len() - from;
    match cmd {
        Cmd::Play => {
            if n != 2 {
                return None;
            }
            let x0 = match read_field(&pieces[from + 1], 65535) {
                Some(v) => v as u16,
                None => {
                    return None;
                },
            };
            Some(Action::Play(x0))
        },
        Cmd::Stop => {
            if n != 2 {
                return None;
            }
            let x0 = match read_field(&pieces[from + 1], 65535) {
                Some(v) => v as u16,
                None => {
                    return None;
                },
            };
            Some(Action::Stop(x0))
        },
        Cmd::LoopOff => {
            if n != 2 {
                return None;
            }
            let x0 = match read_field(&pieces[from + 1], 65535) {
                Some(v) => v as u16,
                None => {
                    return None;
                },
            };
            Some(Action::LoopOff(x0))
        },
        Cmd::Monitor => {
            if n != 2 {
                return None;
            }
            let x0 = match read_field(&pieces[from + 1], 65535) {
                Some(v) => v as u16,
                None => {
                    return None;
                },
            };
            Some(Action::Monitor(x0))
        },
        Cmd::SetTempo => {
            if n != 2 {
                return None;
            }
            let x0 = match read_field(&pieces[from + 1], 65535) {
                Some(v) => v as u16,
                None => {
                    return None;
                },
            };
            Some(Action::SetTempo(x0))
        },
        Cmd::DelModule => {
            if n != 2 {
                return None;
            }
            let x0 = match read_field(&pieces[from + 1], 65535) {
                Some(v) => v as u16,
                None => {
                    return None;
                },
            };
            Some(Action::DelModule(x0))
        },
        Cmd::AddRoute => {
            if n != 2 {
                return None;
            }
            let x0 = match read_field(&pieces[from + 1], 65535) {
                Some(v) => v as u16,
                None => {
                    return None;
                },
            };
            Some(Action::AddRoute(x0))
        },
        Cmd::DelRoute => {
            if n != 2 {
                return None;
            }
            let x0 = match read_field(&pieces[from + 1], 65535) {
                Some(v) => v as u16,
                None => {
                    return None;
                },
            };
            Some(Action::DelRoute(x0))
        },
        Cmd::AddTrack => {
            if n != 2 {
                return None;
            }
            let x0 = match read_field(&pieces[from + 1], 65535) {
                Some(v) => v as u16,
                None => {
                    return None;
                },
            };
            Some(Action::AddTrack(x0))
        },
        Cmd::NoteOff => {
            if n != 2 {
                return None;
            }
            let x0 = match read_field(&pieces[from + 1], 255) {
                Some(v) => v as u8,
                None => {
                    return None;
                },
            };
            Some(Action::NoteOff(x0))
        },
        Cmd::Tick => {
            if n != 2 {
                return None;
            }
            let x0 = match read_field(&pieces[from + 1], 4294967295) {
                Some(v) => v as u32,
                None => {
                    return None;
                },
            };
            Some(Action::Tick(x0))
        },
        Cmd::Octave => {
            if n != 2 {
                return None;
            }
            let x0 = match read_flag(&pieces[from + 1]) {
                Some(v) => v,
                None => {
                    return None;
                },
            };
            Some(Action::Octave(x0))
        },
        Cmd::LoopMode => {
            if n != 2 {
                return None;
            }
            let x0 = match read_flag(&pieces[from + 1]) {
                Some(v) => v,
                None => {
                    return None;
                },
            };
            Some(Action::LoopMode(x0))
        },
        _ => None,
    }
}

/// Reads one of the messages with two values.
fn parse_pair(pieces: &Vec<Vec<char>>, from: usize, cmd: Cmd) -> (r: Option<Action>)
    requires
        from < pieces@.len(),
        command_of(pieces@[from as int]@) == Some(cmd),
        form_of(cmd) == 2,
    ensures
        match r {
            Some(a) => from_fields(piece_views(pieces@).skip(from as int)) == Some(a@),
            None => from_fields(piece_views(pieces@).skip(from as int)) is None,
        },
{
    let ghost f = piece_views(pieces@).skip(from as int);
    let n = pieces.len() - from;
    match cmd {
        Cmd::Scrub => {
            if n != 3 {
                return None;
            }
            let x0 = match read_field(&pieces[from + 1], 65535) {
                Some(v) => v as u16,
                None => {
                    return None;
                },
            };
            let x1 = match read_flag(&pieces[from + 2]) {
                Some(v) => v,
                None => {
                    return None;
                },
            };
            Some(Action::Scrub(x0, x1))
        },
        Cmd::Goto => {
            if n != 3 {
                return None;
            }
            let x0 = match read_field(&pieces[from + 1], 65535) {
                Some(v) => v as u16,
                None => {
                    return None;
                },
            };
            let x1 = match read_field(&pieces[from + 2], 4294967295) {
                Some(v) => v as u32,
                None => {
                    return None;
                },
            };
            Some(Action::Goto(x0, x1))
        },
        Cmd::RecordAt => {
            if n != 3 {
                return None;
            }
            let x0 = match read_field(&pieces[from + 1], 65535) {
                Some(v) => v as u16,
                None => {
                    return None;
                },
            };
            let x1 = match read_field(&pieces[from + 2], 65535) {
                Some(v) => v as u16,
                None => {
                    return None;
                },
            };
            Some(Action::RecordAt(x0, x1))
        },
        Cmd::MuteAt => {
            if n != 3 {
                return None;
            }
            let x0 = match read_field(&pieces[from + 1], 65535) {
                Some(v) => v as u16,
                None => {
                    return None;
                },
            };
            let x1 = match read_field(&pieces[from + 2], 65535) {
                Some(v) => v as u16,
                None => {
                    return None;
                },
            };
            Some(Action::MuteAt(x0, x1))
        },
        Cmd::NoteOn => {
            if n != 3 {
                return None;
            }
            let x0 = match read_field(&pieces[from + 1], 255) {
                Some(v) => v as u8,
                None => {
                    return None;
                },
            };
            let x1 = match read_field(&pieces[from + 2], 255) {
                Some(v) => v as u8,
                None => {
                    return None;
                },
            };
            Some(Action::NoteOn(x0, x1))
        },
        Cmd::SetMeter => {
            if n != 3 {
                return None;
            }
            let x0 = match read_field(&pieces[from + 1], 65535) {
                Some(v) => v as u16,
                None => {
                    return None;
                },
            };
            let x1 = match read_field(&pieces[from + 2], 65535) {
                Some(v) => v as u16,
                None => {
                    return None;
                },
            };
            Some(Action::SetMeter(x0, x1))
        },
        Cmd::SetLoop => {
            if n != 3 {
                return None;
            }
            let x0 = match read_field(&pieces[from + 1], 4294967295) {
                Some(v) => v as u32,
                None => {
                    return None;
                },
            };
            let x1 = match read_field(&pieces[from + 2], 4294967295) {
                Some(v) => v as u32,
                None => {
                    return None;
                },
            };
            Some(Action::SetLoop(x0, x1))
        },
        _ => None,
    }
}

/// Reads one of the messages with three values.
fn parse_triple(pieces: &Vec<Vec<char>>, from: usize, cmd: Cmd) -> (r: Option<Action>)
    requires
        from < pieces@.len(),
        command_of(pieces@[from as int]@) == Some(cmd),
        form_of(cmd) == 3,
    ensures
        match r {
            Some(a) => from_fields(piece_views(pieces@).skip(from as int)) == Some(a@),
            None => from_fields(piece_views(pieces@).skip(from as int)) is None,
        },
{
    let ghost f = piece_views(pieces@).skip(from as int);
    let n = pieces.len() - from;
    match cmd {
        Cmd::Loop => {
            if n != 4 {
                return None;
            }
            let x0 = match read_field(&pieces[from + 1], 65535) {
                Some(v) => v as u16,
                None => {
                    return None;
                },
            };
            let x1 = match read_field(&pieces[from + 2], 4294967295) {
                Some(v) => v as u32,
                None => {
                    return None;
                },
            };
            let x2 = match read_field(&pieces[from + 3], 4294967295) {
                Some(v) => v as u32,
                None => {
                    return None;
                },
            };
            Some(Action::Loop(x0, x1, x2))
        },
        Cmd::PatchIn => {
            if n != 4 {
                return None;
            }
            let x0 = match read_field(&pieces[from + 1], 65535) {
                Some(v) => v as u16,
                None => {
                    return None;
                },
            };
            let x1 = match read_field(&pieces[from + 2], 65535) {
                Some(v) => v as u16,
                None => {
                    return None;
                },
            };
            let x2 = match read_field(&pieces[from + 3], 65535) {
                Some(v) => v as u16,
                None => {
                    return None;
                },
            };
            Some(Action::PatchIn(x0, x1, x2))
        },
        Cmd::PatchOut => {
            if n != 4 {
                return None;
            }
            let x0 = match read_field(&pieces[from + 1], 65535) {
                Some(v) => v as u16,
                None => {
                    return None;
                },
            };
            let x1 = match read_field(&pieces[from + 2], 65535) {
                Some(v) => v as u16,
                None => {
                    return None;
                },
            };
            let x2 = match read_field(&pieces[from + 3], 65535) {
                Some(v) => v as u16,
                None => {
                    return None;
                },
            };
            Some(Action::PatchOut(x0, x1, x2))
        },
        Cmd::DelPatch => {
            if n != 4 {
                return None;
            }
            let x0 = match read_field(&pieces[from + 1], 65535) {
                Some(v) => v as u16,
                None => {
                    return None;
                },
            };
            let x1 = match read_field(&pieces[from + 2], 65535) {
                Some(v) => v as u16,
                None => {
                    return None;
                },
            };
            let x2 = match read_flag(&pieces[from + 3]) {
                Some(v) => v,
                None => {
                    return None;
                },
            };
            Some(Action::DelPatch(x0, x1, x2))
        },
        _ => None,
    }
}

/// Reads one of the messages that hold a text.
fn parse_text(pieces: &Vec<Vec<char>>, from: usize, cmd: Cmd) -> (r: Option<Action>)
    requires
        from < pieces@.len(),
        command_of(pieces@[from as int]@) == Some(cmd),
        form_of(cmd) == 4,
    ensures
        match r {
            Some(a) => from_fields(piece_views(pieces@).skip(from as int)) == Some(a@),
            None => from_fields(piece_views(pieces@).skip(from as int)) is None,
        },
{
    let ghost f = piece_views(pieces@).skip(from as int);
    let n = pieces.len() - from;
    match cmd {
        Cmd::CreateProject => {
            if n < 2 {
                return None;
            }
            let x0 = join_pieces(pieces, from + 1, pieces.len());
            assert(piece_views(pieces@).subrange(from + 1, pieces@.len() as int) =~= f.skip(1));
            Some(Action::CreateProject(x0))
        },
        Cmd::OpenProject => {
            if n < 2 {
                return None;
            }
            let x0 = join_pieces(pieces, from + 1, pieces.len());
            assert(piece_views(pieces@).subrange(from + 1, pieces@.len() as int) =~= f.skip(1));
            Some(Action::OpenProject(x0))
        },
        Cmd::ShowProject => {
            if n < 2 {
                return None;
            }
            let x0 = join_pieces(pieces, from + 1, pieces.len());
            assert(piece_views(pieces@).subrange(from + 1, pieces@.len() as int) =~= f.skip(1));
            Some(Action::ShowProject(x0))
        },
        Cmd::SetParam => {
            if n < 3 {
                return None;
            }
            let x0 = join_pieces(pieces, from + 1, pieces.len() - 1);
            assert(piece_views(pieces@).subrange(from + 1, pieces@.len() - 1) =~= f.subrange(1, f.len() - 1));
            let x1 = match read_int(&pieces[pieces.len() - 1]) {
                Some(v) => v,
                None => {
                    return None;
                },
            };
            Some(Action::SetParam(x0, x1))
        },
        Cmd::AddModule => {
            if n < 3 {
                return None;
            }
            let x0 = match read_field(&pieces[from + 1], 65535) {
                Some(v) => v as u16,
                None => {
                    return None;
                },
            };
            let x1 = join_pieces(pieces, from + 2, pieces.len());
            assert(piece_views(pieces@).subrange(from + 2, pieces@.len() as int) =~= f.skip(2));
            Some(Action::AddModule(x0, x1))
        },
        _ => None,
    }
}

/// Reads one of the messages that hold a note or another message.
fn parse_nested(pieces: &Vec<Vec<char>>, from: usize, cmd: Cmd) -> (r: Option<Action>)
    requires
        from < pieces@.len(),
        command_of(pieces@[from as int]@) == Some(cmd),
        form_of(cmd) == 5,
    ensures
        match r {
            Some(a) => from_fields(piece_views(pieces@).skip(from as int)) == Some(a@),
            None => from_fields(piece_views(pieces@).skip(from as int)) is None,
        },
    decreases pieces@.len() - from, 0nat,
{
    let ghost f = piece_views(pieces@).skip(from as int);
    let n = pieces.len() - from;
    match cmd {
        Cmd::At => {
            if n < 3 {
                return None;
            }
            let x0 = match read_field(&pieces[from + 1], 65535) {
                Some(v) => v as u16,
                None => {
                    return None;
                },
            };
            assert(piece_views(pieces@).skip(from + 2) =~= f.skip(2));
            let x1 = match parse_from(pieces, from + 2) {
                Some(v) => v,
                None => {
                    return None;
                },
            };
            Some(Action::At(x0, Box::new(x1)))
        },
        Cmd::AddNote => {
            if n != 7 {
                return None;
            }
            let x0 = match read_field(&pieces[from + 1], 65535) {
                Some(v) => v as u16,
                None => {
                    return None;
                },
            };
            let n0 = match read_field(&pieces[from + 2], 65535) {
                Some(v) => v as u16,
                None => {
                    return None;
                },
            };
            let n1 = match read_field(&pieces[from + 3], 4294967295) {
                Some(v) => v as u32,
                None => {
                    return None;
                },
            };
            let n2 = match read_field(&pieces[from + 4], 4294967295) {
                Some(v) => v as u32,
                None => {
                    return None;
                },
            };
            let n3 = match read_field(&pieces[from + 5], 255) {
                Some(v) => v as u8,
                None => {
                    return None;
                },
            };
            let n4 = match read_field(&pieces[from + 6], 255) {
                Some(v) => v as u8,
                None => {
                    return None;
                },
            };
            Some(Action::AddNote(x0, Note { id: n0, t_in: n1, t_out: n2, note: n3, vel: n4 }))
        },
        _ => None,
    }
}

/// Reads the message that the pieces from place `from` on stand for.
fn parse_from(pieces: &Vec<Vec<char>>, from: usize) -> (r: Option<Action>)
    requires
        from <= pieces@.len(),
    ensures
        match r {
            Some(a) => from_fields(piece_views(pieces@).skip(from as int)) == Some(a@),
            None => from_fields(piece_views(pieces@).skip(from as int)) is None,
        },
    decreases pieces@.len() - from, 1nat,
{
    if from == pieces.len() {
        return None;
    }
    let cmd = match command(&pieces[from]) {
        Some(c) => c,
        None => {
            return None;
        },
    };
    match form(cmd) {
        0 => parse_bare(pieces, from, cmd),
        1 => parse_single(pieces, from, cmd),
        2 => parse_pair(pieces, from, cmd),
        3 => parse_triple(pieces, from, cmd),
        4 => parse_text(pieces, from, cmd),
        _ => parse_nested(pieces, from, cmd),
    }
}

/// Reads the message that a text stands for. Returns nothing when the text
/// stands for no message.
pub fn parse(token: &str) -> (r: Option<Action>)
    ensures
        match r {
            Some(a) => parse_spec(token@) == Some(a@),
            None => parse_spec(token@) is None,
        },
{
    let chars = chars_of(token);
    parse_token(&chars)
}

/// Reads the message that a row of characters stands for.
pub fn parse_token(chars: &Vec<char>) -> (r: Option<Action>)
    ensures
        match r {
            Some(a) => parse_spec(chars@) == Some(a@),
            None => parse_spec(chars@) is None,
        },
{
    let pieces = split_at(chars, true);
    assert(piece_views(pieces@).skip(0) =~= split(chars@, true));
    parse_from(&pieces, 0)
}

/// Appends a whole number in decimal to a text.
fn write_int(out: &mut String, v: i32)
    ensures
        final(out)@ == old(out)@ + dec_int(v as int),
{
    if v < 0 {
        push_char(out, '-');
        let n: u64 = (-(v as i64)) as u64;
        write_number(out, n);
        assert(final(out)@ =~= old(out)@ + (seq!['-'] + dec((-v) as nat)));
    } else {
        write_number(out, v as u64);
    }
}

/// Appends a colon and a number to a text.
fn put_number(out: &mut String, n: u64)
    ensures
        final(out)@ == old(out)@.push(':') + dec(n as nat),
{
    push_char(out, ':');
    write_number(out, n);
}

/// Appends a colon and a truth value to a text.
fn put_flag(out: &mut String, b: bool)
    ensures
        final(out)@ == old(out)@.push(':') + flag(b),
{
    push_char(out, ':');
    push_char(out, if b { '1' } else { '0' });
    assert(final(out)@ =~= old(out)@.push(':') + flag(b));
}

/// Appends a colon and a whole number to a text.
fn put_int(out: &mut String, v: i32)
    ensures
        final(out)@ == old(out)@.push(':') + dec_int(v as int),
{
    push_char(out, ':');
    write_int(out, v);
}

/// Appends a colon and a text to a text.
fn put_text(out: &mut String, t: &str)
    ensures
        final(out)@ == old(out)@.push(':') + t@,
{
    push_char(out, ':');
    out.append(t);
}

/// The command of a message.
fn command_for(a: &Action) -> (c: Cmd)
    ensures
        c == cmd_of(a@),
{
    match a {
        Action::Noop => Cmd::Noop,
        Action::Exit => Cmd::Exit,
        Action::Up => Cmd::Up,
        Action::Down => Cmd::Down,
        Action::Left => Cmd::Left,
        Action::Right => Cmd::Right,
        Action::Back => Cmd::Back,
        Action::Cancel => Cmd::Cancel,
        Action::Close => Cmd::Close,
        Action::Route => Cmd::Route,
        Action::Deselect => Cmd::Deselect,
        Action::Effect => Cmd::Effect,
        Action::Instrument => Cmd::Instrument,
        Action::Record => Cmd::Record,
        Action::SelectR => Cmd::SelectR,
        Action::SelectG => Cmd::SelectG,
        Action::SelectY => Cmd::SelectY,
        Action::SelectB => Cmd::SelectB,
        Action::SelectP => Cmd::SelectP,
        Action::ShowAnchors => Cmd::ShowAnchors,
        Action::CreateProject(_) => Cmd::CreateProject,
        Action::OpenProject(_) => Cmd::OpenProject,
        Action::ShowProject(_) => Cmd::ShowProject,
        Action::Play(_) => Cmd::Play,
        Action::Stop(_) => Cmd::Stop,
        Action::Scrub(_, _) => Cmd::Scrub,
        Action::Goto(_, _) => Cmd::Goto,
        Action::Loop(_, _, _) => Cmd::Loop,
        Action::LoopOff(_) => Cmd::LoopOff,
        Action::RecordAt(_, _) => Cmd::RecordAt,
        Action::MuteAt(_, _) => Cmd::MuteAt,
        Action::Monitor(_) => Cmd::Monitor,
        Action::LoopMode(_) => Cmd::LoopMode,
        Action::SetLoop(_, _) => Cmd::SetLoop,
        Action::NoteOn(_, _) => Cmd::NoteOn,
        Action::NoteOff(_) => Cmd::NoteOff,
        Action::Octave(_) => Cmd::Octave,
        Action::SetParam(_, _) => Cmd::SetParam,
        Action::SetTempo(_) => Cmd::SetTempo,
        Action::SetMeter(_, _) => Cmd::SetMeter,
        Action::AddModule(_, _) => Cmd::AddModule,
        Action::DelModule(_) => Cmd::DelModule,
        Action::AddRoute(_) => Cmd::AddRoute,
        Action::DelRoute(_) => Cmd::DelRoute,
        Action::AddTrack(_) => Cmd::AddTrack,
        Action::PatchIn(_, _, _) => Cmd::PatchIn,
        Action::PatchOut(_, _, _) => Cmd::PatchOut,
        Action::DelPatch(_, _, _) => Cmd::DelPatch,
        Action::At(_, _) => Cmd::At,
        Action::Tick(_) => Cmd::Tick,
        Action::AddNote(_, _) => Cmd::AddNote,
    }
}

/// Appends one of the messages that are a command word alone to a text.
fn write_bare(out: &mut String, a: &Action)
    requires
        form_of(cmd_of(a@)) == 0,
    ensures
        final(out)@ == old(out)@ + wire_text(a@),
{
    match a {
        Action::Noop => {
            out.append(word(Cmd::Noop));
        },
        Action::Exit => {
            out.append(word(Cmd::Exit));
        },
        Action::Up => {
            out.append(word(Cmd::Up));
        },
        Action::Down => {
            out.append(word(Cmd::Down));
        },
        Action::Left => {
            out.append(word(Cmd::Left));
        },
        Action::Right => {
            out.append(word(Cmd::Right));
        },
        Action::Back => {
            out.append(word(Cmd::Back));
        },
        Action::Cancel => {
            out.append(word(Cmd::Cancel));
        },
        Action::Close => {
            out.append(word(Cmd::Close));
        },
        Action::Route => {
            out.append(word(Cmd::Route));
        },
        Action::Deselect => {
            out.append(word(Cmd::Deselect));
        },
        Action::Effect => {
            out.append(word(Cmd::Effect));
        },
        Action::Instrument => {
            out.append(word(Cmd::Instrument));
        },
        Action::Record => {
            out.append(word(Cmd::Record));
        },
        Action::SelectR => {
            out.append(word(Cmd::SelectR));
        },
        Action::SelectG => {
            out.append(word(Cmd::SelectG));
        },
        Action::SelectY => {
            out.append(word(Cmd::SelectY));
        },
        Action::SelectB => {
            out.append(word(Cmd::SelectB));
        },
        Action::SelectP => {
            out.append(word(Cmd::SelectP));
        },
        Action::ShowAnchors => {
            out.append(word(Cmd::ShowAnchors));
        },
        _ => {},
    }
}

/// Appends one of the messages with one value to a text.
fn write_single(out: &mut String, a: &Action)
    requires
        form_of(cmd_of(a@)) == 1,
    ensures
        final(out)@ == old(out)@ + wire_text(a@),
{
    match a {
        Action::Play(x0) => {
            out.append(word(Cmd::Play));
            let ghost t0 = name_of(Cmd::Play);
            put_number(out, *x0 as u64);
            let ghost t1 = t0.push(':') + dec(*x0 as nat);
            assert(out@ =~= old(out)@ + t1);
        },
        Action::Stop(x0) => {
            out.append(word(Cmd::Stop));
            let ghost t0 = name_of(Cmd::Stop);
            put_number(out, *x0 as u64);
            let ghost t1 = t0.push(':') + dec(*x0 as nat);
            assert(out@ =~= old(out)@ + t1);
        },
        Action::LoopOff(x0) => {
            out.append(word(Cmd::LoopOff));
            let ghost t0 = name_of(Cmd::LoopOff);
            put_number(out, *x0 as u64);
            let ghost t1 = t0.push(':') + dec(*x0 as nat);
            assert(out@ =~= old(out)@ + t1);
        },
        Action::Monitor(x0) => {
            out.append(word(Cmd::Monitor));
            let ghost t0 = name_of(Cmd::Monitor);
            put_number(out, *x0 as u64);
            let ghost t1 = t0.push(':') + dec(*x0 as nat);
            assert(out@ =~= old(out)@ + t1);
        },
        Action::SetTempo(x0) => {
            out.append(word(Cmd::SetTempo));
            let ghost t0 = name_of(Cmd::SetTempo);
            put_number(out, *x0 as u64);
            let ghost t1 = t0.push(':') + dec(*x0 as nat);
            assert(out@ =~= old(out)@ + t1);
        },
        Action::DelModule(x0) => {
            out.append(word(Cmd::DelModule));
            let ghost t0 = name_of(Cmd::DelModule);
            put_number(out, *x0 as u64);
            let ghost t1 = t0.push(':') + dec(*x0 as nat);
            assert(out@ =~= old(out)@ + t1);
        },
        Action::AddRoute(x0) => {
            out.append(word(Cmd::AddRoute));
            let ghost t0 = name_of(Cmd::AddRoute);
            put_number(out, *x0 as u64);
            let ghost t1 = t0.push(':') + dec(*x0 as nat);
            assert(out@ =~= old(out)@ + t1);
        },
        Action::DelRoute(x0) => {
            out.append(word(Cmd::DelRoute));
            let ghost t0 = name_of(Cmd::DelRoute);
            put_number(out, *x0 as u64);
            let ghost t1 = t0.push(':') + dec(*x0 as nat);
            assert(out@ =~= old(out)@ + t1);
        },
        Action::AddTrack(x0) => {
            out.append(word(Cmd::AddTrack));
            let ghost t0 = name_of(Cmd::AddTrack);
            put_number(out, *x0 as u64);
            let ghost t1 = t0.push(':') + dec(*x0 as nat);
            assert(out@ =~= old(out)@ + t1);
        },
        Action::NoteOff(x0) => {
            out.append(word(Cmd::NoteOff));
            let ghost t0 = name_of(Cmd::NoteOff);
            put_number(out, *x0 as u64);
            let ghost t1 = t0.push(':') + dec(*x0 as nat);
            assert(out@ =~= old(out)@ + t1);
        },
        Action::Tick(x0) => {
            out.append(word(Cmd::Tick));
            let ghost t0 = name_of(Cmd::Tick);
            put_number(out, *x0 as u64);
            let ghost t1 = t0.push(':') + dec(*x0 as nat);
            assert(out@ =~= old(out)@ + t1);
        },
        Action::Octave(x0) => {
            out.append(word(Cmd::Octave));
            let ghost t0 = name_of(Cmd::Octave);
            put_flag(out, *x0);
            let ghost t1 = t0.push(':') + flag(*x0);
            assert(out@ =~= old(out)@ + t1);
        },
        Action::LoopMode(x0) => {
            out.append(word(Cmd::LoopMode));
            let ghost t0 = name_of(Cmd::LoopMode);
            put_flag(out, *x0);
            let ghost t1 = t0.push(':') + flag(*x0);
            assert(out@ =~= old(out)@ + t1);
        },
        _ => {},
    }
}

/// Appends one of the messages with two values to a text.
fn write_pair(out: &mut String, a: &Action)
    requires
        form_of(cmd_of(a@)) == 2,
    ensures
        final(out)@ == old(out)@ + wire_text(a@),
{
    match a {
        Action::Scrub(x0, x1) => {
            out.append(word(Cmd::Scrub));
            let ghost t0 = name_of(Cmd::Scrub);
            put_number(out, *x0 as u64);
            let ghost t1 = t0.push(':') + dec(*x0 as nat);
            assert(out@ =~= old(out)@ + t1);
            put_flag(out, *x1);
            let ghost t2 = t1.push(':') + flag(*x1);
            assert(out@ =~= old(out)@ + t2);
        },
        Action::Goto(x0, x1) => {
            out.append(word(Cmd::Goto));
            let ghost t0 = name_of(Cmd::Goto);
            put_number(out, *x0 as u64);
            let ghost t1 = t0.push(':') + dec(*x0 as nat);
            assert(out@ =~= old(out)@ + t1);
            put_number(out, *x1 as u64);
            let ghost t2 = t1.push(':') + dec(*x1 as nat);
            assert(out@ =~= old(out)@ + t2);
        },
        Action::RecordAt(x0, x1) => {
            out.append(word(Cmd::RecordAt));
            let ghost t0 = name_of(Cmd::RecordAt);
            put_number(out, *x0 as u64);
            let ghost t1 = t0.push(':') + dec(*x0 as nat);
            assert(out@ =~= old(out)@ + t1);
            put_number(out, *x1 as u64);
            let ghost t2 = t1.push(':') + dec(*x1 as nat);
            assert(out@ =~= old(out)@ + t2);
        },
        Action::MuteAt(x0, x1) => {
            out.append(word(Cmd::MuteAt));
            let ghost t0 = name_of(Cmd::MuteAt);
            put_number(out, *x0 as u64);
            let ghost t1 = t0.push(':') + dec(*x0 as nat);
            assert(out@ =~= old(out)@ + t1);
            put_number(out, *x1 as u64);
            let ghost t2 = t1.push(':') + dec(*x1 as nat);
            assert(out@ =~= old(out)@ + t2);
        },
        Action::NoteOn(x0, x1) => {
            out.append(word(Cmd::NoteOn));
            let ghost t0 = name_of(Cmd::NoteOn);
            put_number(out, *x0 as u64);
            let ghost t1 = t0.push(':') + dec(*x0 as nat);
            assert(out@ =~= old(out)@ + t1);
            put_number(out, *x1 as u64);
            let ghost t2 = t1.push(':') + dec(*x1 as nat);
            assert(out@ =~= old(out)@ + t2);
        },
        Action::SetMeter(x0, x1) => {
            out.append(word(Cmd::SetMeter));
            let ghost t0 = name_of(Cmd::SetMeter);
            put_number(out, *x0 as u64);
            let ghost t1 = t0.push(':') + dec(*x0 as nat);
            assert(out@ =~= old(out)@ + t1);
            put_number(out, *x1 as u64);
            let ghost t2 = t1.push(':') + dec(*x1 as nat);
            assert(out@ =~= old(out)@ + t2);
        },
        Action::SetLoop(x0, x1) => {
            out.append(word(Cmd::SetLoop));
            let ghost t0 = name_of(Cmd::SetLoop);
            put_number(out, *x0 as u64);
            let ghost t1 = t0.push(':') + dec(*x0 as nat);
            assert(out@ =~= old(out)@ + t1);
            put_number(out, *x1 as u64);
            let ghost t2 = t1.push(':') + dec(*x1 as nat);
            assert(out@ =~= old(out)@ + t2);
        },
        _ => {},
    }
}

/// Appends one of the messages with three values to a text.
fn write_triple(out: &mut String, a: &Action)
    requires
        form_of(cmd_of(a@)) == 3,
    ensures
        final(out)@ == old(out)@ + wire_text(a@),
{
    match a {
        Action::Loop(x0, x1, x2) => {
            out.append(word(Cmd::Loop));
            let ghost t0 = name_of(Cmd::Loop);
            put_number(out, *x0 as u64);
            let ghost t1 = t0.push(':') + dec(*x0 as nat);
            assert(out@ =~= old(out)@ + t1);
            put_number(out, *x1 as u64);
            let ghost t2 = t1.push(':') + dec(*x1 as nat);
            assert(out@ =~= old(out)@ + t2);
            put_number(out, *x2 as u64);
            let ghost t3 = t2.push(':') + dec(*x2 as nat);
            assert(out@ =~= old(out)@ + t3);
        },
        Action::PatchIn(x0, x1, x2) => {
            out.append(word(Cmd::PatchIn));
            let ghost t0 = name_of(Cmd::PatchIn);
            put_number(out, *x0 as u64);
            let ghost t1 = t0.push(':') + dec(*x0 as nat);
            assert(out@ =~= old(out)@ + t1);
            put_number(out, *x1 as u64);
            let ghost t2 = t1.push(':') + dec(*x1 as nat);
            assert(out@ =~= old(out)@ + t2);
            put_number(out, *x2 as u64);
            let ghost t3 = t2.push(':') + dec(*x2 as nat);
            assert(out@ =~= old(out)@ + t3);
        },
        Action::PatchOut(x0, x1, x2) => {
            out.append(word(Cmd::PatchOut));
            let ghost t0 = name_of(Cmd::PatchOut);
            put_number(out, *x0 as u64);
            let ghost t1 = t0.push(':') + dec(*x0 as nat);
            assert(out@ =~= old(out)@ + t1);
            put_number(out, *x1 as u64);
            let ghost t2 = t1.push(':') + dec(*x1 as nat);
            assert(out@ =~= old(out)@ + t2);
            put_number(out, *x2 as u64);
            let ghost t3 = t2.push(':') + dec(*x2 as nat);
            assert(out@ =~= old(out)@ + t3);
        },
        Action::DelPatch(x0, x1, x2) => {
            out.append(word(Cmd::DelPatch));
            let ghost t0 = name_of(Cmd::DelPatch);
            put_number(out, *x0 as u64);
            let ghost t1 = t0.push(':') + dec(*x0 as nat);
            assert(out@ =~= old(out)@ + t1);
            put_number(out, *x1 as u64);
            let ghost t2 = t1.push(':') + dec(*x1 as nat);
            assert(out@ =~= old(out)@ + t2);
            put_flag(out, *x2);
            let ghost t3 = t2.push(':') + flag(*x2);
            assert(out@ =~= old(out)@ + t3);
        },
        _ => {},
    }
}

/// Appends one of the messages that hold a text to a text.
fn write_text(out: &mut String, a: &Action)
    requires
        form_of(cmd_of(a@)) == 4,
    ensures
        final(out)@ == old(out)@ + wire_text(a@),
{
    match a {
        Action::CreateProject(x0) => {
            out.append(word(Cmd::CreateProject));
            let ghost t0 = name_of(Cmd::CreateProject);
            put_text(out, x0.as_str());
            let ghost t1 = t0.push(':') + x0@;
            assert(out@ =~= old(out)@ + t1);
        },
        Action::OpenProject(x0) => {
            out.append(word(Cmd::OpenProject));
            let ghost t0 = name_of(Cmd::OpenProject);
            put_text(out, x0.as_str());
            let ghost t1 = t0.push(':') + x0@;
            assert(out@ =~= old(out)@ + t1);
        },
        Action::ShowProject(x0) => {
            out.append(word(Cmd::ShowProject));
            let ghost t0 = name_of(Cmd::ShowProject);
            put_text(out, x0.as_str());
            let ghost t1 = t0.push(':') + x0@;
            assert(out@ =~= old(out)@ + t1);
        },
        Action::SetParam(x0, x1) => {
            out.append(word(Cmd::SetParam));
            let ghost t0 = name_of(Cmd::SetParam);
            put_text(out, x0.as_str());
            let ghost t1 = t0.push(':') + x0@;
            assert(out@ =~= old(out)@ + t1);
            put_int(out, *x1);
            let ghost t2 = t1.push(':') + dec_int(*x1 as int);
            assert(out@ =~= old(out)@ + t2);
        },
        Action::AddModule(x0, x1) => {
            out.append(word(Cmd::AddModule));
            let ghost t0 = name_of(Cmd::AddModule);
            put_number(out, *x0 as u64);
            let ghost t1 = t0.push(':') + dec(*x0 as nat);
            assert(out@ =~= old(out)@ + t1);
            put_text(out, x1.as_str());
            let ghost t2 = t1.push(':') + x1@;
            assert(out@ =~= old(out)@ + t2);
        },
        _ => {},
    }
}

/// Appends one of the messages that hold a note or another message to a text.
fn write_nested(out: &mut String, a: &Action)
    requires
        form_of(cmd_of(a@)) == 5,
    ensures
        final(out)@ == old(out)@ + wire_text(a@),
    decreases a, 0nat,
{
    match a {
        Action::At(x0, x1) => {
            out.append(word(Cmd::At));
            let ghost t0 = name_of(Cmd::At);
            put_number(out, *x0 as u64);
            let ghost t1 = t0.push(':') + dec(*x0 as nat);
            assert(out@ =~= old(out)@ + t1);
            push_char(out, ':');
            write_action(out, &**x1);
            let ghost t2 = t1.push(':') + wire_text((**x1)@);
            assert(out@ =~= old(out)@ + t2);
        },
        Action::AddNote(x0, x1) => {
            out.append(word(Cmd::AddNote));
            let ghost t0 = name_of(Cmd::AddNote);
            put_number(out, *x0 as u64);
            let ghost t1 = t0.push(':') + dec(*x0 as nat);
            assert(out@ =~= old(out)@ + t1);
            put_number(out, x1.id as u64);
            let ghost t2 = t1.push(':') + dec(x1.id as nat);
            assert(out@ =~= old(out)@ + t2);
            put_number(out, x1.t_in as u64);
            let ghost t3 = t2.push(':') + dec(x1.t_in as nat);
            assert(out@ =~= old(out)@ + t3);
            put_number(out, x1.t_out as u64);
            let ghost t4 = t3.push(':') + dec(x1.t_out as nat);
            assert(out@ =~= old(out)@ + t4);
            put_number(out, x1.note as u64);
            let ghost t5 = t4.push(':') + dec(x1.note as nat);
            assert(out@ =~= old(out)@ + t5);
            put_number(out, x1.vel as u64);
            let ghost t6 = t5.push(':') + dec(x1.vel as nat);
            assert(out@ =~= old(out)@ + t6);
        },
        _ => {},
    }
}

/// Appends a message, as it goes over the wire, to a text.
fn write_action(out: &mut String, a: &Action)
    ensures
        final(out)@ == old(out)@ + wire_text(a@),
    decreases a, 1nat,
{
    match form(command_for(a)) {
        0 => write_bare(out, a),
        1 => write_single(out, a),
        2 => write_pair(out, a),
        3 => write_triple(out, a),
        4 => write_text(out, a),
        _ => write_nested(out, a),
    }
}

impl Action {
    /// The message as it goes over the wire.
    pub fn to_string(&self) -> (s: String)
        ensures
            s@ == wire_text(self@),
    {
        let mut s = String::new();
        write_action(&mut s, self);
        assert(s@ =~= wire_text(self@));
        s
    }
}

} // verus!
