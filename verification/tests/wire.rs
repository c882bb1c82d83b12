use palit::action::{Action, Note};
use palit::ipc::{ipc_action, ipc_dispatch, Pause};
use palit::patch::{Outcome, Patch};
use palit::wire::parse;

fn round_trip(a: Action) {
    let text = a.to_string();
    assert_eq!(parse(&text), Some(a), "{}", text);
}

#[test]
fn notes_are_written_as_the_input_reader_sends_them() {
    assert_eq!(Action::NoteOn(60, 1).to_string(), "NOTE_ON:60:1");
    assert_eq!(Action::NoteOff(75).to_string(), "NOTE_OFF:75");
    assert_eq!(Action::Octave(true).to_string(), "OCTAVE:1");
    assert_eq!(Action::Octave(false).to_string(), "OCTAVE:0");
    assert_eq!(Action::Up.to_string(), "UP");
    assert_eq!(Action::Down.to_string(), "DN");
    assert_eq!(Action::Left.to_string(), "LT");
    assert_eq!(Action::Right.to_string(), "RT");
    assert_eq!(Action::Exit.to_string(), "EXIT");
    assert_eq!(Action::Route.to_string(), "ROUTE");
}

#[test]
fn exact_texts_of_messages_with_values() {
    assert_eq!(Action::SetParam("5.3".to_string(), -250).to_string(), "SET_PARAM:5.3:-250");
    assert_eq!(Action::AddModule(7, "hammond".to_string()).to_string(), "ADD_MODULE:7:hammond");
    assert_eq!(Action::Loop(2, 0, 48000).to_string(), "LOOP:2:0:48000");
    assert_eq!(Action::DelPatch(7, 1, true).to_string(), "DEL_PATCH:7:1:1");
    assert_eq!(
        Action::At(104, Box::new(Action::NoteOn(60, 100))).to_string(),
        "AT:104:NOTE_ON:60:100"
    );
    assert_eq!(
        Action::AddNote(3, Note { id: 3, t_in: 10, t_out: 490, note: 60, vel: 100 }).to_string(),
        "ADD_NOTE:3:3:10:490:60:100"
    );
    assert_eq!(Action::Tick(4294967295).to_string(), "TICK:4294967295");
    assert_eq!(Action::OpenProject("a:b.xml".to_string()).to_string(), "OPEN_PROJECT:a:b.xml");
}

#[test]
fn every_kind_of_message_reads_back() {
    let all = vec![
        Action::Noop, Action::Exit, Action::Up, Action::Down, Action::Left, Action::Right,
        Action::Back, Action::Cancel, Action::Close, Action::Route, Action::Deselect,
        Action::Effect, Action::Instrument, Action::Record, Action::SelectR, Action::SelectG,
        Action::SelectY, Action::SelectB, Action::SelectP, Action::ShowAnchors,
        Action::CreateProject("new song".to_string()),
        Action::OpenProject("/usr/local/palit/x.xml".to_string()),
        Action::ShowProject("".to_string()),
        Action::Play(1), Action::Stop(65535), Action::Scrub(3, true), Action::Goto(3, 0),
        Action::Loop(3, 5, 4000000000), Action::LoopOff(0), Action::RecordAt(1, 2),
        Action::MuteAt(1, 2), Action::Monitor(9), Action::LoopMode(true), Action::SetLoop(3, 9),
        Action::NoteOn(255, 0), Action::NoteOff(0), Action::Octave(false),
        Action::SetParam("16".to_string(), 2147483647),
        Action::SetParam("a:b".to_string(), -2147483648),
        Action::SetTempo(120), Action::SetMeter(3, 4),
        Action::AddModule(0, "x:y:z".to_string()), Action::DelModule(7), Action::AddRoute(1),
        Action::DelRoute(1), Action::AddTrack(2), Action::PatchIn(7, 0, 1),
        Action::PatchOut(7, 1, 1), Action::DelPatch(7, 1, false),
        Action::At(7, Box::new(Action::At(8, Box::new(Action::SetParam("4".to_string(), 10))))),
        Action::Tick(48000),
        Action::AddNote(1, Note { id: 1, t_in: 0, t_out: 0, note: 0, vel: 0 }),
    ];
    for a in all {
        round_trip(a);
    }
}

#[test]
fn malformed_tokens_stand_for_no_message() {
    for t in [
        "", "NOTE_ON", "NOTE_ON:60", "NOTE_ON:60:1:2", "NOTE_ON:256:1", "NOTE_ON:a:1",
        "NOTE_ON::1", "note_on:60:1", "UP:", "UP:1", "OCTAVE:2", "OCTAVE:", "PLAY",
        "SET_PARAM:16", "SET_PARAM:16:x", "SET_PARAM:16:2147483648", "SET_PARAM:16:-",
        "AT:7", "AT:7:", "AT:7:FOO", "AT:x:UP", "TICK:4294967296", "TICK:-1", "SET_TEMPO:65536",
        "ADD_NOTE:1:2:3:4:5", "1", "M", "SPC", " UP",
    ] {
        assert_eq!(parse(t), None, "{:?}", t);
    }
}

#[test]
fn numbers_may_have_leading_zeros() {
    assert_eq!(parse("NOTE_ON:060:001"), Some(Action::NoteOn(60, 1)));
    assert_eq!(parse("SET_PARAM:x:-0"), Some(Action::SetParam("x".to_string(), 0)));
}

#[test]
fn batch_skips_noop_and_what_it_cannot_read() {
    assert_eq!(
        ipc_action("NOTE_ON:60:100 OCTAVE:1"),
        vec![Action::NoteOn(60, 100), Action::Octave(true)]
    );
    assert_eq!(
        ipc_action("  NOOP bogus NOTE_OFF:60\nM EXIT\t\r\n"),
        vec![Action::NoteOff(60), Action::Exit]
    );
    assert_eq!(ipc_action(""), Vec::<Action>::new());
}

#[test]
fn exit_stops_the_batch_and_keeps_what_was_done() {
    let mut p = Patch::new();
    let batch = vec![
        Action::AddRoute(5),
        Action::PatchIn(9, 0, 5),
        Action::Exit,
        Action::AddRoute(6),
    ];
    let r = ipc_dispatch(&mut p, &batch, 0);
    assert_eq!(r.pause, Pause::Exit);
    assert_eq!(r.next, 3);
    assert_eq!(r.outcomes, vec![Outcome::Done, Outcome::UnknownAnchor(9, 0)]);
    assert!(p.route(5).is_some());
    assert!(p.route(6).is_none());
}

#[test]
fn open_project_hands_over_and_the_batch_goes_on_after_it() {
    let mut p = Patch::new();
    let batch = ipc_action("ADD_ROUTE:5 OPEN_PROJECT:song.xml ADD_ROUTE:6");
    let r = ipc_dispatch(&mut p, &batch, 0);
    assert_eq!(r.pause, Pause::Open("song.xml".to_string()));
    assert_eq!(r.next, 2);
    let r = ipc_dispatch(&mut p, &batch, r.next);
    assert_eq!(r.pause, Pause::Finished);
    assert_eq!(r.next, 3);
    assert_eq!(r.outcomes, vec![Outcome::Done]);
    assert!(p.route(6).is_some());
}
