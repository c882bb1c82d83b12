use palit::action::{Action, Note};
use palit::tape::{compute, dispatch, dispatch_requested, init, Region, Store};

fn playing(track_id: u16, beat: u32) -> Store {
    let mut s = init();
    s.track_id = track_id;
    s.beat = beat;
    dispatch(&mut s, Action::Play(0));
    s
}

#[test]
fn new_track_is_stopped_and_monitors() {
    let s = init();
    assert_eq!(s.bpm, 127);
    assert_eq!(s.duration, 960000);
    assert_eq!(s.meter_beat, 4);
    assert_eq!(s.meter_note, 4);
    assert_eq!(s.velocity, 0);
    assert_eq!(s.scrub, None);
    assert!(s.monitor);
    assert!(!s.recording);
    assert!(!s.loop_on);
    assert_eq!(s.sample_rate, 44180);
    assert_eq!(s.beat, 0);
    assert_eq!(s.playhead, 0);
}

#[test]
fn recorded_note_is_committed_with_both_ends() {
    let mut s = playing(0, 0);
    s.monitor = false;
    dispatch(&mut s, Action::RecordAt(0, 0));
    assert!(s.recording);
    dispatch(&mut s, Action::Goto(0, 1000));
    dispatch(&mut s, Action::NoteOn(60, 100));
    assert_eq!(s.note_queue.len(), 1);
    for _ in 0..480 {
        assert!(compute(&mut s).is_some());
    }
    assert_eq!(s.playhead, 1480);
    dispatch(&mut s, Action::NoteOff(60));
    let note = Note { id: 0, t_in: 1000, t_out: 1480, note: 60, vel: 100 };
    assert_eq!(s.notes, vec![note]);
    assert!(s.note_queue.is_empty());
    assert_eq!(s.out_queue, vec![Action::AddNote(0, note)]);
    let (outs, ins, client) = dispatch_requested(&mut s);
    assert_eq!(outs, None);
    assert_eq!(ins, None);
    assert_eq!(client, Some(vec![Action::AddNote(0, note)]));
    assert!(s.out_queue.is_empty());
}

#[test]
fn held_notes_of_one_pitch_close_oldest_first() {
    let mut s = playing(0, 0);
    s.monitor = false;
    dispatch(&mut s, Action::RecordAt(0, 0));
    dispatch(&mut s, Action::NoteOn(60, 10));
    compute(&mut s);
    dispatch(&mut s, Action::NoteOn(62, 20));
    compute(&mut s);
    dispatch(&mut s, Action::NoteOn(60, 30));
    compute(&mut s);
    dispatch(&mut s, Action::NoteOff(60));
    assert_eq!(s.notes, vec![Note { id: 0, t_in: 0, t_out: 3, note: 60, vel: 10 }]);
    assert_eq!(s.note_queue.len(), 2);
    assert_eq!(s.note_queue[0].note, 62);
    assert_eq!(s.note_queue[1].vel, 30);
}

#[test]
fn record_toggle_needs_the_right_track() {
    let mut s = init();
    s.track_id = 3;
    dispatch(&mut s, Action::RecordAt(0, 2));
    assert!(!s.recording);
    dispatch(&mut s, Action::RecordAt(0, 3));
    assert!(s.recording);
    dispatch(&mut s, Action::RecordAt(0, 3));
    assert!(!s.recording);
}

#[test]
fn monitor_passes_notes_on_whether_or_not_recording() {
    let mut s = init();
    dispatch(&mut s, Action::NoteOn(60, 1));
    dispatch(&mut s, Action::NoteOff(60));
    assert!(s.notes.is_empty());
    let (outs, _, client) = dispatch_requested(&mut s);
    assert_eq!(outs, Some(vec![Action::NoteOn(60, 1), Action::NoteOff(60)]));
    assert_eq!(client, None);
    dispatch(&mut s, Action::Monitor(0));
    dispatch(&mut s, Action::NoteOn(60, 1));
    assert!(s.out_queue.is_empty());
}

#[test]
fn note_off_on_a_tape_at_rest_commits_nothing() {
    let mut s = init();
    s.monitor = false;
    dispatch(&mut s, Action::RecordAt(0, 0));
    dispatch(&mut s, Action::NoteOn(60, 1));
    dispatch(&mut s, Action::NoteOff(60));
    assert!(s.notes.is_empty());
    assert_eq!(s.note_queue.len(), 1);
}

#[test]
fn goto_drops_held_notes_and_moves_the_playhead() {
    let mut s = init();
    dispatch(&mut s, Action::RecordAt(0, 0));
    dispatch(&mut s, Action::NoteOn(60, 1));
    dispatch(&mut s, Action::Goto(0, 777));
    assert!(s.note_queue.is_empty());
    assert_eq!(s.playhead, 777);
}

#[test]
fn transport_follows_play_stop_and_scrub() {
    let mut s = init();
    assert_eq!(compute(&mut s), None);
    assert_eq!(s.playhead, 0);
    dispatch(&mut s, Action::Play(0));
    assert_eq!(s.velocity, 1);
    assert_eq!(compute(&mut s), Some(0));
    assert_eq!(compute(&mut s), Some(1));
    assert_eq!(s.playhead, 2);
    dispatch(&mut s, Action::Stop(0));
    assert_eq!(s.velocity, 0);
    assert_eq!(compute(&mut s), None);
    assert_eq!(s.playhead, 2);
    dispatch(&mut s, Action::Scrub(0, true));
    assert_eq!(s.scrub, Some(true));
    assert_eq!(compute(&mut s), Some(2));
    assert_eq!(s.playhead, 3);
    dispatch(&mut s, Action::Scrub(0, false));
    compute(&mut s);
    compute(&mut s);
    compute(&mut s);
    assert_eq!(s.playhead, 0);
    assert_eq!(s.scrub, Some(false));
    // running backward into the start stops the tape
    assert_eq!(compute(&mut s), Some(0));
    assert_eq!(s.scrub, None);
    assert_eq!(s.velocity, 0);
    assert_eq!(compute(&mut s), None);
}

#[test]
fn stop_returns_a_looping_track_to_the_loop_start() {
    let mut s = init();
    dispatch(&mut s, Action::Loop(0, 100, 200));
    assert!(s.loop_on);
    dispatch(&mut s, Action::Goto(0, 150));
    dispatch(&mut s, Action::Stop(0));
    assert_eq!(s.playhead, 100);
    dispatch(&mut s, Action::LoopOff(0));
    dispatch(&mut s, Action::Goto(0, 150));
    dispatch(&mut s, Action::Stop(0));
    assert_eq!(s.playhead, 150);
}

#[test]
fn loop_wraps_the_playhead_back_to_the_loop_start() {
    // Reaching the end of the loop assigns the loop start to the playhead.
    let mut s = playing(0, 0);
    dispatch(&mut s, Action::Loop(0, 10, 13));
    dispatch(&mut s, Action::Goto(0, 11));
    assert_eq!(compute(&mut s), Some(11));
    assert_eq!(s.playhead, 12);
    assert_eq!(compute(&mut s), Some(12));
    assert_eq!(s.playhead, 10);
    assert_eq!(compute(&mut s), Some(10));
    assert_eq!(s.playhead, 11);
}

#[test]
fn playback_emits_the_notes_at_their_positions() {
    let mut s = playing(0, 0);
    s.notes = vec![
        Note { id: 0, t_in: 1, t_out: 3, note: 60, vel: 100 },
        Note { id: 1, t_in: 3, t_out: 4, note: 64, vel: 90 },
    ];
    compute(&mut s);
    assert!(s.out_queue.is_empty());
    compute(&mut s);
    assert_eq!(s.out_queue, vec![Action::NoteOn(60, 100)]);
    compute(&mut s);
    compute(&mut s);
    assert_eq!(
        s.out_queue,
        vec![Action::NoteOn(60, 100), Action::NoteOff(60), Action::NoteOn(64, 90)]
    );
}

#[test]
fn clock_track_ticks_once_per_beat() {
    let mut s = playing(1, 100);
    dispatch(&mut s, Action::Goto(0, 37));
    for _ in 0..300 {
        compute(&mut s);
    }
    assert_eq!(s.out_queue, vec![Action::Tick(100), Action::Tick(200), Action::Tick(300)]);
    let (outs, _, client) = dispatch_requested(&mut s);
    assert_eq!(outs, None);
    assert_eq!(client.map(|c| c.len()), Some(3));
}

#[test]
fn other_tracks_and_tracks_without_beat_never_tick() {
    let mut other = playing(2, 100);
    let mut beatless = playing(1, 0);
    for _ in 0..250 {
        compute(&mut other);
        compute(&mut beatless);
    }
    assert!(other.out_queue.is_empty());
    assert!(beatless.out_queue.is_empty());
}

#[test]
fn playhead_stays_at_the_last_position() {
    let mut s = playing(0, 0);
    dispatch(&mut s, Action::Goto(0, u32::MAX - 1));
    compute(&mut s);
    assert_eq!(s.playhead, u32::MAX);
    compute(&mut s);
    assert_eq!(s.playhead, u32::MAX);
}

#[test]
fn region_covers_its_window_only() {
    let r = Region { offset: 100, duration: 50, asset_in: 0, asset_out: 50, gain: 1000, asset_id: 1 };
    assert_eq!(r.sample_index(99), None);
    assert_eq!(r.sample_index(100), Some(0));
    assert_eq!(r.sample_index(149), Some(49));
    assert_eq!(r.sample_index(150), None);
}

#[test]
fn mute_leaves_the_track_as_it_is() {
    let mut s = init();
    s.track_id = 3;
    dispatch(&mut s, Action::RecordAt(0, 3));
    assert!(s.recording);
    dispatch(&mut s, Action::MuteAt(0, 3));
    assert!(s.recording);
    dispatch(&mut s, Action::MuteAt(0, 4));
    assert!(s.recording);
    assert_eq!(s.playhead, 0);
    assert_eq!(s.velocity, 0);
    assert!(!s.loop_on);
    assert!(s.monitor);
    assert!(s.out_queue.is_empty());
}
