use palit::action::Action;
use palit::arpeggio;
use palit::chord;
use palit::document::blank;
use palit::node::{Module, DEBUG_KEY_PERIOD};
use palit::plugin;
use palit::synth;

#[test]
fn octave_zero_clamps_low_pitches_to_zero() {
    let mut m = Module::Octave(Vec::new(), 0);
    m.dispatch(Action::NoteOn(2, 100));
    m.dispatch(Action::NoteOff(40));
    let (outs, ins, client) = m.dispatch_requested();
    // -36 semitones: 2 clamps to 0, 40 becomes 4; the newest message leaves first
    assert_eq!(outs, Some(vec![Action::NoteOff(4), Action::NoteOn(0, 100)]));
    assert_eq!(ins, None);
    assert_eq!(client, outs);
}

#[test]
fn octave_transposes_by_twelve_per_step() {
    let mut m = Module::Octave(Vec::new(), 3);
    m.dispatch(Action::NoteOn(60, 1));
    assert_eq!(m.dispatch_requested().0, Some(vec![Action::NoteOn(60, 1)]));
    m.dispatch(Action::Octave(true));
    m.dispatch(Action::NoteOn(60, 1));
    assert_eq!(m.dispatch_requested().0, Some(vec![Action::NoteOn(72, 1)]));
    m.dispatch(Action::Octave(false));
    m.dispatch(Action::Octave(false));
    m.dispatch(Action::NoteOn(60, 1));
    assert_eq!(m.dispatch_requested().0, Some(vec![Action::NoteOn(48, 1)]));
    let mut high = Module::Octave(Vec::new(), 30);
    high.dispatch(Action::NoteOn(60, 1));
    assert_eq!(high.dispatch_requested().0, Some(vec![Action::NoteOn(255, 1)]));
}

#[test]
fn octave_stops_at_zero_on_the_way_down() {
    let mut m = Module::Octave(Vec::new(), 1);
    m.dispatch(Action::Octave(false));
    m.dispatch(Action::Octave(false));
    assert!(matches!(m, Module::Octave(_, 0)));
    m.dispatch(Action::Goto(0, 1));
    assert!(matches!(&m, Module::Octave(q, 0) if q.is_empty()));
}

#[test]
fn master_ignores_messages() {
    let mut m = Module::Master;
    m.dispatch(Action::NoteOn(1, 1));
    assert_eq!(m.dispatch_requested(), (None, None, None));
}

#[test]
fn bus_and_operator_forward_verbatim() {
    let mut bus = Module::Passthru(Vec::new());
    bus.dispatch(Action::Tick(1));
    bus.dispatch(Action::Up);
    assert_eq!(bus.dispatch_requested(), (Some(vec![Action::Tick(1), Action::Up]), None, None));
    assert_eq!(bus.dispatch_requested(), (Some(vec![]), None, None));
    let mut op = Module::Operator(Vec::new(), vec![4, 4], 7);
    op.dispatch(Action::SetTempo(90));
    assert_eq!(op.dispatch_requested().0, Some(vec![Action::SetTempo(90)]));
    op.add_anchors(9);
    assert!(matches!(&op, Module::Operator(_, anchors, 7) if anchors == &vec![4, 4, 9, 9]));
}

#[test]
fn debug_keys_flushes_note_offs_when_the_period_runs_out() {
    let mut m = Module::DebugKeys(Vec::new(), Vec::new(), 200);
    m.dispatch(Action::NoteOn(60, 1));
    m.dispatch(Action::NoteOn(62, 1));
    assert_eq!(
        m.dispatch_requested().0,
        Some(vec![Action::NoteOn(60, 1), Action::NoteOn(62, 1)])
    );
    m.audio_requested(128);
    assert!(matches!(m, Module::DebugKeys(_, _, 72)));
    m.audio_requested(128);
    assert!(matches!(m, Module::DebugKeys(_, _, 0)));
    m.dispatch(Action::NoteOn(64, 1));
    assert_eq!(
        m.dispatch_requested().0,
        Some(vec![Action::NoteOff(62), Action::NoteOff(60), Action::NoteOff(64)])
    );
    match &m {
        Module::DebugKeys(on, off, timer) => {
            assert!(on.is_empty());
            assert!(off.is_empty());
            assert_eq!(*timer, DEBUG_KEY_PERIOD);
        }
        _ => panic!(),
    }
}

#[test]
fn chord_fans_out_to_the_major_triad() {
    let mut s = chord::init();
    assert_eq!(s.intervals, vec![0, 4, 7]);
    chord::dispatch(&mut s, Action::NoteOn(60, 100));
    chord::dispatch(&mut s, Action::NoteOff(60));
    chord::dispatch(&mut s, Action::Tick(3));
    let (outs, ins, client) = chord::dispatch_requested(&mut s);
    assert_eq!(
        outs,
        Some(vec![
            Action::NoteOn(60, 100),
            Action::NoteOn(64, 100),
            Action::NoteOn(67, 100),
            Action::NoteOff(60),
            Action::NoteOff(64),
            Action::NoteOff(67),
        ])
    );
    assert_eq!((ins, client), (None, None));
    assert!(s.thru_queue.is_empty());
}

#[test]
fn chord_holds_pitches_to_the_top_of_the_range() {
    let mut s = chord::init();
    chord::dispatch(&mut s, Action::NoteOn(250, 1));
    assert_eq!(
        s.thru_queue,
        vec![Action::NoteOn(250, 1), Action::NoteOn(254, 1), Action::NoteOn(255, 1)]
    );
}

#[test]
fn chord_reads_its_intervals_from_the_notes_of_the_module() {
    let mut el = blank(8, "chord".to_string());
    el.notes = vec![
        palit::action::Note { id: 0, t_in: 0, t_out: 0, note: 0, vel: 0 },
        palit::action::Note { id: 1, t_in: 0, t_out: 0, note: 3, vel: 0 },
    ];
    let s = chord::read(&el).unwrap();
    assert_eq!(s.intervals, vec![0, 3]);
}

#[test]
fn synth_allocates_one_voice_per_drawbar_in_the_first_free_places() {
    let mut s = synth::init();
    assert_eq!(s.sigs.len(), synth::VOICES);
    assert_eq!(s.bar_values, [250, 250, 250, 750, 500, 0, 0, 0, 0]);
    synth::dispatch(&mut s, Action::NoteOn(69, 100));
    for i in 0..9 {
        let v = s.sigs[i].unwrap();
        assert_eq!((v.note, v.baridx, v.curvol, v.targetvol), (69, i, 0, 50000));
    }
    assert!(s.sigs[9].is_none());
    assert_eq!(s.queue, vec![Action::NoteOn(69, 100)]);
}

#[test]
fn synth_never_sounds_more_than_its_pool_holds() {
    let mut s = synth::init();
    for k in 0..40u8 {
        synth::dispatch(&mut s, Action::NoteOn(k, 1));
        assert!(s.sigs.iter().filter(|v| v.is_some()).count() <= synth::VOICES);
        assert_eq!(s.sigs.len(), synth::VOICES);
    }
    // 28 whole notes take 252 voices, the 29th takes the last four and is dropped
    assert_eq!(s.sigs.iter().filter(|v| v.is_some()).count(), 256);
    assert_eq!(s.queue.len(), 28);
    assert_eq!(s.sigs[255].unwrap().note, 28);
    assert_eq!(s.sigs[255].unwrap().baridx, 3);
}

#[test]
fn synth_voice_rises_fades_and_is_given_back() {
    let mut s = synth::init();
    synth::dispatch(&mut s, Action::NoteOn(60, 1));
    for _ in 0..499 {
        synth::compute(&mut s);
    }
    assert_eq!(s.sigs[0].unwrap().curvol, 499);
    synth::compute(&mut s);
    synth::compute(&mut s);
    assert_eq!(s.sigs[0].unwrap().curvol, 500);
    synth::dispatch(&mut s, Action::NoteOff(60));
    assert_eq!(s.sigs[0].unwrap().targetvol, 0);
    for _ in 0..499 {
        synth::compute(&mut s);
    }
    assert_eq!(s.sigs[8].unwrap().curvol, 1);
    synth::compute(&mut s);
    assert!(s.sigs.iter().all(|v| v.is_none()));
    let (outs, ins, client) = synth::dispatch_requested(&mut s);
    assert_eq!((outs, ins), (None, None));
    assert_eq!(client, Some(vec![Action::NoteOn(60, 1), Action::NoteOff(60)]));
}

#[test]
fn synth_note_off_only_fades_voices_of_that_note() {
    let mut s = synth::init();
    synth::dispatch(&mut s, Action::NoteOn(60, 1));
    synth::dispatch(&mut s, Action::NoteOn(64, 1));
    synth::dispatch(&mut s, Action::NoteOff(60));
    assert!(s.sigs[..9].iter().all(|v| v.unwrap().targetvol == 0));
    assert!(s.sigs[9..18].iter().all(|v| v.unwrap().targetvol == 500));
}

#[test]
fn synth_set_param_names_a_drawbar() {
    let mut s = synth::init();
    synth::dispatch(&mut s, Action::SetParam("5.3".to_string(), 900));
    synth::dispatch(&mut s, Action::SetParam("1".to_string(), 10));
    synth::dispatch(&mut s, Action::SetParam("3".to_string(), 77));
    assert_eq!(s.bar_values, [250, 900, 250, 750, 500, 0, 0, 0, 10]);
}

#[test]
fn synth_reads_drawbars_from_the_project() {
    let mut el = blank(7, "hammond".to_string());
    el.params = vec![("8".to_string(), 300), ("1.3".to_string(), 5), ("8".to_string(), 400)];
    let s = synth::read(&el).unwrap();
    assert_eq!(s.bar_values, [100, 100, 400, 100, 100, 100, 100, 5, 100]);
}

#[test]
fn drawbar_table_holds_the_pipe_lengths() {
    let lengths: Vec<u32> = (0..synth::BARS).map(synth::bar_freq).collect();
    // 16', 5 1/3', 8', 4', 2 2/3', 2', 1 3/5', 1 1/3', 1' in fifteenths of a foot
    assert_eq!(lengths, vec![240, 80, 120, 60, 40, 30, 24, 20, 15]);
}

#[test]
fn arpeggio_steps_through_its_pattern() {
    let mut s = arpeggio::init();
    assert_eq!(s.length, 4);
    for expect in [1, 2, 3, 0, 1] {
        arpeggio::compute(&mut s);
        assert_eq!(s.step, expect);
    }
    arpeggio::dispatch(&mut s, Action::SetParam("length".to_string(), 2));
    arpeggio::compute(&mut s);
    assert_eq!(s.step, 0);
    arpeggio::dispatch(&mut s, Action::NoteOn(60, 1));
    assert_eq!(arpeggio::dispatch_requested(&mut s).0, Some(vec![Action::NoteOn(60, 1)]));
    let mut el = blank(5, "arpeggio".to_string());
    el.params = vec![("length".to_string(), 8)];
    assert_eq!(arpeggio::read(&el).unwrap().length, 8);
}

#[test]
fn plugin_keeps_messages_for_the_host() {
    let mut s = plugin::init("x".to_string());
    assert_eq!(plugin::path(&s), "./modules/x.so");
    plugin::dispatch(&mut s, Action::NoteOn(1, 2));
    assert_eq!(plugin::dispatch_requested(&mut s), (None, None, None));
    assert_eq!(plugin::take_inbox(&mut s), vec![Action::NoteOn(1, 2)]);
    assert!(s.inbox.is_empty());
}
