use palit::action::Action;
use palit::document::{blank, Document, Element, LoadError, Plug, Route, Track, RegionEl};
use palit::node::Module;
use palit::patch::{kind, Kind, Outcome, Patch, KEYBOARD_ID, MASTER_ROUTE_ID};
use palit::synth;

fn timeline(id: u16, bpm: i32, tracks: Vec<Track>) -> Element {
    let mut el = blank(id, "timeline".to_string());
    el.params = vec![
        ("bpm".to_string(), bpm),
        ("meter_beat".to_string(), 4),
        ("meter_note".to_string(), 4),
    ];
    el.marks = vec![
        ("seq_in".to_string(), 0),
        ("seq_out".to_string(), 48000),
        ("loop_in".to_string(), 0),
        ("loop_out".to_string(), 0),
    ];
    el.tracks = tracks;
    el
}

fn patch_el(routes: Vec<Route>) -> Element {
    let mut el = blank(29200, "patch".to_string());
    el.routes = routes;
    el
}

fn project(modules: Vec<Element>) -> Document {
    Document {
        title: "Test".to_string(),
        src: "test.xml".to_string(),
        sample_rate: 48000,
        modules,
    }
}

#[test]
fn new_patch_has_root_and_master_route() {
    let p = Patch::new();
    assert_eq!(p.graph().node_count(), 2);
    assert_eq!(p.graph().connection_count(), 1);
    assert_eq!(p.route(MASTER_ROUTE_ID), Some(1));
    assert!(p.graph().has_edge(1, 0));
    assert_eq!(p.operator(7), None);
}

#[test]
fn module_names_map_to_kinds() {
    assert_eq!(kind("timeline"), Kind::Timeline);
    assert_eq!(kind("hammond"), Kind::Hammond);
    assert_eq!(kind("arpeggio"), Kind::Arpeggio);
    assert_eq!(kind("chord"), Kind::Chord);
    assert_eq!(kind("keyboard"), Kind::Keyboard);
    assert_eq!(kind("patch"), Kind::Patch);
    assert_eq!(kind("reverb"), Kind::Plugin);
}

#[test]
fn added_synth_gets_an_operator_with_two_anchors() {
    let mut p = Patch::new();
    assert_eq!(p.dispatch(Action::AddModule(7, "hammond".to_string())), Outcome::Done);
    let op = p.operator(7).unwrap();
    match p.graph().node(op) {
        Module::Operator(q, anchors, id) => {
            assert!(q.is_empty());
            assert_eq!(*id, 7);
            assert_eq!(anchors.len(), 2);
            assert_eq!(anchors[0], anchors[1]);
            assert!(matches!(p.graph().node(anchors[0]), Module::Synth(_)));
            assert!(p.graph().has_edge(op, anchors[0]));
        }
        _ => panic!("not an operator"),
    }
    assert_eq!(p.graph().connection_count(), 2);
}

#[test]
fn scenario_note_on_to_synth_allocates_nine_voices() {
    let mut p = Patch::new();
    let doc = project(vec![
        timeline(1, 120, vec![Track { id: 1, regions: vec![] }]),
        blank(7, "hammond".to_string()),
        patch_el(vec![Route { id: MASTER_ROUTE_ID, inputs: vec![], outputs: vec![Plug { module: 7, index: 1 }] }]),
    ]);
    assert_eq!(p.open_project(doc), Ok(true));
    assert_eq!(
        p.dispatch(Action::At(7, Box::new(Action::NoteOn(69, 100)))),
        Outcome::Done
    );
    // the operator passes the note to the synth on the next round
    p.walk_dispatch();
    let op = p.operator(7).unwrap();
    let synth_handle = match p.graph().node(op) {
        Module::Operator(_, anchors, _) => anchors[0],
        _ => panic!("not an operator"),
    };
    match p.graph().node(synth_handle) {
        Module::Synth(store) => {
            let voices: Vec<_> = store.sigs.iter().filter_map(|v| *v).collect();
            assert_eq!(voices.len(), 9);
            for (i, v) in voices.iter().enumerate() {
                assert_eq!(v.note, 69);
                assert_eq!(v.baridx, i);
                assert_eq!(v.curvol, 0);
                assert_eq!(v.targetvol, 100 * synth::RAMP);
            }
            let lengths: Vec<u32> = voices.iter().map(|v| synth::bar_freq(v.baridx)).collect();
            assert_eq!(lengths, vec![240, 80, 120, 60, 40, 30, 24, 20, 15]);
        }
        _ => panic!("not a synth"),
    }
    // the synth reports the note to the client, addressed from module 7
    let client = p.walk_dispatch();
    assert_eq!(client, vec![Action::At(7, Box::new(Action::NoteOn(69, 100)))]);
}

#[test]
fn open_project_wires_routes_to_anchors() {
    let mut p = Patch::new();
    let doc = project(vec![
        blank(104, "keyboard".to_string()),
        blank(7, "hammond".to_string()),
        patch_el(vec![
            Route { id: 2, inputs: vec![Plug { module: 7, index: 0 }], outputs: vec![Plug { module: 104, index: 1 }] },
        ]),
    ]);
    assert_eq!(p.open_project(doc), Ok(true));
    let route = p.route(2).unwrap();
    let keyboard = match p.graph().node(p.operator(104).unwrap()) {
        Module::Operator(_, anchors, _) => anchors[1],
        _ => panic!(),
    };
    let synth = match p.graph().node(p.operator(7).unwrap()) {
        Module::Operator(_, anchors, _) => anchors[0],
        _ => panic!(),
    };
    assert!(p.graph().has_edge(keyboard, route));
    assert!(p.graph().has_edge(route, synth));
    // the master route was added and feeds the root
    let master_route = p.route(MASTER_ROUTE_ID).unwrap();
    assert!(p.graph().has_edge(master_route, p.graph().master_index()));
}

#[test]
fn unknown_plugs_are_skipped_and_reported() {
    let mut p = Patch::new();
    let doc = project(vec![
        blank(7, "hammond".to_string()),
        patch_el(vec![
            Route { id: 2, inputs: vec![Plug { module: 9, index: 0 }, Plug { module: 7, index: 5 }, Plug { module: 7, index: 0 }], outputs: vec![] },
        ]),
    ]);
    assert_eq!(p.open_project(doc), Ok(false));
    let route = p.route(2).unwrap();
    assert_eq!(p.graph().outputs_of(route).len(), 1);
}

#[test]
fn timeline_tracks_are_added_in_order_of_their_ids() {
    let mut p = Patch::new();
    let el = timeline(3, 120, vec![
        Track { id: 5, regions: vec![] },
        Track { id: 2, regions: vec![RegionEl { id: 1, asset: 4, offset: 10, asset_in: 100, asset_out: 300 }] },
        Track { id: 9, regions: vec![] },
    ]);
    assert_eq!(p.add_module(el), Ok(true));
    let op = p.operator(3).unwrap();
    let anchors = match p.graph().node(op) {
        Module::Operator(_, anchors, id) => {
            assert_eq!(*id, 3);
            anchors.clone()
        }
        _ => panic!("not an operator"),
    };
    assert_eq!(anchors.len(), 6);
    let ids: Vec<u16> = anchors
        .iter()
        .map(|h| match p.graph().node(*h) {
            Module::Tape(t) => t.track_id,
            _ => panic!("not a tape"),
        })
        .collect();
    assert_eq!(ids, vec![2, 2, 5, 5, 9, 9]);
    // one edge per track, however many anchors alias it
    assert_eq!(p.graph().outputs_of(op).len(), 3);
    match p.graph().node(anchors[0]) {
        Module::Tape(t) => {
            assert_eq!(t.bpm, 120);
            assert_eq!(t.beat, 60 * 44180 / 120);
            assert_eq!(t.duration, 48000);
            assert_eq!(t.regions.len(), 1);
            assert_eq!(t.regions[0].duration, 200);
            assert_eq!(t.regions[0].offset, 10);
            assert_eq!(t.regions[0].asset_id, 4);
        }
        _ => panic!("not a tape"),
    }
}

#[test]
fn timeline_without_tempo_is_not_added() {
    let mut p = Patch::new();
    let nodes = p.graph().node_count();
    assert_eq!(
        p.dispatch(Action::AddModule(3, "timeline".to_string())),
        Outcome::Invalid(LoadError::Missing)
    );
    assert_eq!(p.graph().node_count(), nodes);
    assert_eq!(p.operator(3), None);
    let el = timeline(3, 0, vec![]);
    assert_eq!(p.add_module(el), Err(LoadError::Range));
    let el = timeline(3, 70000, vec![]);
    assert_eq!(p.add_module(el), Err(LoadError::Range));
    let el = timeline(3, 120, vec![Track { id: 1, regions: vec![RegionEl { id: 1, asset: 1, offset: 0, asset_in: 9, asset_out: 3 }] }]);
    assert_eq!(p.add_module(el), Err(LoadError::Range));
    assert_eq!(p.graph().node_count(), nodes);
}

#[test]
fn failed_open_project_leaves_the_patch_alone() {
    let mut p = Patch::new();
    p.dispatch(Action::AddModule(7, "hammond".to_string()));
    let nodes = p.graph().node_count();
    let doc = project(vec![blank(8, "chord".to_string()), blank(3, "timeline".to_string())]);
    assert_eq!(p.open_project(doc), Err(LoadError::Missing));
    assert_eq!(p.graph().node_count(), nodes);
    assert!(p.operator(7).is_some());
    assert!(p.operator(8).is_none());
}

#[test]
fn open_project_replaces_the_whole_patch() {
    let mut p = Patch::new();
    p.dispatch(Action::AddModule(7, "hammond".to_string()));
    p.dispatch(Action::AddRoute(5));
    assert_eq!(p.open_project(project(vec![blank(8, "chord".to_string())])), Ok(true));
    assert!(p.operator(7).is_none());
    assert!(p.route(5).is_none());
    assert!(p.operator(8).is_some());
    assert!(p.route(MASTER_ROUTE_ID).is_some());
    // root, chord, operator, master route
    assert_eq!(p.graph().node_count(), 4);
}

#[test]
fn patch_cycle_is_refused_and_reported() {
    let mut p = Patch::new();
    p.dispatch(Action::AddModule(7, "hammond".to_string()));
    p.dispatch(Action::AddRoute(5));
    assert_eq!(p.dispatch(Action::PatchIn(7, 0, 5)), Outcome::Done);
    let nodes = p.graph().node_count();
    let edges = p.graph().connection_count();
    assert_eq!(p.dispatch(Action::PatchOut(7, 1, 5)), Outcome::Cycle);
    assert_eq!(p.graph().node_count(), nodes);
    assert_eq!(p.graph().connection_count(), edges);
}

#[test]
fn patch_messages_with_unknown_names_change_nothing() {
    let mut p = Patch::new();
    p.dispatch(Action::AddModule(7, "hammond".to_string()));
    p.dispatch(Action::AddRoute(5));
    let edges = p.graph().connection_count();
    assert_eq!(p.dispatch(Action::PatchIn(7, 0, 6)), Outcome::UnknownRoute(6));
    assert_eq!(p.dispatch(Action::PatchIn(8, 0, 5)), Outcome::UnknownAnchor(8, 0));
    assert_eq!(p.dispatch(Action::PatchIn(7, 2, 5)), Outcome::UnknownAnchor(7, 2));
    assert_eq!(p.dispatch(Action::DelPatch(7, 2, true)), Outcome::UnknownAnchor(7, 2));
    assert_eq!(p.dispatch(Action::DelRoute(6)), Outcome::UnknownRoute(6));
    assert_eq!(p.dispatch(Action::DelModule(8)), Outcome::UnknownOperator(8));
    assert_eq!(p.dispatch(Action::NoteOn(60, 1)), Outcome::UnknownOperator(KEYBOARD_ID));
    assert_eq!(p.dispatch(Action::Up), Outcome::Unimplemented);
    assert_eq!(p.graph().connection_count(), edges);
}

#[test]
fn del_patch_pulls_the_cable() {
    let mut p = Patch::new();
    p.dispatch(Action::AddModule(7, "hammond".to_string()));
    p.dispatch(Action::AddRoute(5));
    p.dispatch(Action::AddRoute(6));
    assert_eq!(p.dispatch(Action::PatchIn(7, 0, 5)), Outcome::Done);
    assert_eq!(p.dispatch(Action::PatchIn(7, 0, 6)), Outcome::Done);
    let edges = p.graph().connection_count();
    assert_eq!(p.dispatch(Action::DelPatch(7, 0, false)), Outcome::Done);
    assert_eq!(p.graph().connection_count(), edges);
    assert_eq!(p.dispatch(Action::DelPatch(7, 0, true)), Outcome::Done);
    assert_eq!(p.graph().connection_count(), edges - 2);
}

#[test]
fn deleted_module_takes_no_more_messages() {
    let mut p = Patch::new();
    p.dispatch(Action::AddModule(7, "hammond".to_string()));
    p.dispatch(Action::PatchOut(7, 1, MASTER_ROUTE_ID));
    let op = p.operator(7).unwrap();
    assert_eq!(p.dispatch(Action::DelModule(7)), Outcome::Done);
    assert_eq!(p.operator(7), None);
    let nodes = p.graph().node_count();
    let edges = p.graph().connection_count();
    // the cluster lost its edges, the master route kept its own
    assert_eq!(edges, 1);
    assert_eq!(
        p.dispatch(Action::At(7, Box::new(Action::NoteOn(60, 100)))),
        Outcome::UnknownOperator(7)
    );
    assert_eq!(p.graph().node_count(), nodes);
    assert_eq!(p.graph().connection_count(), edges);
    match p.graph().node(op) {
        Module::Operator(q, _, _) => assert!(q.is_empty()),
        _ => panic!("not an operator"),
    }
}

#[test]
fn del_route_detaches_the_bus() {
    let mut p = Patch::new();
    p.dispatch(Action::AddModule(7, "hammond".to_string()));
    assert_eq!(p.dispatch(Action::PatchOut(7, 1, MASTER_ROUTE_ID)), Outcome::Done);
    assert_eq!(p.graph().connection_count(), 3);
    assert_eq!(p.dispatch(Action::DelRoute(MASTER_ROUTE_ID)), Outcome::Done);
    assert_eq!(p.route(MASTER_ROUTE_ID), None);
    assert_eq!(p.graph().connection_count(), 1);
}

#[test]
fn tempo_goes_to_every_operator() {
    let mut p = Patch::new();
    p.dispatch(Action::AddModule(7, "hammond".to_string()));
    p.dispatch(Action::AddModule(8, "chord".to_string()));
    assert_eq!(p.dispatch(Action::SetTempo(90)), Outcome::Done);
    for id in [7u16, 8] {
        match p.graph().node(p.operator(id).unwrap()) {
            Module::Operator(q, _, _) => assert_eq!(q, &vec![Action::SetTempo(90)]),
            _ => panic!("not an operator"),
        }
    }
}

#[test]
fn notes_go_to_the_keyboard_module() {
    let mut p = Patch::new();
    p.dispatch(Action::AddModule(KEYBOARD_ID, "keyboard".to_string()));
    assert_eq!(p.dispatch(Action::NoteOn(60, 1)), Outcome::Done);
    assert_eq!(p.dispatch(Action::Octave(true)), Outcome::Done);
    match p.graph().node(p.operator(KEYBOARD_ID).unwrap()) {
        Module::Operator(q, _, _) => assert_eq!(q, &vec![Action::NoteOn(60, 1), Action::Octave(true)]),
        _ => panic!("not an operator"),
    }
}

#[test]
fn add_track_extends_the_anchor_list() {
    let mut p = Patch::new();
    p.add_module(timeline(3, 120, vec![Track { id: 1, regions: vec![] }])).unwrap();
    assert_eq!(p.dispatch(Action::At(3, Box::new(Action::AddTrack(4)))), Outcome::Done);
    let op = p.operator(3).unwrap();
    match p.graph().node(op) {
        Module::Operator(_, anchors, _) => {
            assert_eq!(anchors.len(), 4);
            assert_eq!(anchors[2], anchors[3]);
            match p.graph().node(anchors[2]) {
                Module::Tape(t) => assert_eq!(t.track_id, 4),
                _ => panic!("not a tape"),
            }
            assert!(p.graph().has_edge(op, anchors[2]));
        }
        _ => panic!("not an operator"),
    }
}

#[test]
fn open_project_message_asks_for_the_document() {
    let mut p = Patch::new();
    assert_eq!(
        p.dispatch(Action::OpenProject("song.xml".to_string())),
        Outcome::Open("song.xml".to_string())
    );
    assert_eq!(p.graph().node_count(), 2);
}

#[test]
fn plugin_module_remembers_where_it_loads_from() {
    let mut p = Patch::new();
    assert_eq!(p.dispatch(Action::AddModule(12, "reverb".to_string())), Outcome::Done);
    let op = p.operator(12).unwrap();
    let h = match p.graph().node(op) {
        Module::Operator(_, anchors, _) => anchors[0],
        _ => panic!(),
    };
    match p.graph().node(h) {
        Module::Plugin(store) => {
            assert_eq!(store.name, "reverb");
            assert_eq!(palit::plugin::path(store), "./modules/reverb.so");
        }
        _ => panic!("not a plugin"),
    }
}

#[test]
fn saved_modules_keep_ids_and_parameters() {
    let mut hammond = blank(7, "hammond".to_string());
    hammond.params = vec![("16".to_string(), 900), ("1".to_string(), 33)];
    let mut keyboard = blank(KEYBOARD_ID, "keyboard".to_string());
    keyboard.params = vec![("octave".to_string(), 5)];
    let mut arp = blank(9, "arpeggio".to_string());
    arp.params = vec![("length".to_string(), 6)];
    let mut chord = blank(10, "chord".to_string());
    chord.notes = vec![
        palit::action::Note { id: 0, t_in: 0, t_out: 0, note: 0, vel: 0 },
        palit::action::Note { id: 1, t_in: 0, t_out: 0, note: 3, vel: 0 },
    ];
    let tl = timeline(3, 96, vec![
        Track { id: 5, regions: vec![RegionEl { id: 0, asset: 2, offset: 7, asset_in: 1, asset_out: 9 }] },
        Track { id: 2, regions: vec![] },
    ]);
    let mut p = Patch::new();
    let doc = project(vec![
        tl,
        hammond,
        keyboard,
        arp,
        chord,
        blank(12, "reverb".to_string()),
        patch_el(vec![Route { id: 2, inputs: vec![Plug { module: 7, index: 0 }], outputs: vec![] }]),
    ]);
    assert_eq!(p.open_project(doc), Ok(true));
    let mut saved = p.modules();
    saved.sort_by_key(|el| el.id);
    let ids: Vec<u16> = saved.iter().map(|el| el.id).collect();
    assert_eq!(ids, vec![3, 7, 9, 10, 12, KEYBOARD_ID]);
    let names: Vec<&str> = saved.iter().map(|el| el.name.as_str()).collect();
    assert_eq!(names, vec!["timeline", "hammond", "arpeggio", "chord", "reverb", "keyboard"]);
    let tl = &saved[0];
    assert_eq!(
        tl.params,
        vec![
            ("bpm".to_string(), 96),
            ("meter_beat".to_string(), 4),
            ("meter_note".to_string(), 4),
        ]
    );
    assert_eq!(
        tl.marks,
        vec![
            ("loop_in".to_string(), 0),
            ("loop_out".to_string(), 0),
            ("seq_out".to_string(), 48000),
            ("seq_in".to_string(), 0),
        ]
    );
    assert_eq!(tl.tracks.len(), 2);
    assert_eq!(tl.tracks[0].id, 2);
    assert_eq!(tl.tracks[1].id, 5);
    assert_eq!(
        tl.tracks[1].regions,
        vec![RegionEl { id: 0, asset: 2, offset: 7, asset_in: 1, asset_out: 9 }]
    );
    let bars: Vec<(&str, i32)> = saved[1].params.iter().map(|(n, v)| (n.as_str(), *v)).collect();
    assert_eq!(
        bars,
        vec![
            ("16", 900), ("5.3", 100), ("8", 100), ("4", 100), ("2.6", 100), ("2", 100),
            ("1.6", 100), ("1.3", 100), ("1", 33),
        ]
    );
    assert_eq!(saved[2].params, vec![("length".to_string(), 6)]);
    let intervals: Vec<u8> = saved[3].notes.iter().map(|n| n.note).collect();
    assert_eq!(intervals, vec![0, 3]);
    assert_eq!(saved[5].params, vec![("octave".to_string(), 5)]);
    // opening what was saved gives the same modules again
    let mut q = Patch::new();
    assert_eq!(q.open_project(project(saved)), Ok(true));
    let mut again = q.modules();
    again.sort_by_key(|el| el.id);
    let mut first = p.modules();
    first.sort_by_key(|el| el.id);
    assert_eq!(again.len(), first.len());
    for (a, b) in again.iter().zip(first.iter()) {
        assert_eq!(a.id, b.id);
        assert_eq!(a.name, b.name);
        assert_eq!(a.params, b.params);
        assert_eq!(a.marks, b.marks);
        assert_eq!(a.notes, b.notes);
        assert_eq!(a.tracks.len(), b.tracks.len());
    }
}

#[test]
fn timeline_without_tracks_keeps_its_header_on_save() {
    let mut p = Patch::new();
    let mut doc_el = timeline(3, 96, vec![]);
    doc_el.marks = vec![
        ("seq_in".to_string(), 100),
        ("seq_out".to_string(), 700),
        ("loop_in".to_string(), 5),
        ("loop_out".to_string(), 9),
    ];
    doc_el.params[1].1 = 3;
    assert_eq!(p.open_project(project(vec![doc_el, blank(7, "hammond".to_string())])), Ok(true));
    let mut saved = p.modules();
    saved.sort_by_key(|el| el.id);
    assert_eq!(saved[0].id, 3);
    assert_eq!(saved[0].name, "timeline");
    assert!(saved[0].tracks.is_empty());
    assert_eq!(
        saved[0].params,
        vec![
            ("bpm".to_string(), 96),
            ("meter_beat".to_string(), 3),
            ("meter_note".to_string(), 4),
        ]
    );
    assert_eq!(
        saved[0].marks,
        vec![
            ("loop_in".to_string(), 5),
            ("loop_out".to_string(), 9),
            ("seq_out".to_string(), 600),
            ("seq_in".to_string(), 0),
        ]
    );
    // a module of another kind under the same id takes the header away
    assert_eq!(p.add_module(blank(3, "chord".to_string())), Ok(true));
    let mut saved = p.modules();
    saved.sort_by_key(|el| el.id);
    assert_eq!(saved[0].name, "chord");
    assert!(saved[0].params.is_empty());
    // and so does taking the timeline out
    let mut q = Patch::new();
    q.add_module(timeline(4, 120, vec![])).unwrap();
    assert_eq!(q.modules().len(), 1);
    assert_eq!(q.dispatch(Action::DelModule(4)), Outcome::Done);
    assert!(q.modules().is_empty());
}

#[test]
fn one_edge_hands_a_message_on_once() {
    let mut p = Patch::new();
    p.dispatch(Action::AddModule(7, "hammond".to_string()));
    let op = p.operator(7).unwrap();
    assert_eq!(p.graph().outputs_of(op).len(), 1);
    p.dispatch(Action::At(7, Box::new(Action::NoteOn(69, 100))));
    p.walk_dispatch();
    let synth_handle = p.graph().outputs_of(op)[0];
    match p.graph().node(synth_handle) {
        Module::Synth(store) => {
            assert_eq!(store.sigs.iter().filter(|v| v.is_some()).count(), 9);
            assert_eq!(store.queue, vec![Action::NoteOn(69, 100)]);
        }
        _ => panic!("not a synth"),
    }
    match p.graph().node(op) {
        Module::Operator(q, _, _) => assert!(q.is_empty()),
        _ => panic!("not an operator"),
    }
}
