use palit::action::{Action, Note};
use palit::document::{blank, Asset, RegionEl, Track as TrackEl};
use palit::views::timeline::{
    loop_button, loop_in_marker, loop_out_marker, read, record_button, track_button, Region, Track,
};

#[test]
fn timeline_view_reads_a_project_with_defaults() {
    let state = read(&blank(1, "timeline".to_string()));
    assert_eq!(state.tempo, 127);
    assert_eq!((state.meter_beat, state.meter_note), (4, 4));
    assert_eq!((state.seq_in, state.seq_out), (0, 48000));
    assert_eq!((state.loop_in, state.loop_out), (0, 0));
    assert_eq!(state.sample_rate, 44100);
    assert!(state.tracks.is_empty());
    assert!(state.regions.is_empty());
    assert!(state.assets.is_empty());
    assert!(state.tick);
    assert!(!state.loop_mode);
    assert_eq!(state.zoom, 1);
}

#[test]
fn timeline_view_reads_tracks_regions_and_assets() {
    let mut el = blank(1, "timeline".to_string());
    el.params = vec![("bpm".to_string(), 70000), ("meter_beat".to_string(), 3)];
    el.marks = vec![("loop_out".to_string(), 96000)];
    el.assets = vec![Asset { id: 4, src: "kick.wav".to_string(), size: 500 }];
    el.tracks = vec![
        TrackEl { id: 7, regions: vec![RegionEl { id: 1, asset: 4, offset: 10, asset_in: 0, asset_out: 500 }] },
        TrackEl { id: 2, regions: vec![] },
    ];
    let state = read(&el);
    // a tempo that does not fit sixteen bits keeps its low sixteen bits
    assert_eq!(state.tempo, 4464);
    assert_eq!(state.meter_beat, 3);
    assert_eq!(state.loop_out, 96000);
    assert_eq!(state.tracks.len(), 2);
    assert_eq!(state.tracks[&7], Track { id: 7, record: false, mute: false, solo: false, index: 0 });
    assert_eq!(state.tracks[&2].index, 1);
    assert_eq!(
        state.regions[&1],
        Region { asset_id: 4, asset_in: 0, asset_out: 500, offset: 10, track: 7 }
    );
    assert_eq!(state.assets[&4].src, "kick.wav");
    assert_eq!(state.assets[&4].duration, 500);
    assert_eq!(state.assets[&4].channels, 2);
}

#[test]
fn timeline_buttons_turn_keys_into_messages() {
    let mut el = blank(1, "timeline".to_string());
    el.marks = vec![("loop_in".to_string(), 100), ("loop_out".to_string(), 300)];
    el.tracks = vec![TrackEl { id: 7, regions: vec![] }, TrackEl { id: 3, regions: vec![] }];
    let mut state = read(&el);
    state.playhead = 222;
    let note = Note { id: 1, t_in: 2, t_out: 3, note: 60, vel: 9 };
    assert_eq!(record_button(Action::SelectR), Action::Record);
    assert_eq!(record_button(Action::AddNote(1, note)), Action::AddNote(1, note));
    assert_eq!(record_button(Action::Up), Action::Noop);
    assert_eq!(loop_button(&state, Action::SelectY), Action::LoopMode(true));
    assert_eq!(loop_button(&state, Action::Left), Action::Noop);
    assert_eq!(loop_out_marker(&state, Action::Left, 50), Action::SetLoop(100, 250));
    assert_eq!(loop_out_marker(&state, Action::Left, 301), Action::SetLoop(100, 300));
    assert_eq!(loop_out_marker(&state, Action::Right, 50), Action::SetLoop(100, 350));
    assert_eq!(loop_out_marker(&state, Action::Up, 50), Action::SetLoop(100, 222));
    assert_eq!(loop_in_marker(&state, Action::Left, 100), Action::SetLoop(0, 300));
    assert_eq!(loop_in_marker(&state, Action::Left, 101), Action::SetLoop(100, 300));
    assert_eq!(loop_in_marker(&state, Action::Right, 1), Action::SetLoop(101, 300));
    assert_eq!(loop_in_marker(&state, Action::Up, 1), Action::SetLoop(222, 300));
    assert_eq!(loop_in_marker(&state, Action::Down, 1), Action::Noop);
    assert_eq!(track_button(&state, Action::SelectB), Action::AddTrack(8));
    assert_eq!(track_button(&state, Action::SelectR), Action::Noop);
    let empty = read(&blank(1, "timeline".to_string()));
    assert_eq!(track_button(&empty, Action::SelectB), Action::AddTrack(1));
}
