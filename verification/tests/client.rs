use palit::action::Action;
use palit::components::bigtext::{glyph, layout, Glyph};
use palit::components::ivories::{pressed, row, shade, Shade};
use palit::components::ruler::{cursor, marks, Mark};
use palit::document::blank;
use palit::keys::{client_message, sound_message, Stroke, KEY_A, KEY_EQUAL, KEY_KPPLUS, KEY_M, KEY_P, KEY_Q, KEY_SPACE, KEY_TAB, KEY_UP, KEY_W};
use palit::layers::{add_layer, bottom, file_name, next_id};
use palit::views::arpeggio::Arpeggio;
use palit::views::help::Help;
use std::collections::VecDeque;

#[test]
fn glyphs_lie_where_the_sheet_has_them() {
    assert_eq!(glyph('A'), Glyph { x: 0, y: 1, w: 4 });
    assert_eq!(glyph('o'), Glyph { x: 50, y: 5, w: 3 });
    assert_eq!(glyph('1'), Glyph { x: 4, y: 17, w: 3 });
    assert_eq!(glyph(' '), Glyph { x: 41, y: 17, w: 2 });
    assert_eq!(glyph('!'), Glyph { x: 0, y: 0, w: 0 });
}

#[test]
fn big_text_sets_glyphs_side_by_side() {
    let text: Vec<char> = "So n".chars().collect();
    let cells = layout(10, &text);
    let columns: Vec<u16> = cells.iter().map(|c| c.column).collect();
    assert_eq!(columns, vec![10, 14, 17, 19]);
    assert_eq!(cells[3].glyph, glyph('n'));
}

#[test]
fn ruler_marks_beats_and_bars() {
    assert_eq!(
        marks(7, 4, 2, 0),
        vec![
            Mark { column: 0, strong: false },
            Mark { column: 2, strong: false },
            Mark { column: 4, strong: false },
            Mark { column: 6, strong: true },
        ]
    );
    assert_eq!(marks(3, 2, 1, 1), vec![
        Mark { column: 0, strong: true },
        Mark { column: 1, strong: false },
        Mark { column: 2, strong: true },
    ]);
    assert_eq!(cursor(12, 10, 5), Some(2));
    assert_eq!(cursor(15, 10, 5), None);
    assert_eq!(cursor(9, 10, 5), None);
}

#[test]
fn ivories_list_keys_from_the_top_down() {
    let active = vec![
        Action::NoteOn(61, 1),
        Action::NoteOn(72, 1),
        Action::Up,
        Action::NoteOn(61, 1),
        Action::NoteOn(64, 1),
    ];
    let keys = pressed(&active);
    assert_eq!(keys, vec![72, 64, 61, 61, 0]);
    assert_eq!(shade(&keys, 0), Shade::Lower);
    assert_eq!(shade(&keys, 2), Shade::Upper);
    assert_eq!(shade(&keys, 3), Shade::Full);
    assert_eq!(row(60), 13);
    assert_eq!(row(61), 13);
    assert_eq!(row(72), 19);
}

#[test]
fn key_strokes_become_messages() {
    assert_eq!(client_message(Stroke::Push, KEY_UP), "UP ");
    assert_eq!(client_message(Stroke::Push, KEY_Q), "EXIT ");
    assert_eq!(client_message(Stroke::Push, KEY_TAB), "ROUTE ");
    assert_eq!(client_message(Stroke::Push, KEY_KPPLUS), "OCTAVE:1 ");
    assert_eq!(client_message(Stroke::Push, KEY_A), "NOTE_ON:60:1 ");
    assert_eq!(client_message(Stroke::Release, KEY_P), "NOTE_OFF:75 ");
    assert_eq!(client_message(Stroke::Release, KEY_M), "DESELECT ");
    assert_eq!(client_message(Stroke::Release, KEY_SPACE), "DESELECT ");
    assert_eq!(client_message(Stroke::Release, KEY_UP), "");
    assert_eq!(client_message(Stroke::Other, KEY_A), "");
    assert_eq!(sound_message(Stroke::Push, KEY_W), "NOTE_ON:61:1 ");
    assert_eq!(sound_message(Stroke::Release, KEY_W), "NOTE_OFF:61 ");
    assert_eq!(sound_message(Stroke::Push, KEY_EQUAL), "OCTAVE:1 ");
    assert_eq!(sound_message(Stroke::Push, KEY_UP), "");
    assert_eq!(sound_message(Stroke::Push, KEY_Q), "EXIT ");
}

#[test]
fn drawing_starts_at_the_topmost_opaque_layer() {
    assert_eq!(bottom(&vec![false]), 0);
    assert_eq!(bottom(&vec![false, true, true]), 0);
    assert_eq!(bottom(&vec![false, true, false, true]), 2);
    assert_eq!(bottom(&vec![false, false]), 1);
}

#[test]
fn layers_stack_in_front() {
    let mut layers: VecDeque<(u16, &str)> = VecDeque::new();
    add_layer(&mut layers, "home", 29201);
    add_layer(&mut layers, "help", 29202);
    assert_eq!(layers.back(), Some(&(29202, "help")));
    assert_eq!(layers.len(), 2);
}

#[test]
fn new_modules_get_the_next_id() {
    assert_eq!(next_id(&vec![3, 29201, 7], "hammond"), 29202);
    assert_eq!(next_id(&vec![], "timeline"), 1);
    assert_eq!(next_id(&vec![3, 7], "keyboard"), 104);
}

#[test]
fn file_names_drop_spaces_and_slashes() {
    let title: Vec<char> = "My Song / Take 2".chars().collect();
    assert_eq!(file_name(&title), "mysongtake2");
}

#[test]
fn arpeggio_view_offers_its_anchors() {
    let mut el = blank(5, "arpeggio".to_string());
    let mut a = Arpeggio::new(1, 1, 80, 24, &el);
    assert_eq!(a.state.length, 4);
    el.params = vec![("length".to_string(), 8)];
    assert_eq!(Arpeggio::new(1, 1, 80, 24, &el).state.length, 8);
    assert_eq!(a.dispatch(Action::Route), Action::ShowAnchors);
    assert_eq!(a.dispatch(Action::Up), Action::Up);
    assert_eq!(a.dispatch(Action::Left), Action::Noop);
    let anchors = a.anchors();
    assert_eq!(anchors.len(), 2);
    assert_eq!((anchors[0].index, anchors[0].name.as_str(), anchors[0].input), (0, "Arp Out", false));
    assert_eq!((anchors[1].index, anchors[1].name.as_str(), anchors[1].input), (1, "Arp In", true));
    assert!(!a.alpha());
}

#[test]
fn help_view_marks_the_notes_played() {
    let mut h = Help::new(4, 4, 40, 20);
    assert_eq!(h.state.title, "KEYBOARD");
    assert_eq!(h.dispatch(Action::NoteOn(60, 1)), Action::Noop);
    assert_eq!(h.dispatch(Action::NoteOff(60)), Action::Noop);
    assert_eq!(h.state.active, vec![Action::NoteOn(60, 1)]);
    assert_eq!(h.dispatch(Action::Back), Action::Cancel);
    assert_eq!(h.dispatch(Action::SelectR), Action::Cancel);
    assert!(h.alpha());
}
