use palit::action::Action;
use palit::views::title::{reduce, Title, ASCII_MAX, ASCII_MIN};

#[test]
fn title_starts_at_lowest_letter() {
    let t = Title::new(1, 2, 30, 20);
    assert_eq!(t.state.letter, ASCII_MIN);
    assert_eq!(t.state.title_val, "/usr/local/palit/");
}

#[test]
fn title_letter_wraps_up_and_down() {
    let t = Title::new(1, 2, 30, 20);
    let down = reduce(t.state.clone(), Action::Down);
    assert_eq!(down.letter, ASCII_MAX);
    let up = reduce(down, Action::Up);
    assert_eq!(up.letter, ASCII_MIN);
}

#[test]
fn title_types_and_deletes_letters() {
    let mut t = Title::new(1, 2, 30, 20);
    assert_eq!(t.dispatch(Action::SelectY), Action::Noop);
    assert_eq!(t.state.title_val, "");
    assert_eq!(t.dispatch(Action::Up), Action::Noop);
    assert_eq!(t.dispatch(Action::Right), Action::Noop);
    assert_eq!(t.dispatch(Action::Right), Action::Noop);
    assert_eq!(t.state.title_val, "11");
    t.dispatch(Action::Left);
    assert_eq!(t.state.title_val, "1");
    t.dispatch(Action::SelectG);
    assert_eq!(t.state.title_val, "1.xml");
    assert_eq!(t.dispatch(Action::SelectR), Action::CreateProject("1.xml".to_string()));
    assert_eq!(t.dispatch(Action::Back), Action::Cancel);
    assert!(t.alpha());
}
