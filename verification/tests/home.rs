use palit::action::Action;
use palit::views::home::{reduce, Home};

fn names(n: usize) -> Vec<String> {
    (0..n).map(|i| format!("p{}.xml", i)).collect()
}

#[test]
fn home_is_centred_in_its_window() {
    let h = Home::new(1, 1, 80, 24, names(2));
    assert_eq!(h.x, 1 + 40 - 17);
    assert_eq!(h.y, 1 + 12 - 5);
    assert_eq!(h.state.scroll_x, 0);
    assert_eq!(h.state.motd, "It's Fun!");
    assert!(!h.alpha());
}

#[test]
fn home_pages_wrap_in_both_directions() {
    let h = Home::new(1, 1, 80, 24, names(9));
    let s = reduce(h.state.clone(), Action::Left);
    assert_eq!(s.scroll_x, 2);
    let s = reduce(s, Action::Right);
    assert_eq!(s.scroll_x, 0);
    let s = reduce(s, Action::Right);
    assert_eq!(s.scroll_x, 1);
    let empty = Home::new(1, 1, 80, 24, vec![]);
    assert_eq!(reduce(empty.state.clone(), Action::Right).scroll_x, 0);
    assert_eq!(reduce(empty.state.clone(), Action::Left).scroll_x, 0);
}

#[test]
fn home_buttons_open_the_projects_on_the_page() {
    let mut h = Home::new(1, 1, 80, 24, names(6));
    assert_eq!(h.dispatch(Action::SelectG), Action::OpenProject("p2.xml".to_string()));
    assert_eq!(h.dispatch(Action::Right), Action::Noop);
    assert_eq!(h.dispatch(Action::SelectY), Action::OpenProject("p4.xml".to_string()));
    assert_eq!(h.dispatch(Action::SelectB), Action::OpenProject("p5.xml".to_string()));
    assert_eq!(h.dispatch(Action::SelectG), Action::Noop);
    assert_eq!(h.dispatch(Action::SelectP), Action::Noop);
    assert_eq!(h.dispatch(Action::Back), Action::Exit);
    assert_eq!(h.dispatch(Action::Up), Action::Up);
    assert_eq!(h.dispatch(Action::Down), Action::Down);
}

#[test]
fn home_lists_a_project_that_is_shown() {
    let mut h = Home::new(1, 1, 80, 24, names(1));
    assert_eq!(h.dispatch(Action::ShowProject("new.xml".to_string())), Action::Noop);
    assert_eq!(h.state.projects, vec!["p0.xml".to_string(), "new.xml".to_string()]);
}
