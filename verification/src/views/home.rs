//! The home view: the list of projects found on disk, four to a page.

use vstd::prelude::*;
use vstd::string::StringExecFns;
use crate::document::Element;
use crate::action::Action;

verus! {

/// Projects shown on one page.
pub const NUM_PROJECTS: usize = 4;

/// Width of the banner that the view centres on screen.
pub const SIZE_X: u16 = 34;

/// Height of the banner that the view centres on screen.
pub const SIZE_Y: u16 = 10;

#[derive(Clone, Debug)]
pub struct HomeState {
    pub motd: String,
    pub projects: Vec<String>,
    pub scroll_x: usize,
}

pub struct Home {
    pub x: u16,
    pub y: u16,
    pub width: u16,
    pub height: u16,
    pub state: HomeState,
}

/// Number of pages that `n` projects fill; an empty list still has one page.
pub open spec fn scroll_max(n: int) -> int {
    (if n == 0 { 0 } else { n - 1 }) / 4 + 1
}

/// The page shown after `action`: left and right step through the pages and
/// wrap at both ends.
pub open spec fn next_scroll(scroll_x: int, n: int, action: Action) -> int {
    match action {
        Action::Left => if scroll_x == 0 {
            scroll_max(n) - 1
        } else {
            (scroll_x - 1) % scroll_max(n)
        },
        Action::Right => (scroll_x + 1) % scroll_max(n),
        _ => scroll_x,
    }
}

/// The project list after `action`: a project that is shown joins the end.
pub open spec fn next_projects(projects: Seq<String>, action: Action) -> Seq<String> {
    match action {
        Action::ShowProject(title) => projects.push(title),
        _ => projects,
    }
}

impl HomeState {
    /// The page shown exists.
    pub open spec fn wf(&self) -> bool {
        self.scroll_x < scroll_max(self.projects@.len() as int)
    }
}

/// Advances the state by one message.
pub fn reduce(state: HomeState, action: Action) -> (next: HomeState)
    requires
        state.scroll_x < usize::MAX,
    ensures
        next.motd == state.motd,
        next.projects@ == next_projects(state.projects@, action),
        next.scroll_x == next_scroll(state.scroll_x as int, state.projects@.len() as int, action),
        state.wf() ==> next.wf(),
{
    let HomeState { motd, projects, scroll_x } = state;
    let n = projects.len();
    let pages: usize = (if n == 0 { 0 } else { n - 1 }) / 4 + 1;
    let next_scroll: usize = match action {
        Action::Left => if scroll_x == 0 { pages - 1 } else { (scroll_x - 1) % pages },
        Action::Right => (scroll_x + 1) % pages,
        _ => scroll_x,
    };
    let mut next_projects = projects;
    match action {
        Action::ShowProject(title) => {
            next_projects.push(title);
        },
        _ => {},
    }
    HomeState { motd, projects: next_projects, scroll_x: next_scroll }
}

/// Number of projects on the page shown, at most four.
pub open spec fn num_choices(n: int, scroll_x: int) -> int {
    if n - scroll_x * 4 > 4 { 4 } else { n - scroll_x * 4 }
}

/// What the view hands back to the layer stack for `action`: back leaves the
/// program, each coloured button opens the project in its slot of the page
/// shown if there is one, up and down pass through.
pub open spec fn home_reply(action: Action, reply: Action, projects: Seq<String>, scroll_x: int) -> bool {
    let base = scroll_x * 4;
    let choices = num_choices(projects.len() as int, scroll_x);
    match action {
        Action::Back => reply == Action::Exit,
        Action::SelectY => reply == Action::OpenProject(projects[base]),
        Action::SelectB => reply == if choices > 1 {
            Action::OpenProject(projects[base + 1])
        } else {
            Action::Noop
        },
        Action::SelectG => reply == if choices > 2 {
            Action::OpenProject(projects[base + 2])
        } else {
            Action::Noop
        },
        Action::SelectP => reply == if choices > 3 {
            Action::OpenProject(projects[base + 3])
        } else {
            Action::Noop
        },
        Action::Up => reply == Action::Up,
        Action::Down => reply == Action::Down,
        _ => reply == Action::Noop,
    }
}

impl Home {
    /// A home view centred in a window of `width` by `height` at `(x, y)`,
    /// listing `projects`.
    pub fn new(x: u16, y: u16, width: u16, height: u16, projects: Vec<String>) -> (h: Self)
        requires
            SIZE_X / 2 <= x + width / 2 <= u16::MAX,
            SIZE_Y / 2 <= y + height / 2 <= u16::MAX,
        ensures
            h.x == x + width / 2 - SIZE_X / 2,
            h.y == y + height / 2 - SIZE_Y / 2,
            h.width == width,
            h.height == height,
            h.state.motd@ == "It's Fun!"@,
            h.state.projects == projects,
            h.state.scroll_x == 0,
            h.state.wf(),
    {
        let initial_state = HomeState {
            motd: String::from_str("It's Fun!"),
            projects,
            scroll_x: 0,
        };
        Home {
            x: x + (width / 2) - (SIZE_X / 2),
            y: y + (height / 2) - (SIZE_Y / 2),
            width,
            height,
            state: initial_state,
        }
    }

    /// Applies `action` to the state and answers with the message for the
    /// layer stack. The yellow button needs a project on the page.
    pub fn dispatch(&mut self, action: Action) -> (reply: Action)
        requires
            old(self).state.wf(),
            action is SelectY ==> old(self).state.projects@.len() > 0,
        ensures
            final(self).x == old(self).x,
            final(self).y == old(self).y,
            final(self).width == old(self).width,
            final(self).height == old(self).height,
            final(self).state.wf(),
            final(self).state.motd == old(self).state.motd,
            final(self).state.projects@ == next_projects(old(self).state.projects@, action),
            final(self).state.scroll_x == next_scroll(
                old(self).state.scroll_x as int,
                old(self).state.projects@.len() as int,
                action,
            ),
            home_reply(
                action,
                reply,
                final(self).state.projects@,
                final(self).state.scroll_x as int,
            ),
    {
        let projects = self.state.projects.clone();
        assert(projects@ =~= self.state.projects@);
        let state = HomeState {
            motd: self.state.motd.clone(),
            projects,
            scroll_x: self.state.scroll_x,
        };
        self.state = reduce(state, action.clone());
        let num_projects: usize = self.state.projects.len();
        let base: usize = self.state.scroll_x * NUM_PROJECTS;
        let left: usize = num_projects - base;
        let num_choices: usize = if left > 4 { 4 } else { left };
        match action {
            Action::Back => Action::Exit,
            Action::SelectY => Action::OpenProject(self.state.projects[base].clone()),
            Action::SelectB => {
                if num_choices > 1 {
                    Action::OpenProject(self.state.projects[base + 1].clone())
                } else {
                    Action::Noop
                }
            },
            Action::SelectG => {
                if num_choices > 2 {
                    Action::OpenProject(self.state.projects[base + 2].clone())
                } else {
                    Action::Noop
                }
            },
            Action::SelectP => {
                if num_choices > 3 {
                    Action::OpenProject(self.state.projects[base + 3].clone())
                } else {
                    Action::Noop
                }
            },
            Action::Up => Action::Up,
            Action::Down => Action::Down,
            _ => Action::Noop,
        }
    }

    /// The view has nothing to put into a project.
    pub fn save(&self) -> (el: Option<Element>)
        ensures
            el is None,
    {
        None
    }

    /// The home view covers whatever lies below it.
    pub fn alpha(&self) -> (a: bool)
        ensures
            !a,
    {
        false
    }
}

} // verus!
