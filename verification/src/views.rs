//! View state of the terminal client: each view is a position on screen plus
//! a small state that a reducer advances one message at a time.

pub mod arpeggio;
pub mod help;
pub mod home;
pub mod timeline;
pub mod title;

pub use arpeggio::{Arpeggio, ArpeggioState};
pub use help::{Help, HelpState};
pub use home::{Home, HomeState};
pub use timeline::TimelineState;
pub use title::{Title, TitleState};
