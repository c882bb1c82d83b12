//! What the client draws, as plain values: the parts of each component that
//! decide where something goes, free of the terminal.

pub mod bigtext;
pub mod ivories;
pub mod ruler;
