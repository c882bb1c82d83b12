//! The sound engine of a terminal workstation for recording and synthesis,
//! with the parts of its client and keyboard reader that decide anything.
//!
//! The engine keeps a graph of nodes that pass control messages to each
//! other and let audio frames pass over them. `node` holds what each kind
//! of node does, with `synth`, `tape`, `chord`, `arpeggio` and `plugin` for
//! the kinds that keep a state of their own; `graph` holds the nodes and
//! their edges, with the wiring itself kept in a `daggy::Dag` behind
//! `topology`; `patch` addresses the graph from outside, builds it from a
//! project (`document`) and carries out the messages that change it.
//! Messages (`action`) travel as text (`wire`, `text`) over the message bus
//! (`ipc`). `roundtrip` shows what a project keeps of a patch.
//!
//! Values that are fractions in sound are whole numbers here: parameter
//! levels and gains in thousandths, envelope levels in steps. Whoever
//! renders audio from the graph turns them into samples.

pub mod action;
pub mod arpeggio;
pub mod chord;
pub mod components;
pub mod directory;
pub mod document;
pub mod graph;
pub mod ipc;
pub mod keys;
pub mod layers;
pub mod node;
pub mod patch;
pub mod paths;
pub mod plugin;
pub mod roundtrip;
pub mod synth;
pub mod tape;
pub mod text;
pub mod topology;
pub mod views;
pub mod wire;
