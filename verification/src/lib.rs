//! Port selection and SysEx transmission rules for a MIDI output utility.

pub mod batch;
pub mod choice;
pub mod errors;
pub mod flow;
pub mod selector;
pub mod sender;
pub mod session;
pub mod text;
