//! Editing core of a terminal text editor: a codepoint-indexed string type,
//! a multi-line buffer with cursor and viewport coordination, a single-line
//! input field, and the save/overwrite state machine.
#![verifier::loop_isolation(false)]

pub mod editor;
pub mod file;
pub mod prompt;
pub mod save;
pub mod unicode;
