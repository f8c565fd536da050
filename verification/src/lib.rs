//! The engine behind a keyboard-driven command palette: key samples are
//! debounced into edges, a two-level shortcut menu resolves a command, and a
//! list of candidates is narrowed by a query down to one selected entry.

pub mod cursor;
pub mod dispatch;
pub mod filter;
pub mod git;
pub mod keymap;
pub mod labels;
pub mod shaper;
pub mod status;
pub mod text;
pub mod vector;
