//! Core logic of a small plaintext editor: the tab strip and its dialogs,
//! bursts of activity and their debouncing, undo history, case-insensitive
//! find and each tab's find palette, config and document watching, the
//! session manifest and its restore, opening files, the window settings,
//! the grammar build's plan and the command line, and the editor state
//! that ties the strip, the palettes and the watches together.
//!
//! Points in time are `u64` nanoseconds on the monotonic clock, counted from
//! an origin the caller picks once (a process start, say); only differences
//! between two of them mean anything.

pub mod debounce;
pub mod text;
pub mod find;
pub mod history;
pub mod find_state;
pub mod paths;
pub mod docwatch;
pub mod disk;
pub mod reload;
pub mod tab;
pub mod session;
pub mod debug;
pub mod cli;
pub mod palette;
pub mod workspace;
pub mod restore;
pub mod opening;
pub mod find_palettes;
pub mod editor;
pub mod grammars;
pub mod window;
pub mod editor_state;

pub use debounce::Debounce;
