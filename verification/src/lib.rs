//! Verified core of an interactive text/code editor: a line-based text
//! buffer with character-indexed addressing, reversible edit commands,
//! an undo/redo history with size bound and grouping, cursor and
//! selection handling, search and replace, and a viewport cache-window
//! manager.
//!
//! Rendering, windowing, clipboard and file I/O are left to the host
//! shell; this crate holds the state and the rules, with contracts
//! proved by Verus.

pub mod buffer;
pub mod command;
pub mod editor;
pub mod history;
pub mod i18n;
pub mod search;
pub mod window;
