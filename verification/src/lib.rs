//! Editing core of a terminal text editor: text buffers with grapheme-aware
//! positions and an undo log, and a tree of panes with geometric focus
//! movement.
//!
//! The library does no I/O. Where a file has to be read or written, it
//! takes what was read as a plain value and hands back what is to be
//! written.

pub mod buffer;
pub mod buffer_manager;
pub mod command;
pub mod command_text;
pub mod cursor;
pub mod document;
pub mod editor;
pub mod error;
pub mod grapheme;
pub mod history;
pub mod kaoco;
pub mod layout;
pub mod lines;
pub mod op;
pub mod screen;
pub mod scroll;
pub mod utils;
