//! Core of a modal (vim-like) text editor: a line-oriented text buffer with
//! cursor, visual selections, search, and an invertible undo/redo change log;
//! a bounded clipboard ring; and the mode state machine that gates which
//! operations are legal at any instant.
//!
//! Columns and lengths are measured in characters (not bytes), consistently
//! throughout; indentation and word boundaries use ASCII whitespace and ASCII
//! alphanumerics, and case-insensitive search folds ASCII letters only.

pub mod buffer;
pub mod buffer_edit;
pub mod buffer_laws;
pub mod buffer_manager;
pub mod buffer_motion;
pub mod buffer_render;
pub mod buffer_search;
pub mod buffer_text;
pub mod buffer_visual;
pub mod clipboard;
pub mod config;
pub mod editor;
pub mod input;
pub mod mode;
pub mod render;
pub mod viewport;
pub mod util;
