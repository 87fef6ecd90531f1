//! A small personal note manager: notes are titled text documents kept in a
//! store keyed by a derived storage key, browsed through a keyboard-driven
//! selection loop and edited by an external program.
//!
//! This crate holds the verified core: storage-key derivation, the note store,
//! the browser state machine, the editor preference rule, and the pure mapping
//! from browser state to a drawable frame. Terminal handling, the file system
//! and the external editor live outside, in the binary around this library.

pub mod browser;
pub mod clock;
pub mod editor;
pub mod note;
pub mod render;
pub mod store;
pub mod text;
