//! Editing engine of a modal, terminal-resident diagram editor.
//!
//! The crate holds the shape and canvas data model, the viewport scrolling
//! rule, the modal state machine that turns key events into canvas
//! mutations, the key-sequence grammar and the keybinding resolver.

pub mod canvas;
pub mod editor;
pub mod keybind;
pub mod keybind_manager;
pub mod mode;
pub mod shape;
pub mod util;
