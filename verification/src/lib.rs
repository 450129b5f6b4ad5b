//! Logic of an embedded terminal view.
//!
//! A terminal view stands between a window and a terminal session. It keeps the lines that the
//! session shows, the selection, the text that an input method is composing and the output that
//! still has to reach the session, and it decides what each event leads to. Those decisions stand
//! here, as functions that change the state of a [`view::TerminalView`] and return the
//! [`effect::Effect`]s that the embedding program has to carry out, in order.

pub mod boxes;
pub mod cells;
pub mod clipboard;
pub mod effect;
pub mod font;
pub mod ime;
pub mod input;
pub mod keys;
pub mod laws;
pub mod layouts;
pub mod mouse;
pub mod output;
pub mod paint;
pub mod render;
pub mod rows;
pub mod spans;
pub mod style;
pub mod text;
pub mod url;
pub mod view;
pub mod viewport;
