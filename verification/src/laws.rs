//! What the functions of the library are for, stated without the definitions that their contracts
//! use.

pub mod cells;
pub mod events;
pub mod ime;
pub mod input;
pub mod keys;
pub mod layouts;
pub mod mouse;
pub mod output;
pub mod paint;
pub mod render;
pub mod rows;
pub mod screen;
pub mod spans;
pub mod state;
pub mod style;
pub mod text;
pub mod url;
pub mod view;
pub mod viewport;
