//! The core of a small text editor for the terminal: a text with a cursor
//! in it, the operations that keys perform on them, and the session that
//! ends with a save or a cancel.
//!
//! - [`lines`] defines the line structure of a text and proves what the
//!   rest relies on.
//! - [`model`] is the mathematical model of the buffer, with the laws that
//!   its operations obey.
//! - [`state`] is the buffer itself, each operation proved to do what the
//!   model says.
//! - [`keys`] holds the key presses, [`session`] what each of them does to a
//!   session.
//! - [`screen`] says where on the screen the cursor is shown.
//!
//! Offsets, columns and lengths are counted in characters throughout, so
//! every offset from 0 to the length of the text is a place where the text
//! can be split.

pub mod keys;
pub mod lines;
pub mod model;
pub mod screen;
pub mod session;
pub mod state;
mod text;
