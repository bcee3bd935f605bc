//! A two-list task tracker: items move between a todo list and a done list,
//! driven by single keypresses, with the state persisted to a line-oriented
//! text file between runs.
//!
//! This library holds the verified model: the list operations, the
//! persistence codec, the frame renderer and the per-key state transition.
//! The terminal itself and the file system are left to the surrounding
//! program, which hands plain values in and out.

pub mod codec;
pub mod ops;
pub mod state;
pub mod ui;
