//! Core of a single-window to-do list: a verified state machine over the
//! application state, and a pure projection of that state into a declarative
//! view tree that a GUI adapter renders.

pub mod laws;
pub mod seqs;
pub mod view;
pub mod state;
pub mod text;
