//! The instructions of the program.

pub mod guarantees;
pub mod handle_incoming;
