//! Elimination of global variables from a resolved program.
//!
//! A top-level `let` becomes a nullary function declaration followed by an
//! assignment to that function, and every variable reference becomes a call with
//! no arguments.
pub mod ast;
pub mod remove_globals;
pub mod theorems;

pub use remove_globals::remove_globals;
