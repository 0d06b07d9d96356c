//! Signal/slot rewriting over a small item tree.
//!
//! A method marked with the `sig` attribute becomes a signal: the structure
//! that owns it gains a public list of callbacks named after the method, and
//! the method's body, after its own statements, calls every callback in that
//! list with the method's arguments.

pub mod ast;
pub mod diag;
pub mod validate;
pub mod synth;
pub mod walk;
pub mod resolve;
