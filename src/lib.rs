//! Postfix-call desugaring over token trees.
//!
//! `recv.~name(args)` becomes `name(recv, args)`, and `recv.~name!(args)`
//! becomes `match recv { p => name!(p, args) }`, which evaluates the receiver
//! once. Every other token passes through unchanged, and the rewrite is
//! applied inside every delimited group.

pub mod desugar;
pub mod laws;
pub mod rules;
pub mod scan;
pub mod token;

pub use desugar::tilde;
