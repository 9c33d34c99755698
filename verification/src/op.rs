//! The operators: each wraps a source observable and an observer, producing
//! a new observable; each is a tiny per-subscription state machine.

pub mod filter;
pub mod map;
pub mod skip;
pub mod take;
pub mod take_until;
pub mod tap;
