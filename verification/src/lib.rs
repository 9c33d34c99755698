//! A push-based reactive-stream core: observables deliver a sequence of
//! values to observers, terminating in exactly one of error or completion,
//! and every subscription yields an idempotent disposal token.
//!
//! Delivery is modelled by one relation per observer type: `rel(pre, ev,
//! post)` says what one event does to one observer, `delivers` lifts it to
//! event sequences, and the operator laws are proved over that lifting.

pub mod fac;
pub mod noti;
pub mod observable;
pub mod observer;
pub mod op;
pub mod subject;
pub mod unsub;
