//! A reference-counted lifecycle coordinator for long-running execution
//! contexts: background loops that must be started lazily on the first
//! acquire and stopped only when the last acquire has been released.
//!
//! Several independent call sites may each need a context to be up;
//! none knows about the others. A unit counts the outstanding acquire
//! calls and turns the 0→1 transition into "run the setup hook, then
//! launch" and the 1→0 transition into "request the stop, then wait for
//! the confirmation"; every intermediate acquire and release is a no-op
//! beyond counting. Composites and chains give any number of units one
//! acquire/release handle of the identical shape.
//!
//! The coordinator's observable side effects — setup, launch, stop
//! request, confirmed stop, and the count updates themselves — are
//! recorded in an explicit event log, and the contracts pin down
//! exactly which events each call appends. The laws proved over that
//! log are in `laws`; the documented race between a stop request and
//! setup work folded into the run body is modelled and proved in
//! `race`.

pub mod chain;
pub mod events;
pub mod laws;
pub mod race;
pub mod unit;
