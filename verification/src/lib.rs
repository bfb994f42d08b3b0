//! Counters for the cryptographic primitives that a group key agreement
//! protocol executes.
//!
//! Two protocol families are instrumented. [`keyhive`] counts into one set of
//! registers for the whole process. [`openmls`] wraps a crypto provider, counts
//! each call that goes through it, and gives out handles by which a harness
//! resets and reads the counters of one peer. Both also accumulate the time
//! spent in public-key and in symmetric primitives, which [`clock`] measures and
//! [`timing`] ties to the calls.
//!
//! State that several parties share is passed to every operation explicitly, so
//! each contract says what the operation does to it: which cell changes, by how
//! much, and that no other cell does.

pub mod cell;
pub mod clock;
pub mod keyhive;
pub mod openmls;
pub mod threads;
pub mod timing;
