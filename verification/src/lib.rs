//! Cooperative concurrency primitives: a growable stack whose length,
//! capacity and lock flag live in one packed word, and a fair ticket mutex.
//!
//! Every operation is a state machine that a scheduler resumes: one
//! resumption makes one compare-and-swap attempt and either completes the
//! operation or hands the pending operation back to be resumed later.

pub mod collections;
pub mod sync;
pub mod task;
