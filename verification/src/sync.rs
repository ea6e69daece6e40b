//! Synchronisation built on compare-and-swap.

pub mod cell;
pub mod fairness;
pub mod mutex;
