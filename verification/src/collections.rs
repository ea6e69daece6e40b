//! Collections whose bookkeeping is a packed word updated by compare-and-swap.

pub mod interleaving;
pub mod stack;
pub mod state;
