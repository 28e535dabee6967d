//! A multi-threaded executor's scheduling core: the prioritised, grouped
//! selection of work, the biased select that drives every worker, the signals
//! and counters that carry shutdown and quiescence.
pub mod broadcast;
pub mod error;
pub mod executor;
pub mod future;
pub mod queues;
pub mod select;
pub mod signal;
pub mod source;
pub mod worker;
