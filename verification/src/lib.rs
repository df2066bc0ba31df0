//! A controller that decides, from sampled kernel counters, how many workers
//! a pool should run, together with the sequential core of the pools that
//! follow its advice.
//!
//! All quantities are integers: timestamps are milliseconds since the Unix
//! epoch, metrics are unsigned fixed-point numbers whose unit the embedder
//! picks, and the stability factor is given in thousandths.

pub mod tracesets;
pub mod statistics;
pub mod intervals;
pub mod history;
pub mod errors;
pub mod parameters;
pub mod state;
pub mod adapter;
pub mod threadpool;
pub mod benchmark;
pub mod interop;
