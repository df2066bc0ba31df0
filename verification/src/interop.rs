//! The plain form in which an interval is handed to a metrics function that
//! is written in another language.

use crate::intervals::IntervalData;
use vstd::prelude::*;

verus! {

/// The scalar fields of an interval. The counters of the system calls are
/// handed over beside it, as the array that the interval holds.
#[derive(Debug, Clone, Copy, PartialEq, Eq, Structural)]
pub struct IntervalDataFFI {
    pub start_ms: u64,
    pub end_ms: u64,
    pub read_bytes: u64,
    pub write_bytes: u64,
    pub amount_targets: usize,
}

impl IntervalDataFFI {
    /// The scalar fields of `data`.
    pub fn new(data: &IntervalData) -> (plain: Self)
        ensures
            plain == (IntervalDataFFI {
                start_ms: data.start,
                end_ms: data.end,
                read_bytes: data.read_bytes,
                write_bytes: data.write_bytes,
                amount_targets: data.amount_targets,
            }),
    {
        IntervalDataFFI {
            start_ms: data.start_millis(),
            end_ms: data.end_millis(),
            read_bytes: data.read_bytes,
            write_bytes: data.write_bytes,
            amount_targets: data.amount_targets,
        }
    }
}

} // verus!
