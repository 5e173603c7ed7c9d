//! Tunables of a batch system, fixed at spawn time.

use vstd::prelude::*;

verus! {

/// How a batch system is sized and paced.
#[derive(Clone, Debug, PartialEq, Eq)]
pub struct Config {
    /// Soft cap on normal FSMs handled per round; `None` means 256.
    pub max_batch_size: Option<usize>,
    /// Normal-priority workers.
    pub pool_size: usize,
    /// How long an FSM may stay in one batch, in milliseconds, before
    /// it counts as hot and may be cycled back through the queue.
    pub reschedule_duration: u64,
    /// Low-priority workers.
    pub low_priority_pool_size: usize,
}

impl Config {
    /// The effective batch cap: the configured one, or 256.
    pub fn max_batch_size(&self) -> (r: usize)
        ensures
            r == (match self.max_batch_size {
                Some(n) => n,
                None => 256usize,
            }),
    {
        match self.max_batch_size {
            Some(n) => n,
            None => 256,
        }
    }
}

impl Default for Config {
    /// Two normal workers, one low-priority worker, a five second hot
    /// threshold, and the default batch cap.
    fn default() -> (r: Self)
        ensures
            r.max_batch_size is None,
            r.pool_size == 2,
            r.reschedule_duration == 5000,
            r.low_priority_pool_size == 1,
    {
        Config {
            max_batch_size: None,
            pool_size: 2,
            reschedule_duration: 5000,
            low_priority_pool_size: 1,
        }
    }
}

} // verus!
