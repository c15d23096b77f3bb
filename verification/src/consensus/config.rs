//! Highway-specific configuration.

use crate::timestamp::TimeDiff;
use vstd::prelude::*;

verus! {

/// Highway-specific configuration.
/// NOTE: This is *NOT* protocol configuration that has to be the same on all nodes.
///
/// `P` is a path in the file system, and `M` the configuration of the round success meter.
#[derive(Debug)]
pub struct Config<P, M> {
    /// Path to the folder where unit hash files will be stored.
    pub unit_hashes_folder: P,
    /// The duration for which incoming vertices with missing dependencies are kept in a queue.
    pub pending_vertex_timeout: TimeDiff,
    /// The frequency at which we will ask peers for their latest state.
    pub request_latest_state_timeout: TimeDiff,
    /// If the current era's protocol state has not progressed for this long, shut down.
    pub standstill_timeout: TimeDiff,
    /// Log inactive or faulty validators periodically, with this interval.
    pub log_participation_interval: TimeDiff,
    /// The maximum number of blocks by which execution is allowed to lag behind finalization.
    /// If it is more than that, consensus will pause, and resume once the executor has caught up.
    pub max_execution_delay: u64,
    /// The configuration of the round success meter.
    pub round_success_meter: M,
}

impl<P, M> Config<P, M> {
    /// Returns the default configuration, with the given folder and round success meter.
    pub fn with_defaults(unit_hashes_folder: P, round_success_meter: M) -> (r: Config<P, M>)
        ensures
            r == (Config {
                unit_hashes_folder,
                pending_vertex_timeout: TimeDiff(10_000),
                request_latest_state_timeout: TimeDiff(5_000),
                standstill_timeout: TimeDiff(60_000),
                log_participation_interval: TimeDiff(10_000),
                max_execution_delay: 3,
                round_success_meter,
            }),
    {
        Config {
            unit_hashes_folder,
            pending_vertex_timeout: TimeDiff(10_000),
            request_latest_state_timeout: TimeDiff(5_000),
            standstill_timeout: TimeDiff(60_000),
            log_participation_interval: TimeDiff(10_000),
            max_execution_delay: 3,
            round_success_meter,
        }
    }
}

} // verus!
