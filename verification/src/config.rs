//! Limits that every connection handler works under.

use std::time::Duration;
use vstd::prelude::*;

verus! {

/// The duration of a whole number of seconds, as `Duration::from_secs` builds it.
pub uninterp spec fn duration_of_secs(secs: u64) -> Duration;

/// `Duration::from_secs`: the duration of `secs` whole seconds. The same number
/// always gives the same duration.
pub assume_specification[ Duration::from_secs ](secs: u64) -> (d: Duration)
    ensures
        d == duration_of_secs(secs),
;

/// How many encode and decode tasks a connection may run at once, and how long
/// each of them may take.
#[derive(Debug, Clone, Copy)]
pub struct Config {
    pub max_concurrent_streams: usize,
    pub send_recv_timeout: Duration,
}

impl Default for Config {
    /// Three tasks at once, ten seconds for each.
    fn default() -> (config: Self)
        ensures
            config.max_concurrent_streams == 3,
            config.send_recv_timeout == duration_of_secs(10),
    {
        Config { max_concurrent_streams: 3, send_recv_timeout: Duration::from_secs(10) }
    }
}

} // verus!
