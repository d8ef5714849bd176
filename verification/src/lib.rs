//! Usage telemetry aggregation for a rate-limited assistant service.
//!
//! The crate combines two imperfect data sources — locally written session
//! logs and a periodically obtained remote quota read-out — into one coherent
//! usage snapshot, keeps a consecutive-failure health counter for the refresh
//! loop, and maintains a bounded, time-pruned history of snapshots.

pub mod bucket;
pub mod cache;
pub mod chars;
pub mod events;
pub mod history;
pub mod jsonext;
pub mod jsonmodel;
pub mod modelname;
pub mod poll;
pub mod scan;
pub mod scraper;
pub mod snapshot;
pub mod text;
pub mod timeparse;

use vstd::prelude::*;

verus! {

/// Addition on counters saturates at the top of `u64` instead of wrapping:
/// a count that no longer fits is reported as the maximum, never as a
/// crash or a small number.
pub open spec fn sat64(x: int) -> int {
    if x > u64::MAX {
        u64::MAX as int
    } else {
        x
    }
}

/// Configuration for the refresh loop.
pub struct AppConfig {
    /// Seconds between two refresh cycles.
    pub poll_interval_secs: u64,
    /// Which quota figures the host surface shows.
    pub display_mode: String,
}

impl Default for AppConfig {
    /// A fresh configuration polls once a minute and shows every figure.
    fn default() -> (r: Self)
        ensures
            r.poll_interval_secs == 60,
            r.display_mode@ == "all"@,
    {
        AppConfig { poll_interval_secs: 60, display_mode: String::from_str("all") }
    }
}

} // verus!
