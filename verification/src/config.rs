//! Service configuration records.
//!
//! Every tunable the core reads is an explicit field here; the core never
//! consults ambient state.

use vstd::prelude::*;

verus! {

/// Service-level configuration as loaded at startup.
pub struct Config {
    /// Address the surrounding web layer listens on.
    pub address: String,
    /// Directory the pack files are loaded from.
    pub packs: String,
    /// Database connection string for the storage layer.
    pub database: String,
    /// Minimum vote score (positive minus negative) a message needs to stay
    /// visible to viewers other than its author.
    pub vote_threshold_hide: i32,
    /// Base number of messages a single user may have stored at once.
    pub max_messages: i32,
}

/// Tunables of the spatial visibility sampler.
pub struct SamplerConfig {
    /// Squared distance below which two messages count as nearby
    /// (radius 10 units gives 100).
    pub distance_sq_threshold: i64,
    /// Minutes since an author's last activity after which their messages
    /// are hidden from other viewers.
    pub staleness_minutes: i64,
    /// Minimum vote score a message needs to pass the pre-filter when the
    /// viewer is not its author.
    pub vote_threshold_hide: i32,
    /// Cluster size at or below which a candidate is always included.
    pub sparsity_cutoff: usize,
    /// Cap on the admission probability, as a fraction
    /// `cap_numerator / cap_denominator`.
    pub cap_numerator: u32,
    /// Denominator of the admission cap.
    pub cap_denominator: u32,
}

impl SamplerConfig {
    /// A usable configuration: the cap is a genuine probability, and its
    /// denominator is small enough that the ratio arithmetic in the sampler
    /// stays within machine bounds.
    pub open spec fn wf(self) -> bool {
        &&& 1 <= self.cap_denominator <= 1000
        &&& self.cap_numerator <= self.cap_denominator
    }
}

} // verus!
