//! What is known of the collection when it starts.

use vstd::prelude::*;
use crate::events::common::TimeSpec;

verus! {

/// Startup event section, found in the first event of a stream.
#[derive(Clone, Debug, PartialEq, Eq)]
pub struct StartupEvent {
    /// Version of the collector that wrote the stream.
    pub retis_version: String,
    /// CLOCK_MONOTONIC offset in regards to local machine time.
    pub clock_monotonic_offset: TimeSpec,
}

} // verus!
