//! Which userspace probe generated an event.

use vstd::prelude::*;

verus! {

/// Userspace section of an event.
#[derive(Clone, Debug, PartialEq, Eq)]
pub struct UserEvent {
    /// Probe name, as `provider::name`.
    pub symbol: String,
    /// Process id.
    pub pid: i32,
    /// Thread id.
    pub tid: i32,
    /// Type of probe, such as "usdt".
    pub event_type: String,
}

} // verus!
