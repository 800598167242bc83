//! Why a packet was dropped.

use vstd::prelude::*;

verus! {

/// Skb drop event section.
#[derive(Clone, Debug, PartialEq, Eq)]
pub struct SkbDropEvent {
    /// Sub-system who generated the drop reason, if any.
    pub subsys: Option<String>,
    /// Reason why a packet was freed/dropped.
    pub drop_reason: String,
}

} // verus!
