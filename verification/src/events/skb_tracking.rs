//! The identity a packet keeps along its way through the stack.

use vstd::prelude::*;

verus! {

/// Tracking fingerprint of a socket buffer.
///
/// The pair of the original head pointer and of the time the buffer was first
/// seen identifies a packet, whatever happens to the buffer afterwards.
#[derive(Clone, Copy, Debug, PartialEq, Eq, Hash, Structural)]
pub struct SkbTrackingEvent {
    /// Head of buffer (`skb->head`) when the packet was first seen.
    pub orig_head: u64,
    /// Timestamp of the first time the packet was seen.
    pub timestamp: u64,
    /// Socket buffer (`skb`) address of the current packet.
    pub skb: u64,
}

impl SkbTrackingEvent {
    /// Identity of the packet this buffer carries.
    pub open spec fn spec_tracking_id(self) -> (u64, u64) {
        (self.timestamp, self.orig_head)
    }

    /// Identity of the packet this buffer carries: the time it was first seen
    /// and the buffer head it then had.
    pub fn tracking_id(&self) -> (r: (u64, u64))
        ensures
            r == self.spec_tracking_id(),
    {
        (self.timestamp, self.orig_head)
    }
}

/// Tracking information attached to an event after collection.
#[derive(Clone, Copy, Debug, PartialEq, Eq, Structural)]
pub struct TrackingInfo {
    /// Tracking fingerprint of the packet.
    pub skb: SkbTrackingEvent,
    /// Position of the event among those of the same packet.
    pub idx: u32,
}

} // verus!
