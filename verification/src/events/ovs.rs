//! What Open vSwitch did with a packet.

use vstd::prelude::*;

verus! {

/// Types of events that can be generated by the ovs module.
#[derive(Clone, Copy, Debug, PartialEq, Eq, Hash, Structural)]
pub enum OvsEventType {
    /// Upcall tracepoint.
    Upcall,
}

/// OVS upcall data.
#[derive(Clone, Copy, Debug, PartialEq, Eq, Structural)]
pub struct UpcallEvent {
    /// Upcall command: 0 unspecified, 1 miss, 2 action, 3 execute.
    pub cmd: u8,
    /// Upcall port.
    pub port: u32,
}

/// OVS event section.
#[derive(Clone, Copy, Debug, PartialEq, Eq, Structural)]
pub struct OvsEvent {
    /// Data of the upcall tracepoint, if this event comes from it.
    pub upcall: Option<UpcallEvent>,
}

} // verus!
