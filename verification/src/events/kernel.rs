//! Which kernel probe generated an event, and from which call stack.

use vstd::prelude::*;

verus! {

/// Kernel section of an event.
#[derive(Clone, Debug, PartialEq, Eq)]
pub struct KernelEvent {
    /// Kernel symbol name associated with the event (i.e. which probe generated
    /// the event).
    pub symbol: String,
    /// Probe type: one of "kprobe", "kretprobe" or "raw_tracepoint".
    pub probe_type: String,
    pub stack_trace: Option<StackTrace>,
}

/// A call stack, innermost frame first, one symbol per frame.
#[derive(Clone, Debug, PartialEq, Eq)]
pub struct StackTrace(pub Vec<String>);

impl StackTrace {
    /// The frames, as they were stored.
    pub fn raw(&self) -> (r: &Vec<String>)
        ensures
            *r == self.0,
    {
        &self.0
    }
}

} // verus!
