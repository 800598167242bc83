//! What the collection was asked to do, as plain values.

use vstd::prelude::*;

verus! {

/// How an event is laid out when printed.
#[derive(Clone, Copy, Debug, PartialEq, Eq, Structural)]
pub enum DisplayFormatFlavor {
    SingleLine,
    MultiLine,
}

/// The arguments of a collection.
#[derive(Clone, Debug, PartialEq, Eq)]
pub struct CollectArgs {
    /// Include stack traces in the kernel events.
    pub stack: bool,
    /// Command to execute; the collection ends when it does.
    pub cmd: Option<String>,
    /// Names of the collectors to enable.
    pub collectors: Vec<String>,
    /// Probes to add, each following the `[TYPE:]TARGET` pattern.
    pub probes: Vec<String>,
    /// File to write the events to.
    pub out: Option<String>,
    /// Write the events to the standard output even if a file is given.
    pub print: bool,
    /// Format used when printing an event.
    pub format: DisplayFormatFlavor,
    /// Print the time as UTC.
    pub utc: bool,
    /// Packet filter applied to all targets.
    pub packet_filter: Option<String>,
    /// Meta filter applied to all targets.
    pub meta_filter: Option<String>,
    /// Add probes on the functions reported in stack traces.
    pub probe_stack: bool,
    /// Allow changes to the system that tracing needs.
    pub allow_system_changes: bool,
}

/// The collection subcommand: its arguments, and whether the list of
/// collectors is the default one.
#[derive(Clone, Debug, PartialEq, Eq)]
pub struct Collect {
    /// The main arguments of the collection.
    pub args: CollectArgs,
    /// Was the collector list set from the default value (aka did the user
    /// not request any specific set of collectors)?
    pub default_collectors_list: bool,
}

impl Collect {
    /// A collection with the given arguments.
    pub fn new(args: CollectArgs, default_collectors_list: bool) -> (r: Collect)
        ensures
            r.args == args,
            r.default_collectors_list == default_collectors_list,
    {
        Collect { args, default_collectors_list }
    }

    /// Returns the main arguments of the collection.
    pub fn args(&self) -> (r: &CollectArgs)
        ensures
            *r == self.args,
    {
        &self.args
    }
}

/// The configuration the collectors are given.
#[derive(Clone, Debug, PartialEq, Eq)]
pub struct CliConfig {
    pub subcommand: Collect,
}

} // verus!
