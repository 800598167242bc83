//! The interface of a collector, and what is decided from its answers.

use vstd::prelude::*;
use crate::cli::CliConfig;
use crate::probe_manager::{ProbeManager, ProbeManagerModel};
use crate::section_id::SectionId;

verus! {

/// Collectors are identified by the section they fill.
pub type ModuleId = SectionId;

/// Why the collectors could not be set up, started or stopped.
#[derive(Clone, Copy, Debug, PartialEq, Eq, Structural)]
pub enum CollectError {
    /// A collector is already registered under this identifier.
    DuplicateModule(ModuleId),
    /// The section factories were handed out already.
    NoSectionFactory,
    /// The name at this position of the list of collectors is not the name
    /// of a registered collector.
    UnknownCollector(usize),
    /// A collector that was asked for explicitly cannot run.
    CannotRun(ModuleId),
    /// A collector failed to initialize.
    InitFailed(ModuleId),
    /// A map of this kind is already shared with the probes.
    MapAlreadyReused,
    /// The probe at this position of the list of probes is not valid.
    InvalidProbe(usize),
    /// The probes were attached already.
    AlreadyAttached,
    /// A packet filter is already registered.
    FilterAlreadySet,
}

/// Generic trait representing a collector. All collectors are required to
/// implement this, as they are manipulated through this trait.
///
/// Beside each function stands what a collector says of its own answers. A
/// collector that says nothing promises nothing: every answer is then
/// allowed.
pub trait Collector {
    /// Whether `types` is what the collector names as the kernel data types
    /// it reads.
    open spec fn declares(&self, types: Option<Vec<&'static str>>) -> bool {
        true
    }

    /// List of kernel data types the collector can retrieve data from, if
    /// any. This is used for checking that requested probes are not a no-op.
    fn known_kernel_types(&self) -> (r: Option<Vec<&'static str>>)
        ensures
            self.declares(r),
    ;

    /// Whether `r` is what the collector answers when asked if it can run.
    open spec fn answers(&self, cli: CliConfig, r: Result<(), String>) -> bool {
        true
    }

    /// Check if the collector can run (eg. all prerequisites are matched).
    /// This is a separate step from init to allow skipping collectors when
    /// they are not explicitly selected by the user.
    ///
    /// The function should return an explanation when a collector can't run.
    fn can_run(&self, cli: &CliConfig) -> (r: Result<(), String>)
        ensures
            self.answers(*cli, r),
    ;

    /// Whether initializing the collector may leave it as `after`, turn the
    /// probe catalogue `before` into `probes`, and answer `r`.
    open spec fn initializes(
        &self,
        after: &Self,
        cli: CliConfig,
        before: ProbeManagerModel,
        probes: ProbeManagerModel,
        r: Result<(), String>,
    ) -> bool {
        true
    }

    /// Initialize the collector, likely to be used to pass configuration
    /// data such as filters or command line arguments, and to register its
    /// hooks and maps.
    ///
    /// This function should only return an error in case it's fatal, as this
    /// makes the whole collection fail.
    fn init(&mut self, cli: &CliConfig, probes: &mut ProbeManager) -> (r: Result<(), String>)
        ensures
            old(self).initializes(final(self), *cli, old(probes)@, final(probes)@, r),
    ;

    /// Whether starting the collector may leave it as `after` and answer
    /// `r`.
    open spec fn starts(&self, after: &Self, r: Result<(), String>) -> bool {
        true
    }

    /// Start the collector.
    fn start(&mut self) -> (r: Result<(), String>)
        ensures
            old(self).starts(final(self), r),
    ;

    /// Whether stopping the collector may leave it as `after` and answer
    /// `r`.
    open spec fn stops(&self, after: &Self, r: Result<(), String>) -> bool {
        true
    }

    /// Stop the collector.
    fn stop(&mut self) -> (r: Result<(), String>)
        ensures
            old(self).stops(final(self), r),
    ;
}

} // verus!
