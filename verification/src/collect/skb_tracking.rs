//! The collector that tracks socket buffers.

use vstd::prelude::*;
use crate::cli::CliConfig;
use crate::collect::collector::Collector;
use crate::probe::{Hook, HookModel};
use crate::probe_manager::{ProbeManager, ProbeManagerModel};

verus! {

/// The kernel type that the collector reads.
pub const SK_BUFF_TYPE: &'static str = "struct sk_buff *";

/// The collector that tracks socket buffers: its hook runs under every
/// kernel probe.
pub struct SkbTrackingModule {
    /// The program of the tracking hook.
    pub tracking_hook: Vec<u8>,
}

impl SkbTrackingModule {
    /// Registers the tracking hook, to run under every kernel probe.
    pub fn register_hook(&self, probes: &mut ProbeManager)
        ensures
            final(probes)@ == (ProbeManagerModel {
                hooks: old(probes)@.hooks.push(
                    HookModel { data: self.tracking_hook@, maps: Seq::empty() },
                ),
                ..old(probes)@
            }),
    {
        let mut data: Vec<u8> = Vec::new();
        let mut i: usize = 0;
        while i < self.tracking_hook.len()
            invariant
                i <= self.tracking_hook@.len(),
                data@ == self.tracking_hook@.take(i as int),
            decreases self.tracking_hook@.len() - i,
        {
            data.push(self.tracking_hook[i]);
            assert(data@ =~= self.tracking_hook@.take(i + 1));
            i += 1;
        }
        assert(self.tracking_hook@.take(self.tracking_hook@.len() as int) =~= self.tracking_hook@);
        probes.register_kernel_hook(Hook::from_bytes(data));
    }
}

impl Collector for SkbTrackingModule {
    /// The collector reads socket buffers, and nothing else.
    open spec fn declares(&self, types: Option<Vec<&'static str>>) -> bool {
        types matches Some(v) && v@.len() == 1 && v@[0]@ == SK_BUFF_TYPE@
    }

    fn known_kernel_types(&self) -> (r: Option<Vec<&'static str>>) {
        let mut types: Vec<&'static str> = Vec::new();
        types.push(SK_BUFF_TYPE);
        Some(types)
    }

    /// The collector can always run.
    open spec fn answers(&self, cli: CliConfig, r: Result<(), String>) -> bool {
        r is Ok
    }

    fn can_run(&self, cli: &CliConfig) -> (r: Result<(), String>) {
        Ok(())
    }

    /// Initializing succeeds, leaves the collector as it is and adds the
    /// tracking hook to the hooks that run under every kernel probe.
    open spec fn initializes(
        &self,
        after: &Self,
        cli: CliConfig,
        before: ProbeManagerModel,
        probes: ProbeManagerModel,
        r: Result<(), String>,
    ) -> bool {
        &&& r is Ok
        &&& *after == *self
        &&& probes == (ProbeManagerModel {
            hooks: before.hooks.push(HookModel { data: self.tracking_hook@, maps: Seq::empty() }),
            ..before
        })
    }

    fn init(&mut self, cli: &CliConfig, probes: &mut ProbeManager) -> (r: Result<(), String>) {
        self.register_hook(probes);
        Ok(())
    }

    /// There is nothing to start: starting succeeds and leaves the
    /// collector as it is.
    open spec fn starts(&self, after: &Self, r: Result<(), String>) -> bool {
        r is Ok && *after == *self
    }

    fn start(&mut self) -> (r: Result<(), String>) {
        Ok(())
    }

    /// There is nothing to stop: stopping succeeds and leaves the collector
    /// as it is.
    open spec fn stops(&self, after: &Self, r: Result<(), String>) -> bool {
        r is Ok && *after == *self
    }

    fn stop(&mut self) -> (r: Result<(), String>) {
        Ok(())
    }
}

} // verus!
