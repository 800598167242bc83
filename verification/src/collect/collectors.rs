//! The collectors as a group: their set-up, their start and their stop.

use vstd::prelude::*;
use crate::cli::CliConfig;
use crate::collect::collector::{CollectError, Collector, ModuleId};
use crate::collect::modules::{place_of, Modules};
use crate::collect::probe_spec::{models_of, parse_probe, probes_of_spec};
use crate::factory::{RawEventSectionFactory, SectionFactories};
use crate::inspect::kernel::KernelInspector;
use crate::probe::{
    has_map, HookModel, MapReuseModel, Probe, ProbeKind, ProbeModel, ProbeOption,
};
use crate::probe_manager::{
    find_target, lemma_find_target, lemma_registered_unique, registered, unique_targets,
    AttachItem, ProbeManager, ProbeManagerModel,
};
use crate::reader::EventResult;
use crate::events::event::Event;
use crate::section_id::{section_of_name, SectionId};
use crate::text::{list_contains, lists};

verus! {

/// Name under which the map of stack traces is shared.
pub open spec fn stack_map_name() -> Seq<char> {
    "stack_map"@
}

/// Name under which the ring buffer of events is shared.
pub open spec fn events_map_name() -> Seq<char> {
    "events_map"@
}

/// Name under which the map that tracks packets is shared.
pub open spec fn tracking_map_name() -> Seq<char> {
    "skb_tracking"@
}

/// Main collectors object and API.
pub struct Collectors<C: Collector, F: RawEventSectionFactory> {
    modules: Modules<C, F>,
    probes: ProbeManager,
    cli: CliConfig,
    known_kernel_types: Vec<String>,
    loaded: Vec<ModuleId>,
}

impl<C: Collector, F: RawEventSectionFactory> Collectors<C, F> {
    /// The registry of collectors.
    pub closed spec fn modules(&self) -> Modules<C, F> {
        self.modules
    }

    /// The probe catalogue.
    pub closed spec fn probes(&self) -> ProbeManagerModel {
        self.probes@
    }

    /// The configuration.
    pub closed spec fn cli(&self) -> CliConfig {
        self.cli
    }

    /// The collectors that were initialized, in the order they were.
    pub closed spec fn loaded(&self) -> Seq<ModuleId> {
        self.loaded@
    }

    /// The kernel types that the initialized collectors read.
    pub closed spec fn known_kernel_types(&self) -> Seq<String> {
        self.known_kernel_types@
    }

    /// What the set-up of the collectors works on.
    pub open spec fn setup_state(&self) -> SetupState<C> {
        SetupState {
            collectors: self.modules().collectors(),
            probes: self.probes(),
            types: self.known_kernel_types(),
        }
    }

    /// Groups the collectors of `modules` with a fresh probe catalogue, in
    /// which the map of stack traces is shared if there is one.
    pub fn new(modules: Modules<C, F>, cli: CliConfig, stack_map: Option<i32>) -> (r: Result<
        Collectors<C, F>,
        CollectError,
    >)
        ensures
            r matches Ok(c) && c.modules() == modules && c.cli() == cli && c.loaded()
                == Seq::<ModuleId>::empty() && c.known_kernel_types() == Seq::<String>::empty()
                && c.probes() == (ProbeManagerModel {
                probes: Seq::empty(),
                maps: match stack_map {
                    Some(fd) => seq![MapReuseModel { name: stack_map_name(), fd }],
                    None => Seq::empty(),
                },
                hooks: Seq::empty(),
                stack_trace: false,
                filter: None,
                attached: false,
            }),
    {
        let mut probes = ProbeManager::new();
        if let Some(fd) = stack_map {
            match probes.reuse_map("stack_map", fd) {
                Ok(()) => {
                    assert(probes@.maps =~= seq![MapReuseModel { name: stack_map_name(), fd }]);
                },
                Err(_) => {
                    return Err(CollectError::MapAlreadyReused);
                },
            }
        }
        Ok(
            Collectors {
                modules,
                probes,
                cli,
                known_kernel_types: Vec::new(),
                loaded: Vec::new(),
            },
        )
    }

    /// Shares the ring buffer of events with every program.
    fn share_events_map(&mut self, fd: i32) -> (r: Result<(), CollectError>)
        ensures
            has_map(old(self).probes().maps, events_map_name()) ==> r == Err::<(), CollectError>(
                CollectError::MapAlreadyReused,
            ) && final(self).probes() == old(self).probes(),
            !has_map(old(self).probes().maps, events_map_name()) ==> r is Ok
                && final(self).probes() == (ProbeManagerModel {
                maps: old(self).probes().maps.push(
                    MapReuseModel { name: events_map_name(), fd },
                ),
                ..old(self).probes()
            }),
            final(self).modules() == old(self).modules(),
            final(self).cli() == old(self).cli(),
            final(self).loaded() == old(self).loaded(),
            final(self).known_kernel_types() == old(self).known_kernel_types(),
    {
        match self.probes.reuse_map("events_map", fd) {
            Ok(()) => Ok(()),
            Err(_) => Err(CollectError::MapAlreadyReused),
        }
    }
}

/// What became of a collector that was asked for.
#[derive(Clone, Debug, PartialEq, Eq)]
pub enum InitStatus {
    /// The collector was initialized.
    Loaded,
    /// The collector cannot run, for the reason it gave, and is left out.
    Skipped(String),
}

/// What is made of the answer of a collector that was asked whether it can
/// run.
#[derive(Clone, Copy, Debug, PartialEq, Eq, Structural)]
pub enum Verdict {
    /// The collector is initialized.
    Run,
    /// The collector is left out.
    Skip,
    /// The set-up fails.
    Abort,
}

/// What is made of the answer of a collector that was asked whether it can
/// run: a collector that can is initialized; one that cannot is left out
/// where the list of collectors is the default one, and fails the set-up
/// where the collector was asked for by name.
pub fn can_run_verdict(default_collectors_list: bool, can_run: bool) -> (r: Verdict)
    ensures
        can_run ==> r == Verdict::Run,
        !can_run && default_collectors_list ==> r == Verdict::Skip,
        !can_run && !default_collectors_list ==> r == Verdict::Abort,
{
    if can_run {
        Verdict::Run
    } else if default_collectors_list {
        Verdict::Skip
    } else {
        Verdict::Abort
    }
}

/// The identifiers of the collectors that answered with an error, in the
/// order of the collectors. `results` holds the answer of each collector, at
/// the position of its identifier in `ids`.
pub open spec fn failed_of(ids: Seq<ModuleId>, results: Seq<Result<(), String>>) -> Seq<ModuleId>
    decreases results.len(),
{
    if results.len() == 0 {
        Seq::empty()
    } else if results.last() is Err {
        failed_of(ids, results.drop_last()).push(ids[results.len() - 1])
    } else {
        failed_of(ids, results.drop_last())
    }
}

/// Whether starting each collector of `before` may leave the collectors as
/// `after`, with the answers `results`.
pub open spec fn all_started<C: Collector>(
    before: Seq<C>,
    after: Seq<C>,
    results: Seq<Result<(), String>>,
) -> bool {
    &&& after.len() == before.len()
    &&& results.len() == before.len()
    &&& forall|i: int|
        0 <= i < before.len() ==> (#[trigger] before[i]).starts(&after[i], results[i])
}

/// Whether stopping each collector of `before` may leave the collectors as
/// `after`, with the answers `results`.
pub open spec fn all_stopped<C: Collector>(
    before: Seq<C>,
    after: Seq<C>,
    results: Seq<Result<(), String>>,
) -> bool {
    &&& after.len() == before.len()
    &&& results.len() == before.len()
    &&& forall|i: int|
        0 <= i < before.len() ==> (#[trigger] before[i]).stops(&after[i], results[i])
}

/// What the set-up of the collectors works on: the collectors, the probe
/// catalogue and the kernel types known so far.
pub ghost struct SetupState<C> {
    pub collectors: Seq<C>,
    pub probes: ProbeManagerModel,
    pub types: Seq<String>,
}

/// One step of the set-up: what became of the collector asked for, the
/// kernel types it named if it was initialized, and what the step left.
pub ghost struct SetupStep<C> {
    pub status: InitStatus,
    pub declared: Option<Vec<&'static str>>,
    pub after: SetupState<C>,
}

/// The known kernel types `after` are those of `before` and those that were
/// `declared`.
pub open spec fn learned(
    before: Seq<String>,
    declared: Option<Vec<&'static str>>,
    after: Seq<String>,
) -> bool {
    match declared {
        None => after == before,
        Some(types) => forall|name: Seq<char>| #[trigger]
            lists(after, name) <==> lists(before, name) || among(
                types@,
                types@.len() as int,
                name,
            ),
    }
}

/// What the set-up works on before step `i`: what the step before left, or
/// `start` for the first step.
pub open spec fn state_before<C>(start: SetupState<C>, trace: Seq<SetupStep<C>>, i: int)
    -> SetupState<C> {
    if i <= 0 {
        start
    } else {
        trace[i - 1].after
    }
}

/// Whether `step` is what asking for the collector `name` may give, from
/// `before`.
///
/// The name is that of a registered collector. The collector is asked
/// whether it can run. If it answers that it cannot, for a reason, it is
/// skipped with that reason and nothing changes; this is allowed with the
/// default list of collectors only. If it can, it is initialized, on the
/// probe catalogue; then it names its kernel types, which are learned.
pub open spec fn step_ok<C: Collector>(
    cli: CliConfig,
    ids: Seq<ModuleId>,
    name: Seq<char>,
    before: SetupState<C>,
    step: SetupStep<C>,
) -> bool {
    &&& names_module(ids, name)
    &&& ({
        let at = place_of(ids, section_of_name(name)->Some_0);
        let collector = before.collectors[at];
        match step.status {
            InitStatus::Skipped(why) => cli.subcommand.default_collectors_list
                && collector.answers(cli, Err(why)) && step.after == before,
            InitStatus::Loaded => {
                &&& collector.answers(cli, Ok(()))
                &&& collector.initializes(
                    &step.after.collectors[at],
                    cli,
                    before.probes,
                    step.after.probes,
                    Ok(()),
                )
                &&& step.after.collectors == before.collectors.update(
                    at,
                    step.after.collectors[at],
                )
                &&& step.after.collectors[at].declares(step.declared)
                &&& learned(before.types, step.declared, step.after.types)
            },
        }
    })
}

/// Whether `trace` is what asking for the first collectors of the list, one
/// after the other, may give from `start`.
pub open spec fn steps_ok<C: Collector>(
    cli: CliConfig,
    ids: Seq<ModuleId>,
    start: SetupState<C>,
    trace: Seq<SetupStep<C>>,
) -> bool {
    &&& trace.len() <= cli.subcommand.args.collectors@.len()
    &&& forall|i: int|
        0 <= i < trace.len() ==> step_ok(
            cli,
            ids,
            cli.subcommand.args.collectors@[i]@,
            state_before(start, trace, i),
            #[trigger] trace[i],
        )
}

/// What became of the collectors asked for in `trace`, in order.
pub open spec fn statuses<C>(trace: Seq<SetupStep<C>>) -> Seq<InitStatus> {
    Seq::new(trace.len(), |i: int| trace[i].status)
}

/// Whether the steps of `trace` end in `end` with the answer `r`.
///
/// The set-up succeeds when every collector of the list was asked for, and
/// reports what became of each. It fails at the first name that is not that
/// of a registered collector; at the first collector that cannot run, if
/// the list of collectors is not the default one, before it is initialized;
/// and at the first collector that fails to initialize.
pub open spec fn setup_outcome<C: Collector>(
    cli: CliConfig,
    ids: Seq<ModuleId>,
    start: SetupState<C>,
    trace: Seq<SetupStep<C>>,
    end: SetupState<C>,
    r: Result<Vec<InitStatus>, CollectError>,
) -> bool {
    let names = cli.subcommand.args.collectors@;
    let n = trace.len() as int;
    let last = state_before(start, trace, n);
    match r {
        Ok(report) => n == names.len() && end == last && report@ == statuses(trace),
        Err(CollectError::UnknownCollector(i)) => i == n && n < names.len() && !names_module(
            ids,
            names[n]@,
        ) && end == last,
        Err(CollectError::CannotRun(id)) => n < names.len() && names_module(ids, names[n]@)
            && section_of_name(names[n]@) == Some(id)
            && !cli.subcommand.default_collectors_list && end == last && exists|why: String|
            #[trigger] last.collectors[place_of(ids, id)].answers(cli, Err(why)),
        Err(CollectError::InitFailed(id)) => n < names.len() && names_module(ids, names[n]@)
            && section_of_name(names[n]@) == Some(id) && ({
            let at = place_of(ids, id);
            &&& last.collectors[at].answers(cli, Ok(()))
            &&& end.collectors == last.collectors.update(at, end.collectors[at])
            &&& end.types == last.types
            &&& exists|why: String| #[trigger]
                last.collectors[at].initializes(
                    &end.collectors[at],
                    cli,
                    last.probes,
                    end.probes,
                    Err(why),
                )
        }),
        Err(_) => false,
    }
}

/// Whether setting the collectors up from `start` may end in `end` with the
/// answer `r`: there are steps, one for each collector asked for until the
/// set-up ends, that lead there. See [`step_ok`] and [`setup_outcome`].
pub open spec fn collectors_ran<C: Collector>(
    cli: CliConfig,
    ids: Seq<ModuleId>,
    start: SetupState<C>,
    end: SetupState<C>,
    r: Result<Vec<InitStatus>, CollectError>,
) -> bool {
    exists|trace: Seq<SetupStep<C>>| #[trigger]
        steps_ok(cli, ids, start, trace) && setup_outcome(cli, ids, start, trace, end, r)
}

/// The state in which the set-up of the collectors begins: stack traces
/// are asked of every probe first, where the arguments say so.
pub open spec fn stacked<C>(start: SetupState<C>, stack: bool) -> SetupState<C> {
    if stack {
        SetupState { probes: ProbeManagerModel { stack_trace: true, ..start.probes }, ..start }
    } else {
        start
    }
}

/// Whether what follows the set-up of the collectors turns the catalogue
/// `start` into `end` and answers `r`.
///
/// The map that tracks packets is shared with every program, where
/// `tracking` is asked for and there is such a map; this fails if a map has
/// that name already. Then the packet filter is registered, if there is one; this
/// fails if the catalogue holds a filter already. Then the probes that the
/// user asked for are registered, in the order of the probe strings; this
/// fails at the first string that gives no probe, and if there are probes to
/// register while the catalogue is attached. A step that fails changes
/// nothing, and ends the set-up.
pub open spec fn finishes(
    start: ProbeManagerModel,
    tracking: bool,
    tracking_map: Option<i32>,
    filter: Option<Vec<u8>>,
    inspector: KernelInspector,
    specs: Seq<String>,
    end: ProbeManagerModel,
    r: Result<(), CollectError>,
) -> bool {
    let shares = tracking && tracking_map is Some;
    if shares && has_map(start.maps, tracking_map_name()) {
        r == Err::<(), CollectError>(CollectError::MapAlreadyReused) && end == start
    } else {
        let shared = if shares {
            ProbeManagerModel {
                maps: start.maps.push(
                    MapReuseModel { name: tracking_map_name(), fd: tracking_map->Some_0 },
                ),
                ..start
            }
        } else {
            start
        };
        if filter is Some && shared.filter is Some {
            r == Err::<(), CollectError>(CollectError::FilterAlreadySet) && end == shared
        } else {
            let filtered = match filter {
                Some(f) => ProbeManagerModel { filter: Some(f@), ..shared },
                None => shared,
            };
            match user_probes(inspector, specs, specs.len() as int) {
                None => end == filtered && (r matches Err(CollectError::InvalidProbe(i)) && i
                    < specs.len() && probes_of_spec(inspector, specs[i as int]@) is Err
                    && user_probes(inspector, specs, i as int) is Some),
                Some(probes) => if probes.len() > 0 && filtered.attached {
                    r == Err::<(), CollectError>(CollectError::AlreadyAttached) && end
                        == filtered
                } else {
                    r is Ok && end == (ProbeManagerModel {
                        probes: registered_all(filtered.probes, probes),
                        ..filtered
                    })
                },
            }
        }
    }
}

/// Whether the whole set-up may lead from `start` to `end` with the answer
/// `r`.
///
/// The collectors are set up first; see [`collectors_ran`]. If that fails,
/// the set-up ends there with that error. Otherwise the rest follows on the
/// catalogue that the collectors left, see [`finishes`], and the set-up
/// answers with the report of the collectors or with the error of the rest.
pub open spec fn set_up<C: Collector>(
    cli: CliConfig,
    ids: Seq<ModuleId>,
    start: SetupState<C>,
    end: SetupState<C>,
    inspector: KernelInspector,
    filter: Option<Vec<u8>>,
    tracking_map: Option<i32>,
    r: Result<Vec<InitStatus>, CollectError>,
) -> bool {
    exists|mid: SetupState<C>, first: Result<Vec<InitStatus>, CollectError>| #[trigger]
        collectors_ran(cli, ids, stacked(start, cli.subcommand.args.stack), mid, first)
            && match first {
            Err(_) => r == first && end == mid,
            Ok(_) => end.collectors == mid.collectors && end.types == mid.types && finishes(
                mid.probes,
                lists(mid.types, tracked_type()),
                tracking_map,
                filter,
                inspector,
                cli.subcommand.args.probes@,
                end.probes,
                match r {
                    Ok(_) => Ok(()),
                    Err(e) => Err(e),
                },
            ) && (r is Ok ==> r == first),
        }
}

/// The identifiers of the first `n` collectors asked for that were
/// initialized, in the order they were asked for.
pub open spec fn loaded_of(names: Seq<String>, report: Seq<InitStatus>, n: int) -> Seq<ModuleId>
    decreases n,
{
    if n <= 0 {
        Seq::empty()
    } else if report[n - 1] is Loaded {
        loaded_of(names, report, n - 1).push(section_of_name(names[n - 1]@)->Some_0)
    } else {
        loaded_of(names, report, n - 1)
    }
}

/// Whether `name` is the name of a collector of `ids`.
pub open spec fn names_module(ids: Seq<ModuleId>, name: Seq<char>) -> bool {
    section_of_name(name) matches Some(id) && ids.contains(id)
}

/// Whether one of the first `n` strings of `types` holds the characters
/// `name`.
pub open spec fn among(types: Seq<&'static str>, n: int, name: Seq<char>) -> bool {
    exists|k: int| 0 <= k < n && (#[trigger] types[k])@ == name
}

/// The kernel type whose presence among the known ones asks for tracking.
pub open spec fn tracked_type() -> Seq<char> {
    "struct sk_buff *"@
}

/// The catalogue after the probes of `probes` have been registered, one
/// after the other.
pub open spec fn registered_all(catalogue: Seq<ProbeModel>, probes: Seq<ProbeModel>) -> Seq<
    ProbeModel,
>
    decreases probes.len(),
{
    if probes.len() == 0 {
        catalogue
    } else {
        registered(registered_all(catalogue, probes.drop_last()), probes.last())
    }
}

/// Whether `probe` attaches to `target` as `kind` does.
pub open spec fn is_on(probe: ProbeModel, kind: ProbeKind, target: Seq<char>) -> bool {
    probe.kind == kind && probe.target == target
}

/// Whether one of `probes` attaches to `target` as `kind` does.
pub open spec fn some_on(probes: Seq<ProbeModel>, kind: ProbeKind, target: Seq<char>) -> bool {
    exists|k: int| 0 <= k < probes.len() && is_on(#[trigger] probes[k], kind, target)
}

/// The hooks of the probes of `probes` that attach to `target` as `kind`
/// does, in the order of the probes.
pub open spec fn hooks_on(probes: Seq<ProbeModel>, kind: ProbeKind, target: Seq<char>) -> Seq<
    HookModel,
>
    decreases probes.len(),
{
    if probes.len() == 0 {
        Seq::empty()
    } else if is_on(probes.last(), kind, target) {
        hooks_on(probes.drop_last(), kind, target) + probes.last().hooks
    } else {
        hooks_on(probes.drop_last(), kind, target)
    }
}

/// Whether one of the probes of `probes` that attach to `target` as `kind`
/// does asks for stack traces.
pub open spec fn stack_on(probes: Seq<ProbeModel>, kind: ProbeKind, target: Seq<char>) -> bool
    decreases probes.len(),
{
    if probes.len() == 0 {
        false
    } else {
        (is_on(probes.last(), kind, target) && probes.last().stack_trace) || stack_on(
            probes.drop_last(),
            kind,
            target,
        )
    }
}

proof fn lemma_none_on(probes: Seq<ProbeModel>, kind: ProbeKind, target: Seq<char>)
    requires
        !some_on(probes, kind, target),
    ensures
        hooks_on(probes, kind, target) == Seq::<HookModel>::empty(),
        !stack_on(probes, kind, target),
    decreases probes.len(),
{
    if probes.len() > 0 {
        let before = probes.drop_last();
        assert(!is_on(probes[probes.len() - 1], kind, target));
        assert(!some_on(before, kind, target)) by {
            if some_on(before, kind, target) {
                let k = choose|k: int|
                    0 <= k < before.len() && is_on(#[trigger] before[k], kind, target);
                assert(is_on(probes[k], kind, target));
            }
        }
        lemma_none_on(before, kind, target);
    }
}

/// Registrations on one place are merged, whatever is registered between
/// them: once the probes of `wanted` have been registered, one after the
/// other, in a catalogue that holds each place once, the catalogue holds
/// each place once. It holds a probe on a place if it held one or if one was
/// registered there. The hooks of that probe are those it had in the
/// catalogue, if any, followed by those of the probes registered on that
/// place, in the order they were registered; and it asks for stack traces if
/// it did or if one of them does.
pub proof fn lemma_registrations_merge(
    catalogue: Seq<ProbeModel>,
    wanted: Seq<ProbeModel>,
    kind: ProbeKind,
    target: Seq<char>,
)
    requires
        unique_targets(catalogue),
    ensures
        ({
            let after = registered_all(catalogue, wanted);
            let i = find_target(after, kind, target);
            let had = find_target(catalogue, kind, target);
            &&& unique_targets(after)
            &&& 0 <= i <= after.len()
            &&& i < after.len() <==> had < catalogue.len() || some_on(wanted, kind, target)
            &&& i < after.len() ==> {
                &&& is_on(after[i], kind, target)
                &&& after[i].hooks == (if had < catalogue.len() {
                    catalogue[had].hooks
                } else {
                    Seq::empty()
                }) + hooks_on(wanted, kind, target)
                &&& after[i].stack_trace == ((had < catalogue.len() && catalogue[had].stack_trace)
                    || stack_on(wanted, kind, target))
            }
            &&& forall|j: int|
                0 <= j < after.len() && is_on(#[trigger] after[j], kind, target) ==> j == i
        }),
    decreases wanted.len(),
{
    let after = registered_all(catalogue, wanted);
    let had = find_target(catalogue, kind, target);
    lemma_find_target(catalogue, kind, target);
    if wanted.len() == 0 {
        assert(!some_on(wanted, kind, target));
        assert(catalogue[had].hooks + Seq::<HookModel>::empty() =~= catalogue[had].hooks);
    } else {
        let before = wanted.drop_last();
        let probe = wanted.last();
        let prev = registered_all(catalogue, before);
        lemma_registrations_merge(catalogue, before, kind, target);
        lemma_registered_unique(prev, probe);
        lemma_find_target(prev, kind, target);
        lemma_find_target(prev, probe.kind, probe.target);
        lemma_find_target(after, kind, target);
        let at = find_target(prev, kind, target);
        let place = find_target(prev, probe.kind, probe.target);
        let i = find_target(after, kind, target);
        let base = if had < catalogue.len() {
            catalogue[had].hooks
        } else {
            Seq::empty()
        };
        assert(some_on(wanted, kind, target) <==> some_on(before, kind, target) || is_on(
            probe,
            kind,
            target,
        )) by {
            if some_on(before, kind, target) {
                let k = choose|k: int|
                    0 <= k < before.len() && is_on(#[trigger] before[k], kind, target);
                assert(is_on(wanted[k], kind, target));
            }
            if is_on(probe, kind, target) {
                assert(is_on(wanted[wanted.len() - 1], kind, target));
            }
            if some_on(wanted, kind, target) {
                let k = choose|k: int|
                    0 <= k < wanted.len() && is_on(#[trigger] wanted[k], kind, target);
                if k < before.len() {
                    assert(is_on(before[k], kind, target));
                }
            }
        }
        assert forall|j: int| 0 <= j < prev.len() implies is_on(#[trigger] after[j], kind, target)
            == is_on(prev[j], kind, target) by {}
        if is_on(probe, kind, target) {
            assert(place == at);
            if at < prev.len() {
                assert(is_on(after[at], kind, target));
                assert(i == at) by {
                    if i < at {
                        assert(is_on(prev[i], kind, target));
                    }
                }
                assert(after[i].hooks =~= base + hooks_on(wanted, kind, target));
            } else {
                assert(after[prev.len() as int] == probe);
                assert(i == prev.len()) by {
                    if i < prev.len() {
                        assert(is_on(prev[i], kind, target));
                    }
                }
                lemma_none_on(before, kind, target);
                assert(after[i].hooks =~= base + hooks_on(wanted, kind, target));
            }
        } else {
            if place == prev.len() {
                assert(after[prev.len() as int] == probe);
            }
            if at < prev.len() {
                assert(place != at);
                assert(after[at] == prev[at]);
                assert(i == at) by {
                    if i < at {
                        assert(is_on(prev[i], kind, target));
                    }
                }
            } else {
                assert(i == after.len()) by {
                    if i < after.len() {
                        if i < prev.len() {
                            assert(is_on(prev[i], kind, target));
                        }
                    }
                }
            }
        }
    }
    let i = find_target(after, kind, target);
    lemma_find_target(after, kind, target);
    assert forall|j: int| 0 <= j < after.len() && is_on(
        #[trigger] after[j],
        kind,
        target,
    ) implies j == i by {
        if j < i {
        } else if j > i {
            assert(after[i].kind == after[j].kind && after[i].target == after[j].target);
        }
    }
}

/// The probes that the first `n` probe strings give, string after string,
/// if each of them gives some.
pub open spec fn user_probes(inspector: KernelInspector, specs: Seq<String>, n: int) -> Option<
    Seq<ProbeModel>,
>
    decreases n,
{
    if n <= 0 {
        Some(Seq::empty())
    } else {
        match (user_probes(inspector, specs, n - 1), probes_of_spec(inspector, specs[n - 1]@)) {
            (Some(before), Ok(probes)) => Some(before + probes),
            _ => None,
        }
    }
}

/// What the main loop does with what the source of events gave.
pub enum ProcessStep {
    /// The event goes to every processor, and the loop goes on.
    Process(Event),
    /// The event goes to every processor, and the loop finishes.
    Last(Event),
    /// There is nothing to do but to ask again.
    Wait,
    /// The processors are flushed and the collectors stopped.
    Finish,
}

/// What the main loop does with what the source of events gave.
///
/// An event that was received is processed, whether the collection still
/// runs or not. The loop goes on while the collection runs: a timeout is
/// waited out. Once the collection is over, or the source has ended, the
/// loop finishes.
pub fn process_step(running: bool, result: EventResult) -> (r: ProcessStep)
    ensures
        match result {
            EventResult::Event(e) => if running {
                r matches ProcessStep::Process(x) && x == e
            } else {
                r matches ProcessStep::Last(x) && x == e
            },
            EventResult::Timeout => if running {
                r is Wait
            } else {
                r is Finish
            },
            EventResult::Eof => r is Finish,
        },
{
    match result {
        EventResult::Event(e) => if running {
            ProcessStep::Process(e)
        } else {
            ProcessStep::Last(e)
        },
        EventResult::Timeout => if running {
            ProcessStep::Wait
        } else {
            ProcessStep::Finish
        },
        EventResult::Eof => ProcessStep::Finish,
    }
}

/// What starting the collection leaves to do: the section factories go to
/// the reader of events, then the items are attached, all at once.
pub struct StartPlan<F: RawEventSectionFactory> {
    pub section_factories: SectionFactories<F>,
    pub items: Vec<AttachItem>,
}

impl<C: Collector, F: RawEventSectionFactory> Collectors<C, F> {
    /// Adds `types` to the known kernel types, each once.
    fn learn_kernel_types(&mut self, types: Vec<&'static str>)
        ensures
            final(self).modules() == old(self).modules(),
            final(self).probes() == old(self).probes(),
            final(self).cli() == old(self).cli(),
            final(self).loaded() == old(self).loaded(),
            forall|name: Seq<char>|
                #[trigger] lists(final(self).known_kernel_types(), name) <==> lists(
                    old(self).known_kernel_types(),
                    name,
                ) || among(types@, types@.len() as int, name),
    {
        let mut i: usize = 0;
        while i < types.len()
            invariant
                i <= types@.len(),
                self.modules() == old(self).modules(),
                self.probes() == old(self).probes(),
                self.cli() == old(self).cli(),
                self.loaded() == old(self).loaded(),
                forall|name: Seq<char>|
                    #[trigger] lists(self.known_kernel_types(), name) <==> lists(
                        old(self).known_kernel_types(),
                        name,
                    ) || among(types@, i as int, name),
            decreases types@.len() - i,
        {
            let ghost before = self.known_kernel_types();
            assert(before == self.known_kernel_types@);
            let fresh = !list_contains(&self.known_kernel_types, types[i]);
            if fresh {
                let owned = types[i].to_owned();
                self.known_kernel_types.push(owned);
            }
            proof {
                let after = self.known_kernel_types();
                assert(after == self.known_kernel_types@);
                assert forall|name: Seq<char>| #[trigger]
                    lists(after, name) <==> lists(old(self).known_kernel_types(), name) || among(
                        types@,
                        i + 1,
                        name,
                    ) by {
                    assert(lists(before, name) <==> lists(old(self).known_kernel_types(), name)
                        || among(types@, i as int, name));
                    if lists(after, name) && !lists(before, name) {
                        let k = choose|k: int|
                            0 <= k < after.len() && (#[trigger] after[k])@ == name;
                        if k < before.len() {
                            assert(before[k]@ == name);
                        }
                        assert(types@[i as int]@ == name);
                    }
                    if lists(before, name) {
                        let k = choose|k: int|
                            0 <= k < before.len() && (#[trigger] before[k])@ == name;
                        assert(after[k]@ == name);
                    }
                    if among(types@, i as int, name) {
                        let k = choose|k: int|
                            0 <= k < i && (#[trigger] types@[k])@ == name;
                        assert(types@[k]@ == name);
                    }
                    if among(types@, i + 1, name) && !among(types@, i as int, name) {
                        let k = choose|k: int|
                            0 <= k < i + 1 && (#[trigger] types@[k])@ == name;
                        assert(k == i);
                        if fresh {
                            assert(after[before.len() as int]@ == name);
                        }
                    }
                }
            }
            i += 1;
        }
    }

    /// Initializes the collectors that were asked for, in the order they were
    /// asked for.
    ///
    /// Each name has to be that of a registered collector. A collector that
    /// says it cannot run is left out where the list of collectors is the
    /// default one, and fails the set-up otherwise. A collector that fails
    /// to initialize fails the set-up. The report says, for each name, what
    /// became of the collector. See [`collectors_ran`] for what is asked of
    /// each collector and what is made of its answers.
    pub fn init_collectors(&mut self) -> (r: Result<Vec<InitStatus>, CollectError>)
        ensures
            final(self).modules().ids() == old(self).modules().ids(),
            final(self).modules().factories() == old(self).modules().factories(),
            final(self).cli() == old(self).cli(),
            collectors_ran(
                old(self).cli(),
                old(self).modules().ids(),
                old(self).setup_state(),
                final(self).setup_state(),
                r,
            ),
            unique_targets(final(self).probes().probes),
            ({
                let names = old(self).cli().subcommand.args.collectors@;
                let ids = old(self).modules().ids();
                let auto = old(self).cli().subcommand.default_collectors_list;
                match r {
                    Ok(report) => {
                        &&& report@.len() == names.len()
                        &&& forall|i: int|
                            0 <= i < names.len() ==> names_module(ids, (#[trigger] names[i])@)
                        &&& !auto ==> forall|i: int|
                            0 <= i < report@.len() ==> (#[trigger] report@[i]) is Loaded
                        &&& final(self).loaded() == old(self).loaded() + loaded_of(
                            names,
                            report@,
                            names.len() as int,
                        )
                    },
                    Err(CollectError::UnknownCollector(i)) => i < names.len() && !names_module(
                        ids,
                        names[i as int]@,
                    ) && forall|j: int| 0 <= j < i ==> names_module(ids, (#[trigger] names[j])@),
                    Err(CollectError::CannotRun(id)) => !auto && ids.contains(id) && exists|
                        i: int,
                    |
                        0 <= i < names.len() && section_of_name((#[trigger] names[i])@) == Some(id),
                    Err(CollectError::InitFailed(id)) => ids.contains(id) && exists|i: int|
                        0 <= i < names.len() && section_of_name((#[trigger] names[i])@) == Some(id),
                    Err(_) => false,
                }
            }),
    {
        let ghost cli = self.cli;
        let ghost names = self.cli.subcommand.args.collectors@;
        let ghost ids = self.modules.ids();
        let ghost start = self.setup_state();
        let ghost trace = Seq::<SetupStep<C>>::empty();
        let auto = self.cli.subcommand.default_collectors_list;
        let n: usize = self.cli.subcommand.args.collectors.len();
        let mut report: Vec<InitStatus> = Vec::new();
        let mut i: usize = 0;
        assert(self.loaded@ =~= old(self).loaded() + loaded_of(names, report@, 0));
        assert(report@ =~= statuses(trace));
        // The catalogue keeps each place once, whatever the collectors do.
        self.probes.probes();
        while i < n
            invariant
                i <= n,
                unique_targets(self.probes@.probes),
                n == names.len(),
                cli == old(self).cli(),
                self.cli == cli,
                names == cli.subcommand.args.collectors@,
                auto == cli.subcommand.default_collectors_list,
                ids == old(self).modules().ids(),
                start == old(self).setup_state(),
                self.modules.ids() == ids,
                self.modules.factories() == old(self).modules().factories(),
                report@.len() == i,
                forall|j: int| 0 <= j < i ==> names_module(ids, (#[trigger] names[j])@),
                !auto ==> forall|j: int| 0 <= j < i ==> (#[trigger] report@[j]) is Loaded,
                self.loaded@ == old(self).loaded() + loaded_of(names, report@, i as int),
                trace.len() == i,
                steps_ok(cli, ids, start, trace),
                self.setup_state() == state_before(start, trace, i as int),
                report@ == statuses(trace),
            decreases n - i,
        {
            let ghost done = report@;
            let ghost had = self.loaded@;
            let ghost cur = self.setup_state();
            let ghost steps = trace;
            let id = match SectionId::from_str(self.cli.subcommand.args.collectors[i].as_str()) {
                Ok(id) => id,
                Err(_) => {
                    proof {
                        assert(setup_outcome(
                            cli,
                            ids,
                            start,
                            trace,
                            self.setup_state(),
                            Err::<Vec<InitStatus>, CollectError>(CollectError::UnknownCollector(i)),
                        ));
                    }
                    return Err(CollectError::UnknownCollector(i));
                },
            };
            let at = match self.modules.index_of(id) {
                Some(at) => at,
                None => {
                    proof {
                        assert(setup_outcome(
                            cli,
                            ids,
                            start,
                            trace,
                            self.setup_state(),
                            Err::<Vec<InitStatus>, CollectError>(CollectError::UnknownCollector(i)),
                        ));
                    }
                    return Err(CollectError::UnknownCollector(i));
                },
            };
            assert(ids.contains(ids[at as int]));
            assert(names_module(ids, names[i as int]@));
            assert(at == place_of(ids, id));
            let can_run = self.modules.collector_at(at).can_run(&self.cli);
            assert(cur.collectors[at as int].answers(cli, can_run));
            let verdict = can_run_verdict(auto, can_run.is_ok());
            match verdict {
                Verdict::Abort => {
                    proof {
                        let why = can_run->Err_0;
                        assert(can_run == Err::<(), String>(why));
                        assert(cur.collectors[place_of(ids, id)].answers(cli, Err(why)));
                        assert(setup_outcome(
                            cli,
                            ids,
                            start,
                            trace,
                            self.setup_state(),
                            Err::<Vec<InitStatus>, CollectError>(CollectError::CannotRun(id)),
                        ));
                    }
                    return Err(CollectError::CannotRun(id));
                },
                Verdict::Skip => {
                    let reason = match can_run {
                        Err(reason) => reason,
                        Ok(()) => String::new(),
                    };
                    report.push(InitStatus::Skipped(reason));
                    proof {
                        assert(report@.drop_last() =~= done);
                        lemma_loaded_prefix(names, done, report@, i as int);
                        trace = steps.push(
                            SetupStep {
                                status: InitStatus::Skipped(reason),
                                declared: None,
                                after: cur,
                            },
                        );
                    }
                },
                Verdict::Run => {
                    assert(can_run is Ok);
                    assert(can_run->Ok_0 == ());
                    assert(can_run == Ok::<(), String>(()));
                    let collector = self.modules.collector_at_mut(at);
                    let res = collector.init(&self.cli, &mut self.probes);
                    self.probes.probes();
                    if res.is_err() {
                        proof {
                                let why = res->Err_0;
                            assert(res == Err::<(), String>(why));
                            let end = self.setup_state();
                            assert(end.collectors == cur.collectors.update(
                                at as int,
                                end.collectors[at as int],
                            ));
                            assert(cur.collectors[at as int].initializes(
                                &end.collectors[at as int],
                                cli,
                                cur.probes,
                                end.probes,
                                Err(why),
                            ));
                            assert(setup_outcome(
                                cli,
                                ids,
                                start,
                                trace,
                                end,
                                Err::<Vec<InitStatus>, CollectError>(CollectError::InitFailed(id)),
                            ));
                        }
                        return Err(CollectError::InitFailed(id));
                    }
                    assert(res is Ok);
                    assert(res->Ok_0 == ());
                    assert(res == Ok::<(), String>(()));
                    let ghost inited = self.setup_state();
                    let types = self.modules.collector_at(at).known_kernel_types();
                    let ghost declared = types;
                    self.loaded.push(id);
                    report.push(InitStatus::Loaded);
                    proof {
                        assert(report@.drop_last() =~= done);
                        lemma_loaded_prefix(names, done, report@, i as int);
                        assert(self.loaded@ =~= had.push(id));
                        assert(self.loaded@ =~= old(self).loaded() + loaded_of(
                            names,
                            report@,
                            i + 1,
                        ));
                    }
                    if let Some(types) = types {
                        self.learn_kernel_types(types);
                    }
                    proof {
                        let after = self.setup_state();
                        assert(after.collectors == inited.collectors);
                        assert(after.probes == inited.probes);
                        assert(learned(cur.types, declared, after.types));
                        trace = steps.push(
                            SetupStep { status: InitStatus::Loaded, declared, after },
                        );
                        assert(step_ok(cli, ids, names[i as int]@, cur, trace[i as int]));
                    }
                },
            }
            proof {
                assert(trace.len() == i + 1);
                assert(trace.drop_last() =~= steps);
                assert(step_ok(cli, ids, names[i as int]@, cur, trace[i as int]));
                assert forall|j: int| 0 <= j < trace.len() implies step_ok(
                    cli,
                    ids,
                    cli.subcommand.args.collectors@[j]@,
                    state_before(start, trace, j),
                    #[trigger] trace[j],
                ) by {
                    if j < i {
                        assert(trace[j] == steps[j]);
                        assert(state_before(start, trace, j) == state_before(start, steps, j));
                    }
                }
                assert(report@ =~= statuses(trace));
            }
            i += 1;
        }
        proof {
            assert(setup_outcome(cli, ids, start, trace, self.setup_state(), Ok(report)));
        }
        Ok(report)
    }

    /// The probes of the catalogue, in the order their places were first
    /// registered. No two of them attach to the same place.
    pub fn registered_probes(&self) -> (r: &Vec<Probe>)
        ensures
            models_of(r@) == self.probes().probes,
            unique_targets(self.probes().probes),
    {
        let r = self.probes.probes();
        assert(models_of(r@) =~= crate::probe_manager::probes_of(r@));
        r
    }

    /// Whether packets have to be tracked: an initialized collector reads
    /// socket buffers.
    pub fn needs_tracking(&self) -> (r: bool)
        ensures
            r == lists(self.known_kernel_types(), tracked_type()),
    {
        list_contains(&self.known_kernel_types, "struct sk_buff *")
    }

    /// Setup user defined input filter: the compiled packet filter, if there
    /// is one, is registered in the probe catalogue.
    pub fn setup_filters(probes: &mut ProbeManager, filter: Option<Vec<u8>>) -> (r: Result<
        (),
        CollectError,
    >)
        ensures
            match filter {
                None => r is Ok && final(probes)@ == old(probes)@,
                Some(f) => if old(probes)@.filter is Some {
                    r == Err::<(), CollectError>(CollectError::FilterAlreadySet) && final(probes)@
                        == old(probes)@
                } else {
                    r is Ok && final(probes)@ == (ProbeManagerModel {
                        filter: Some(f@),
                        ..old(probes)@
                    })
                },
            },
    {
        match filter {
            None => Ok(()),
            Some(f) => match probes.register_filter(f) {
                Ok(()) => Ok(()),
                Err(_) => Err(CollectError::FilterAlreadySet),
            },
        }
    }

    /// Parse a user defined probe (through cli parameters) and extract its
    /// type and target; then resolve the target against the kernel.
    pub fn parse_probe(&self, inspector: &KernelInspector, probe: &str) -> (r: Result<
        Vec<Probe>,
        crate::collect::probe_spec::ProbeSpecError,
    >)
        ensures
            match probes_of_spec(*inspector, probe@) {
                Ok(probes) => r matches Ok(v) && models_of(v@) == probes,
                Err(e) => r matches Err(x) && x == e,
            },
    {
        parse_probe(inspector, probe)
    }

    /// Registers the probes that the user asked for.
    ///
    /// All the probe strings are read first: where one of them is not valid
    /// nothing is registered, and the error gives the position of the first
    /// such string. Otherwise the probes are registered in the order of the
    /// strings. Once the probes were attached nothing is registered.
    pub fn register_user_probes(&mut self, inspector: &KernelInspector) -> (r: Result<
        (),
        CollectError,
    >)
        ensures
            final(self).modules() == old(self).modules(),
            final(self).cli() == old(self).cli(),
            final(self).loaded() == old(self).loaded(),
            final(self).known_kernel_types() == old(self).known_kernel_types(),
            ({
                let specs = old(self).cli().subcommand.args.probes@;
                match r {
                    Err(CollectError::InvalidProbe(i)) => i < specs.len() && probes_of_spec(
                        *inspector,
                        specs[i as int]@,
                    ) is Err && user_probes(*inspector, specs, i as int) is Some
                        && final(self).probes() == old(self).probes(),
                    Err(CollectError::AlreadyAttached) => user_probes(
                        *inspector,
                        specs,
                        specs.len() as int,
                    ) matches Some(probes) && probes.len() > 0 && old(self).probes().attached
                        && final(self).probes() == old(self).probes(),
                    Err(_) => false,
                    Ok(()) => user_probes(*inspector, specs, specs.len() as int) matches Some(
                        probes,
                    ) && (probes.len() > 0 ==> !old(self).probes().attached)
                        && final(self).probes() == (ProbeManagerModel {
                        probes: registered_all(old(self).probes().probes, probes),
                        ..old(self).probes()
                    }),
                }
            }),
    {
        let ghost specs = self.cli.subcommand.args.probes@;
        let n: usize = self.cli.subcommand.args.probes.len();
        let mut all: Vec<Probe> = Vec::new();
        let mut i: usize = 0;
        assert(models_of(all@) =~= Seq::<ProbeModel>::empty());
        while i < n
            invariant
                i <= n,
                n == specs.len(),
                *self == *old(self),
                specs == self.cli.subcommand.args.probes@,
                user_probes(*inspector, specs, i as int) == Some(models_of(all@)),
            decreases n - i,
        {
            let ghost before = all@;
            match parse_probe(inspector, self.cli.subcommand.args.probes[i].as_str()) {
                Ok(mut probes) => {
                    let ghost parsed = probes@;
                    all.append(&mut probes);
                    assert(models_of(all@) =~= models_of(before) + models_of(parsed));
                },
                Err(_) => {
                    return Err(CollectError::InvalidProbe(i));
                },
            }
            i += 1;
        }
        if all.len() > 0 && self.probes.is_attached() {
            return Err(CollectError::AlreadyAttached);
        }
        let ghost wanted = models_of(all@);
        let ghost start = self.probes@;
        let mut k: usize = 0;
        let total: usize = all.len();
        let mut all = all;
        assert(wanted.take(0) =~= Seq::<ProbeModel>::empty());
        while all.len() > 0
            invariant
                k + all@.len() == total,
                total == wanted.len(),
                total > 0 ==> !start.attached,
                models_of(all@) == wanted.skip(k as int),
                self.modules == old(self).modules,
                self.cli == old(self).cli,
                self.loaded == old(self).loaded,
                self.known_kernel_types == old(self).known_kernel_types,
                self.probes@ == (ProbeManagerModel {
                    probes: registered_all(start.probes, wanted.take(k as int)),
                    ..start
                }),
            decreases all@.len(),
        {
            let ghost left = all@;
            let probe = all.remove(0);
            proof {
                assert(models_of(left)[0] == probe@);
                assert(wanted.skip(k as int)[0] == wanted[k as int]);
                assert(all@ =~= left.skip(1));
                assert(models_of(all@) =~= models_of(left).skip(1));
                assert(wanted.skip(k as int).skip(1) =~= wanted.skip(k + 1));
                assert(wanted.take(k + 1).drop_last() =~= wanted.take(k as int));
                assert(wanted.take(k + 1).last() == probe@);
                assert(models_of(all@) =~= wanted.skip(k + 1));
            }
            match self.probes.register_probe(probe) {
                Ok(()) => {},
                Err(_) => {
                    // Not reached: the probes are not attached yet.
                    assert(false);
                },
            }
            k += 1;
        }
        assert(wanted.take(total as int) =~= wanted);
        Ok(())
    }

    /// Initialize all collectors by calling their `init()` function, then
    /// set up tracking and register the packet filter and the probes that
    /// the user asked for.
    ///
    /// Stack traces are asked for first where the arguments say so. Once the
    /// collectors are initialized, the map that tracks packets is shared
    /// with every program if one of them reads socket buffers. The report
    /// says what became of each collector asked for. See [`set_up`] for what
    /// is asked of the collectors, what is made of their answers and what
    /// the probe catalogue holds at the end.
    pub fn init(
        &mut self,
        inspector: &KernelInspector,
        filter: Option<Vec<u8>>,
        tracking_map: Option<i32>,
    ) -> (r: Result<Vec<InitStatus>, CollectError>)
        ensures
            final(self).modules().ids() == old(self).modules().ids(),
            final(self).modules().factories() == old(self).modules().factories(),
            final(self).cli() == old(self).cli(),
            set_up(
                old(self).cli(),
                old(self).modules().ids(),
                old(self).setup_state(),
                final(self).setup_state(),
                *inspector,
                filter,
                tracking_map,
                r,
            ),
            unique_targets(final(self).probes().probes),
            r matches Ok(report) ==> final(self).loaded() == old(self).loaded() + loaded_of(
                old(self).cli().subcommand.args.collectors@,
                report@,
                old(self).cli().subcommand.args.collectors@.len() as int,
            ),
    {
        let ghost cli = self.cli;
        let ghost ids = self.modules.ids();
        let ghost start = self.setup_state();
        let ghost specs = self.cli.subcommand.args.probes@;
        if self.cli.subcommand.args.stack {
            self.probes.set_probe_opt(ProbeOption::StackTrace);
        }
        let ghost begun = self.setup_state();
        assert(begun == stacked(start, cli.subcommand.args.stack));
        let first = self.init_collectors();
        let ghost mid = self.setup_state();
        let ghost ran = first;
        let ghost tracking = lists(mid.types, tracked_type());
        let report = match first {
            Ok(report) => report,
            Err(e) => {
                assert(collectors_ran(
                    cli,
                    ids,
                    stacked(start, cli.subcommand.args.stack),
                    mid,
                    ran,
                ));
                return Err(e);
            },
        };
        if self.needs_tracking() {
            match tracking_map {
                Some(fd) => {
                    match self.probes.reuse_map("skb_tracking", fd) {
                        Ok(()) => {
                            proof {
                                reveal_strlit("skb_tracking");
                            }
                        },
                        Err(_) => {
                            proof {
                                reveal_strlit("skb_tracking");
                                assert(finishes(
                                    mid.probes,
                                    tracking,
                                    tracking_map,
                                    filter,
                                    *inspector,
                                    specs,
                                    self.probes@,
                                    Err::<(), CollectError>(CollectError::MapAlreadyReused),
                                ));
                                assert(collectors_ran(
                                    cli,
                                    ids,
                                    stacked(start, cli.subcommand.args.stack),
                                    mid,
                                    ran,
                                ));
                            }
                            self.probes.probes();
                            return Err(CollectError::MapAlreadyReused);
                        },
                    }
                },
                None => {},
            }
        }
        let ghost shared = self.probes@;
        match Self::setup_filters(&mut self.probes, filter) {
            Ok(()) => {},
            Err(e) => {
                proof {
                    assert(finishes(
                        mid.probes,
                        tracking,
                        tracking_map,
                        filter,
                        *inspector,
                        specs,
                        self.probes@,
                        Err::<(), CollectError>(e),
                    ));
                    assert(collectors_ran(
                        cli,
                        ids,
                        stacked(start, cli.subcommand.args.stack),
                        mid,
                        ran,
                    ));
                }
                self.probes.probes();
                return Err(e);
            },
        }
        let ghost filtered = self.probes@;
        let done = self.register_user_probes(inspector);
        self.probes.probes();
        proof {
            let shares = tracking && tracking_map is Some;
            assert(!(shares && has_map(mid.probes.maps, tracking_map_name())));
            assert(shared == if shares {
                ProbeManagerModel {
                    maps: mid.probes.maps.push(
                        MapReuseModel { name: tracking_map_name(), fd: tracking_map->Some_0 },
                    ),
                    ..mid.probes
                }
            } else {
                mid.probes
            });
            assert(!(filter is Some && shared.filter is Some));
            assert(filtered == match filter {
                Some(f) => ProbeManagerModel { filter: Some(f@), ..shared },
                None => shared,
            });
            if let Err(CollectError::InvalidProbe(at)) = done {
                lemma_user_probes_end(*inspector, specs, at as int, specs.len() as int);
            }
            assert(finishes(
                mid.probes,
                tracking,
                tracking_map,
                filter,
                *inspector,
                specs,
                self.probes@,
                done,
            ));
            assert(collectors_ran(cli, ids, stacked(start, cli.subcommand.args.stack), mid, ran));
        }
        match done {
            Ok(()) => Ok(report),
            Err(e) => Err(e),
        }
    }

    /// Start the event retrieval.
    ///
    /// The section factories are handed out and the probes are given out for
    /// attachment, both once: a second start fails. The collectors are
    /// started once this is done; see [`Collectors::start_collectors`].
    pub fn start(&mut self) -> (r: Result<StartPlan<F>, CollectError>)
        ensures
            final(self).cli() == old(self).cli(),
            final(self).loaded() == old(self).loaded(),
            final(self).known_kernel_types() == old(self).known_kernel_types(),
            final(self).modules().ids() == old(self).modules().ids(),
            final(self).modules().collectors() == old(self).modules().collectors(),
            final(self).modules().factories() is None,
            unique_targets(final(self).probes().probes),
            match old(self).modules().factories() {
                None => r matches Err(CollectError::NoSectionFactory) && final(self).probes()
                    == old(self).probes(),
                Some(factories) => if old(self).probes().attached {
                    r matches Err(CollectError::AlreadyAttached) && final(self).probes() == old(
                        self,
                    ).probes()
                } else {
                    r matches Ok(plan) && plan.section_factories == factories
                        && crate::probe_manager::items_of(plan.items@)
                        == crate::probe_manager::plan_of(old(self).probes())
                        && final(self).probes() == (ProbeManagerModel {
                        attached: true,
                        ..old(self).probes()
                    })
                },
            },
    {
        self.probes.probes();
        let section_factories = match self.modules.take_section_factories() {
            Some(factories) => factories,
            None => {
                return Err(CollectError::NoSectionFactory);
            },
        };
        let items = match self.probes.attach() {
            Ok(items) => items,
            Err(_) => {
                return Err(CollectError::AlreadyAttached);
            },
        };
        Ok(StartPlan { section_factories, items })
    }

    /// Starts all collectors by calling their `start()` function, once the
    /// probes are attached.
    ///
    /// Every collector is asked to start once, in the order of the registry
    /// and whatever the others answer. The result names those that answered
    /// with an error, in that order; it fails nothing.
    pub fn start_collectors(&mut self) -> (r: Vec<ModuleId>)
        ensures
            final(self).cli() == old(self).cli(),
            final(self).loaded() == old(self).loaded(),
            final(self).known_kernel_types() == old(self).known_kernel_types(),
            final(self).probes() == old(self).probes(),
            final(self).modules().ids() == old(self).modules().ids(),
            final(self).modules().factories() == old(self).modules().factories(),
            exists|results: Seq<Result<(), String>>| #[trigger]
                all_started(
                    old(self).modules().collectors(),
                    final(self).modules().collectors(),
                    results,
                ) && results.len() == old(self).modules().ids().len() && r@ == failed_of(
                    old(self).modules().ids(),
                    results,
                ),
            forall|k: int|
                0 <= k < r@.len() ==> old(self).modules().ids().contains(#[trigger] r@[k]),
    {
        let mut failed: Vec<ModuleId> = Vec::new();
        let n: usize = self.modules.len();
        let mut i: usize = 0;
        let ghost ids = self.modules.ids();
        let ghost before = self.modules.collectors();
        let ghost results = Seq::<Result<(), String>>::empty();
        while i < n
            invariant
                i <= n,
                n == ids.len(),
                n == before.len(),
                ids == old(self).modules().ids(),
                before == old(self).modules().collectors(),
                self.cli == old(self).cli,
                self.loaded == old(self).loaded,
                self.known_kernel_types == old(self).known_kernel_types,
                self.probes == old(self).probes,
                self.modules.ids() == ids,
                self.modules.factories() == old(self).modules().factories(),
                self.modules.collectors().len() == n,
                results.len() == i,
                forall|k: int|
                    0 <= k < i ==> (#[trigger] before[k]).starts(
                        &self.modules.collectors()[k],
                        results[k],
                    ),
                forall|k: int| i <= k < n ==> self.modules.collectors()[k] == #[trigger] before[k],
                failed@ == failed_of(ids, results),
                forall|k: int| 0 <= k < failed@.len() ==> ids.contains(#[trigger] failed@[k]),
            decreases n - i,
        {
            let id = self.modules.id_at(i);
            let collector = self.modules.collector_at_mut(i);
            let answer = collector.start();
            proof {
                let earlier = results;
                results = results.push(answer);
                assert(results.drop_last() =~= earlier);
                assert(results.last() == answer);
            }
            if answer.is_err() {
                let ghost named = failed@;
                failed.push(id);
                assert(ids[i as int] == id);
                assert forall|k: int| 0 <= k < failed@.len() implies ids.contains(
                    #[trigger] failed@[k],
                ) by {
                    if k < named.len() {
                        assert(failed@[k] == named[k]);
                    }
                }
            }
            i += 1;
        }
        assert(all_started(before, self.modules.collectors(), results));
        failed
    }

    /// Stop the event retrieval for all collectors in the group by calling
    /// their `stop()` function. All the collectors are in charge to clean-up
    /// their temporary side effects and exit gracefully.
    ///
    /// Every collector is asked to stop once, in the order of the registry
    /// and whatever the others answer. The result names those that answered
    /// with an error, in that order.
    pub fn stop(&mut self) -> (r: Vec<ModuleId>)
        ensures
            final(self).cli() == old(self).cli(),
            final(self).loaded() == old(self).loaded(),
            final(self).known_kernel_types() == old(self).known_kernel_types(),
            final(self).probes() == old(self).probes(),
            final(self).modules().ids() == old(self).modules().ids(),
            final(self).modules().factories() == old(self).modules().factories(),
            exists|results: Seq<Result<(), String>>| #[trigger]
                all_stopped(
                    old(self).modules().collectors(),
                    final(self).modules().collectors(),
                    results,
                ) && results.len() == old(self).modules().ids().len() && r@ == failed_of(
                    old(self).modules().ids(),
                    results,
                ),
            forall|k: int|
                0 <= k < r@.len() ==> old(self).modules().ids().contains(#[trigger] r@[k]),
    {
        let mut failed: Vec<ModuleId> = Vec::new();
        let n: usize = self.modules.len();
        let mut i: usize = 0;
        let ghost ids = self.modules.ids();
        let ghost before = self.modules.collectors();
        let ghost results = Seq::<Result<(), String>>::empty();
        while i < n
            invariant
                i <= n,
                n == ids.len(),
                n == before.len(),
                ids == old(self).modules().ids(),
                before == old(self).modules().collectors(),
                self.cli == old(self).cli,
                self.loaded == old(self).loaded,
                self.known_kernel_types == old(self).known_kernel_types,
                self.probes == old(self).probes,
                self.modules.ids() == ids,
                self.modules.factories() == old(self).modules().factories(),
                self.modules.collectors().len() == n,
                results.len() == i,
                forall|k: int|
                    0 <= k < i ==> (#[trigger] before[k]).stops(
                        &self.modules.collectors()[k],
                        results[k],
                    ),
                forall|k: int| i <= k < n ==> self.modules.collectors()[k] == #[trigger] before[k],
                failed@ == failed_of(ids, results),
                forall|k: int| 0 <= k < failed@.len() ==> ids.contains(#[trigger] failed@[k]),
            decreases n - i,
        {
            let id = self.modules.id_at(i);
            let collector = self.modules.collector_at_mut(i);
            let answer = collector.stop();
            proof {
                let earlier = results;
                results = results.push(answer);
                assert(results.drop_last() =~= earlier);
                assert(results.last() == answer);
            }
            if answer.is_err() {
                let ghost named = failed@;
                failed.push(id);
                assert(ids[i as int] == id);
                assert forall|k: int| 0 <= k < failed@.len() implies ids.contains(
                    #[trigger] failed@[k],
                ) by {
                    if k < named.len() {
                        assert(failed@[k] == named[k]);
                    }
                }
            }
            i += 1;
        }
        assert(all_stopped(before, self.modules.collectors(), results));
        failed
    }
}

/// Once a probe string gives no probe, the probe strings up to any later
/// one give none.
proof fn lemma_user_probes_end(inspector: KernelInspector, specs: Seq<String>, i: int, n: int)
    requires
        0 <= i < n,
        probes_of_spec(inspector, specs[i]@) is Err,
    ensures
        user_probes(inspector, specs, n) is None,
    decreases n - i,
{
    if i + 1 < n {
        lemma_user_probes_end(inspector, specs, i, n - 1);
    }
}

/// The report of the collectors asked for so far says the same of them once
/// one more is reported on.
proof fn lemma_loaded_prefix(
    names: Seq<String>,
    before: Seq<InitStatus>,
    after: Seq<InitStatus>,
    n: int,
)
    requires
        0 <= n <= before.len(),
        before.len() <= after.len(),
        forall|j: int| 0 <= j < before.len() ==> before[j] == after[j],
    ensures
        loaded_of(names, after, n) == loaded_of(names, before, n),
    decreases n,
{
    if n > 0 {
        lemma_loaded_prefix(names, before, after, n - 1);
    }
}

/// Allocate collectors and retrieve a group containing them, used to perform
/// batched operations. This is the primary entry point for manipulating the
/// collectors.
///
/// The probe catalogue of the group shares the map of stack traces, if there
/// is one, and the ring buffer of events.
pub fn get_collectors<C: Collector, F: RawEventSectionFactory>(
    modules: Modules<C, F>,
    cli: CliConfig,
    stack_map: Option<i32>,
    events_map: i32,
) -> (r: Result<Collectors<C, F>, CollectError>)
    ensures
        r matches Ok(c) && c.modules() == modules && c.cli() == cli && c.loaded() == Seq::<
            ModuleId,
        >::empty() && c.known_kernel_types() == Seq::<String>::empty() && c.probes() == (
        ProbeManagerModel {
            probes: Seq::empty(),
            maps: match stack_map {
                Some(fd) => seq![
                    MapReuseModel { name: stack_map_name(), fd },
                    MapReuseModel { name: events_map_name(), fd: events_map },
                ],
                None => seq![MapReuseModel { name: events_map_name(), fd: events_map }],
            },
            hooks: Seq::empty(),
            stack_trace: false,
            filter: None,
            attached: false,
        }),
{
    let mut collectors = match Collectors::new(modules, cli, stack_map) {
        Ok(c) => c,
        Err(e) => {
            return Err(e);
        },
    };
    proof {
        reveal_strlit("stack_map");
        reveal_strlit("events_map");
        let maps = collectors.probes().maps;
        assert(stack_map_name().len() != events_map_name().len());
        assert(!has_map(maps, events_map_name()));
    }
    match collectors.share_events_map(events_map) {
        Ok(()) => {
            proof {
                match stack_map {
                    Some(fd) => {
                        assert(collectors.probes().maps =~= seq![
                            MapReuseModel { name: stack_map_name(), fd },
                            MapReuseModel { name: events_map_name(), fd: events_map },
                        ]);
                    },
                    None => {
                        assert(collectors.probes().maps =~= seq![
                            MapReuseModel { name: events_map_name(), fd: events_map },
                        ]);
                    },
                }
            }
            Ok(collectors)
        },
        Err(e) => Err(e),
    }
}

} // verus!
