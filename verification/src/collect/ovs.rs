//! The collector of Open vSwitch events: whether it can run, which threads
//! of the switch handle upcalls, and the probes it registers.

use vstd::prelude::*;
use crate::cli::CliConfig;
use crate::collect::collector::Collector;
use crate::collect::collectors::registered_all;
use crate::gc::TrackingGC;
use crate::inspect::kernel::InspectError;
use crate::probe::{has_map, Hook, HookModel, MapReuseModel, Probe, ProbeKind, ProbeModel};
use crate::probe_manager::{ProbeManager, ProbeManagerModel};
use crate::text::{has_part, str_contains, str_eq};

verus! {

/// Seconds between two sweeps of the tracking maps of the collector.
pub const OVS_TRACKING_GC_INTERVAL: u64 = 5;

/// Seconds after which entries of the upcall tracking maps are considered
/// outdated and are removed. It's a tradeoff between having consistent data
/// and not having the maps full of old entries.
pub const OVS_TRACKING_OLD_LIMIT: u64 = 60;

/// Why the collector cannot run or could not register its probes.
#[derive(Clone, Copy, Debug, PartialEq, Eq, Structural)]
pub enum OvsError {
    /// The kernel configuration cannot be queried.
    NoConfig,
    /// The kernel module of the switch is not loaded.
    ModuleNotLoaded,
    /// A hook was given the same map twice.
    MapAlreadyReused,
    /// The probes were attached already.
    AlreadyAttached,
}

/// What the collector needs to know of the kernel.
#[derive(Debug, PartialEq, Eq)]
pub struct OvsKernelFacts {
    /// The value of the configuration option of the switch, if the
    /// configuration is known and has the option.
    pub config_option: Result<Option<String>, InspectError>,
    /// Whether the module of the switch is loaded, if known.
    pub module_loaded: Option<bool>,
}

/// Whether the collector can run on a kernel of which this is known.
///
/// The configuration has to be known. Then the collector runs unless the
/// module of the switch is known not to be loaded while the option of the
/// switch is not `=y`.
pub open spec fn ovs_can_run(facts: OvsKernelFacts) -> Result<(), OvsError> {
    match facts.config_option {
        Err(_) => Err(OvsError::NoConfig),
        Ok(option) => if !(option matches Some(v) && v@ == "=y"@) && facts.module_loaded == Some(
            false,
        ) {
            Err(OvsError::ModuleNotLoaded)
        } else {
            Ok(())
        },
    }
}

/// Check if the collector can run. Some potential errors are silenced, to
/// avoid returning an error where an area cannot be inspected.
pub fn can_run(facts: &OvsKernelFacts) -> (r: Result<(), OvsError>)
    ensures
        r == ovs_can_run(*facts),
{
    let option = match &facts.config_option {
        Ok(option) => option,
        Err(_) => {
            return Err(OvsError::NoConfig);
        },
    };
    let built_in = match option {
        Some(v) => str_eq(v.as_str(), "=y"),
        None => false,
    };
    let absent = match facts.module_loaded {
        Some(loaded) => !loaded,
        None => false,
    };
    if !built_in && absent {
        return Err(OvsError::ModuleNotLoaded);
    }
    Ok(())
}

/// A thread of the switch.
#[derive(Clone, Debug, PartialEq, Eq)]
pub struct ThreadInfo {
    pub pid: i32,
    pub comm: String,
}

/// The process ids of the first `n` threads that handle upcalls: those
/// whose name holds `handler`, in the order of the threads.
pub open spec fn handlers_of(threads: Seq<ThreadInfo>, n: int) -> Seq<i32>
    decreases n,
{
    if n <= 0 {
        Seq::empty()
    } else if has_part(threads[n - 1].comm@, "handler"@) {
        handlers_of(threads, n - 1).push(threads[n - 1].pid)
    } else {
        handlers_of(threads, n - 1)
    }
}

/// The process ids of the threads that handle upcalls. The batch of a
/// handler is its position in this list.
pub fn handler_threads(threads: &Vec<ThreadInfo>) -> (r: Vec<i32>)
    ensures
        r@ == handlers_of(threads@, threads@.len() as int),
{
    let mut out: Vec<i32> = Vec::new();
    let mut i: usize = 0;
    while i < threads.len()
        invariant
            i <= threads@.len(),
            out@ == handlers_of(threads@, i as int),
        decreases threads@.len() - i,
    {
        if str_contains(threads[i].comm.as_str(), "handler") {
            out.push(threads[i].pid);
        }
        i += 1;
    }
    out
}

/// The sweeper of the tracking maps of the collector.
pub fn tracking_gc() -> (r: TrackingGC)
    ensures
        r == (TrackingGC { interval: OVS_TRACKING_GC_INTERVAL, limit: OVS_TRACKING_OLD_LIMIT }),
{
    TrackingGC::new().interval(OVS_TRACKING_GC_INTERVAL).limit(OVS_TRACKING_OLD_LIMIT)
}

/// A map to share with a hook.
#[derive(Clone, Copy, Debug)]
pub struct Shared {
    pub name: &'static str,
    pub fd: i32,
}

/// The maps of a hook after the first `n` maps of `maps` have been shared
/// with it, one after the other; nothing if one of them has the name of a
/// map that the hook shares already.
pub open spec fn shared_upto(start: Seq<MapReuseModel>, maps: Seq<Shared>, n: int) -> Option<
    Seq<MapReuseModel>,
>
    decreases n,
{
    if n <= 0 {
        Some(start)
    } else {
        match shared_upto(start, maps, n - 1) {
            Some(before) => if has_map(before, maps[n - 1].name@) {
                None
            } else {
                Some(before.push(MapReuseModel { name: maps[n - 1].name@, fd: maps[n - 1].fd }))
            },
            None => None,
        }
    }
}

/// The probe of kind `kind` on `target` whose only hook runs `program` and
/// shares `maps`, if these maps have different names.
pub open spec fn probe_sharing(
    kind: ProbeKind,
    target: Seq<char>,
    program: Seq<u8>,
    maps: Seq<Shared>,
) -> Option<ProbeModel> {
    match shared_upto(Seq::empty(), maps, maps.len() as int) {
        Some(shared) => Some(
            ProbeModel {
                kind,
                target,
                hooks: seq![HookModel { data: program, maps: shared }],
                stack_trace: false,
            },
        ),
        None => None,
    }
}

/// Builds the probe of kind `kind` on `target` whose only hook runs
/// `program` and shares `maps`.
pub fn build_probe(kind: ProbeKind, target: &str, program: &Vec<u8>, maps: &Vec<Shared>) -> (r:
    Result<Probe, OvsError>)
    ensures
        match probe_sharing(kind, target@, program@, maps@) {
            Some(p) => r matches Ok(x) && x@ == p,
            None => r matches Err(OvsError::MapAlreadyReused),
        },
{
    let mut data: Vec<u8> = Vec::new();
    let mut k: usize = 0;
    while k < program.len()
        invariant
            k <= program@.len(),
            data@ == program@.take(k as int),
        decreases program@.len() - k,
    {
        data.push(program[k]);
        assert(data@ =~= program@.take(k + 1));
        k += 1;
    }
    assert(program@.take(program@.len() as int) =~= program@);
    let mut hook = Hook::from_bytes(data);
    let mut i: usize = 0;
    while i < maps.len()
        invariant
            i <= maps@.len(),
            hook@.data == program@,
            shared_upto(Seq::empty(), maps@, i as int) == Some(hook@.maps),
        decreases maps@.len() - i,
    {
        match hook.reuse_map(maps[i].name, maps[i].fd) {
            Ok(()) => {},
            Err(_) => {
                proof {
                    lemma_shared_none(Seq::empty(), maps@, i + 1, maps@.len() as int);
                }
                return Err(OvsError::MapAlreadyReused);
            },
        }
        i += 1;
    }
    let mut probe = Probe::new(kind, target);
    probe.add_hook(hook);
    assert(probe@.hooks =~= seq![hook@]);
    Ok(probe)
}

proof fn lemma_shared_none(start: Seq<MapReuseModel>, maps: Seq<Shared>, n: int, m: int)
    requires
        0 <= n <= m,
        shared_upto(start, maps, n) is None,
    ensures
        shared_upto(start, maps, m) is None,
    decreases m - n,
{
    if n < m {
        lemma_shared_none(start, maps, n, m - 1);
    }
}

/// The descriptors of the maps of the collector.
#[derive(Clone, Copy, Debug, PartialEq, Eq, Structural)]
pub struct OvsMaps {
    pub inflight_upcalls: i32,
    pub inflight_exec: i32,
    pub upcall_tracking: i32,
    pub flow_exec_tracking: i32,
    pub upcall_batches: i32,
    pub pid_to_batch: i32,
}

/// The programs of the hooks of the collector.
#[derive(Clone, Debug, PartialEq, Eq)]
pub struct OvsHooks {
    pub kernel_upcall_tp: Vec<u8>,
    pub kernel_upcall_ret: Vec<u8>,
    pub kernel_enqueue: Vec<u8>,
    pub kernel_exec_tp: Vec<u8>,
    pub kernel_exec_actions: Vec<u8>,
    pub kernel_exec_actions_ret: Vec<u8>,
    pub user_recv_upcall: Vec<u8>,
    pub user_op_exec: Vec<u8>,
    pub user_op_put: Vec<u8>,
}

/// The collector of Open vSwitch events.
pub struct OvsCollector {
    /// Whether upcalls are tracked through the userspace of the switch.
    pub track: bool,
    /// What is known of the kernel.
    pub facts: OvsKernelFacts,
    /// The maps of the collector.
    pub maps: OvsMaps,
    /// The programs of the collector.
    pub hooks: OvsHooks,
    /// The process of the switch, as the probes name it.
    pub process: String,
}

/// The probe of kind `kind` on `target` whose only hook runs `program` and
/// shares the maps `maps`.
pub open spec fn hook_probe(
    kind: ProbeKind,
    target: Seq<char>,
    program: Seq<u8>,
    maps: Seq<MapReuseModel>,
) -> ProbeModel {
    ProbeModel {
        kind,
        target,
        hooks: seq![HookModel { data: program, maps }],
        stack_trace: false,
    }
}

/// The map `fd`, shared as `name`.
pub open spec fn map_as(name: Seq<char>, fd: i32) -> MapReuseModel {
    MapReuseModel { name, fd }
}

/// The probes of upcalls: on the tracepoint of upcalls and on the return of
/// the function that makes them, both sharing the map of upcalls in flight;
/// and, where upcalls are tracked, on the return of the function that queues
/// them, sharing the tracking map too.
pub open spec fn upcall_probes(c: OvsCollector) -> Seq<ProbeModel> {
    let inflight = map_as("inflight_upcalls"@, c.maps.inflight_upcalls);
    let first = seq![
        hook_probe(
            ProbeKind::RawTracepoint,
            "openvswitch:ovs_dp_upcall"@,
            c.hooks.kernel_upcall_tp@,
            seq![inflight],
        ),
        hook_probe(
            ProbeKind::Kretprobe,
            "ovs_dp_upcall"@,
            c.hooks.kernel_upcall_ret@,
            seq![inflight],
        ),
    ];
    if c.track {
        first.push(
            hook_probe(
                ProbeKind::Kretprobe,
                "queue_userspace_packet"@,
                c.hooks.kernel_enqueue@,
                seq![inflight, map_as("upcall_tracking"@, c.maps.upcall_tracking)],
            ),
        )
    } else {
        first
    }
}

/// The probes of the execution of actions: where upcalls are tracked, on
/// the function that executes actions and on its return, both sharing the
/// map of executions in flight and the tracking map; and always on the
/// tracepoint of actions, sharing the map of executions in flight where
/// upcalls are tracked.
pub open spec fn exec_probes(c: OvsCollector) -> Seq<ProbeModel> {
    let inflight = map_as("inflight_exec"@, c.maps.inflight_exec);
    let tracking = map_as("flow_exec_tracking"@, c.maps.flow_exec_tracking);
    if c.track {
        seq![
            hook_probe(
                ProbeKind::Kprobe,
                "ovs_execute_actions"@,
                c.hooks.kernel_exec_actions@,
                seq![inflight, tracking],
            ),
            hook_probe(
                ProbeKind::Kretprobe,
                "ovs_execute_actions"@,
                c.hooks.kernel_exec_actions_ret@,
                seq![inflight, tracking],
            ),
            hook_probe(
                ProbeKind::RawTracepoint,
                "openvswitch:ovs_do_execute_action"@,
                c.hooks.kernel_exec_tp@,
                seq![inflight],
            ),
        ]
    } else {
        seq![
            hook_probe(
                ProbeKind::RawTracepoint,
                "openvswitch:ovs_do_execute_action"@,
                c.hooks.kernel_exec_tp@,
                Seq::empty(),
            ),
        ]
    }
}

/// The target of the probe `probe` of the process `process`.
pub open spec fn usdt_target(process: Seq<char>, probe: Seq<char>) -> Seq<char> {
    process + ":"@ + probe
}

/// The probes of the userspace of the switch, in the order they are
/// registered: on the operation that puts a flow, on the operation that
/// executes one and on the reception of an upcall. All share the maps of
/// batches; the last two share their tracking map first.
pub open spec fn usdt_probes(c: OvsCollector) -> Seq<ProbeModel> {
    let batches = map_as("upcall_batches"@, c.maps.upcall_batches);
    let pids = map_as("pid_to_batch"@, c.maps.pid_to_batch);
    seq![
        hook_probe(
            ProbeKind::Usdt,
            usdt_target(c.process@, "dpif_netlink_operate__::op_flow_put"@),
            c.hooks.user_op_put@,
            seq![batches, pids],
        ),
        hook_probe(
            ProbeKind::Usdt,
            usdt_target(c.process@, "dpif_netlink_operate__::op_flow_execute"@),
            c.hooks.user_op_exec@,
            seq![map_as("flow_exec_tracking"@, c.maps.flow_exec_tracking), batches, pids],
        ),
        hook_probe(
            ProbeKind::Usdt,
            usdt_target(c.process@, "dpif_recv::recv_upcall"@),
            c.hooks.user_recv_upcall@,
            seq![map_as("upcall_tracking"@, c.maps.upcall_tracking), batches, pids],
        ),
    ]
}

/// What registering `wanted` does to a catalogue: nothing but an error once
/// the probes were attached, and else the probes are registered one after
/// the other.
pub open spec fn registers(
    before: ProbeManagerModel,
    after: ProbeManagerModel,
    r: Result<(), OvsError>,
    wanted: Seq<ProbeModel>,
) -> bool {
    if before.attached {
        r == Err::<(), OvsError>(OvsError::AlreadyAttached) && after == before
    } else {
        r is Ok && after == (ProbeManagerModel {
            probes: registered_all(before.probes, wanted),
            ..before
        })
    }
}

/// Builds the probe of kind `kind` on `target` whose only hook runs
/// `program` and shares one map, or none.
fn probe_one(kind: ProbeKind, target: &str, program: &Vec<u8>, map: Option<Shared>) -> (r: Probe)
    ensures
        r@ == hook_probe(
            kind,
            target@,
            program@,
            match map {
                Some(m) => seq![map_as(m.name@, m.fd)],
                None => Seq::empty(),
            },
        ),
{
    let mut maps: Vec<Shared> = Vec::new();
    if let Some(m) = map {
        maps.push(m);
    }
    proof {
        reveal_with_fuel(shared_upto, 3);
        if let Some(m) = map {
            assert(Seq::<MapReuseModel>::empty().push(map_as(m.name@, m.fd)) =~= seq![
                map_as(m.name@, m.fd),
            ]);
        }
    }
    match build_probe(kind, target, program, &maps) {
        Ok(p) => p,
        Err(_) => {
            // Not reached: the maps have different names.
            assert(false);
            Probe::new(kind, target)
        },
    }
}

/// Builds the probe of kind `kind` on `target` whose only hook runs
/// `program` and shares the maps `maps`, which have different names.
fn probe_many(kind: ProbeKind, target: &str, program: &Vec<u8>, maps: Vec<Shared>) -> (r: Probe)
    requires
        1 <= maps@.len() <= 3,
        forall|i: int, j: int|
            0 <= i < j < maps@.len() ==> (#[trigger] maps@[i]).name@ != (#[trigger] maps@[j]).name@,
    ensures
        r@ == hook_probe(
            kind,
            target@,
            program@,
            maps@.map_values(|m: Shared| map_as(m.name@, m.fd)),
        ),
{
    proof {
        reveal_with_fuel(shared_upto, 4);
        let models = maps@.map_values(|m: Shared| map_as(m.name@, m.fd));
        let s1 = Seq::<MapReuseModel>::empty().push(models[0]);
        assert(shared_upto(Seq::empty(), maps@, 1) == Some(s1));
        if maps@.len() >= 2 {
            assert(!has_map(s1, maps@[1].name@)) by {
                if has_map(s1, maps@[1].name@) {
                    let k = choose|k: int|
                        0 <= k < s1.len() && (#[trigger] s1[k]).name == maps@[1].name@;
                    assert(maps@[0].name@ != maps@[1].name@);
                }
            }
            let s2 = s1.push(models[1]);
            assert(shared_upto(Seq::empty(), maps@, 2) == Some(s2));
            if maps@.len() >= 3 {
                assert(!has_map(s2, maps@[2].name@)) by {
                    if has_map(s2, maps@[2].name@) {
                        let k = choose|k: int|
                            0 <= k < s2.len() && (#[trigger] s2[k]).name == maps@[2].name@;
                        assert(maps@[0].name@ != maps@[2].name@);
                        assert(maps@[1].name@ != maps@[2].name@);
                    }
                }
                assert(s2.push(models[2]) =~= models);
            } else {
                assert(s2 =~= models);
            }
        } else {
            assert(s1 =~= models);
        }
    }
    match build_probe(kind, target, program, &maps) {
        Ok(p) => p,
        Err(_) => {
            // Not reached: the maps have different names.
            assert(false);
            Probe::new(kind, target)
        },
    }
}

/// Registers `wanted`, one after the other.
fn register_all(probes: &mut ProbeManager, wanted: Vec<Probe>) -> (r: Result<(), OvsError>)
    requires
        wanted@.len() > 0,
    ensures
        registers(
            old(probes)@,
            final(probes)@,
            r,
            wanted@.map_values(|p: Probe| p@),
        ),
{
    if probes.is_attached() {
        return Err(OvsError::AlreadyAttached);
    }
    let ghost models = wanted@.map_values(|p: Probe| p@);
    let ghost start = probes@;
    let mut left = wanted;
    let mut k: usize = 0;
    let total: usize = left.len();
    assert(models.take(0) =~= Seq::<ProbeModel>::empty());
    while left.len() > 0
        invariant
            k + left@.len() == total,
            total == models.len(),
            !start.attached,
            left@.map_values(|p: Probe| p@) == models.skip(k as int),
            probes@ == (ProbeManagerModel {
                probes: registered_all(start.probes, models.take(k as int)),
                ..start
            }),
        decreases left@.len(),
    {
        let ghost before = left@;
        let probe = left.remove(0);
        proof {
            assert(before.map_values(|p: Probe| p@)[0] == probe@);
            assert(models.skip(k as int)[0] == models[k as int]);
            assert(left@ =~= before.skip(1));
            assert(left@.map_values(|p: Probe| p@) =~= before.map_values(|p: Probe| p@).skip(1));
            assert(models.skip(k as int).skip(1) =~= models.skip(k + 1));
            assert(models.take(k + 1).drop_last() =~= models.take(k as int));
            assert(models.take(k + 1).last() == probe@);
        }
        match probes.register_probe(probe) {
            Ok(()) => {},
            Err(_) => {
                // Not reached: the probes are not attached yet.
                assert(false);
            },
        }
        k += 1;
    }
    assert(models.take(total as int) =~= models);
    Ok(())
}

impl OvsCollector {
    /// Add upcall hooks; see [`upcall_probes`].
    pub fn add_upcall_hooks(&self, probes: &mut ProbeManager) -> (r: Result<(), OvsError>)
        ensures
            registers(old(probes)@, final(probes)@, r, upcall_probes(*self)),
    {
        let inflight = Shared { name: "inflight_upcalls", fd: self.maps.inflight_upcalls };
        let mut wanted: Vec<Probe> = Vec::new();
        wanted.push(
            probe_one(
                ProbeKind::RawTracepoint,
                "openvswitch:ovs_dp_upcall",
                &self.hooks.kernel_upcall_tp,
                Some(inflight),
            ),
        );
        wanted.push(
            probe_one(
                ProbeKind::Kretprobe,
                "ovs_dp_upcall",
                &self.hooks.kernel_upcall_ret,
                Some(inflight),
            ),
        );
        if self.track {
            let mut maps: Vec<Shared> = Vec::new();
            maps.push(inflight);
            maps.push(Shared { name: "upcall_tracking", fd: self.maps.upcall_tracking });
            proof {
                reveal_strlit("inflight_upcalls");
                reveal_strlit("upcall_tracking");
                assert("inflight_upcalls"@.len() != "upcall_tracking"@.len());
                assert(maps@.map_values(|m: Shared| map_as(m.name@, m.fd)) =~= seq![
                    map_as("inflight_upcalls"@, self.maps.inflight_upcalls),
                    map_as("upcall_tracking"@, self.maps.upcall_tracking),
                ]);
            }
            wanted.push(
                probe_many(
                    ProbeKind::Kretprobe,
                    "queue_userspace_packet",
                    &self.hooks.kernel_enqueue,
                    maps,
                ),
            );
        }
        assert(wanted@.map_values(|p: Probe| p@) =~= upcall_probes(*self));
        register_all(probes, wanted)
    }

    /// Add exec hooks; see [`exec_probes`].
    pub fn add_exec_hooks(&self, probes: &mut ProbeManager) -> (r: Result<(), OvsError>)
        ensures
            registers(old(probes)@, final(probes)@, r, exec_probes(*self)),
    {
        let inflight = Shared { name: "inflight_exec", fd: self.maps.inflight_exec };
        let mut wanted: Vec<Probe> = Vec::new();
        if self.track {
            let tracking = Shared { name: "flow_exec_tracking", fd: self.maps.flow_exec_tracking };
            let mut maps: Vec<Shared> = Vec::new();
            maps.push(inflight);
            maps.push(tracking);
            let mut again: Vec<Shared> = Vec::new();
            again.push(inflight);
            again.push(tracking);
            proof {
                reveal_strlit("inflight_exec");
                reveal_strlit("flow_exec_tracking");
                assert("inflight_exec"@.len() != "flow_exec_tracking"@.len());
                assert(maps@.map_values(|m: Shared| map_as(m.name@, m.fd)) =~= seq![
                    map_as("inflight_exec"@, self.maps.inflight_exec),
                    map_as("flow_exec_tracking"@, self.maps.flow_exec_tracking),
                ]);
                assert(again@ =~= maps@);
            }
            wanted.push(
                probe_many(
                    ProbeKind::Kprobe,
                    "ovs_execute_actions",
                    &self.hooks.kernel_exec_actions,
                    maps,
                ),
            );
            wanted.push(
                probe_many(
                    ProbeKind::Kretprobe,
                    "ovs_execute_actions",
                    &self.hooks.kernel_exec_actions_ret,
                    again,
                ),
            );
            wanted.push(
                probe_one(
                    ProbeKind::RawTracepoint,
                    "openvswitch:ovs_do_execute_action",
                    &self.hooks.kernel_exec_tp,
                    Some(inflight),
                ),
            );
        } else {
            wanted.push(
                probe_one(
                    ProbeKind::RawTracepoint,
                    "openvswitch:ovs_do_execute_action",
                    &self.hooks.kernel_exec_tp,
                    None,
                ),
            );
        }
        assert(wanted@.map_values(|p: Probe| p@) =~= exec_probes(*self));
        register_all(probes, wanted)
    }

    /// The target of the probe `probe` of the process of the switch.
    fn usdt(&self, probe: &str) -> (r: String)
        ensures
            r@ == usdt_target(self.process@, probe@),
    {
        let mut target = self.process.clone();
        target.append(":");
        target.append(probe);
        target
    }

    /// Add USDT hooks; see [`usdt_probes`].
    pub fn add_usdt_hooks(&self, probes: &mut ProbeManager) -> (r: Result<(), OvsError>)
        ensures
            registers(old(probes)@, final(probes)@, r, usdt_probes(*self)),
    {
        let batches = Shared { name: "upcall_batches", fd: self.maps.upcall_batches };
        let pids = Shared { name: "pid_to_batch", fd: self.maps.pid_to_batch };
        let mut put: Vec<Shared> = Vec::new();
        put.push(batches);
        put.push(pids);
        let mut exec: Vec<Shared> = Vec::new();
        exec.push(Shared { name: "flow_exec_tracking", fd: self.maps.flow_exec_tracking });
        exec.push(batches);
        exec.push(pids);
        let mut recv: Vec<Shared> = Vec::new();
        recv.push(Shared { name: "upcall_tracking", fd: self.maps.upcall_tracking });
        recv.push(batches);
        recv.push(pids);
        proof {
            reveal_strlit("upcall_batches");
            reveal_strlit("pid_to_batch");
            reveal_strlit("flow_exec_tracking");
            reveal_strlit("upcall_tracking");
            assert("upcall_batches"@.len() == 14);
            assert("pid_to_batch"@.len() == 12);
            assert("flow_exec_tracking"@.len() == 18);
            assert("upcall_tracking"@.len() == 15);
            assert(put@.map_values(|m: Shared| map_as(m.name@, m.fd)) =~= seq![
                map_as("upcall_batches"@, self.maps.upcall_batches),
                map_as("pid_to_batch"@, self.maps.pid_to_batch),
            ]);
            assert(exec@.map_values(|m: Shared| map_as(m.name@, m.fd)) =~= seq![
                map_as("flow_exec_tracking"@, self.maps.flow_exec_tracking),
                map_as("upcall_batches"@, self.maps.upcall_batches),
                map_as("pid_to_batch"@, self.maps.pid_to_batch),
            ]);
            assert(recv@.map_values(|m: Shared| map_as(m.name@, m.fd)) =~= seq![
                map_as("upcall_tracking"@, self.maps.upcall_tracking),
                map_as("upcall_batches"@, self.maps.upcall_batches),
                map_as("pid_to_batch"@, self.maps.pid_to_batch),
            ]);
        }
        let mut wanted: Vec<Probe> = Vec::new();
        let target = self.usdt("dpif_netlink_operate__::op_flow_put");
        wanted.push(probe_many(ProbeKind::Usdt, target.as_str(), &self.hooks.user_op_put, put));
        let target = self.usdt("dpif_netlink_operate__::op_flow_execute");
        wanted.push(probe_many(ProbeKind::Usdt, target.as_str(), &self.hooks.user_op_exec, exec));
        let target = self.usdt("dpif_recv::recv_upcall");
        wanted.push(
            probe_many(ProbeKind::Usdt, target.as_str(), &self.hooks.user_recv_upcall, recv),
        );
        assert(wanted@.map_values(|p: Probe| p@) =~= usdt_probes(*self));
        register_all(probes, wanted)
    }

    /// Registers all the probes of the collector: those of the userspace of
    /// the switch where upcalls are tracked, then those of upcalls and those
    /// of the execution of actions.
    pub fn register_hooks(&self, probes: &mut ProbeManager) -> (r: Result<(), OvsError>)
        ensures
            registers(
                old(probes)@,
                final(probes)@,
                r,
                (if self.track {
                    usdt_probes(*self)
                } else {
                    Seq::empty()
                }) + upcall_probes(*self) + exec_probes(*self),
            ),
    {
        let ghost usdt = if self.track {
            usdt_probes(*self)
        } else {
            Seq::empty()
        };
        if self.track {
            match self.add_usdt_hooks(probes) {
                Ok(()) => {},
                Err(e) => {
                    return Err(e);
                },
            }
        }
        match self.add_upcall_hooks(probes) {
            Ok(()) => {},
            Err(e) => {
                return Err(e);
            },
        }
        match self.add_exec_hooks(probes) {
            Ok(()) => {},
            Err(e) => {
                return Err(e);
            },
        }
        proof {
            lemma_registered_all_concat(old(probes)@.probes, usdt, upcall_probes(*self));
            lemma_registered_all_concat(
                old(probes)@.probes,
                usdt + upcall_probes(*self),
                exec_probes(*self),
            );
        }
        Ok(())
    }
}

/// Registering probes one list after the other is registering the two
/// lists joined.
pub proof fn lemma_registered_all_concat(
    catalogue: Seq<ProbeModel>,
    first: Seq<ProbeModel>,
    second: Seq<ProbeModel>,
)
    ensures
        registered_all(registered_all(catalogue, first), second) == registered_all(
            catalogue,
            first + second,
        ),
    decreases second.len(),
{
    if second.len() == 0 {
        assert(first + second =~= first);
    } else {
        lemma_registered_all_concat(catalogue, first, second.drop_last());
        assert((first + second).drop_last() =~= first + second.drop_last());
        assert((first + second).last() == second.last());
    }
}

/// All the probes of the collector, in the order they are registered:
/// those of the userspace of the switch where upcalls are tracked, then those
/// of upcalls and those of the execution of actions.
pub open spec fn ovs_probes(c: OvsCollector) -> Seq<ProbeModel> {
    (if c.track {
        usdt_probes(c)
    } else {
        Seq::empty()
    }) + upcall_probes(c) + exec_probes(c)
}

impl Collector for OvsCollector {
    /// The collector names no kernel type.
    open spec fn declares(&self, types: Option<Vec<&'static str>>) -> bool {
        types is None
    }

    fn known_kernel_types(&self) -> (r: Option<Vec<&'static str>>) {
        None
    }

    /// The collector can run where [`ovs_can_run`] says so, and says why
    /// where it cannot.
    open spec fn answers(&self, cli: CliConfig, r: Result<(), String>) -> bool {
        match ovs_can_run(self.facts) {
            Ok(_) => r is Ok,
            Err(OvsError::NoConfig) => r matches Err(why) && why@
                == "Could not query the kernel configuration"@,
            Err(_) => r matches Err(why) && why@ == "Kernel module 'openvswitch' is not loaded"@,
        }
    }

    fn can_run(&self, cli: &CliConfig) -> (r: Result<(), String>) {
        match can_run(&self.facts) {
            Ok(()) => Ok(()),
            Err(OvsError::NoConfig) => Err("Could not query the kernel configuration".to_owned()),
            Err(_) => Err("Kernel module 'openvswitch' is not loaded".to_owned()),
        }
    }

    /// Initializing leaves the collector as it is and registers all its
    /// probes; see [`ovs_probes`]. It fails, and registers nothing, once
    /// the probes are attached.
    open spec fn initializes(
        &self,
        after: &Self,
        cli: CliConfig,
        before: ProbeManagerModel,
        probes: ProbeManagerModel,
        r: Result<(), String>,
    ) -> bool {
        &&& *after == *self
        &&& if before.attached {
            probes == before && (r matches Err(why) && why@ == "Could not register the probes"@)
        } else {
            r is Ok && probes == (ProbeManagerModel {
                probes: registered_all(before.probes, ovs_probes(*self)),
                ..before
            })
        }
    }

    fn init(&mut self, cli: &CliConfig, probes: &mut ProbeManager) -> (r: Result<(), String>) {
        match self.register_hooks(probes) {
            Ok(()) => Ok(()),
            Err(_) => Err("Could not register the probes".to_owned()),
        }
    }

    /// The maps of the collector are swept from outside: starting succeeds
    /// and leaves the collector as it is.
    open spec fn starts(&self, after: &Self, r: Result<(), String>) -> bool {
        r is Ok && *after == *self
    }

    fn start(&mut self) -> (r: Result<(), String>) {
        Ok(())
    }

    /// Stopping succeeds and leaves the collector as it is.
    open spec fn stops(&self, after: &Self, r: Result<(), String>) -> bool {
        r is Ok && *after == *self
    }

    fn stop(&mut self) -> (r: Result<(), String>) {
        Ok(())
    }
}

} // verus!
