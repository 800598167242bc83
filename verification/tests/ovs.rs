use retis::cli::{CliConfig, Collect, CollectArgs, DisplayFormatFlavor};
use retis::collect::collector::Collector;
use retis::collect::ovs::{
    build_probe, can_run, handler_threads, tracking_gc, OvsCollector, OvsError, OvsHooks,
    OvsKernelFacts, OvsMaps, Shared, ThreadInfo,
};
use retis::collect::skb_tracking::SkbTrackingModule;
use retis::inspect::kernel::InspectError;
use retis::probe::{MapReuse, Probe, ProbeKind};
use retis::probe_manager::ProbeManager;

fn facts(option: Option<&str>, loaded: Option<bool>) -> OvsKernelFacts {
    OvsKernelFacts {
        config_option: Ok(option.map(|v| v.to_string())),
        module_loaded: loaded,
    }
}

fn collector(track: bool) -> OvsCollector {
    OvsCollector {
        track,
        facts: facts(Some("=m"), Some(true)),
        maps: OvsMaps {
            inflight_upcalls: 10,
            inflight_exec: 11,
            upcall_tracking: 12,
            flow_exec_tracking: 13,
            upcall_batches: 14,
            pid_to_batch: 15,
        },
        hooks: OvsHooks {
            kernel_upcall_tp: vec![1],
            kernel_upcall_ret: vec![2],
            kernel_enqueue: vec![3],
            kernel_exec_tp: vec![4],
            kernel_exec_actions: vec![5],
            kernel_exec_actions_ret: vec![6],
            user_recv_upcall: vec![7],
            user_op_exec: vec![8],
            user_op_put: vec![9],
        },
        process: "/usr/sbin/ovs-vswitchd".to_string(),
    }
}

fn cli() -> CliConfig {
    let args = CollectArgs {
        stack: false,
        cmd: None,
        collectors: vec!["ovs".to_string()],
        probes: Vec::new(),
        out: None,
        print: false,
        format: DisplayFormatFlavor::MultiLine,
        utc: false,
        packet_filter: None,
        meta_filter: None,
        probe_stack: false,
        allow_system_changes: false,
    };
    CliConfig {
        subcommand: Collect::new(args, false),
    }
}

/// What was registered: kind, target, program and maps of each probe.
fn summary(probes: &[Probe]) -> Vec<(ProbeKind, String, u8, Vec<(String, i32)>)> {
    probes
        .iter()
        .map(|p| {
            assert_eq!(p.hooks().len(), 1);
            let hook = &p.hooks()[0];
            (
                p.kind(),
                p.target().to_string(),
                hook.data()[0],
                hook.maps()
                    .iter()
                    .map(|m: &MapReuse| (m.name.clone(), m.fd))
                    .collect(),
            )
        })
        .collect()
}

fn shared(maps: &[(&str, i32)]) -> Vec<(String, i32)> {
    maps.iter().map(|(n, fd)| (n.to_string(), *fd)).collect()
}

#[test]
fn ovs_runs_where_the_switch_is_built_in_or_loaded() {
    assert_eq!(can_run(&facts(Some("=y"), Some(false))), Ok(()));
    assert_eq!(can_run(&facts(Some("=m"), Some(true))), Ok(()));
    assert_eq!(can_run(&facts(Some("=m"), None)), Ok(()));
    assert_eq!(can_run(&facts(None, None)), Ok(()));
    assert_eq!(
        can_run(&facts(Some("=m"), Some(false))),
        Err(OvsError::ModuleNotLoaded)
    );
    assert_eq!(
        can_run(&facts(None, Some(false))),
        Err(OvsError::ModuleNotLoaded)
    );
    assert_eq!(
        can_run(&facts(Some("y"), Some(false))),
        Err(OvsError::ModuleNotLoaded)
    );
    let unknown = OvsKernelFacts {
        config_option: Err(InspectError::NoConfig),
        module_loaded: Some(true),
    };
    assert_eq!(can_run(&unknown), Err(OvsError::NoConfig));
}

#[test]
fn ovs_collector_says_why_it_cannot_run() {
    let mut c = collector(false);
    assert_eq!(c.can_run(&cli()), Ok(()));
    c.facts = facts(Some("=m"), Some(false));
    assert_eq!(
        c.can_run(&cli()),
        Err("Kernel module 'openvswitch' is not loaded".to_string())
    );
    assert!(c.known_kernel_types().is_none());
}

#[test]
fn handlers_are_the_threads_named_so() {
    let threads = vec![
        ThreadInfo { pid: 100, comm: "ovs-vswitchd".to_string() },
        ThreadInfo { pid: 101, comm: "handler12".to_string() },
        ThreadInfo { pid: 102, comm: "revalidator3".to_string() },
        ThreadInfo { pid: 103, comm: "my_handler".to_string() },
        ThreadInfo { pid: 104, comm: "handle".to_string() },
        ThreadInfo { pid: 105, comm: "Handler".to_string() },
        ThreadInfo { pid: 106, comm: "handler".to_string() },
    ];
    assert_eq!(handler_threads(&threads), vec![101, 103, 106]);
    assert!(handler_threads(&Vec::new()).is_empty());
}

#[test]
fn ovs_tracking_maps_are_swept_with_the_defaults() {
    let gc = tracking_gc();
    assert_eq!((gc.interval, gc.limit), (5, 60));
}

#[test]
fn built_probe_shares_its_maps_in_order() {
    let maps = vec![
        Shared { name: "a", fd: 1 },
        Shared { name: "b", fd: 2 },
    ];
    let probe = build_probe(ProbeKind::Kretprobe, "ovs_dp_upcall", &vec![7, 8], &maps).unwrap();
    assert_eq!(probe.kind(), ProbeKind::Kretprobe);
    assert_eq!(probe.target(), "ovs_dp_upcall");
    assert!(!probe.stack_trace());
    assert_eq!(probe.hooks().len(), 1);
    assert_eq!(probe.hooks()[0].data(), &vec![7, 8]);
    assert_eq!(
        summary(std::slice::from_ref(&probe))[0].3,
        shared(&[("a", 1), ("b", 2)])
    );

    let twice = vec![
        Shared { name: "a", fd: 1 },
        Shared { name: "b", fd: 2 },
        Shared { name: "a", fd: 3 },
    ];
    assert_eq!(
        build_probe(ProbeKind::Kprobe, "f", &vec![1], &twice).err(),
        Some(OvsError::MapAlreadyReused)
    );
}

#[test]
fn ovs_probes_without_tracking() {
    let c = collector(false);
    let mut probes = ProbeManager::new();
    assert_eq!(c.register_hooks(&mut probes), Ok(()));
    assert_eq!(
        summary(probes.probes()),
        vec![
            (
                ProbeKind::RawTracepoint,
                "openvswitch:ovs_dp_upcall".to_string(),
                1,
                shared(&[("inflight_upcalls", 10)])
            ),
            (
                ProbeKind::Kretprobe,
                "ovs_dp_upcall".to_string(),
                2,
                shared(&[("inflight_upcalls", 10)])
            ),
            (
                ProbeKind::RawTracepoint,
                "openvswitch:ovs_do_execute_action".to_string(),
                4,
                shared(&[])
            ),
        ]
    );
}

#[test]
fn ovs_probes_with_tracking() {
    let mut c = collector(true);
    let mut probes = ProbeManager::new();
    assert_eq!(c.init(&cli(), &mut probes), Ok(()));
    let batches = [("upcall_batches", 14), ("pid_to_batch", 15)];
    let process = "/usr/sbin/ovs-vswitchd";
    assert_eq!(
        summary(probes.probes()),
        vec![
            (
                ProbeKind::Usdt,
                format!("{process}:dpif_netlink_operate__::op_flow_put"),
                9,
                shared(&batches)
            ),
            (
                ProbeKind::Usdt,
                format!("{process}:dpif_netlink_operate__::op_flow_execute"),
                8,
                shared(&[("flow_exec_tracking", 13), batches[0], batches[1]])
            ),
            (
                ProbeKind::Usdt,
                format!("{process}:dpif_recv::recv_upcall"),
                7,
                shared(&[("upcall_tracking", 12), batches[0], batches[1]])
            ),
            (
                ProbeKind::RawTracepoint,
                "openvswitch:ovs_dp_upcall".to_string(),
                1,
                shared(&[("inflight_upcalls", 10)])
            ),
            (
                ProbeKind::Kretprobe,
                "ovs_dp_upcall".to_string(),
                2,
                shared(&[("inflight_upcalls", 10)])
            ),
            (
                ProbeKind::Kretprobe,
                "queue_userspace_packet".to_string(),
                3,
                shared(&[("inflight_upcalls", 10), ("upcall_tracking", 12)])
            ),
            (
                ProbeKind::Kprobe,
                "ovs_execute_actions".to_string(),
                5,
                shared(&[("inflight_exec", 11), ("flow_exec_tracking", 13)])
            ),
            (
                ProbeKind::Kretprobe,
                "ovs_execute_actions".to_string(),
                6,
                shared(&[("inflight_exec", 11), ("flow_exec_tracking", 13)])
            ),
            (
                ProbeKind::RawTracepoint,
                "openvswitch:ovs_do_execute_action".to_string(),
                4,
                shared(&[("inflight_exec", 11)])
            ),
        ]
    );
    assert_eq!(c.start(), Ok(()));
    assert_eq!(c.stop(), Ok(()));
}

#[test]
fn ovs_probes_are_refused_once_attached() {
    let c = collector(false);
    let mut probes = ProbeManager::new();
    probes.attach().unwrap();
    assert_eq!(c.register_hooks(&mut probes), Err(OvsError::AlreadyAttached));
    assert!(probes.probes().is_empty());
}

#[test]
fn tracking_hook_runs_under_every_kernel_probe() {
    let mut module = SkbTrackingModule {
        tracking_hook: vec![42],
    };
    assert_eq!(
        module.known_kernel_types(),
        Some(vec!["struct sk_buff *"])
    );
    assert_eq!(module.can_run(&cli()), Ok(()));
    let mut probes = ProbeManager::new();
    probes.register_probe(Probe::kprobe("consume_skb")).unwrap();
    probes
        .register_probe(Probe::usdt("/usr/sbin/ovs-vswitchd:main::poll_block"))
        .unwrap();
    assert_eq!(module.init(&cli(), &mut probes), Ok(()));
    let plan = probes.attach().unwrap();
    let programs: Vec<(ProbeKind, Vec<u8>)> =
        plan.iter().map(|i| (i.kind, i.program.clone())).collect();
    assert_eq!(programs, vec![(ProbeKind::Kprobe, vec![42])]);
}
