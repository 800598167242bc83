use retis::probe::{Hook, MapReuse, Probe, ProbeError, ProbeKind, ProbeOption};
use retis::probe_manager::ProbeManager;

fn hook(id: u8) -> Hook {
    Hook::from_bytes(vec![id, id, id])
}

fn probe_with(kind: ProbeKind, target: &str, hooks: &[u8]) -> Probe {
    let mut p = Probe::new(kind, target);
    for h in hooks {
        p.add_hook(hook(*h));
    }
    p
}

fn programs(probe: &Probe) -> Vec<u8> {
    probe.hooks().iter().map(|h| h.data()[0]).collect()
}

#[test]
fn probes_are_built_by_kind() {
    let p = Probe::kprobe("consume_skb");
    assert_eq!((p.kind(), p.target()), (ProbeKind::Kprobe, "consume_skb"));
    let p = Probe::kretprobe("ovs_dp_upcall");
    assert_eq!((p.kind(), p.target()), (ProbeKind::Kretprobe, "ovs_dp_upcall"));
    let p = Probe::raw_tracepoint("skb:kfree_skb");
    assert_eq!((p.kind(), p.target()), (ProbeKind::RawTracepoint, "skb:kfree_skb"));
    let p = Probe::usdt("ovs-vswitchd:main::run_start");
    assert_eq!(p.kind(), ProbeKind::Usdt);
    assert!(p.hooks().is_empty());
    assert!(!p.stack_trace());
    assert!(ProbeKind::Kprobe.is_kernel());
    assert!(ProbeKind::RawTracepoint.is_kernel());
    assert!(!ProbeKind::Usdt.is_kernel());
}

#[test]
fn hook_shares_each_map_once() {
    let mut h = hook(1);
    assert_eq!(h.reuse_map("inflight_upcalls", 3), Ok(()));
    assert_eq!(h.reuse_map("upcall_tracking", 4), Ok(()));
    assert_eq!(
        h.reuse_map("inflight_upcalls", 5),
        Err(ProbeError::MapAlreadyReused)
    );
    assert_eq!(
        h.maps(),
        &vec![
            MapReuse {
                name: "inflight_upcalls".to_string(),
                fd: 3
            },
            MapReuse {
                name: "upcall_tracking".to_string(),
                fd: 4
            }
        ]
    );
}

#[test]
fn registering_the_same_target_merges_hooks() {
    let mut mgr = ProbeManager::new();
    mgr.register_probe(probe_with(ProbeKind::Kprobe, "consume_skb", &[1, 2]))
        .unwrap();
    mgr.register_probe(probe_with(ProbeKind::Kprobe, "kfree_skb_reason", &[3]))
        .unwrap();
    let mut b = probe_with(ProbeKind::Kprobe, "consume_skb", &[4]);
    b.set_option(ProbeOption::StackTrace);
    mgr.register_probe(b).unwrap();
    // Another kind on the same symbol is another place.
    mgr.register_probe(probe_with(ProbeKind::Kretprobe, "consume_skb", &[5]))
        .unwrap();

    assert_eq!(mgr.len(), 3);
    let probes = mgr.probes();
    assert_eq!(probes[0].target(), "consume_skb");
    assert_eq!(programs(&probes[0]), vec![1, 2, 4]);
    assert!(probes[0].stack_trace());
    assert_eq!(programs(&probes[1]), vec![3]);
    assert!(!probes[1].stack_trace());
    assert_eq!(probes[2].kind(), ProbeKind::Kretprobe);
    assert_eq!(programs(&probes[2]), vec![5]);
}

#[test]
fn probes_merge_only_on_the_same_target() {
    let mut a = probe_with(ProbeKind::Kprobe, "a", &[1]);
    assert_eq!(
        a.merge(probe_with(ProbeKind::Kprobe, "b", &[2])),
        Err(ProbeError::TargetMismatch)
    );
    assert_eq!(
        a.merge(probe_with(ProbeKind::Kretprobe, "a", &[2])),
        Err(ProbeError::TargetMismatch)
    );
    assert_eq!(programs(&a), vec![1]);
    assert_eq!(a.merge(probe_with(ProbeKind::Kprobe, "a", &[2, 3])), Ok(()));
    assert_eq!(programs(&a), vec![1, 2, 3]);
    assert!(a.same_target(&Probe::kprobe("a")));
    assert!(!a.same_target(&Probe::kprobe("aa")));
}

#[test]
fn attach_hands_out_every_program_once() {
    let mut mgr = ProbeManager::new();
    mgr.reuse_map("events_map", 10).unwrap();
    assert_eq!(
        mgr.reuse_map("events_map", 11),
        Err(ProbeError::MapAlreadyReused)
    );
    mgr.reuse_map("stack_map", 12).unwrap();
    mgr.register_kernel_hook(hook(9));
    let mut with_map = hook(1);
    with_map.reuse_map("inflight_upcalls", 20).unwrap();
    let mut p = Probe::kprobe("consume_skb");
    p.add_hook(with_map);
    p.add_hook(hook(2));
    mgr.register_probe(p).unwrap();
    mgr.register_probe(probe_with(ProbeKind::Usdt, "ovs:main::run_start", &[3]))
        .unwrap();
    mgr.set_probe_opt(ProbeOption::StackTrace);
    assert_eq!(mgr.register_filter(vec![1, 2]), Ok(()));
    assert_eq!(
        mgr.register_filter(vec![3]),
        Err(ProbeError::FilterAlreadySet)
    );
    assert_eq!(mgr.filter(), Some(&vec![1, 2]));

    assert!(!mgr.is_attached());
    let items = mgr.attach().unwrap();
    assert!(mgr.is_attached());
    let seen: Vec<(ProbeKind, &str, u8, Vec<&str>)> = items
        .iter()
        .map(|i| {
            (
                i.kind,
                i.target.as_str(),
                i.program[0],
                i.maps.iter().map(|m| m.name.as_str()).collect(),
            )
        })
        .collect();
    assert_eq!(
        seen,
        vec![
            (
                ProbeKind::Kprobe,
                "consume_skb",
                9,
                vec!["events_map", "stack_map"]
            ),
            (
                ProbeKind::Kprobe,
                "consume_skb",
                1,
                vec!["events_map", "stack_map", "inflight_upcalls"]
            ),
            (
                ProbeKind::Kprobe,
                "consume_skb",
                2,
                vec!["events_map", "stack_map"]
            ),
            (
                ProbeKind::Usdt,
                "ovs:main::run_start",
                3,
                vec!["events_map", "stack_map"]
            ),
        ]
    );
    assert!(items.iter().all(|i| i.stack_trace));
    assert_eq!(items[1].maps[2].fd, 20);

    // Attaching is done once, and nothing is registered afterwards.
    assert_eq!(mgr.attach().err(), Some(ProbeError::AlreadyAttached));
    assert_eq!(
        mgr.register_probe(Probe::kprobe("late")),
        Err(ProbeError::AlreadyAttached)
    );
    assert_eq!(mgr.len(), 2);
}
