use retis::cli::{CliConfig, Collect, CollectArgs, DisplayFormatFlavor};
use retis::collect::collector::{CollectError, Collector, ModuleId};
use retis::collect::collectors::{
    can_run_verdict, process_step, Collectors, InitStatus, ProcessStep, Verdict,
};
use retis::events::event::Event;
use retis::reader::EventResult;
use retis::collect::probe_spec::{is_useful, parse_probe_spec, ProbeSpecError};
use retis::inspect::kernel::{InspectError, KernelInspector};
use retis::inspect::symbols::SymbolTable;
use retis::probe::{Hook, MapReuse, ProbeKind};
use retis::collect::modules::Modules;
use retis::error::SectionError;
use retis::events::common::CommonEvent;
use retis::events::section::Section;
use retis::factory::RawEventSectionFactory;
use retis::probe_manager::ProbeManager;
use retis::raw::BpfRawSection;

struct DummyCollectorA;
struct DummyCollectorB;

/// The collectors of the tests, as one type.
enum Dummy {
    A(DummyCollectorA),
    B(DummyCollectorB),
}

impl DummyCollectorA {
    fn new() -> Result<DummyCollectorA, String> {
        Ok(DummyCollectorA)
    }
    fn known_kernel_types(&self) -> Option<Vec<&'static str>> {
        Some(vec!["struct sk_buff *", "struct net_device *"])
    }
    fn init(&mut self, _: &CliConfig, _: &mut ProbeManager) -> Result<(), String> {
        Ok(())
    }
    fn start(&mut self) -> Result<(), String> {
        Ok(())
    }
}

impl DummyCollectorB {
    fn new() -> Result<DummyCollectorB, String> {
        Ok(DummyCollectorB)
    }
    fn known_kernel_types(&self) -> Option<Vec<&'static str>> {
        None
    }
    fn init(&mut self, _: &CliConfig, _: &mut ProbeManager) -> Result<(), String> {
        Err("Could not initialize".to_string())
    }
    fn start(&mut self) -> Result<(), String> {
        Err("Could not start".to_string())
    }
}

impl Collector for Dummy {
    fn known_kernel_types(&self) -> Option<Vec<&'static str>> {
        match self {
            Dummy::A(a) => a.known_kernel_types(),
            Dummy::B(b) => b.known_kernel_types(),
        }
    }
    fn can_run(&self, _: &CliConfig) -> Result<(), String> {
        Ok(())
    }
    fn init(&mut self, cli: &CliConfig, probes: &mut ProbeManager) -> Result<(), String> {
        match self {
            Dummy::A(a) => a.init(cli, probes),
            Dummy::B(b) => b.init(cli, probes),
        }
    }
    fn start(&mut self) -> Result<(), String> {
        match self {
            Dummy::A(a) => a.start(),
            Dummy::B(b) => b.start(),
        }
    }
    fn stop(&mut self) -> Result<(), String> {
        Ok(())
    }
}

#[derive(Default)]
struct TestEvent {}

impl RawEventSectionFactory for TestEvent {
    fn create<'a>(&mut self, _: Vec<BpfRawSection<'a>>) -> Result<Section, SectionError> {
        Ok(Section::Common(CommonEvent {
            timestamp: 0,
            smp_id: 0,
            task: None,
        }))
    }
}

fn default_args() -> CollectArgs {
    CollectArgs {
        stack: false,
        cmd: None,
        collectors: ["skb-tracking", "skb", "skb-drop", "ovs", "nft", "ct"]
            .iter()
            .map(|s| s.to_string())
            .collect(),
        probes: Vec::new(),
        out: None,
        print: false,
        format: DisplayFormatFlavor::MultiLine,
        utc: false,
        packet_filter: None,
        meta_filter: None,
        probe_stack: false,
        allow_system_changes: false,
    }
}

fn get_cli() -> CliConfig {
    CliConfig {
        subcommand: Collect::new(default_args(), true),
    }
}

#[test]
fn register_collectors() {
    let mut group: Modules<Dummy, TestEvent> = Modules::new();
    assert!(group
        .register(
            ModuleId::Skb,
            Dummy::A(DummyCollectorA::new().unwrap()),
            TestEvent::default(),
        )
        .is_ok());
    assert!(group
        .register(
            ModuleId::Ovs,
            Dummy::B(DummyCollectorB::new().unwrap()),
            TestEvent::default(),
        )
        .is_ok());
}

#[test]
fn register_uniqueness() {
    let mut group: Modules<Dummy, TestEvent> = Modules::new();
    assert!(group
        .register(
            ModuleId::Skb,
            Dummy::A(DummyCollectorA::new().unwrap()),
            TestEvent::default(),
        )
        .is_ok());
    assert!(group
        .register(
            ModuleId::Skb,
            Dummy::A(DummyCollectorA::new().unwrap()),
            TestEvent::default(),
        )
        .is_err());
}

#[test]
fn register_uniqueness_names_the_module() {
    let mut group: Modules<Dummy, TestEvent> = Modules::new();
    group
        .register(ModuleId::Skb, Dummy::A(DummyCollectorA), TestEvent::default())
        .unwrap();
    assert_eq!(
        group.register(ModuleId::Skb, Dummy::B(DummyCollectorB), TestEvent::default()),
        Err(CollectError::DuplicateModule(ModuleId::Skb))
    );
    assert_eq!(group.len(), 1);
    assert!(group.contains(ModuleId::Skb));
    assert!(!group.contains(ModuleId::Ovs));
}

#[test]
fn registered_collectors_are_found_by_id() {
    let group = two_modules();
    assert!(matches!(group.get_collector(ModuleId::Skb), Some(Dummy::A(_))));
    assert!(matches!(group.get_collector(ModuleId::Ovs), Some(Dummy::B(_))));
    assert!(group.get_collector(ModuleId::Nft).is_none());
}

#[test]
fn get_collectors() {
    let modules: Modules<Dummy, TestEvent> = Modules::new();
    assert!(retis::collect::collectors::get_collectors(modules, get_cli(), None, 0).is_ok());
}

#[test]
fn new_collectors_share_the_stack_map() {
    let modules: Modules<Dummy, TestEvent> = Modules::new();
    assert!(Collectors::new(modules, get_cli(), Some(3)).is_ok());
}

fn new_collectors(modules: Modules<Dummy, TestEvent>) -> Collectors<Dummy, TestEvent> {
    Collectors::new(modules, get_cli(), None).unwrap()
}

fn strings(items: &[&str]) -> Vec<String> {
    items.iter().map(|s| s.to_string()).collect()
}

fn inspector() -> KernelInspector {
    let mut symbols = SymbolTable::new();
    symbols.insert(0xffffffff99d1da80, "consume_skb".to_string());
    symbols.insert(0xffffffff99d1e000, "kfree_skb_reason".to_string());
    KernelInspector {
        symbols,
        traceable_events: Some(strings(&["skb:kfree_skb", "skb:consume_skb", "net:netif_rx"])),
        traceable_funcs: Some(strings(&[
            "consume_skb",
            "kfree_skb_reason",
            "tcp_v6_connect",
            "tcp_v6_rcv",
            "tcp_v4_rcv",
            "udp_rcv",
        ])),
        version: "6.3.0".to_string(),
        config: None,
        modules: None,
    }
}

fn two_modules() -> Modules<Dummy, TestEvent> {
    let mut group = Modules::new();
    group
        .register(ModuleId::Skb, Dummy::A(DummyCollectorA), TestEvent::default())
        .unwrap();
    group
        .register(ModuleId::Ovs, Dummy::B(DummyCollectorB), TestEvent::default())
        .unwrap();
    group
}

#[test]
fn init_collectors() {
    let mut dummy_a = DummyCollectorA::new().unwrap();
    let mut dummy_b = DummyCollectorB::new().unwrap();

    let mut collectors = new_collectors(two_modules());
    let mut mgr = ProbeManager::new();

    let config = get_cli();
    assert!(dummy_a.init(&config, &mut mgr).is_ok());
    assert!(dummy_b.init(&config, &mut mgr).is_err());

    assert!(collectors.init(&inspector(), None, None).is_err());
}

#[test]
fn init_names_the_failing_collector() {
    let mut args = default_args();
    args.collectors = strings(&["skb", "ovs"]);
    let cli = CliConfig {
        subcommand: Collect::new(args, false),
    };
    let mut collectors = Collectors::new(two_modules(), cli, None).unwrap();
    assert_eq!(
        collectors.init(&inspector(), None, None),
        Err(CollectError::InitFailed(ModuleId::Ovs))
    );
}

#[test]
fn init_refuses_unknown_collectors() {
    let mut collectors = new_collectors(two_modules());
    // The default list starts with a collector that is not registered here.
    assert_eq!(
        collectors.init(&inspector(), None, None),
        Err(CollectError::UnknownCollector(0))
    );
    let mut args = default_args();
    args.collectors = strings(&["skb", "no-such-collector"]);
    let cli = CliConfig {
        subcommand: Collect::new(args, false),
    };
    let mut collectors = Collectors::new(two_modules(), cli, None).unwrap();
    assert_eq!(
        collectors.init(&inspector(), None, None),
        Err(CollectError::UnknownCollector(1))
    );
}

#[test]
fn init_reports_loaded_collectors() {
    let mut args = default_args();
    args.collectors = strings(&["skb"]);
    args.probes = strings(&["consume_skb", "tp:skb:kfree_skb", "kprobe:consume_skb"]);
    let cli = CliConfig {
        subcommand: Collect::new(args, true),
    };
    let mut collectors = Collectors::new(two_modules(), cli, None).unwrap();
    assert_eq!(
        collectors.init(&inspector(), Some(vec![1, 2, 3]), None),
        Ok(vec![InitStatus::Loaded])
    );
    assert!(collectors.needs_tracking());
}

#[test]
fn init_fails_on_invalid_probe() {
    let mut args = default_args();
    args.collectors = strings(&["skb"]);
    args.probes = strings(&["consume_skb", "kretprobe:tcp_*"]);
    let cli = CliConfig {
        subcommand: Collect::new(args, true),
    };
    let mut collectors = Collectors::new(two_modules(), cli, None).unwrap();
    assert_eq!(
        collectors.init(&inspector(), None, None),
        Err(CollectError::InvalidProbe(1))
    );
}

/// A collector that runs a hook under every kernel probe, and may share a
/// map under the name of the tracking map.
struct Hooked {
    types: Option<Vec<&'static str>>,
    shares_tracking_map: bool,
}

impl Collector for Hooked {
    fn known_kernel_types(&self) -> Option<Vec<&'static str>> {
        self.types.clone()
    }
    fn can_run(&self, _: &CliConfig) -> Result<(), String> {
        Ok(())
    }
    fn init(&mut self, _: &CliConfig, probes: &mut ProbeManager) -> Result<(), String> {
        probes.register_kernel_hook(Hook::from_bytes(vec![7]));
        if self.shares_tracking_map {
            probes
                .reuse_map("skb_tracking", 1)
                .map_err(|e| format!("{:?}", e))?;
        }
        Ok(())
    }
    fn start(&mut self) -> Result<(), String> {
        Ok(())
    }
    fn stop(&mut self) -> Result<(), String> {
        Ok(())
    }
}

fn hooked(collector: Hooked) -> Collectors<Hooked, TestEvent> {
    let mut modules = Modules::new();
    modules
        .register(ModuleId::Skb, collector, TestEvent::default())
        .unwrap();
    let mut args = default_args();
    args.collectors = strings(&["skb"]);
    args.probes = strings(&["consume_skb"]);
    let cli = CliConfig {
        subcommand: Collect::new(args, false),
    };
    Collectors::new(modules, cli, None).unwrap()
}

#[test]
fn tracking_map_is_shared_where_packets_are_tracked() {
    let mut collectors = hooked(Hooked {
        types: Some(vec!["struct sk_buff *"]),
        shares_tracking_map: false,
    });
    assert_eq!(
        collectors.init(&inspector(), None, Some(9)),
        Ok(vec![InitStatus::Loaded])
    );
    assert!(collectors.needs_tracking());
    let plan = collectors.start().unwrap();
    assert_eq!(plan.items.len(), 1);
    assert_eq!(plan.items[0].kind, ProbeKind::Kprobe);
    assert_eq!(plan.items[0].target, "consume_skb");
    assert_eq!(plan.items[0].program, vec![7]);
    assert_eq!(
        plan.items[0].maps,
        vec![MapReuse {
            name: "skb_tracking".to_string(),
            fd: 9
        }]
    );

    // No collector reads socket buffers: packets are not tracked.
    let mut collectors = hooked(Hooked {
        types: Some(vec!["struct net_device *"]),
        shares_tracking_map: false,
    });
    assert!(collectors.init(&inspector(), None, Some(9)).is_ok());
    assert!(!collectors.needs_tracking());
    let plan = collectors.start().unwrap();
    assert_eq!(plan.items.len(), 1);
    assert!(plan.items[0].maps.is_empty());

    // There is no map to share.
    let mut collectors = hooked(Hooked {
        types: Some(vec!["struct sk_buff *"]),
        shares_tracking_map: false,
    });
    assert!(collectors.init(&inspector(), None, None).is_ok());
    assert!(collectors.start().unwrap().items[0].maps.is_empty());
}

#[test]
fn tracking_map_is_shared_once() {
    let mut collectors = hooked(Hooked {
        types: Some(vec!["struct sk_buff *"]),
        shares_tracking_map: true,
    });
    assert_eq!(
        collectors.init(&inspector(), None, Some(9)),
        Err(CollectError::MapAlreadyReused)
    );
}

/// A collector that starts and stops as it is told to.
struct Stubborn {
    starts: bool,
    stops: bool,
}

impl Collector for Stubborn {
    fn known_kernel_types(&self) -> Option<Vec<&'static str>> {
        None
    }
    fn can_run(&self, _: &CliConfig) -> Result<(), String> {
        Ok(())
    }
    fn init(&mut self, _: &CliConfig, _: &mut ProbeManager) -> Result<(), String> {
        Ok(())
    }
    fn start(&mut self) -> Result<(), String> {
        if self.starts {
            Ok(())
        } else {
            Err("Could not start".to_string())
        }
    }
    fn stop(&mut self) -> Result<(), String> {
        if self.stops {
            Ok(())
        } else {
            Err("Could not stop".to_string())
        }
    }
}

#[test]
fn collectors_that_fail_are_named_in_the_order_of_the_registry() {
    let mut modules: Modules<Stubborn, TestEvent> = Modules::new();
    let registered = [
        (ModuleId::Ovs, false, true),
        (ModuleId::Skb, true, false),
        (ModuleId::Ct, false, false),
        (ModuleId::Nft, true, true),
    ];
    for (id, starts, stops) in registered {
        modules
            .register(id, Stubborn { starts, stops }, TestEvent::default())
            .unwrap();
    }
    let mut collectors = Collectors::new(modules, get_cli(), None).unwrap();
    assert_eq!(
        collectors.start_collectors(),
        vec![ModuleId::Ovs, ModuleId::Ct]
    );
    assert_eq!(collectors.stop(), vec![ModuleId::Skb, ModuleId::Ct]);
}

/// A collector that says whether it can run, and counts its
/// initializations in the hooks of the catalogue.
struct Picky {
    can_run: bool,
    mark: u8,
}

impl Collector for Picky {
    fn known_kernel_types(&self) -> Option<Vec<&'static str>> {
        None
    }
    fn can_run(&self, _: &CliConfig) -> Result<(), String> {
        if self.can_run {
            Ok(())
        } else {
            Err(format!("collector {} cannot run", self.mark))
        }
    }
    fn init(&mut self, _: &CliConfig, probes: &mut ProbeManager) -> Result<(), String> {
        probes.register_kernel_hook(Hook::from_bytes(vec![self.mark]));
        Ok(())
    }
    fn start(&mut self) -> Result<(), String> {
        Ok(())
    }
    fn stop(&mut self) -> Result<(), String> {
        Ok(())
    }
}

fn picky(auto: bool) -> Collectors<Picky, TestEvent> {
    let mut modules = Modules::new();
    let registered = [
        (ModuleId::Skb, true, 1),
        (ModuleId::Ovs, false, 2),
        (ModuleId::Nft, true, 3),
    ];
    for (id, can_run, mark) in registered {
        modules
            .register(id, Picky { can_run, mark }, TestEvent::default())
            .unwrap();
    }
    let mut args = default_args();
    args.collectors = strings(&["skb", "ovs", "nft"]);
    args.probes = strings(&["consume_skb"]);
    let cli = CliConfig {
        subcommand: Collect::new(args, auto),
    };
    Collectors::new(modules, cli, None).unwrap()
}

/// The programs that would run under the probe of the test.
fn programs(collectors: &mut Collectors<Picky, TestEvent>) -> Vec<Vec<u8>> {
    let plan = collectors.start().unwrap();
    plan.items.iter().map(|i| i.program.clone()).collect()
}

#[test]
fn collector_that_cannot_run_is_skipped_in_default_mode() {
    let mut collectors = picky(true);
    assert_eq!(
        collectors.init(&inspector(), None, None),
        Ok(vec![
            InitStatus::Loaded,
            InitStatus::Skipped("collector 2 cannot run".to_string()),
            InitStatus::Loaded,
        ])
    );
    // The collector that cannot run was not initialized, the next one was.
    assert_eq!(programs(&mut collectors), vec![vec![1], vec![3]]);
}

#[test]
fn collector_that_cannot_run_ends_the_set_up_in_explicit_mode() {
    let mut collectors = picky(false);
    assert_eq!(
        collectors.init(&inspector(), None, None),
        Err(CollectError::CannotRun(ModuleId::Ovs))
    );
    // Neither the collector that cannot run nor the next was initialized,
    // and the probes of the user were not registered.
    assert!(collectors.registered_probes().is_empty());
    assert!(programs(&mut collectors).is_empty());
}

#[test]
fn probes_on_one_place_are_registered_once() {
    let mut modules: Modules<Picky, TestEvent> = Modules::new();
    modules
        .register(ModuleId::Skb, Picky { can_run: true, mark: 1 }, TestEvent::default())
        .unwrap();
    let mut args = default_args();
    args.collectors = strings(&["skb"]);
    args.probes = strings(&["consume_skb", "kprobe:tcp_v6_*", "k:consume_skb", "tcp_v6_rcv"]);
    let cli = CliConfig {
        subcommand: Collect::new(args, true),
    };
    let mut collectors = Collectors::new(modules, cli, None).unwrap();
    let mut k = inspector();
    k.traceable_funcs = Some(strings(&[
        "consume_skb",
        "tcp_v6_rcv",
        "tcp_v6_connect",
        "tcp_v6_rcv",
    ]));
    assert!(collectors.init(&k, None, None).is_ok());
    let places: Vec<(ProbeKind, String)> = collectors
        .registered_probes()
        .iter()
        .map(|p| (p.kind(), p.target().to_string()))
        .collect();
    assert_eq!(
        places,
        vec![
            (ProbeKind::Kprobe, "consume_skb".to_string()),
            (ProbeKind::Kprobe, "tcp_v6_rcv".to_string()),
            (ProbeKind::Kprobe, "tcp_v6_connect".to_string()),
        ]
    );
}

#[test]
fn received_event_is_processed_before_the_loop_finishes() {
    assert!(matches!(
        process_step(true, EventResult::Event(Event::new())),
        ProcessStep::Process(_)
    ));
    assert!(matches!(
        process_step(false, EventResult::Event(Event::new())),
        ProcessStep::Last(_)
    ));
    assert!(matches!(
        process_step(true, EventResult::Timeout),
        ProcessStep::Wait
    ));
    assert!(matches!(
        process_step(false, EventResult::Timeout),
        ProcessStep::Finish
    ));
    assert!(matches!(
        process_step(true, EventResult::Eof),
        ProcessStep::Finish
    ));
    assert!(matches!(
        process_step(false, EventResult::Eof),
        ProcessStep::Finish
    ));
}

#[test]
fn verdict_depends_on_the_mode() {
    assert_eq!(can_run_verdict(true, true), Verdict::Run);
    assert_eq!(can_run_verdict(false, true), Verdict::Run);
    assert_eq!(can_run_verdict(true, false), Verdict::Skip);
    assert_eq!(can_run_verdict(false, false), Verdict::Abort);
}

#[test]
fn start_collectors() {
    let mut dummy_a = DummyCollectorA::new().unwrap();
    let mut dummy_b = DummyCollectorB::new().unwrap();

    let mut collectors = new_collectors(two_modules());

    assert!(dummy_a.start().is_ok());
    assert!(dummy_b.start().is_err());
    assert!(collectors.start().is_ok());
}

#[test]
fn start_names_collectors_that_failed_and_runs_once() {
    let mut collectors = new_collectors(two_modules());
    let plan = collectors.start().unwrap();
    assert_eq!(collectors.start_collectors(), vec![ModuleId::Ovs]);
    assert!(plan.items.is_empty());
    assert!(plan.section_factories.contains(ModuleId::Skb));
    assert!(plan.section_factories.contains(ModuleId::Ovs));
    assert!(matches!(
        collectors.start(),
        Err(CollectError::NoSectionFactory)
    ));
    assert!(collectors.stop().is_empty());
}

#[test]
fn parse_probe() {
    let collectors = new_collectors(two_modules());
    let inspector = inspector();

    // Valid probes.
    assert!(collectors.parse_probe(&inspector, "consume_skb").is_ok());
    assert!(collectors
        .parse_probe(&inspector, "kprobe:kfree_skb_reason")
        .is_ok());
    assert!(collectors.parse_probe(&inspector, "tp:skb:kfree_skb").is_ok());
    assert!(collectors.parse_probe(&inspector, "tcp_v6_*").is_ok());
    assert!(collectors.parse_probe(&inspector, "kprobe:tcp_v6_*").is_ok());
    assert!(collectors.parse_probe(&inspector, "kprobe:tcp_v6_*").unwrap().len() > 0);

    // Invalid probe: symbol does not exist.
    assert!(collectors.parse_probe(&inspector, "foobar").is_err());
    assert!(collectors.parse_probe(&inspector, "kprobe:foobar").is_err());
    assert!(collectors.parse_probe(&inspector, "tp:42:foobar").is_err());

    // Invalid probe: wrong TYPE.
    assert!(collectors
        .parse_probe(&inspector, "kprobe:skb:kfree_skb")
        .is_err());
    assert!(collectors.parse_probe(&inspector, "foo:kfree_skb").is_err());

    // A target with a single ':' and no known type is a raw tracepoint.
    assert!(collectors.parse_probe(&inspector, "skb:kfree_skb").is_ok());

    // Invalid probe: empty parts.
    assert!(collectors.parse_probe(&inspector, "").is_err());
    assert!(collectors.parse_probe(&inspector, "kprobe:").is_err());
    assert!(collectors.parse_probe(&inspector, "tp:").is_err());
    assert!(collectors.parse_probe(&inspector, "tp:skb:").is_err());
    assert!(collectors
        .parse_probe(&inspector, ":kfree_skb_reason")
        .is_err());

    // Invalid probe: wildcard not supported.
    assert!(collectors.parse_probe(&inspector, "kretprobe:tcp_*").is_err());
    assert!(collectors.parse_probe(&inspector, "tp:kfree_*").is_err());
}

#[test]
fn probe_specs_name_kind_and_target() {
    let spec = parse_probe_spec("consume_skb").unwrap();
    assert_eq!((spec.kind, spec.target.as_str()), (ProbeKind::Kprobe, "consume_skb"));
    let spec = parse_probe_spec("tp:skb:kfree_skb").unwrap();
    assert_eq!(
        (spec.kind, spec.target.as_str()),
        (ProbeKind::RawTracepoint, "skb:kfree_skb")
    );
    let spec = parse_probe_spec("skb:kfree_skb").unwrap();
    assert_eq!(
        (spec.kind, spec.target.as_str()),
        (ProbeKind::RawTracepoint, "skb:kfree_skb")
    );
    for (text, kind) in [
        ("k:a", ProbeKind::Kprobe),
        ("kprobe:a", ProbeKind::Kprobe),
        ("kr:a", ProbeKind::Kretprobe),
        ("kretprobe:a", ProbeKind::Kretprobe),
        ("tp:a", ProbeKind::RawTracepoint),
        ("raw_tracepoint:a", ProbeKind::RawTracepoint),
    ] {
        let spec = parse_probe_spec(text).unwrap();
        assert_eq!((spec.kind, spec.target.as_str()), (kind, "a"));
    }
    assert_eq!(parse_probe_spec(""), Err(ProbeSpecError::EmptyTarget));
    assert_eq!(parse_probe_spec("kprobe:"), Err(ProbeSpecError::EmptyTarget));
    assert_eq!(parse_probe_spec("a:b:c"), Err(ProbeSpecError::InvalidType));
    assert_eq!(
        parse_probe_spec("kretprobe:tcp_*"),
        Err(ProbeSpecError::WildcardNotAllowed)
    );
    assert_eq!(
        parse_probe_spec("tp:kfree_*"),
        Err(ProbeSpecError::WildcardNotAllowed)
    );
    let spec = parse_probe_spec("kprobe:tcp_v6_*").unwrap();
    assert_eq!((spec.kind, spec.target.as_str()), (ProbeKind::Kprobe, "tcp_v6_*"));
}

#[test]
fn wildcard_gives_one_probe_per_function() {
    let collectors = new_collectors(two_modules());
    let probes = collectors
        .parse_probe(&inspector(), "kprobe:tcp_v6_*")
        .unwrap();
    let targets: Vec<&str> = probes.iter().map(|p| p.target()).collect();
    assert_eq!(targets, vec!["tcp_v6_connect", "tcp_v6_rcv"]);
    assert!(probes.iter().all(|p| p.kind() == ProbeKind::Kprobe));
    assert_eq!(
        collectors.parse_probe(&inspector(), "kprobe:sctp_*").err(),
        Some(ProbeSpecError::NoMatch)
    );
    assert_eq!(
        collectors.parse_probe(&inspector(), "kprobe:tcp_(*").err(),
        Some(ProbeSpecError::Inspect(InspectError::InvalidPattern))
    );
}

#[test]
fn probes_go_on_symbols_of_their_kind() {
    let collectors = new_collectors(two_modules());
    let probes = collectors.parse_probe(&inspector(), "consume_skb").unwrap();
    assert_eq!(probes.len(), 1);
    assert_eq!(probes[0].kind(), ProbeKind::Kprobe);
    assert_eq!(probes[0].target(), "consume_skb");
    let probes = collectors
        .parse_probe(&inspector(), "tp:skb:kfree_skb")
        .unwrap();
    assert_eq!(probes[0].kind(), ProbeKind::RawTracepoint);
    assert_eq!(probes[0].target(), "skb:kfree_skb");
    assert_eq!(
        collectors
            .parse_probe(&inspector(), "kprobe:skb:kfree_skb")
            .err(),
        Some(ProbeSpecError::WrongSymbolKind)
    );
    assert_eq!(
        collectors.parse_probe(&inspector(), "tp:consume_skb").err(),
        Some(ProbeSpecError::WrongSymbolKind)
    );
    assert_eq!(
        collectors.parse_probe(&inspector(), "foobar").err(),
        Some(ProbeSpecError::Inspect(InspectError::UnknownSymbol))
    );
}

#[test]
fn probe_is_useful_with_a_known_parameter_type() {
    let known = strings(&["struct sk_buff *", "struct net_device *"]);
    assert!(is_useful(&strings(&["int", "struct sk_buff *"]), &known));
    assert!(!is_useful(&strings(&["int", "struct sock *"]), &known));
    assert!(!is_useful(&strings(&[]), &known));
}
