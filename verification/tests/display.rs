use retis::cli::DisplayFormatFlavor;
use retis::decode::parse_raw_event;
use retis::display::ct::{fmt_ct, format_conn};
use retis::display::event::{fmt_section, to_text};
use retis::display::format::{push_indented, DisplayFormat, TimeFormat};
use retis::display::sections::{fmt_common, fmt_kernel, fmt_stack_trace};
use retis::display::series::series_to_text;
use retis::display::skb_text::fmt_skb;
use retis::events::common::{CommonEvent, TaskEvent, TimeSpec};
use retis::events::ct::{
    CtConnEvent, CtEvent, CtIcmp, CtIp, CtIpVersion, CtProto, CtState, CtTcp, CtTuple, CtUdp,
    ZoneDir,
};
use retis::events::event::Event;
use retis::events::kernel::{KernelEvent, StackTrace};
use retis::events::nft::NftEvent;
use retis::events::section::Section;
use retis::events::skb::{SkbDataRefEvent, SkbDevEvent, SkbEvent, SkbMetaEvent, SkbNsEvent};
use retis::events::skb_drop::SkbDropEvent;
use retis::events::skb_tracking::{SkbTrackingEvent, TrackingInfo};
use retis::events::startup::StartupEvent;
use retis::events::user::UserEvent;
use retis::factories::builtin::default_factories;
use retis::fmt::decimal_string;
use retis::section_id::SectionId;
use retis::sorter::EventSeries;

fn single() -> DisplayFormat {
    DisplayFormat::new(DisplayFormatFlavor::SingleLine)
}

fn multi() -> DisplayFormat {
    DisplayFormat::new(DisplayFormatFlavor::MultiLine)
}

fn text_of(section: Section, format: &DisplayFormat) -> String {
    let mut out = String::new();
    fmt_section(&section, &mut out, format);
    out
}

fn common(timestamp: u64, smp_id: u32, task: Option<(i32, i32, &str)>) -> CommonEvent {
    CommonEvent {
        timestamp,
        smp_id,
        task: task.map(|(pid, tgid, comm)| TaskEvent {
            pid,
            tgid,
            comm: comm.to_string(),
        }),
    }
}

#[test]
fn decimal_numbers() {
    assert_eq!(decimal_string(0), "0");
    assert_eq!(decimal_string(9), "9");
    assert_eq!(decimal_string(10), "10");
    assert_eq!(decimal_string(1337), "1337");
    assert_eq!(decimal_string(u64::MAX), "18446744073709551615");
}

#[test]
fn common_section_text() {
    let mut out = String::from("> ");
    fmt_common(
        &common(633902702662502, 8, Some((2856768, 2856768, "scapy"))),
        &mut out,
        &single(),
    );
    assert_eq!(out, "> 633902702662502 (8) [scapy] 2856768");
    assert_eq!(
        text_of(Section::Common(common(1, 0, Some((12, 34, "x")))), &multi()),
        "1 (0) [x] 12/34"
    );
    assert_eq!(
        text_of(Section::Common(common(1, 0, Some((-1, -2, "x")))), &multi()),
        "1 (0) [x] -1/-2"
    );
    assert_eq!(text_of(Section::Common(common(42, 3, None)), &multi()), "42 (3)");
}

#[test]
fn common_section_in_utc() {
    let mut format = multi();
    format.time_format = TimeFormat::UtcDate;
    // Without the offset of the monotonic clock the timestamp is written.
    assert_eq!(
        text_of(Section::Common(common(1_500_000_000, 0, None)), &format),
        "1500000000 (0)"
    );
    format.monotonic_offset = Some(TimeSpec {
        sec: 1_700_000_000,
        nsec: 500_000_000,
    });
    assert_eq!(
        text_of(Section::Common(common(1_500_000_000, 0, None)), &format),
        "2023-11-14 22:13:22.000000 (0)"
    );
    assert_eq!(
        text_of(Section::Common(common(1_500_001_000, 0, None)), &format),
        "2023-11-14 22:13:22.000001 (0)"
    );
    format.monotonic_offset = Some(TimeSpec {
        sec: 1_700_000_000,
        nsec: -1,
    });
    assert_eq!(
        text_of(Section::Common(common(0, 0, None)), &format),
        "2023-11-14 22:13:19.999999 (0)"
    );
    // A date out of range falls back to the timestamp.
    format.monotonic_offset = Some(TimeSpec {
        sec: i64::MAX,
        nsec: 0,
    });
    assert_eq!(text_of(Section::Common(common(7, 0, None)), &format), "7 (0)");
}

fn kernel(symbol: &str, probe_type: &str, stack: Option<&[&str]>) -> KernelEvent {
    KernelEvent {
        symbol: symbol.to_string(),
        probe_type: probe_type.to_string(),
        stack_trace: stack.map(|s| StackTrace(s.iter().map(|f| f.to_string()).collect())),
    }
}

#[test]
fn kernel_section_text() {
    let mut out = String::new();
    fmt_kernel(&kernel("skb:kfree_skb", "raw_tracepoint", None), &mut out);
    assert_eq!(out, "[tp] skb:kfree_skb");
    assert_eq!(
        text_of(Section::Kernel(kernel("consume_skb", "kprobe", None)), &multi()),
        "[k] consume_skb"
    );
    assert_eq!(
        text_of(Section::Kernel(kernel("x", "kretprobe", None)), &multi()),
        "[kr] x"
    );
    assert_eq!(
        text_of(Section::Kernel(kernel("y", "usdt", None)), &multi()),
        "[invalid] y"
    );
}

#[test]
fn stack_trace_text() {
    let stack = StackTrace(vec!["a".to_string(), "b+0x1".to_string(), "c".to_string()]);
    assert_eq!(stack.raw().len(), 3);
    let mut out = String::new();
    fmt_stack_trace(&stack, &mut out, &single());
    assert_eq!(out, "[a, b+0x1, c]");
    let mut out = String::new();
    fmt_stack_trace(&stack, &mut out, &multi());
    assert_eq!(out, "    a\n    b+0x1\n    c");
    let mut out = String::new();
    fmt_stack_trace(&StackTrace(Vec::new()), &mut out, &single());
    assert_eq!(out, "[]");
    let mut out = String::new();
    fmt_stack_trace(&StackTrace(Vec::new()), &mut out, &multi());
    assert_eq!(out, "");
}

#[test]
fn indentation_follows_new_lines() {
    let mut out = String::from("x");
    push_indented(&mut out, "\na\n\nb", 3);
    assert_eq!(out, "x\n   a\n   \n   b");
    let mut out = String::new();
    push_indented(&mut out, "no new line", 3);
    assert_eq!(out, "no new line");
}

fn tracking() -> SkbTrackingEvent {
    SkbTrackingEvent {
        orig_head: 0xffff8fa9b9718500,
        timestamp: 0x24087f96a136,
        skb: 0xffff8fa94fabd500,
    }
}

#[test]
fn small_sections_text() {
    assert_eq!(
        text_of(Section::SkbTracking(tracking()), &multi()),
        "#24087f96a136ffff8fa9b9718500 (skb ffff8fa94fabd500)"
    );
    assert_eq!(
        text_of(
            Section::SkbTracking(SkbTrackingEvent {
                orig_head: 0x1f,
                timestamp: 1,
                skb: 0
            }),
            &multi()
        ),
        "#1000000000000001f (skb 0)"
    );
    assert_eq!(
        text_of(
            Section::Tracking(TrackingInfo {
                skb: tracking(),
                idx: 3
            }),
            &multi()
        ),
        "#24087f96a136ffff8fa9b9718500 (skb ffff8fa94fabd500) n 3"
    );
    assert_eq!(
        text_of(
            Section::SkbDrop(SkbDropEvent {
                subsys: None,
                drop_reason: "NO_SOCKET".to_string()
            }),
            &multi()
        ),
        "drop (reason NO_SOCKET)"
    );
    assert_eq!(
        text_of(
            Section::SkbDrop(SkbDropEvent {
                subsys: Some("openvswitch".to_string()),
                drop_reason: "OVS_DROP_LAST_ACTION".to_string()
            }),
            &multi()
        ),
        "drop (reason openvswitch/OVS_DROP_LAST_ACTION)"
    );
    assert_eq!(
        text_of(
            Section::Userspace(UserEvent {
                symbol: "main::run_start".to_string(),
                pid: 10,
                tid: 11,
                event_type: "usdt".to_string()
            }),
            &multi()
        ),
        "[usdt] main::run_start (pid 10 tid 11)"
    );
    assert_eq!(
        text_of(
            Section::Nft(NftEvent {
                table_name: "filter".to_string(),
                chain_name: "input".to_string(),
                verdict: "jump".to_string(),
                verdict_chain_name: Some("other".to_string()),
                table_handle: 1,
                chain_handle: 2,
                rule_handle: Some(3),
                policy: false,
            }),
            &multi()
        ),
        "table filter (1) chain input (2) handle 3 jump chain other"
    );
    assert_eq!(
        text_of(
            Section::Nft(NftEvent {
                table_name: "t".to_string(),
                chain_name: "c".to_string(),
                verdict: "accept".to_string(),
                verdict_chain_name: None,
                table_handle: -1,
                chain_handle: 0,
                rule_handle: None,
                policy: true,
            }),
            &multi()
        ),
        "table t (-1) chain c (0) accept"
    );
    assert_eq!(
        text_of(
            Section::Startup(StartupEvent {
                retis_version: "1.5.0".to_string(),
                clock_monotonic_offset: TimeSpec { sec: 0, nsec: 0 }
            }),
            &multi()
        ),
        "Retis version 1.5.0"
    );
}

fn tuple(src: &str, dst: &str, proto: CtProto) -> CtTuple {
    CtTuple {
        ip: CtIp {
            src: src.to_string(),
            dst: dst.to_string(),
            version: CtIpVersion::V4,
        },
        proto,
    }
}

fn conn(orig: CtProto, reply: CtProto, zone_dir: ZoneDir, tcp_state: Option<&str>) -> CtConnEvent {
    CtConnEvent {
        zone_id: 5,
        zone_dir,
        orig: tuple("10.0.0.1", "10.0.0.2", orig),
        reply: tuple("10.0.0.2", "10.0.0.1", reply),
        tcp_state: tcp_state.map(|s| s.to_string()),
    }
}

#[test]
fn conntrack_text() {
    let tcp = conn(
        CtProto::Tcp(CtTcp {
            sport: 1000,
            dport: 80,
        }),
        CtProto::Tcp(CtTcp {
            sport: 80,
            dport: 1000,
        }),
        ZoneDir::Default,
        Some("ESTABLISHED"),
    );
    let mut out = String::new();
    format_conn(&tcp, &mut out);
    assert_eq!(
        out,
        "tcp (ESTABLISHED) orig [10.0.0.1.1000 > 10.0.0.2.80] reply [10.0.0.2.80 > 10.0.0.1.1000] zone 5"
    );

    let udp = conn(
        CtProto::Udp(CtUdp {
            sport: 53,
            dport: 5353,
        }),
        CtProto::Udp(CtUdp {
            sport: 5353,
            dport: 53,
        }),
        ZoneDir::Original,
        None,
    );
    let icmp = conn(
        CtProto::Icmp(CtIcmp {
            code: 0,
            icmp_type: 8,
            id: 7,
        }),
        CtProto::Icmp(CtIcmp {
            code: 0,
            icmp_type: 0,
            id: 7,
        }),
        ZoneDir::Unset,
        None,
    );
    let mut out = String::new();
    fmt_ct(
        &CtEvent {
            state: CtState::New,
            base: udp,
            parent: Some(icmp),
        },
        &mut out,
    );
    assert_eq!(
        out,
        "ct_state NEW udp orig [10.0.0.1.53 > 10.0.0.2.5353] reply [10.0.0.2.5353 > 10.0.0.1.53] \
         orig-zone 5 parent [icmp orig [10.0.0.1 > 10.0.0.2 type 8 code 0 id 7] reply \
         [10.0.0.2 > 10.0.0.1 type 0 code 0 id 7] ]"
    );

    // Tuples of different protocols are not written; a state is.
    let mixed = conn(
        CtProto::Tcp(CtTcp { sport: 1, dport: 2 }),
        CtProto::Udp(CtUdp { sport: 2, dport: 1 }),
        ZoneDir::Reply,
        None,
    );
    let mut out = String::new();
    fmt_ct(
        &CtEvent {
            state: CtState::RelatedReply,
            base: mixed,
            parent: None,
        },
        &mut out,
    );
    assert_eq!(out, "ct_state RELATED_REPLY reply-zone 5");

    let unknown = conn(
        CtProto::Tcp(CtTcp { sport: 1, dport: 2 }),
        CtProto::Tcp(CtTcp { sport: 2, dport: 1 }),
        ZoneDir::Unset,
        None,
    );
    let mut out = String::new();
    format_conn(&unknown, &mut out);
    assert_eq!(
        out,
        "tcp (UNKNOWN) orig [10.0.0.1.1 > 10.0.0.2.2] reply [10.0.0.2.2 > 10.0.0.1.1] "
    );
}

const TCP_PACKET: [u8; 66] = [
    46, 137, 59, 254, 34, 122, 42, 186, 90, 193, 129, 79, 8, 0, 69, 0, 0, 52, 32, 32, 64, 0, 55,
    6, 237, 160, 1, 1, 1, 1, 10, 0, 42, 2, 1, 187, 157, 12, 31, 149, 22, 86, 145, 251, 180, 241,
    128, 17, 0, 8, 17, 72, 0, 0, 1, 1, 8, 10, 28, 109, 231, 120, 127, 134, 144, 92,
];

fn tcp_skb() -> SkbEvent {
    let mut data = Vec::new();
    data.extend_from_slice(&66u32.to_le_bytes());
    data.extend_from_slice(&66u32.to_le_bytes());
    let mut buffer = [0u8; 255];
    buffer[..66].copy_from_slice(&TCP_PACKET);
    data.extend_from_slice(&buffer);
    data.push(0);
    let mut frame = vec![12u8, 1, 7, 1, 8, 1];
    frame.extend_from_slice(&data);
    let mut factories = default_factories(true);
    let event = parse_raw_event(&frame, &mut factories).unwrap();
    match event.get_section(SectionId::Skb) {
        Some(Section::Skb(skb)) => skb.clone(),
        _ => panic!("no skb section"),
    }
}

#[test]
fn skb_section_text() {
    let mut out = String::new();
    fmt_skb(&tcp_skb(), &mut out);
    assert_eq!(
        out,
        " 2a:ba:5a:c1:81:4f > 2e:89:3b:fe:22:7a ethertype IPv4 (0x0800) 1.1.1.1.443 > \
         10.0.42.2.40204 len 52 proto TCP (6) flags [F.] seq 529864278:529864322 ack 2449192177 \
         win 8"
    );

    let mut skb = SkbEvent::new();
    skb.ns = Some(SkbNsEvent { netns: 4026531840 });
    skb.dev = Some(SkbDevEvent {
        name: "eth0".to_string(),
        ifindex: 2,
        rx_ifindex: Some(3),
    });
    skb.meta = Some(SkbMetaEvent {
        len: 66,
        data_len: 0,
        hash: 0xab,
        ip_summed: 0,
        csum: 0,
        csum_level: 0,
        priority: 1,
    });
    skb.data_ref = Some(SkbDataRefEvent {
        nohdr: false,
        cloned: true,
        fclone: 1,
        users: 2,
        dataref: 3,
    });
    let mut out = String::new();
    fmt_skb(&skb, &mut out);
    assert_eq!(
        out,
        " ns 4026531840 if 2 (eth0) rxif 3 skb [hash 0xab len 66 priority 1 cloned fclone 1 \
         users 2 dataref 3]"
    );

    let mut out = String::new();
    fmt_skb(&SkbEvent::new(), &mut out);
    assert_eq!(out, "");
}

fn full_event() -> Event {
    let mut event = Event::new();
    let mut skb = SkbEvent::new();
    skb.ns = Some(SkbNsEvent { netns: 5 });
    event
        .insert_section(SectionId::Skb, Section::Skb(skb))
        .unwrap();
    event
        .insert_section(
            SectionId::Startup,
            Section::Startup(StartupEvent {
                retis_version: "1".to_string(),
                clock_monotonic_offset: TimeSpec { sec: 0, nsec: 0 },
            }),
        )
        .unwrap();
    event
        .insert_section(SectionId::SkbTracking, Section::SkbTracking(tracking()))
        .unwrap();
    event
        .insert_section(
            SectionId::Kernel,
            Section::Kernel(kernel("consume_skb", "kprobe", Some(&["a", "b"]))),
        )
        .unwrap();
    event
        .insert_section(
            SectionId::SkbDrop,
            Section::SkbDrop(SkbDropEvent {
                subsys: None,
                drop_reason: "NOT_SPECIFIED".to_string(),
            }),
        )
        .unwrap();
    event
        .insert_section(SectionId::Common, Section::Common(common(42, 1, None)))
        .unwrap();
    event
}

#[test]
fn event_text_follows_the_display_order() {
    assert_eq!(
        to_text(&full_event(), &multi()),
        "42 (1) [k] consume_skb #24087f96a136ffff8fa9b9718500 (skb ffff8fa94fabd500) drop \
         (reason NOT_SPECIFIED)\n        a\n        b\n   ns 5\n  Retis version 1"
    );
    assert_eq!(
        to_text(&full_event(), &single()),
        "42 (1) [k] consume_skb #24087f96a136ffff8fa9b9718500 (skb ffff8fa94fabd500) drop \
         (reason NOT_SPECIFIED) [a, b]  ns 5 Retis version 1"
    );
}

#[test]
fn event_text_prefers_kernel_and_tracking() {
    let mut event = Event::new();
    event
        .insert_section(SectionId::Common, Section::Common(common(1, 0, None)))
        .unwrap();
    event
        .insert_section(
            SectionId::Userspace,
            Section::Userspace(UserEvent {
                symbol: "s".to_string(),
                pid: 1,
                tid: 2,
                event_type: "usdt".to_string(),
            }),
        )
        .unwrap();
    event
        .insert_section(SectionId::SkbTracking, Section::SkbTracking(tracking()))
        .unwrap();
    assert_eq!(
        to_text(&event, &multi()),
        "1 (0) [usdt] s (pid 1 tid 2) #24087f96a136ffff8fa9b9718500 (skb ffff8fa94fabd500)"
    );
    event
        .insert_section(
            SectionId::Tracking,
            Section::Tracking(TrackingInfo {
                skb: tracking(),
                idx: 0,
            }),
        )
        .unwrap();
    event
        .insert_section(
            SectionId::Kernel,
            Section::Kernel(kernel("f", "kprobe", None)),
        )
        .unwrap();
    assert_eq!(
        to_text(&event, &multi()),
        "1 (0) [k] f #24087f96a136ffff8fa9b9718500 (skb ffff8fa94fabd500) n 0"
    );
    assert_eq!(to_text(&Event::new(), &multi()), "");
}

#[test]
fn series_text_marks_the_events_that_follow() {
    let mut first = Event::new();
    first
        .insert_section(SectionId::Common, Section::Common(common(1, 0, None)))
        .unwrap();
    let series = EventSeries {
        events: vec![first, full_event(), Event::new()],
    };
    assert_eq!(
        series_to_text(&series, &multi()),
        "1 (0)\n  + 42 (1) [k] consume_skb #24087f96a136ffff8fa9b9718500 (skb \
         ffff8fa94fabd500) drop (reason NOT_SPECIFIED)\n            a\n            b\n       \
         ns 5\n      Retis version 1\n  + \n\n"
    );
    assert_eq!(
        series_to_text(&EventSeries { events: Vec::new() }, &single()),
        "\n"
    );
}
