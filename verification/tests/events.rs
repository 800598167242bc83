use retis::encode::{
    build_common, build_dev, build_ns, build_packet, build_raw_event, build_raw_section,
    build_skb_tracking, build_task, EncodeError,
};
use retis::decode::parse_raw_event;
use retis::error::DecodeError;
use retis::events::common::{CommonEvent, TaskEvent};
use retis::events::ct::{CtProto, CtTcp};
use retis::events::event::Event;
use retis::events::section::Section;
use retis::events::skb::{SkbDevEvent, SkbEvent, SkbNsEvent};
use retis::events::skb_tracking::SkbTrackingEvent;
use retis::factories::builtin::default_factories;
use retis::raw::parse_raw_sections;
use retis::section_id::{SectionId, SectionIdError};

fn common(timestamp: u64) -> Section {
    Section::Common(CommonEvent {
        timestamp,
        smp_id: 0,
        task: None,
    })
}

#[test]
fn section_ids_on_the_wire() {
    let all = [
        (1, "common", SectionId::Common),
        (2, "kernel", SectionId::Kernel),
        (3, "userspace", SectionId::Userspace),
        (4, "tracking", SectionId::Tracking),
        (5, "skb-tracking", SectionId::SkbTracking),
        (6, "skb-drop", SectionId::SkbDrop),
        (7, "skb", SectionId::Skb),
        (8, "ovs", SectionId::Ovs),
        (9, "nft", SectionId::Nft),
        (10, "ct", SectionId::Ct),
        (11, "startup", SectionId::Startup),
    ];
    for (n, name, id) in all {
        assert_eq!(SectionId::from_u8(n), Ok(id));
        assert_eq!(id.to_u8(), n);
        assert_eq!(id.to_str(), name);
        assert_eq!(SectionId::from_str(name), Ok(id));
    }
    assert_eq!(SectionId::from_u8(0), Err(SectionIdError::UnknownId(0)));
    assert_eq!(SectionId::from_u8(12), Err(SectionIdError::UnknownId(12)));
    assert_eq!(SectionId::from_u8(255), Err(SectionIdError::UnknownId(255)));
    assert_eq!(SectionId::from_str("skb_tracking"), Err(SectionIdError::UnknownName));
    assert_eq!(SectionId::from_str(""), Err(SectionIdError::UnknownName));
    assert_eq!(SectionId::Common.next(), Some(SectionId::Kernel));
    assert_eq!(SectionId::Startup.next(), None);
}

#[test]
fn event_holds_one_section_per_owner() {
    let mut event = Event::new();
    assert_eq!(event.len(), 0);
    assert!(event.get_section(SectionId::Common).is_none());
    assert_eq!(event.insert_section(SectionId::Common, common(1)), Ok(()));
    assert_eq!(
        event.insert_section(SectionId::Common, common(2)),
        Err(DecodeError::DuplicateSection(SectionId::Common))
    );
    assert_eq!(event.get_section(SectionId::Common), Some(&common(1)));
    assert_eq!(event.len(), 1);
    assert!(event.contains(SectionId::Common));
    assert!(!event.contains(SectionId::Skb));
}

#[test]
fn sections_come_in_numeric_order() {
    let mut event = Event::new();
    for id in [
        SectionId::Startup,
        SectionId::Skb,
        SectionId::Common,
        SectionId::Ct,
        SectionId::Kernel,
    ] {
        event.insert_section(id, common(id.to_u8() as u64)).unwrap();
    }
    assert_eq!(
        event.sections(),
        vec![
            SectionId::Common,
            SectionId::Kernel,
            SectionId::Skb,
            SectionId::Ct,
            SectionId::Startup
        ]
    );
}

#[test]
fn section_can_be_changed_in_place() {
    let mut event = Event::new();
    event.insert_section(SectionId::Common, common(1)).unwrap();
    event
        .insert_section(SectionId::Skb, Section::Skb(SkbEvent::new()))
        .unwrap();
    assert!(event.get_section_mut(SectionId::Ovs).is_none());
    match event.get_section_mut(SectionId::Common) {
        Some(Section::Common(c)) => c.timestamp = 99,
        _ => panic!("no common section"),
    }
    assert_eq!(event.get_section(SectionId::Common), Some(&common(99)));
    assert_eq!(
        event.get_section(SectionId::Skb),
        Some(&Section::Skb(SkbEvent::new()))
    );
    assert_eq!(event.len(), 2);
}

#[test]
fn section_knows_its_kind() {
    assert_eq!(common(0).section_id(), SectionId::Common);
    assert_eq!(Section::Skb(SkbEvent::new()).section_id(), SectionId::Skb);
}

#[test]
fn frames_are_read_back_as_written() {
    let mut payload = Vec::new();
    build_raw_section(&mut payload, 7, 3, &[1, 2, 3, 4]);
    build_raw_section(&mut payload, 1, 0, &[9; 12]);
    build_raw_section(&mut payload, 7, 5, &[0, 1, 2, 3, 4]);
    let frame = build_raw_event(&payload).unwrap();
    assert_eq!(&frame[..2], &[33, 0]);
    let sections = parse_raw_sections(&frame).unwrap();
    let seen: Vec<(u8, u8, &[u8])> = sections
        .iter()
        .map(|s| (s.header.owner, s.header.data_type, s.data))
        .collect();
    assert_eq!(
        seen,
        vec![
            (7, 3, &[1u8, 2, 3, 4][..]),
            (1, 0, &[9u8; 12][..]),
            (7, 5, &[0u8, 1, 2, 3, 4][..])
        ]
    );
}

#[test]
fn frames_have_a_payload_that_fits() {
    assert_eq!(build_raw_event(&Vec::new()), Err(EncodeError::EmptyRecord));
    assert_eq!(build_raw_event(&vec![0; 1023]), Err(EncodeError::TooLong));
    let frame = build_raw_event(&vec![0; 1022]).unwrap();
    assert_eq!(frame.len(), 1024);
    assert_eq!(&frame[..2], &[0xfe, 0x03]);
}

#[test]
fn sections_are_read_back_as_written() {
    let tracking = SkbTrackingEvent {
        orig_head: 0xffff888012345000,
        timestamp: 0x0123456789abcdef,
        skb: u64::MAX,
    };
    let mut payload = Vec::new();
    build_common(&mut payload, 0xfedcba9876543210, 0x89abcdef);
    build_skb_tracking(&mut payload, &tracking);
    let frame = build_raw_event(&payload).unwrap();
    let mut factories = default_factories(false);
    let event = parse_raw_event(&frame, &mut factories).unwrap();
    assert_eq!(
        event.sections(),
        vec![SectionId::Common, SectionId::SkbTracking]
    );
    assert_eq!(
        event.get_section(SectionId::Common),
        Some(&Section::Common(CommonEvent {
            timestamp: 0xfedcba9876543210,
            smp_id: 0x89abcdef,
            task: None
        }))
    );
    assert_eq!(
        event.get_section(SectionId::SkbTracking),
        Some(&Section::SkbTracking(tracking))
    );
}

#[test]
fn built_records_are_read_back() {
    let capture: [u8; 66] = [
        46, 137, 59, 254, 34, 122, 42, 186, 90, 193, 129, 79, 8, 0, 69, 0, 0, 52, 32, 32, 64, 0,
        55, 6, 237, 160, 1, 1, 1, 1, 10, 0, 42, 2, 1, 187, 157, 12, 31, 149, 22, 86, 145, 251,
        180, 241, 128, 17, 0, 8, 17, 72, 0, 0, 1, 1, 8, 10, 28, 109, 231, 120, 127, 134, 144, 92,
    ];
    let mut payload = Vec::new();
    build_common(&mut payload, 42, 3);
    build_task(&mut payload, -2, 0x7fffffff, b"retis");
    build_dev(&mut payload, b"eth0", 7, 0);
    build_ns(&mut payload, 0xf0000001);
    build_packet(&mut payload, 66, &capture, false);
    assert_eq!(payload.len(), 16 + 76 + 28 + 8 + 268);
    let frame = build_raw_event(&payload).unwrap();
    let mut factories = default_factories(false);
    let event = parse_raw_event(&frame, &mut factories).unwrap();
    assert_eq!(event.sections(), vec![SectionId::Common, SectionId::Skb]);
    assert_eq!(
        event.get_section(SectionId::Common),
        Some(&Section::Common(CommonEvent {
            timestamp: 42,
            smp_id: 3,
            task: Some(TaskEvent {
                pid: -2,
                tgid: 0x7fffffff,
                comm: "retis".to_string(),
            }),
        }))
    );
    let skb = match event.get_section(SectionId::Skb) {
        Some(Section::Skb(skb)) => skb,
        _ => panic!("no skb section"),
    };
    assert_eq!(
        skb.dev,
        Some(SkbDevEvent {
            name: "eth0".to_string(),
            ifindex: 7,
            rx_ifindex: None,
        })
    );
    assert_eq!(skb.ns, Some(SkbNsEvent { netns: 0xf0000001 }));
    let packet = skb.packet.as_ref().unwrap();
    assert_eq!(packet.len, 66);
    assert_eq!(packet.capture_len, 66);
    assert_eq!(packet.packet.0, capture.to_vec());
    assert!(skb.eth.is_none());
    assert_eq!(skb.ip.as_ref().unwrap().saddr, "1.1.1.1");
    assert_eq!(skb.tcp.as_ref().unwrap().dport, 40204);
}

#[test]
fn conntrack_protocol_defaults_to_tcp() {
    assert_eq!(CtTcp::default(), CtTcp { sport: 0, dport: 0 });
    assert_eq!(
        CtProto::default(),
        CtProto::Tcp(CtTcp { sport: 0, dport: 0 })
    );
}
