use retis::decode::parse_raw_event;
use retis::error::{DecodeError, SectionError};
use retis::events::ovs::{OvsEvent, OvsEventType, UpcallEvent};
use retis::events::section::Section;
use retis::events::skb::{
    ArpOperation, SkbDataRefEvent, SkbEvent, SkbGsoEvent, SkbIpVersion, SkbIpv4Event,
    SkbIpv6Event, SkbMetaEvent, SkbNsEvent, SkbTcpEvent, SkbUdpEvent,
};
use retis::events::skb_tracking::SkbTrackingEvent;
use retis::factories::builtin::default_factories;
use retis::helpers::{etype_str, parse_eth_addr, parse_ipv4_addr, protocol_str};
use retis::section_id::SectionId;

const TCP_PACKET: [u8; 66] = [
    46, 137, 59, 254, 34, 122, 42, 186, 90, 193, 129, 79, 8, 0, 69, 0, 0, 52, 32, 32, 64, 0, 55,
    6, 237, 160, 1, 1, 1, 1, 10, 0, 42, 2, 1, 187, 157, 12, 31, 149, 22, 86, 145, 251, 180, 241,
    128, 17, 0, 8, 17, 72, 0, 0, 1, 1, 8, 10, 28, 109, 231, 120, 127, 134, 144, 92,
];

fn record(owner: u8, data_type: u8, data: &[u8]) -> Vec<u8> {
    let mut out = vec![owner, data_type];
    out.extend_from_slice(&(data.len() as u16).to_le_bytes());
    out.extend_from_slice(data);
    out
}

fn frame(records: &[Vec<u8>]) -> Vec<u8> {
    let payload: usize = records.iter().map(|r| r.len()).sum();
    let mut out = (payload as u16).to_le_bytes().to_vec();
    for r in records {
        out.extend_from_slice(r);
    }
    out
}

fn packet_record(len: u32, capture_len: u32, packet: &[u8], fake_eth: u8) -> Vec<u8> {
    let mut data = Vec::new();
    data.extend_from_slice(&len.to_le_bytes());
    data.extend_from_slice(&capture_len.to_le_bytes());
    let mut buffer = [0u8; 255];
    buffer[..packet.len()].copy_from_slice(packet);
    data.extend_from_slice(&buffer);
    data.push(fake_eth);
    record(7, 1, &data)
}

fn decode_skb(records: &[Vec<u8>], report_eth: bool) -> Result<SkbEvent, DecodeError> {
    let mut factories = default_factories(report_eth);
    let event = parse_raw_event(&frame(records), &mut factories)?;
    match event.get_section(SectionId::Skb) {
        Some(Section::Skb(skb)) => Ok(skb.clone()),
        _ => panic!("no skb section"),
    }
}

#[test]
fn tcp_packet_is_dissected() {
    let skb = decode_skb(&[packet_record(66, 66, &TCP_PACKET, 0)], true).unwrap();
    let packet = skb.packet.unwrap();
    assert_eq!(packet.len, 66);
    assert_eq!(packet.capture_len, 66);
    assert_eq!(packet.packet.0, TCP_PACKET.to_vec());

    let eth = skb.eth.unwrap();
    assert_eq!(eth.etype, 0x0800);
    assert_eq!(eth.src, "2a:ba:5a:c1:81:4f");
    assert_eq!(eth.dst, "2e:89:3b:fe:22:7a");

    let ip = skb.ip.unwrap();
    assert_eq!(ip.saddr, "1.1.1.1");
    assert_eq!(ip.daddr, "10.0.42.2");
    assert_eq!(
        ip.version,
        SkbIpVersion::V4(SkbIpv4Event {
            tos: 0,
            id: 8224,
            flags: 2,
            offset: 0
        })
    );
    assert_eq!(ip.protocol, 6);
    assert_eq!(ip.len, 52);
    assert_eq!(ip.ttl, 55);
    assert_eq!(ip.ecn, 0);

    assert_eq!(
        skb.tcp,
        Some(SkbTcpEvent {
            sport: 443,
            dport: 40204,
            seq: 529864278,
            ack_seq: 2449192177,
            window: 8,
            doff: 8,
            flags: 17,
        })
    );
    assert!(skb.udp.is_none());
    assert!(skb.icmp.is_none());
    assert!(skb.arp.is_none());
}

#[test]
fn ethernet_header_is_not_reported_unless_asked_for() {
    let skb = decode_skb(&[packet_record(66, 66, &TCP_PACKET, 0)], false).unwrap();
    assert!(skb.eth.is_none());
    assert!(skb.ip.is_some());
    // A fake header is never reported.
    let skb = decode_skb(&[packet_record(66, 66, &TCP_PACKET, 1)], true).unwrap();
    assert!(skb.eth.is_none());
    assert!(skb.tcp.is_some());
}

#[test]
fn unknown_ethertype_gives_the_ethernet_header() {
    let mut packet = TCP_PACKET;
    packet[12] = 0x88;
    packet[13] = 0xf7;
    let skb = decode_skb(&[packet_record(66, 66, &packet, 1)], false).unwrap();
    assert_eq!(skb.eth.unwrap().etype, 0x88f7);
    assert!(skb.ip.is_none());
}

#[test]
fn truncated_headers_leave_parsed_sections() {
    // Ethernet and 20 bytes of IPv4, no room for TCP.
    let skb = decode_skb(&[packet_record(66, 34, &TCP_PACKET[..34], 0)], true).unwrap();
    assert!(skb.eth.is_some());
    assert!(skb.ip.is_some());
    assert!(skb.tcp.is_none());
    // Ethernet only.
    let skb = decode_skb(&[packet_record(66, 20, &TCP_PACKET[..20], 0)], true).unwrap();
    assert!(skb.eth.is_some());
    assert!(skb.ip.is_none());
    assert_eq!(skb.packet.unwrap().packet.0.len(), 20);
}

#[test]
fn short_or_overlong_capture_is_an_error() {
    assert_eq!(
        decode_skb(&[packet_record(66, 13, &TCP_PACKET[..13], 0)], true).err(),
        Some(DecodeError::SectionDecode(
            SectionId::Skb,
            SectionError::ShortPacket
        ))
    );
    assert_eq!(
        decode_skb(&[packet_record(300, 256, &TCP_PACKET, 0)], true).err(),
        Some(DecodeError::SectionDecode(
            SectionId::Skb,
            SectionError::BadCaptureLength
        ))
    );
}

#[test]
fn udp_over_ipv6_is_dissected() {
    let mut packet = vec![0u8; 14];
    packet[12] = 0x86;
    packet[13] = 0xdd;
    // Version 6, traffic class 0x03, flow label 0x12345.
    packet.extend_from_slice(&[0x60, 0x31, 0x23, 0x45, 0, 8, 17, 64]);
    let mut src = [0u8; 16];
    src[0] = 0x20;
    src[1] = 0x01;
    src[2] = 0x0d;
    src[3] = 0xb8;
    src[15] = 1;
    let mut dst = src;
    dst[15] = 2;
    packet.extend_from_slice(&src);
    packet.extend_from_slice(&dst);
    packet.extend_from_slice(&[0x04, 0xd2, 0x00, 0x35, 0, 8, 0, 0]);
    let skb =
        decode_skb(&[packet_record(packet.len() as u32, packet.len() as u32, &packet, 0)], true)
            .unwrap();
    let ip = skb.ip.unwrap();
    assert_eq!(ip.saddr, "2001:db8::1");
    assert_eq!(ip.daddr, "2001:db8::2");
    assert_eq!(
        ip.version,
        SkbIpVersion::V6(SkbIpv6Event { flow_label: 0x12345 })
    );
    assert_eq!(ip.protocol, 17);
    assert_eq!(ip.len, 8);
    assert_eq!(ip.ttl, 64);
    assert_eq!(ip.ecn, 3);
    assert_eq!(
        skb.udp,
        Some(SkbUdpEvent {
            sport: 1234,
            dport: 53,
            len: 8
        })
    );
}

#[test]
fn icmpv6_over_ipv6_is_dissected() {
    let mut packet = vec![0u8; 14];
    packet[12] = 0x86;
    packet[13] = 0xdd;
    packet.extend_from_slice(&[0x60, 0, 0, 0, 0, 8, 58, 255]);
    let mut src = [0u8; 16];
    src[0] = 0xfe;
    src[1] = 0x80;
    src[15] = 1;
    let mut dst = [0u8; 16];
    dst[0] = 0xff;
    dst[1] = 0x02;
    dst[15] = 1;
    packet.extend_from_slice(&src);
    packet.extend_from_slice(&dst);
    // Echo request.
    packet.extend_from_slice(&[128, 3, 0, 0, 0, 1, 0, 2]);
    let skb =
        decode_skb(&[packet_record(packet.len() as u32, packet.len() as u32, &packet, 0)], false)
            .unwrap();
    let ip = skb.ip.unwrap();
    assert_eq!(ip.saddr, "fe80::1");
    assert_eq!(ip.daddr, "ff02::1");
    assert_eq!(ip.protocol, 58);
    let icmp = skb.icmpv6.unwrap();
    assert_eq!((icmp.icmp_type, icmp.code), (128, 3));
    assert!(skb.icmp.is_none());
    assert!(skb.eth.is_none());
}

#[test]
fn arp_request_is_dissected() {
    let mut packet = vec![0xffu8; 6];
    packet.extend_from_slice(&[2, 0, 0, 0, 0, 1, 0x08, 0x06]);
    packet.extend_from_slice(&[0, 1, 8, 0, 6, 4, 0, 1]);
    packet.extend_from_slice(&[2, 0, 0, 0, 0, 1, 192, 168, 0, 1]);
    packet.extend_from_slice(&[0, 0, 0, 0, 0, 0, 192, 168, 0, 254]);
    let skb =
        decode_skb(&[packet_record(packet.len() as u32, packet.len() as u32, &packet, 0)], true)
            .unwrap();
    let arp = skb.arp.unwrap();
    assert_eq!(arp.operation, ArpOperation::Request);
    assert_eq!(arp.sha, "02:00:00:00:00:01");
    assert_eq!(arp.spa, "192.168.0.1");
    assert_eq!(arp.tha, "00:00:00:00:00:00");
    assert_eq!(arp.tpa, "192.168.0.254");

    // Another operation than a request or a reply gives nothing.
    packet[21] = 3;
    let skb =
        decode_skb(&[packet_record(packet.len() as u32, packet.len() as u32, &packet, 0)], true)
            .unwrap();
    assert!(skb.arp.is_none());
    assert!(skb.eth.is_some());
}

#[test]
fn icmp_is_dissected() {
    let mut packet = TCP_PACKET[..34].to_vec();
    packet[23] = 1;
    packet.extend_from_slice(&[8, 0, 0, 0]);
    let skb =
        decode_skb(&[packet_record(packet.len() as u32, packet.len() as u32, &packet, 0)], true)
            .unwrap();
    let icmp = skb.icmp.unwrap();
    assert_eq!((icmp.icmp_type, icmp.code), (8, 0));
    assert!(skb.tcp.is_none());
}

#[test]
fn dev_ns_meta_dataref_gso_are_read() {
    let mut dev = b"eth0".to_vec();
    dev.resize(16, 0);
    dev.extend_from_slice(&3u32.to_le_bytes());
    dev.extend_from_slice(&0u32.to_le_bytes());
    let mut meta = Vec::new();
    meta.extend_from_slice(&1500u32.to_le_bytes());
    meta.extend_from_slice(&100u32.to_le_bytes());
    meta.extend_from_slice(&0xdeadbeefu32.to_le_bytes());
    meta.push(2);
    meta.extend_from_slice(&0x1234u32.to_le_bytes());
    meta.push(1);
    meta.extend_from_slice(&7u32.to_le_bytes());
    let mut gso = vec![1u8, 2];
    gso.extend_from_slice(&1448u32.to_le_bytes());
    gso.extend_from_slice(&3u32.to_le_bytes());
    gso.extend_from_slice(&17u32.to_le_bytes());
    let skb = decode_skb(
        &[
            record(7, 2, &dev),
            record(7, 3, &0xf0000001u32.to_le_bytes()),
            record(7, 4, &meta),
            record(7, 5, &[1, 0, 2, 3, 4]),
            record(7, 6, &gso),
        ],
        false,
    )
    .unwrap();
    let d = skb.dev.unwrap();
    assert_eq!(d.name, "eth0");
    assert_eq!(d.ifindex, 3);
    assert_eq!(d.rx_ifindex, None);
    assert_eq!(skb.ns, Some(SkbNsEvent { netns: 0xf0000001 }));
    assert_eq!(
        skb.meta,
        Some(SkbMetaEvent {
            len: 1500,
            data_len: 100,
            hash: 0xdeadbeef,
            ip_summed: 2,
            csum: 0x1234,
            csum_level: 1,
            priority: 7,
        })
    );
    assert_eq!(
        skb.data_ref,
        Some(SkbDataRefEvent {
            nohdr: true,
            cloned: false,
            fclone: 2,
            users: 3,
            dataref: 4,
        })
    );
    assert_eq!(
        skb.gso,
        Some(SkbGsoEvent {
            flags: 1,
            frags: 2,
            size: 1448,
            segs: 3,
            gso_type: 17,
        })
    );
}

#[test]
fn dev_with_invalid_name_is_left_out() {
    let mut dev = vec![0xffu8; 16];
    dev.extend_from_slice(&3u32.to_le_bytes());
    dev.extend_from_slice(&9u32.to_le_bytes());
    let skb = decode_skb(&[record(7, 2, &dev)], false).unwrap();
    assert!(skb.dev.is_none());

    let mut dev = b"veth-\xc3\xa9".to_vec();
    dev.resize(16, 0);
    dev.extend_from_slice(&3u32.to_le_bytes());
    dev.extend_from_slice(&9u32.to_le_bytes());
    let skb = decode_skb(&[record(7, 2, &dev)], false).unwrap();
    let d = skb.dev.unwrap();
    assert_eq!(d.name, "veth-\u{e9}");
    assert_eq!(d.rx_ifindex, Some(9));
}

#[test]
fn skb_records_of_wrong_size_or_type_are_errors() {
    for data_type in [2u8, 3, 4, 5, 6, 1] {
        assert_eq!(
            decode_skb(&[record(7, data_type, &[0])], false).err(),
            Some(DecodeError::SectionDecode(
                SectionId::Skb,
                SectionError::BadSize
            ))
        );
    }
    assert_eq!(
        decode_skb(&[record(7, 9, &[0])], false).err(),
        Some(DecodeError::SectionDecode(
            SectionId::Skb,
            SectionError::UnknownDataType
        ))
    );
}

#[test]
fn skb_tracking_is_a_single_record() {
    let mut data = Vec::new();
    data.extend_from_slice(&0xffff888012345000u64.to_le_bytes());
    data.extend_from_slice(&123456789u64.to_le_bytes());
    data.extend_from_slice(&0xffff888012346000u64.to_le_bytes());
    let mut factories = default_factories(false);
    let event = parse_raw_event(&frame(&[record(5, 0, &data)]), &mut factories).unwrap();
    assert_eq!(
        event.get_section(SectionId::SkbTracking),
        Some(&Section::SkbTracking(SkbTrackingEvent {
            orig_head: 0xffff888012345000,
            timestamp: 123456789,
            skb: 0xffff888012346000,
        }))
    );
    assert_eq!(
        parse_raw_event(
            &frame(&[record(5, 0, &data), record(5, 0, &data)]),
            &mut factories
        )
        .err(),
        Some(DecodeError::SectionDecode(
            SectionId::SkbTracking,
            SectionError::NotSingleSection
        ))
    );
    assert_eq!(
        parse_raw_event(&frame(&[record(5, 0, &data[..23])]), &mut factories).err(),
        Some(DecodeError::SectionDecode(
            SectionId::SkbTracking,
            SectionError::BadSize
        ))
    );
}

#[test]
fn ovs_upcall_is_read() {
    let mut factories = default_factories(false);
    let event =
        parse_raw_event(&frame(&[record(8, 0, &[2, 0x39, 0x05, 0, 0])]), &mut factories).unwrap();
    assert_eq!(
        event.get_section(SectionId::Ovs),
        Some(&Section::Ovs(OvsEvent {
            upcall: Some(UpcallEvent { cmd: 2, port: 1337 })
        }))
    );
    assert_eq!(OvsEventType::from_u8(0), Ok(OvsEventType::Upcall));
    assert_eq!(OvsEventType::from_u8(1), Err(SectionError::UnknownDataType));
}

#[test]
fn sections_of_several_owners_are_all_built() {
    let mut core = Vec::new();
    core.extend_from_slice(&42u64.to_le_bytes());
    core.extend_from_slice(&1u32.to_le_bytes());
    let mut tracking = Vec::new();
    tracking.extend_from_slice(&1u64.to_le_bytes());
    tracking.extend_from_slice(&2u64.to_le_bytes());
    tracking.extend_from_slice(&3u64.to_le_bytes());
    let mut factories = default_factories(true);
    let event = parse_raw_event(
        &frame(&[
            record(7, 3, &5u32.to_le_bytes()),
            record(1, 0, &core),
            record(5, 0, &tracking),
            record(7, 5, &[0, 1, 0, 1, 1]),
        ]),
        &mut factories,
    )
    .unwrap();
    assert_eq!(
        event.sections(),
        vec![SectionId::Common, SectionId::SkbTracking, SectionId::Skb]
    );
    match event.get_section(SectionId::Skb) {
        Some(Section::Skb(skb)) => {
            assert!(skb.ns.is_some());
            assert!(skb.data_ref.is_some());
        }
        _ => panic!("no skb section"),
    }
}

#[test]
fn names_of_protocols() {
    assert_eq!(etype_str(0x0800), Some("IPv4"));
    assert_eq!(etype_str(0x86dd), Some("IPv6"));
    assert_eq!(etype_str(0x88e5), Some("802.1AE MACsec"));
    assert_eq!(etype_str(0x1234), None);
    assert_eq!(protocol_str(6), Some("TCP"));
    assert_eq!(protocol_str(143), Some("Ethernet"));
    assert_eq!(protocol_str(0), None);
}

#[test]
fn text_of_addresses() {
    assert_eq!(
        parse_eth_addr(&[0x2e, 0x89, 0x3b, 0xfe, 0x22, 0x7a]),
        "2e:89:3b:fe:22:7a"
    );
    assert_eq!(parse_eth_addr(&[0, 1, 0x0a, 0xff, 0x10, 0x09]), "00:01:0a:ff:10:09");
    assert_eq!(parse_ipv4_addr(0x0a002a02), "10.0.42.2");
    assert_eq!(parse_ipv4_addr(0), "0.0.0.0");
    assert_eq!(parse_ipv4_addr(0xffffffff), "255.255.255.255");
}
