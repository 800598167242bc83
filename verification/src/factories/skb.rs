//! Factory of the skb section.

use vstd::prelude::*;
use vstd::slice::slice_subrange;
use vstd::utf8::{
    decode_utf8, is_char_boundary_iff_not_is_continuation_byte, valid_utf8,
    valid_utf8_split,
};
use crate::bytes::{le_u32, read_u32_le};
use crate::error::SectionError;
use crate::events::section::Section;
use crate::events::skb::{
    empty_skb, ArpOperation, RawPacket, SkbArpEvent, SkbArpModel, SkbDataRefEvent, SkbDevEvent,
    SkbDevModel, SkbEthEvent, SkbEthModel, SkbEvent, SkbGsoEvent, SkbIcmpEvent, SkbIcmpV6Event,
    SkbIpEvent, SkbIpModel, SkbIpVersion, SkbIpv4Event, SkbIpv6Event, SkbMetaEvent, SkbModel,
    SkbNsEvent, SkbPacketEvent, SkbPacketModel, SkbTcpEvent, SkbUdpEvent,
};
use crate::factories::common::parse_raw_section;
use crate::factory::RawEventSectionFactory;
use crate::helpers::{eth_addr_text, ipv4_addr_text, parse_eth_addr, parse_ipv4_addr};
use crate::packet::{
    arp_header, arp_model_of, eth_header, eth_model_of, icmp_header, icmp_header_of,
    icmpv6_header, ipv4_header, ipv4_model_of, ipv6_header, ipv6_model_of, tcp_header,
    tcp_header_of, udp_header, udp_header_of, ArpHeader, ArpModel, EthHeader, EthModel,
    IcmpHeader, Ipv4Header, Ipv4Model, Ipv6Header, Ipv6Model, TcpHeader, UdpHeader,
    ARP_MIN_SIZE, ETHERTYPE_ARP, ETHERTYPE_IPV4, ETHERTYPE_IPV6, ETH_MIN_SIZE, ICMP_MIN_SIZE,
    IPV4_MIN_SIZE, IPV6_MIN_SIZE, PROTO_ICMP, PROTO_ICMPV6, PROTO_TCP, PROTO_UDP, TCP_MIN_SIZE,
    UDP_MIN_SIZE,
};
use crate::raw::{records_of, BpfRawSection, RawRecord};
use crate::text::string_from_utf8;

verus! {

/// Data type of the record holding the raw packet.
pub const SECTION_PACKET: u8 = 1;

/// Data type of the record holding the net device.
pub const SECTION_DEV: u8 = 2;

/// Data type of the record holding the net namespace.
pub const SECTION_NS: u8 = 3;

/// Data type of the record holding the metadata.
pub const SECTION_META: u8 = 4;

/// Data type of the record holding the reference counts.
pub const SECTION_DATA_REF: u8 = 5;

/// Data type of the record holding the segmentation information.
pub const SECTION_GSO: u8 = 6;

/// Size of the record holding the net device.
pub const RAW_DEV_EVENT_SIZE: usize = 24;

/// Size of the record holding the net namespace.
pub const RAW_NS_EVENT_SIZE: usize = 4;

/// Size of the record holding the metadata.
pub const RAW_META_EVENT_SIZE: usize = 22;

/// Size of the record holding the reference counts.
pub const RAW_DATA_REF_EVENT_SIZE: usize = 5;

/// Size of the record holding the segmentation information.
pub const RAW_GSO_EVENT_SIZE: usize = 14;

/// Size of the record holding the raw packet.
pub const RAW_PACKET_EVENT_SIZE: usize = 264;

/// Size of the buffer holding the captured bytes of a packet.
pub const RAW_PACKET_MAX: usize = 255;

/// The Ethernet fields that a header gives.
pub open spec fn eth_event_of(h: EthModel) -> SkbEthModel {
    SkbEthModel {
        etype: h.ethertype,
        src: eth_addr_text(h.source),
        dst: eth_addr_text(h.destination),
    }
}

/// Reads the Ethernet fields of a header.
pub fn unmarshal_eth(eth: &EthHeader) -> (r: SkbEthEvent)
    ensures
        r@ == eth_event_of(eth@),
{
    SkbEthEvent {
        etype: eth.ethertype,
        src: parse_eth_addr(&eth.source),
        dst: parse_eth_addr(&eth.destination),
    }
}

/// The ARP fields that a header gives: those of a request or of a reply,
/// and nothing for another operation.
pub open spec fn arp_event_of(h: ArpModel) -> Option<SkbArpModel> {
    if h.operation == 1 || h.operation == 2 {
        Some(
            SkbArpModel {
                operation: if h.operation == 1 {
                    ArpOperation::Request
                } else {
                    ArpOperation::Reply
                },
                sha: eth_addr_text(h.sender_hw_addr),
                spa: ipv4_addr_text(h.sender_proto_addr),
                tha: eth_addr_text(h.target_hw_addr),
                tpa: ipv4_addr_text(h.target_proto_addr),
            },
        )
    } else {
        None
    }
}

/// Reads the ARP fields of a header. Only ARP for IPv4 over Ethernet is
/// read, requests and replies.
pub fn unmarshal_arp(arp: &ArpHeader) -> (r: Option<SkbArpEvent>)
    ensures
        match arp_event_of(arp@) {
            Some(m) => r matches Some(e) && e@ == m,
            None => r is None,
        },
{
    let operation = match arp.operation {
        1 => ArpOperation::Request,
        2 => ArpOperation::Reply,
        _ => {
            return None;
        },
    };
    Some(
        SkbArpEvent {
            operation,
            sha: parse_eth_addr(&arp.sender_hw_addr),
            spa: parse_ipv4_addr(arp.sender_proto_addr),
            tha: parse_eth_addr(&arp.target_hw_addr),
            tpa: parse_ipv4_addr(arp.target_proto_addr),
        },
    )
}

/// The IP fields that an IPv4 header gives.
pub open spec fn ipv4_event_of(h: Ipv4Model) -> SkbIpModel {
    SkbIpModel {
        saddr: ipv4_addr_text(h.source),
        daddr: ipv4_addr_text(h.destination),
        version: SkbIpVersion::V4(
            SkbIpv4Event {
                tos: h.dscp,
                id: h.identification,
                flags: h.flags,
                offset: h.fragment_offset,
            },
        ),
        protocol: h.next_level_protocol,
        len: h.total_length,
        ttl: h.ttl,
        ecn: h.ecn,
    }
}

/// Reads the IP fields of an IPv4 header.
pub fn unmarshal_ipv4(ip: &Ipv4Header) -> (r: SkbIpEvent)
    ensures
        r@ == ipv4_event_of(ip@),
{
    SkbIpEvent {
        saddr: parse_ipv4_addr(ip.source),
        daddr: parse_ipv4_addr(ip.destination),
        version: SkbIpVersion::V4(
            SkbIpv4Event {
                tos: ip.dscp,
                id: ip.identification,
                flags: ip.flags,
                offset: ip.fragment_offset,
            },
        ),
        protocol: ip.next_level_protocol,
        len: ip.total_length,
        ttl: ip.ttl,
        ecn: ip.ecn,
    }
}

/// The IP fields that an IPv6 header gives.
pub open spec fn ipv6_event_of(h: Ipv6Model) -> SkbIpModel {
    SkbIpModel {
        saddr: h.source,
        daddr: h.destination,
        version: SkbIpVersion::V6(SkbIpv6Event { flow_label: h.flow_label }),
        protocol: h.next_header,
        len: h.payload_length,
        ttl: h.hop_limit,
        ecn: (h.traffic_class % 4) as u8,
    }
}

/// Reads the IP fields of an IPv6 header.
pub fn unmarshal_ipv6(ip: &Ipv6Header) -> (r: SkbIpEvent)
    ensures
        r@ == ipv6_event_of(ip@),
{
    SkbIpEvent {
        saddr: ip.source.clone(),
        daddr: ip.destination.clone(),
        version: SkbIpVersion::V6(SkbIpv6Event { flow_label: ip.flow_label }),
        protocol: ip.next_header,
        len: ip.payload_length,
        ttl: ip.hop_limit,
        ecn: ip.traffic_class % 4,
    }
}

/// Reads the TCP fields of a header.
pub fn unmarshal_tcp(tcp: &TcpHeader) -> (r: SkbTcpEvent)
    ensures
        r == (SkbTcpEvent {
            sport: tcp.source,
            dport: tcp.destination,
            seq: tcp.sequence,
            ack_seq: tcp.acknowledgement,
            window: tcp.window,
            doff: tcp.data_offset,
            flags: tcp.flags,
        }),
{
    SkbTcpEvent {
        sport: tcp.source,
        dport: tcp.destination,
        seq: tcp.sequence,
        ack_seq: tcp.acknowledgement,
        window: tcp.window,
        doff: tcp.data_offset,
        flags: tcp.flags,
    }
}

/// Reads the UDP fields of a header.
pub fn unmarshal_udp(udp: &UdpHeader) -> (r: SkbUdpEvent)
    ensures
        r == (SkbUdpEvent { sport: udp.source, dport: udp.destination, len: udp.length }),
{
    SkbUdpEvent { sport: udp.source, dport: udp.destination, len: udp.length }
}

/// Reads the ICMP fields of a header.
pub fn unmarshal_icmp(icmp: &IcmpHeader) -> (r: SkbIcmpEvent)
    ensures
        r == (SkbIcmpEvent { icmp_type: icmp.icmp_type, code: icmp.icmp_code }),
{
    SkbIcmpEvent { icmp_type: icmp.icmp_type, code: icmp.icmp_code }
}

/// Reads the ICMPv6 fields of a header.
pub fn unmarshal_icmpv6(icmp: &IcmpHeader) -> (r: SkbIcmpV6Event)
    ensures
        r == (SkbIcmpV6Event { icmp_type: icmp.icmp_type, code: icmp.icmp_code }),
{
    SkbIcmpV6Event { icmp_type: icmp.icmp_type, code: icmp.icmp_code }
}

/// The length of `b` without the NUL bytes at its end.
pub open spec fn trimmed_len(b: Seq<u8>) -> int
    decreases b.len(),
{
    if b.len() == 0 {
        0
    } else if b.last() == 0 {
        trimmed_len(b.drop_last())
    } else {
        b.len() as int
    }
}

proof fn lemma_trimmed_len(b: Seq<u8>)
    ensures
        0 <= trimmed_len(b) <= b.len(),
        trimmed_len(b) < b.len() ==> b[trimmed_len(b)] == 0,
        forall|i: int| trimmed_len(b) <= i < b.len() ==> b[i] == 0,
        trimmed_len(b) > 0 ==> b[trimmed_len(b) - 1] != 0,
    decreases b.len(),
{
    if b.len() > 0 && b.last() == 0 {
        lemma_trimmed_len(b.drop_last());
        let n = trimmed_len(b.drop_last());
        assert forall|i: int| n <= i < b.len() implies b[i] == 0 by {
            if i < b.len() - 1 {
                assert(b.drop_last()[i] == b[i]);
            }
        }
        if n < b.len() - 1 {
            assert(b.drop_last()[n] == b[n]);
        }
        if n > 0 {
            assert(b.drop_last()[n - 1] == b[n - 1]);
        }
    }
}

proof fn lemma_trim_valid(b: Seq<u8>)
    requires
        valid_utf8(b),
    ensures
        valid_utf8(b.take(trimmed_len(b))),
{
    lemma_trimmed_len(b);
    let n = trimmed_len(b);
    if n < b.len() {
        is_char_boundary_iff_not_is_continuation_byte(b, n);
        valid_utf8_split(b, n);
        assert(b.take(n) =~= b.subrange(0, n));
    } else {
        assert(b.take(n) =~= b);
    }
}

/// The net device that the data of a device record describes.
///
/// The record holds the name of the device in 16 bytes, its index and the
/// index of the device the packet arrived on, if not zero. A name that is
/// not valid UTF-8 shows that the record is not genuine: there is then no
/// device. The NUL bytes at the end of the name are left out.
pub open spec fn dev_of(data: Seq<u8>) -> Result<Option<SkbDevModel>, SectionError> {
    if data.len() != RAW_DEV_EVENT_SIZE {
        Err(SectionError::BadSize)
    } else if !valid_utf8(data.subrange(0, 16)) {
        Ok(None)
    } else {
        Ok(
            Some(
                SkbDevModel {
                    name: decode_utf8(
                        data.subrange(0, 16).take(trimmed_len(data.subrange(0, 16))),
                    ),
                    ifindex: le_u32(data, 16) as u32,
                    rx_ifindex: if le_u32(data, 20) > 0 {
                        Some(le_u32(data, 20) as u32)
                    } else {
                        None
                    },
                },
            ),
        )
    }
}

/// Copies `data[from..to]`.
fn copy_range(data: &[u8], from: usize, to: usize) -> (r: Vec<u8>)
    requires
        from <= to <= data.len(),
    ensures
        r@ == data@.subrange(from as int, to as int),
{
    let mut out: Vec<u8> = Vec::new();
    let mut i: usize = from;
    while i < to
        invariant
            from <= i <= to,
            to <= data.len(),
            out@ == data@.subrange(from as int, i as int),
        decreases to - i,
    {
        out.push(data[i]);
        assert(out@ =~= data@.subrange(from as int, i + 1));
        i += 1;
    }
    out
}

/// Unmarshal net device info. Can return `Ok(None)` in case the info does
/// not look like it's genuine.
pub fn unmarshal_dev(raw_section: &BpfRawSection) -> (r: Result<Option<SkbDevEvent>, SectionError>)
    ensures
        match dev_of(raw_section.data@) {
            Err(e) => r matches Err(x) && x == e,
            Ok(None) => r matches Ok(None),
            Ok(Some(m)) => r matches Ok(Some(d)) && d@ == m,
        },
{
    let data = match parse_raw_section(raw_section, RAW_DEV_EVENT_SIZE) {
        Ok(data) => data,
        Err(e) => {
            return Err(e);
        },
    };
    let ghost field = data@.subrange(0, 16);
    if string_from_utf8(copy_range(data, 0, 16)).is_none() {
        return Ok(None);
    }
    let mut n: usize = 16;
    assert(field.take(16) =~= field);
    while n > 0 && data[n - 1] == 0
        invariant
            n <= 16,
            data@.len() == 24,
            field == data@.subrange(0, 16),
            trimmed_len(field) == trimmed_len(field.take(n as int)),
        decreases n,
    {
        assert(field.take(n as int).last() == data@[n - 1]);
        assert(field.take(n as int).drop_last() =~= field.take(n - 1));
        n -= 1;
    }
    proof {
        if n > 0 {
            assert(field.take(n as int).last() == data@[n - 1]);
        }
        lemma_trim_valid(field);
        assert(field.take(n as int) =~= data@.subrange(0, n as int));
    }
    let name = match string_from_utf8(copy_range(data, 0, n)) {
        Some(name) => name,
        None => {
            // Not reached: valid text stays valid without the NUL bytes at
            // its end.
            assert(false);
            String::new()
        },
    };
    let iif = read_u32_le(data, 20);
    Ok(
        Some(
            SkbDevEvent {
                name,
                ifindex: read_u32_le(data, 16),
                rx_ifindex: if iif > 0 {
                    Some(iif)
                } else {
                    None
                },
            },
        ),
    )
}

/// The net namespace that the data of a namespace record gives.
pub open spec fn ns_of(data: Seq<u8>) -> Result<SkbNsEvent, SectionError> {
    if data.len() != RAW_NS_EVENT_SIZE {
        Err(SectionError::BadSize)
    } else {
        Ok(SkbNsEvent { netns: le_u32(data, 0) as u32 })
    }
}

/// Reads the net namespace of a namespace record.
pub fn unmarshal_ns(raw_section: &BpfRawSection) -> (r: Result<SkbNsEvent, SectionError>)
    ensures
        r == ns_of(raw_section.data@),
{
    match parse_raw_section(raw_section, RAW_NS_EVENT_SIZE) {
        Ok(data) => Ok(SkbNsEvent { netns: read_u32_le(data, 0) }),
        Err(e) => Err(e),
    }
}

/// The metadata that the data of a metadata record gives.
pub open spec fn meta_of(data: Seq<u8>) -> Result<SkbMetaEvent, SectionError> {
    if data.len() != RAW_META_EVENT_SIZE {
        Err(SectionError::BadSize)
    } else {
        Ok(
            SkbMetaEvent {
                len: le_u32(data, 0) as u32,
                data_len: le_u32(data, 4) as u32,
                hash: le_u32(data, 8) as u32,
                ip_summed: data[12],
                csum: le_u32(data, 13) as u32,
                csum_level: data[17],
                priority: le_u32(data, 18) as u32,
            },
        )
    }
}

/// Reads the metadata of a metadata record.
pub fn unmarshal_meta(raw_section: &BpfRawSection) -> (r: Result<SkbMetaEvent, SectionError>)
    ensures
        r == meta_of(raw_section.data@),
{
    match parse_raw_section(raw_section, RAW_META_EVENT_SIZE) {
        Ok(data) => Ok(
            SkbMetaEvent {
                len: read_u32_le(data, 0),
                data_len: read_u32_le(data, 4),
                hash: read_u32_le(data, 8),
                ip_summed: data[12],
                csum: read_u32_le(data, 13),
                csum_level: data[17],
                priority: read_u32_le(data, 18),
            },
        ),
        Err(e) => Err(e),
    }
}

/// The reference counts that the data of a reference record gives.
pub open spec fn data_ref_of(data: Seq<u8>) -> Result<SkbDataRefEvent, SectionError> {
    if data.len() != RAW_DATA_REF_EVENT_SIZE {
        Err(SectionError::BadSize)
    } else {
        Ok(
            SkbDataRefEvent {
                nohdr: data[0] == 1,
                cloned: data[1] == 1,
                fclone: data[2],
                users: data[3],
                dataref: data[4],
            },
        )
    }
}

/// Reads the reference counts of a reference record.
pub fn unmarshal_data_ref(raw_section: &BpfRawSection) -> (r: Result<
    SkbDataRefEvent,
    SectionError,
>)
    ensures
        r == data_ref_of(raw_section.data@),
{
    match parse_raw_section(raw_section, RAW_DATA_REF_EVENT_SIZE) {
        Ok(data) => Ok(
            SkbDataRefEvent {
                nohdr: data[0] == 1,
                cloned: data[1] == 1,
                fclone: data[2],
                users: data[3],
                dataref: data[4],
            },
        ),
        Err(e) => Err(e),
    }
}

/// The segmentation information that the data of a GSO record gives.
pub open spec fn gso_of(data: Seq<u8>) -> Result<SkbGsoEvent, SectionError> {
    if data.len() != RAW_GSO_EVENT_SIZE {
        Err(SectionError::BadSize)
    } else {
        Ok(
            SkbGsoEvent {
                flags: data[0],
                frags: data[1],
                size: le_u32(data, 2) as u32,
                segs: le_u32(data, 6) as u32,
                gso_type: le_u32(data, 10) as u32,
            },
        )
    }
}

/// Reads the segmentation information of a GSO record.
pub fn unmarshal_gso(raw_section: &BpfRawSection) -> (r: Result<SkbGsoEvent, SectionError>)
    ensures
        r == gso_of(raw_section.data@),
{
    match parse_raw_section(raw_section, RAW_GSO_EVENT_SIZE) {
        Ok(data) => Ok(
            SkbGsoEvent {
                flags: data[0],
                frags: data[1],
                size: read_u32_le(data, 2),
                segs: read_u32_le(data, 6),
                gso_type: read_u32_le(data, 10),
            },
        ),
        Err(e) => Err(e),
    }
}

/// The section after the transport header of `payload` has been read into
/// `event`: the header of the protocol that `protocol` names, if `payload`
/// is long enough to hold it.
pub open spec fn with_l4(event: SkbModel, protocol: u8, payload: Seq<u8>) -> SkbModel {
    if protocol == PROTO_TCP && payload.len() >= TCP_MIN_SIZE {
        let h = tcp_header_of(payload);
        SkbModel {
            tcp: Some(
                SkbTcpEvent {
                    sport: h.source,
                    dport: h.destination,
                    seq: h.sequence,
                    ack_seq: h.acknowledgement,
                    window: h.window,
                    doff: h.data_offset,
                    flags: h.flags,
                },
            ),
            ..event
        }
    } else if protocol == PROTO_UDP && payload.len() >= UDP_MIN_SIZE {
        let h = udp_header_of(payload);
        SkbModel {
            udp: Some(SkbUdpEvent { sport: h.source, dport: h.destination, len: h.length }),
            ..event
        }
    } else if protocol == PROTO_ICMP && payload.len() >= ICMP_MIN_SIZE {
        let h = icmp_header_of(payload);
        SkbModel {
            icmp: Some(SkbIcmpEvent { icmp_type: h.icmp_type, code: h.icmp_code }),
            ..event
        }
    } else if protocol == PROTO_ICMPV6 && payload.len() >= ICMP_MIN_SIZE {
        let h = icmp_header_of(payload);
        SkbModel {
            icmpv6: Some(SkbIcmpV6Event { icmp_type: h.icmp_type, code: h.icmp_code }),
            ..event
        }
    } else {
        event
    }
}

/// Reads the transport header of `payload` into `event`.
fn unmarshal_l4(event: &mut SkbEvent, protocol: u8, payload: &[u8])
    ensures
        final(event)@ == with_l4(old(event)@, protocol, payload@),
{
    if protocol == PROTO_TCP {
        if let Some(tcp) = tcp_header(payload) {
            event.tcp = Some(unmarshal_tcp(&tcp));
        }
    } else if protocol == PROTO_UDP {
        if let Some(udp) = udp_header(payload) {
            event.udp = Some(unmarshal_udp(&udp));
        }
    } else if protocol == PROTO_ICMP {
        if let Some(icmp) = icmp_header(payload) {
            event.icmp = Some(unmarshal_icmp(&icmp));
        }
    } else if protocol == PROTO_ICMPV6 {
        if let Some(icmpv6) = icmpv6_header(payload) {
            event.icmpv6 = Some(unmarshal_icmpv6(&icmpv6));
        }
    }
}

/// The section after the headers of `packet` have been read into `event`.
///
/// The Ethernet header is reported if it is asked for and is not a fake one.
/// Then the ethertype decides: an ARP packet gives its ARP fields; an IPv4 or
/// IPv6 packet gives its IP fields, and the fields of the transport header
/// that its protocol names. Whatever is too short to hold its header gives
/// nothing, and what was read before stays. Another ethertype gives the
/// Ethernet header, if it was not reported yet.
pub open spec fn dissected(event: SkbModel, packet: Seq<u8>, report_eth: bool, fake_eth: bool)
    -> SkbModel {
    let eth = eth_model_of(packet);
    let first = if report_eth && !fake_eth {
        SkbModel { eth: Some(eth_event_of(eth)), ..event }
    } else {
        event
    };
    if eth.ethertype == ETHERTYPE_ARP {
        if eth.payload.len() >= ARP_MIN_SIZE {
            SkbModel { arp: arp_event_of(arp_model_of(eth.payload)), ..first }
        } else {
            first
        }
    } else if eth.ethertype == ETHERTYPE_IPV4 {
        if eth.payload.len() >= IPV4_MIN_SIZE {
            let ip = ipv4_model_of(eth.payload);
            with_l4(
                SkbModel { ip: Some(ipv4_event_of(ip)), ..first },
                ip.next_level_protocol,
                ip.payload,
            )
        } else {
            first
        }
    } else if eth.ethertype == ETHERTYPE_IPV6 {
        if eth.payload.len() >= IPV6_MIN_SIZE {
            let ip = ipv6_model_of(eth.payload);
            with_l4(SkbModel { ip: Some(ipv6_event_of(ip)), ..first }, ip.next_header, ip.payload)
        } else {
            first
        }
    } else if first.eth is None {
        SkbModel { eth: Some(eth_event_of(eth)), ..first }
    } else {
        first
    }
}

/// The section after a packet record has been read into `event`.
///
/// The record holds the length of the packet, the length of the capture,
/// 255 bytes of which the capture is the start, and whether the Ethernet
/// header is a fake one. The capture is kept as it is, and its headers are
/// read. A capture that is said to be longer than 255 bytes is an error, and
/// so is one too short for an Ethernet header.
pub open spec fn with_packet(event: SkbModel, data: Seq<u8>, report_eth: bool) -> Result<
    SkbModel,
    SectionError,
> {
    if data.len() != RAW_PACKET_EVENT_SIZE {
        Err(SectionError::BadSize)
    } else if le_u32(data, 4) > RAW_PACKET_MAX {
        Err(SectionError::BadCaptureLength)
    } else if le_u32(data, 4) < ETH_MIN_SIZE {
        Err(SectionError::ShortPacket)
    } else {
        let capture = data.subrange(8, 8 + le_u32(data, 4));
        Ok(
            dissected(
                SkbModel {
                    packet: Some(
                        SkbPacketModel {
                            len: le_u32(data, 0) as u32,
                            capture_len: le_u32(data, 4) as u32,
                            packet: capture,
                        },
                    ),
                    ..event
                },
                capture,
                report_eth,
                data[263] != 0,
            ),
        )
    }
}

/// Reads a packet record into `event`: the capture, and the headers found
/// in it.
pub fn unmarshal_packet(event: &mut SkbEvent, raw_section: &BpfRawSection, report_eth: bool) -> (r:
    Result<(), SectionError>)
    ensures
        match with_packet(old(event)@, raw_section.data@, report_eth) {
            Ok(m) => r is Ok && final(event)@ == m,
            Err(e) => r == Err::<(), SectionError>(e),
        },
{
    let data = match parse_raw_section(raw_section, RAW_PACKET_EVENT_SIZE) {
        Ok(data) => data,
        Err(e) => {
            return Err(e);
        },
    };
    let len = read_u32_le(data, 0);
    let capture_len = read_u32_le(data, 4);
    if capture_len as usize > RAW_PACKET_MAX {
        return Err(SectionError::BadCaptureLength);
    }
    let capture = slice_subrange(data, 8, 8 + capture_len as usize);
    let eth = match eth_header(capture) {
        Some(eth) => eth,
        None => {
            return Err(SectionError::ShortPacket);
        },
    };
    // First add the raw packet part in the event.
    event.packet = Some(
        SkbPacketEvent {
            len,
            capture_len,
            packet: RawPacket(copy_range(data, 8, 8 + capture_len as usize)),
        },
    );
    // Then start parsing the raw packet to generate other sections.
    let fake_eth = data[263] != 0;
    if report_eth && !fake_eth {
        event.eth = Some(unmarshal_eth(&eth));
    }
    if eth.ethertype == ETHERTYPE_ARP {
        if let Some(arp) = arp_header(eth.payload.as_slice()) {
            event.arp = unmarshal_arp(&arp);
        }
    } else if eth.ethertype == ETHERTYPE_IPV4 {
        if let Some(ip) = ipv4_header(eth.payload.as_slice()) {
            event.ip = Some(unmarshal_ipv4(&ip));
            unmarshal_l4(event, ip.next_level_protocol, ip.payload.as_slice());
        }
    } else if eth.ethertype == ETHERTYPE_IPV6 {
        if let Some(ip) = ipv6_header(eth.payload.as_slice()) {
            event.ip = Some(unmarshal_ipv6(&ip));
            unmarshal_l4(event, ip.next_header, ip.payload.as_slice());
        }
    } else if event.eth.is_none() {
        // The protocol is not one that is read: at least provide the
        // ethertype.
        event.eth = Some(unmarshal_eth(&eth));
    }
    Ok(())
}

/// The skb section after `record` has been read into `event`.
pub open spec fn skb_step(event: SkbModel, record: RawRecord, report_eth: bool) -> Result<
    SkbModel,
    SectionError,
> {
    if record.data_type == SECTION_DEV {
        match dev_of(record.data) {
            Ok(dev) => Ok(SkbModel { dev, ..event }),
            Err(e) => Err(e),
        }
    } else if record.data_type == SECTION_NS {
        match ns_of(record.data) {
            Ok(ns) => Ok(SkbModel { ns: Some(ns), ..event }),
            Err(e) => Err(e),
        }
    } else if record.data_type == SECTION_META {
        match meta_of(record.data) {
            Ok(meta) => Ok(SkbModel { meta: Some(meta), ..event }),
            Err(e) => Err(e),
        }
    } else if record.data_type == SECTION_DATA_REF {
        match data_ref_of(record.data) {
            Ok(data_ref) => Ok(SkbModel { data_ref: Some(data_ref), ..event }),
            Err(e) => Err(e),
        }
    } else if record.data_type == SECTION_GSO {
        match gso_of(record.data) {
            Ok(gso) => Ok(SkbModel { gso: Some(gso), ..event }),
            Err(e) => Err(e),
        }
    } else if record.data_type == SECTION_PACKET {
        with_packet(event, record.data, report_eth)
    } else {
        Err(SectionError::UnknownDataType)
    }
}

/// The skb section after the records from `from` on have been read into
/// `event`, one after the other, up to the first that is an error.
pub open spec fn skb_from(records: Seq<RawRecord>, from: int, event: SkbModel, report_eth: bool)
    -> Result<SkbModel, SectionError>
    decreases records.len() - from,
{
    if from < 0 || from >= records.len() {
        Ok(event)
    } else {
        match skb_step(event, records[from], report_eth) {
            Err(e) => Err(e),
            Ok(next) => skb_from(records, from + 1, next, report_eth),
        }
    }
}

/// The skb section that a list of records describes.
pub open spec fn skb_of(records: Seq<RawRecord>, report_eth: bool) -> Result<
    SkbModel,
    SectionError,
> {
    skb_from(records, 0, empty_skb(), report_eth)
}

/// Factory of the skb section.
#[derive(Clone, Copy, Debug)]
pub struct SkbEventFactory {
    /// Should the Ethernet header be reported.
    pub report_eth: bool,
}

impl SkbEventFactory {
    /// Builds the skb section that `raw_sections` describe.
    pub fn build<'a>(&self, raw_sections: &Vec<BpfRawSection<'a>>) -> (r: Result<
        SkbEvent,
        SectionError,
    >)
        ensures
            match skb_of(records_of(raw_sections@), self.report_eth) {
                Ok(m) => r matches Ok(e) && e@ == m,
                Err(e) => r matches Err(x) && x == e,
            },
    {
        let mut event = SkbEvent::new();
        let ghost records = records_of(raw_sections@);
        let mut i: usize = 0;
        while i < raw_sections.len()
            invariant
                i <= raw_sections@.len(),
                records == records_of(raw_sections@),
                skb_from(records, i as int, event@, self.report_eth) == skb_of(
                    records,
                    self.report_eth,
                ),
            decreases raw_sections@.len() - i,
        {
            let section = &raw_sections[i];
            assert(records[i as int] == section@);
            let data_type = section.header.data_type;
            if data_type == SECTION_DEV {
                match unmarshal_dev(section) {
                    Ok(dev) => {
                        event.dev = dev;
                    },
                    Err(e) => {
                        return Err(e);
                    },
                }
            } else if data_type == SECTION_NS {
                match unmarshal_ns(section) {
                    Ok(ns) => {
                        event.ns = Some(ns);
                    },
                    Err(e) => {
                        return Err(e);
                    },
                }
            } else if data_type == SECTION_META {
                match unmarshal_meta(section) {
                    Ok(meta) => {
                        event.meta = Some(meta);
                    },
                    Err(e) => {
                        return Err(e);
                    },
                }
            } else if data_type == SECTION_DATA_REF {
                match unmarshal_data_ref(section) {
                    Ok(data_ref) => {
                        event.data_ref = Some(data_ref);
                    },
                    Err(e) => {
                        return Err(e);
                    },
                }
            } else if data_type == SECTION_GSO {
                match unmarshal_gso(section) {
                    Ok(gso) => {
                        event.gso = Some(gso);
                    },
                    Err(e) => {
                        return Err(e);
                    },
                }
            } else if data_type == SECTION_PACKET {
                match unmarshal_packet(&mut event, section, self.report_eth) {
                    Ok(()) => {},
                    Err(e) => {
                        return Err(e);
                    },
                }
            } else {
                return Err(SectionError::UnknownDataType);
            }
            i += 1;
        }
        Ok(event)
    }
}

impl RawEventSectionFactory for SkbEventFactory {
    open spec fn creates(&self, records: Seq<RawRecord>, r: Result<Section, SectionError>) -> bool {
        match skb_of(records, self.report_eth) {
            Ok(m) => r matches Ok(Section::Skb(e)) && e@ == m,
            Err(e) => r matches Err(x) && x == e,
        }
    }

    fn create<'a>(&mut self, raw_sections: Vec<BpfRawSection<'a>>) -> (r: Result<
        Section,
        SectionError,
    >) {
        match self.build(&raw_sections) {
            Ok(event) => Ok(Section::Skb(event)),
            Err(e) => Err(e),
        }
    }
}

} // verus!
