//! The headers of a captured packet, as plain values.
//!
//! The packet is dissected by the pnet_packet crate. What it finds in the
//! bytes of a packet is stated here field by field: fields of several bytes
//! are big-endian, and fields smaller than a byte are counted from the most
//! significant bit.

use vstd::prelude::*;
use pnet_packet::Packet;

verus! {

/// The unsigned 16-bit big-endian integer stored at `at`.
pub open spec fn be_u16(b: Seq<u8>, at: int) -> int {
    256 * (b[at] as int) + b[at + 1] as int
}

/// The unsigned 32-bit big-endian integer stored at `at`.
pub open spec fn be_u32(b: Seq<u8>, at: int) -> int {
    65536 * be_u16(b, at) + be_u16(b, at + 2)
}

/// Smallest Ethernet frame that can be dissected.
pub const ETH_MIN_SIZE: usize = 14;

/// Smallest ARP packet that can be dissected.
pub const ARP_MIN_SIZE: usize = 28;

/// Smallest IPv4 packet that can be dissected.
pub const IPV4_MIN_SIZE: usize = 20;

/// Smallest IPv6 packet that can be dissected.
pub const IPV6_MIN_SIZE: usize = 40;

/// Smallest TCP segment that can be dissected.
pub const TCP_MIN_SIZE: usize = 20;

/// Smallest UDP datagram that can be dissected.
pub const UDP_MIN_SIZE: usize = 8;

/// Smallest ICMP or ICMPv6 message that can be dissected.
pub const ICMP_MIN_SIZE: usize = 4;

/// Ethertype of ARP.
pub const ETHERTYPE_ARP: u16 = 0x0806;

/// Ethertype of IPv4.
pub const ETHERTYPE_IPV4: u16 = 0x0800;

/// Ethertype of IPv6.
pub const ETHERTYPE_IPV6: u16 = 0x86dd;

/// Protocol number of ICMP.
pub const PROTO_ICMP: u8 = 1;

/// Protocol number of TCP.
pub const PROTO_TCP: u8 = 6;

/// Protocol number of UDP.
pub const PROTO_UDP: u8 = 17;

/// Protocol number of ICMPv6.
pub const PROTO_ICMPV6: u8 = 58;

/// Ethernet header and what follows it.
#[derive(Clone, Debug, PartialEq, Eq)]
pub struct EthHeader {
    pub destination: [u8; 6],
    pub source: [u8; 6],
    pub ethertype: u16,
    pub payload: Vec<u8>,
}

/// Mathematical image of an [`EthHeader`].
pub ghost struct EthModel {
    pub destination: Seq<u8>,
    pub source: Seq<u8>,
    pub ethertype: u16,
    pub payload: Seq<u8>,
}

impl View for EthHeader {
    type V = EthModel;

    open spec fn view(&self) -> EthModel {
        EthModel {
            destination: self.destination@,
            source: self.source@,
            ethertype: self.ethertype,
            payload: self.payload@,
        }
    }
}

/// The Ethernet header of `packet`, and what follows it.
pub open spec fn eth_model_of(packet: Seq<u8>) -> EthModel {
    EthModel {
        destination: packet.subrange(0, 6),
        source: packet.subrange(6, 12),
        ethertype: be_u16(packet, 12) as u16,
        payload: packet.skip(14),
    }
}

/// `EthernetPacket::new` of the pnet_packet crate and the getters of the
/// packet: there is a header if the packet has 14 bytes at least, and the
/// payload is all that follows them.
#[verifier::external_body]
pub(crate) fn eth_header(packet: &[u8]) -> (r: Option<EthHeader>)
    ensures
        r is Some <==> packet@.len() >= ETH_MIN_SIZE,
        r matches Some(h) ==> h@ == eth_model_of(packet@),
{
    pnet_packet::ethernet::EthernetPacket::new(packet).map(|p| EthHeader {
        destination: p.get_destination().octets(),
        source: p.get_source().octets(),
        ethertype: p.get_ethertype().0,
        payload: p.payload().to_vec(),
    })
}

/// ARP header, for IPv4 over Ethernet.
#[derive(Clone, Copy, Debug, PartialEq, Eq)]
pub struct ArpHeader {
    pub operation: u16,
    pub sender_hw_addr: [u8; 6],
    pub sender_proto_addr: u32,
    pub target_hw_addr: [u8; 6],
    pub target_proto_addr: u32,
}

/// Mathematical image of an [`ArpHeader`].
pub ghost struct ArpModel {
    pub operation: u16,
    pub sender_hw_addr: Seq<u8>,
    pub sender_proto_addr: u32,
    pub target_hw_addr: Seq<u8>,
    pub target_proto_addr: u32,
}

impl View for ArpHeader {
    type V = ArpModel;

    open spec fn view(&self) -> ArpModel {
        ArpModel {
            operation: self.operation,
            sender_hw_addr: self.sender_hw_addr@,
            sender_proto_addr: self.sender_proto_addr,
            target_hw_addr: self.target_hw_addr@,
            target_proto_addr: self.target_proto_addr,
        }
    }
}

/// The ARP header of `packet`.
pub open spec fn arp_model_of(packet: Seq<u8>) -> ArpModel {
    ArpModel {
        operation: be_u16(packet, 6) as u16,
        sender_hw_addr: packet.subrange(8, 14),
        sender_proto_addr: be_u32(packet, 14) as u32,
        target_hw_addr: packet.subrange(18, 24),
        target_proto_addr: be_u32(packet, 24) as u32,
    }
}

/// `ArpPacket::new` of the pnet_packet crate and the getters of the packet:
/// there is a header if the packet has 28 bytes at least.
#[verifier::external_body]
pub(crate) fn arp_header(packet: &[u8]) -> (r: Option<ArpHeader>)
    ensures
        r is Some <==> packet@.len() >= ARP_MIN_SIZE,
        r matches Some(h) ==> h@ == arp_model_of(packet@),
{
    pnet_packet::arp::ArpPacket::new(packet).map(|p| ArpHeader {
        operation: p.get_operation().0,
        sender_hw_addr: p.get_sender_hw_addr().octets(),
        sender_proto_addr: u32::from(p.get_sender_proto_addr()),
        target_hw_addr: p.get_target_hw_addr().octets(),
        target_proto_addr: u32::from(p.get_target_proto_addr()),
    })
}

/// IPv4 header and payload.
#[derive(Clone, Debug, PartialEq, Eq)]
pub struct Ipv4Header {
    pub dscp: u8,
    pub ecn: u8,
    pub total_length: u16,
    pub identification: u16,
    pub flags: u8,
    pub fragment_offset: u16,
    pub ttl: u8,
    pub next_level_protocol: u8,
    pub source: u32,
    pub destination: u32,
    pub payload: Vec<u8>,
}

/// The payload of an IPv4 packet: it starts after the header, whose length
/// the packet gives in words of four bytes and which has 20 bytes at least,
/// and has the bytes that the total length leaves after the header, as far
/// as the packet holds them.
pub open spec fn ipv4_payload(packet: Seq<u8>) -> Seq<u8> {
    let header = 4 * (packet[0] as int % 16);
    let start = if header < 20 {
        20
    } else {
        header
    };
    let total = be_u16(packet, 2);
    let wanted = if total < header {
        0
    } else {
        total - header
    };
    let end = if start + wanted < packet.len() {
        start + wanted
    } else {
        packet.len() as int
    };
    if packet.len() <= start {
        Seq::empty()
    } else {
        packet.subrange(start, end)
    }
}

/// Mathematical image of an [`Ipv4Header`].
pub ghost struct Ipv4Model {
    pub dscp: u8,
    pub ecn: u8,
    pub total_length: u16,
    pub identification: u16,
    pub flags: u8,
    pub fragment_offset: u16,
    pub ttl: u8,
    pub next_level_protocol: u8,
    pub source: u32,
    pub destination: u32,
    pub payload: Seq<u8>,
}

impl View for Ipv4Header {
    type V = Ipv4Model;

    open spec fn view(&self) -> Ipv4Model {
        Ipv4Model {
            dscp: self.dscp,
            ecn: self.ecn,
            total_length: self.total_length,
            identification: self.identification,
            flags: self.flags,
            fragment_offset: self.fragment_offset,
            ttl: self.ttl,
            next_level_protocol: self.next_level_protocol,
            source: self.source,
            destination: self.destination,
            payload: self.payload@,
        }
    }
}

/// The IPv4 header of `packet`, with its payload.
pub open spec fn ipv4_model_of(packet: Seq<u8>) -> Ipv4Model {
    Ipv4Model {
        dscp: (packet[1] as int / 4) as u8,
        ecn: (packet[1] as int % 4) as u8,
        total_length: be_u16(packet, 2) as u16,
        identification: be_u16(packet, 4) as u16,
        flags: (packet[6] as int / 32) as u8,
        fragment_offset: (256 * (packet[6] as int % 32) + packet[7] as int) as u16,
        ttl: packet[8],
        next_level_protocol: packet[9],
        source: be_u32(packet, 12) as u32,
        destination: be_u32(packet, 16) as u32,
        payload: ipv4_payload(packet),
    }
}

/// `Ipv4Packet::new` of the pnet_packet crate and the getters of the
/// packet: there is a header if the packet has 20 bytes at least.
#[verifier::external_body]
pub(crate) fn ipv4_header(packet: &[u8]) -> (r: Option<Ipv4Header>)
    ensures
        r is Some <==> packet@.len() >= IPV4_MIN_SIZE,
        r matches Some(h) ==> h@ == ipv4_model_of(packet@),
{
    pnet_packet::ipv4::Ipv4Packet::new(packet).map(|p| Ipv4Header {
        dscp: p.get_dscp(), ecn: p.get_ecn(), total_length: p.get_total_length(),
        identification: p.get_identification(), flags: p.get_flags(),
        fragment_offset: p.get_fragment_offset(), ttl: p.get_ttl(),
        next_level_protocol: p.get_next_level_protocol().0,
        source: u32::from(p.get_source()), destination: u32::from(p.get_destination()),
        payload: p.payload().to_vec(),
    })
}

/// The text of the IPv6 address held in 16 bytes, as the standard library
/// writes it.
pub uninterp spec fn ipv6_addr_text(addr: Seq<u8>) -> Seq<char>;

/// IPv6 header and payload.
#[derive(Clone, Debug, PartialEq, Eq)]
pub struct Ipv6Header {
    pub traffic_class: u8,
    pub flow_label: u32,
    pub payload_length: u16,
    pub next_header: u8,
    pub hop_limit: u8,
    pub source: String,
    pub destination: String,
    pub payload: Vec<u8>,
}

/// The payload of an IPv6 packet: what follows the 40 bytes of the header,
/// up to the payload length that the header gives, as far as the packet
/// holds it.
pub open spec fn ipv6_payload(packet: Seq<u8>) -> Seq<u8> {
    let end = if 40 + be_u16(packet, 4) < packet.len() {
        40 + be_u16(packet, 4)
    } else {
        packet.len() as int
    };
    if packet.len() <= 40 {
        Seq::empty()
    } else {
        packet.subrange(40, end)
    }
}

/// Mathematical image of an [`Ipv6Header`].
pub ghost struct Ipv6Model {
    pub traffic_class: u8,
    pub flow_label: u32,
    pub payload_length: u16,
    pub next_header: u8,
    pub hop_limit: u8,
    pub source: Seq<char>,
    pub destination: Seq<char>,
    pub payload: Seq<u8>,
}

impl View for Ipv6Header {
    type V = Ipv6Model;

    open spec fn view(&self) -> Ipv6Model {
        Ipv6Model {
            traffic_class: self.traffic_class,
            flow_label: self.flow_label,
            payload_length: self.payload_length,
            next_header: self.next_header,
            hop_limit: self.hop_limit,
            source: self.source@,
            destination: self.destination@,
            payload: self.payload@,
        }
    }
}

/// The IPv6 header of `packet`, with its payload.
pub open spec fn ipv6_model_of(packet: Seq<u8>) -> Ipv6Model {
    Ipv6Model {
        traffic_class: (16 * (packet[0] as int % 16) + packet[1] as int / 16) as u8,
        flow_label: (65536 * (packet[1] as int % 16) + be_u16(packet, 2)) as u32,
        payload_length: be_u16(packet, 4) as u16,
        next_header: packet[6],
        hop_limit: packet[7],
        source: ipv6_addr_text(packet.subrange(8, 24)),
        destination: ipv6_addr_text(packet.subrange(24, 40)),
        payload: ipv6_payload(packet),
    }
}

/// `Ipv6Packet::new` of the pnet_packet crate and the getters of the
/// packet: there is a header if the packet has 40 bytes at least. The
/// addresses are turned into text by the standard library.
#[verifier::external_body]
pub(crate) fn ipv6_header(packet: &[u8]) -> (r: Option<Ipv6Header>)
    ensures
        r is Some <==> packet@.len() >= IPV6_MIN_SIZE,
        r matches Some(h) ==> h@ == ipv6_model_of(packet@),
        r matches Some(h) ==> h.source@ == ipv6_addr_text(packet@.subrange(8, 24)),
        r matches Some(h) ==> h.destination@ == ipv6_addr_text(packet@.subrange(24, 40)),
{
    pnet_packet::ipv6::Ipv6Packet::new(packet).map(|p| Ipv6Header {
        traffic_class: p.get_traffic_class(),
        flow_label: p.get_flow_label(),
        payload_length: p.get_payload_length(),
        next_header: p.get_next_header().0,
        hop_limit: p.get_hop_limit(),
        source: p.get_source().to_string(),
        destination: p.get_destination().to_string(),
        payload: p.payload().to_vec(),
    })
}

/// TCP header.
#[derive(Clone, Copy, Debug, PartialEq, Eq, Structural)]
pub struct TcpHeader {
    pub source: u16,
    pub destination: u16,
    pub sequence: u32,
    pub acknowledgement: u32,
    pub data_offset: u8,
    pub flags: u8,
    pub window: u16,
}

/// The TCP header of `packet`.
pub open spec fn tcp_header_of(packet: Seq<u8>) -> TcpHeader {
    TcpHeader {
        source: be_u16(packet, 0) as u16,
        destination: be_u16(packet, 2) as u16,
        sequence: be_u32(packet, 4) as u32,
        acknowledgement: be_u32(packet, 8) as u32,
        data_offset: (packet[12] as int / 16) as u8,
        flags: packet[13],
        window: be_u16(packet, 14) as u16,
    }
}

/// `TcpPacket::new` of the pnet_packet crate and the getters of the packet:
/// there is a header if the packet has 20 bytes at least.
#[verifier::external_body]
pub(crate) fn tcp_header(packet: &[u8]) -> (r: Option<TcpHeader>)
    ensures
        r is Some <==> packet@.len() >= TCP_MIN_SIZE,
        r matches Some(h) ==> h == tcp_header_of(packet@),
{
    pnet_packet::tcp::TcpPacket::new(packet).map(|p| TcpHeader {
        source: p.get_source(),
        destination: p.get_destination(),
        sequence: p.get_sequence(),
        acknowledgement: p.get_acknowledgement(),
        data_offset: p.get_data_offset(),
        flags: p.get_flags(),
        window: p.get_window(),
    })
}

/// UDP header.
#[derive(Clone, Copy, Debug, PartialEq, Eq, Structural)]
pub struct UdpHeader {
    pub source: u16,
    pub destination: u16,
    pub length: u16,
}

/// The UDP header of `packet`.
pub open spec fn udp_header_of(packet: Seq<u8>) -> UdpHeader {
    UdpHeader {
        source: be_u16(packet, 0) as u16,
        destination: be_u16(packet, 2) as u16,
        length: be_u16(packet, 4) as u16,
    }
}

/// `UdpPacket::new` of the pnet_packet crate and the getters of the packet:
/// there is a header if the packet has 8 bytes at least.
#[verifier::external_body]
pub(crate) fn udp_header(packet: &[u8]) -> (r: Option<UdpHeader>)
    ensures
        r is Some <==> packet@.len() >= UDP_MIN_SIZE,
        r matches Some(h) ==> h == udp_header_of(packet@),
{
    pnet_packet::udp::UdpPacket::new(packet).map(|p| UdpHeader {
        source: p.get_source(),
        destination: p.get_destination(),
        length: p.get_length(),
    })
}

/// Type and code of an ICMP or ICMPv6 message.
#[derive(Clone, Copy, Debug, PartialEq, Eq, Structural)]
pub struct IcmpHeader {
    pub icmp_type: u8,
    pub icmp_code: u8,
}

/// The ICMP or ICMPv6 header of `packet`.
pub open spec fn icmp_header_of(packet: Seq<u8>) -> IcmpHeader {
    IcmpHeader { icmp_type: packet[0], icmp_code: packet[1] }
}

/// `IcmpPacket::new` of the pnet_packet crate and the getters of the
/// packet: there is a header if the packet has 4 bytes at least.
#[verifier::external_body]
pub(crate) fn icmp_header(packet: &[u8]) -> (r: Option<IcmpHeader>)
    ensures
        r is Some <==> packet@.len() >= ICMP_MIN_SIZE,
        r matches Some(h) ==> h == icmp_header_of(packet@),
{
    pnet_packet::icmp::IcmpPacket::new(packet).map(|p| IcmpHeader {
        icmp_type: p.get_icmp_type().0,
        icmp_code: p.get_icmp_code().0,
    })
}

/// `Icmpv6Packet::new` of the pnet_packet crate and the getters of the
/// packet: there is a header if the packet has 4 bytes at least.
#[verifier::external_body]
pub(crate) fn icmpv6_header(packet: &[u8]) -> (r: Option<IcmpHeader>)
    ensures
        r is Some <==> packet@.len() >= ICMP_MIN_SIZE,
        r matches Some(h) ==> h == icmp_header_of(packet@),
{
    pnet_packet::icmpv6::Icmpv6Packet::new(packet).map(|p| IcmpHeader {
        icmp_type: p.get_icmpv6_type().0,
        icmp_code: p.get_icmpv6_code().0,
    })
}

} // verus!
