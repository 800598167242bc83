//! What was read from a socket buffer: parsed protocol headers, device and
//! namespace, metadata, reference counts, segmentation and the raw capture.

use vstd::prelude::*;

verus! {

/// Ethernet fields.
#[derive(Clone, Debug, PartialEq, Eq)]
pub struct SkbEthEvent {
    /// Ethertype.
    pub etype: u16,
    /// Source MAC address.
    pub src: String,
    /// Destination MAC address.
    pub dst: String,
}

/// Mathematical image of a [`SkbEthEvent`].
pub ghost struct SkbEthModel {
    pub etype: u16,
    pub src: Seq<char>,
    pub dst: Seq<char>,
}

impl View for SkbEthEvent {
    type V = SkbEthModel;

    open spec fn view(&self) -> SkbEthModel {
        SkbEthModel { etype: self.etype, src: self.src@, dst: self.dst@ }
    }
}

/// ARP operation type.
#[derive(Clone, Copy, Debug, PartialEq, Eq, Structural)]
pub enum ArpOperation {
    Request,
    Reply,
}

/// ARP fields, for IPv4 over Ethernet.
#[derive(Clone, Debug, PartialEq, Eq)]
pub struct SkbArpEvent {
    /// Operation type.
    pub operation: ArpOperation,
    /// Sender hardware address.
    pub sha: String,
    /// Sender protocol address.
    pub spa: String,
    /// Target hardware address.
    pub tha: String,
    /// Target protocol address.
    pub tpa: String,
}

/// Mathematical image of a [`SkbArpEvent`].
pub ghost struct SkbArpModel {
    pub operation: ArpOperation,
    pub sha: Seq<char>,
    pub spa: Seq<char>,
    pub tha: Seq<char>,
    pub tpa: Seq<char>,
}

impl View for SkbArpEvent {
    type V = SkbArpModel;

    open spec fn view(&self) -> SkbArpModel {
        SkbArpModel {
            operation: self.operation,
            sha: self.sha@,
            spa: self.spa@,
            tha: self.tha@,
            tpa: self.tpa@,
        }
    }
}

/// IPv4 specific fields.
#[derive(Clone, Copy, Debug, PartialEq, Eq, Structural)]
pub struct SkbIpv4Event {
    /// Type of service.
    pub tos: u8,
    /// Identification.
    pub id: u16,
    /// Flags (CE, DF, MF).
    pub flags: u8,
    /// Fragment offset.
    pub offset: u16,
}

/// IPv6 specific fields.
#[derive(Clone, Copy, Debug, PartialEq, Eq, Structural)]
pub struct SkbIpv6Event {
    /// Flow label.
    pub flow_label: u32,
}

/// IP version and the fields specific to it.
#[derive(Clone, Copy, Debug, PartialEq, Eq, Structural)]
pub enum SkbIpVersion {
    V4(SkbIpv4Event),
    V6(SkbIpv6Event),
}

/// IPv4/IPv6 fields.
#[derive(Clone, Debug, PartialEq, Eq)]
pub struct SkbIpEvent {
    /// Source IP address.
    pub saddr: String,
    /// Destination IP address.
    pub daddr: String,
    /// IP version and specific fields.
    pub version: SkbIpVersion,
    /// L4 protocol, from IPv4 "protocol" field or IPv6 "next header" one.
    pub protocol: u8,
    /// "total len" from the IPv4 header or "payload length" from the IPv6 one.
    pub len: u16,
    /// TTL in the IPv4 header and hop limit in the IPv6 one.
    pub ttl: u8,
    /// ECN.
    pub ecn: u8,
}

/// Mathematical image of a [`SkbIpEvent`].
pub ghost struct SkbIpModel {
    pub saddr: Seq<char>,
    pub daddr: Seq<char>,
    pub version: SkbIpVersion,
    pub protocol: u8,
    pub len: u16,
    pub ttl: u8,
    pub ecn: u8,
}

impl View for SkbIpEvent {
    type V = SkbIpModel;

    open spec fn view(&self) -> SkbIpModel {
        SkbIpModel {
            saddr: self.saddr@,
            daddr: self.daddr@,
            version: self.version,
            protocol: self.protocol,
            len: self.len,
            ttl: self.ttl,
            ecn: self.ecn,
        }
    }
}

/// TCP fields.
#[derive(Clone, Copy, Debug, PartialEq, Eq, Structural)]
pub struct SkbTcpEvent {
    /// Source port.
    pub sport: u16,
    /// Destination port.
    pub dport: u16,
    pub seq: u32,
    pub ack_seq: u32,
    pub window: u16,
    /// Data offset.
    pub doff: u8,
    /// Bitfield of TCP flags as defined in the TCP header.
    pub flags: u8,
}

/// UDP fields.
#[derive(Clone, Copy, Debug, PartialEq, Eq, Structural)]
pub struct SkbUdpEvent {
    /// Source port.
    pub sport: u16,
    /// Destination port.
    pub dport: u16,
    /// Length from the UDP header.
    pub len: u16,
}

/// ICMP fields.
#[derive(Clone, Copy, Debug, PartialEq, Eq, Structural)]
pub struct SkbIcmpEvent {
    pub icmp_type: u8,
    pub code: u8,
}

/// ICMPv6 fields.
#[derive(Clone, Copy, Debug, PartialEq, Eq, Structural)]
pub struct SkbIcmpV6Event {
    pub icmp_type: u8,
    pub code: u8,
}

/// Network device fields.
#[derive(Clone, Debug, PartialEq, Eq)]
pub struct SkbDevEvent {
    /// Net device name associated with the packet.
    pub name: String,
    /// Net device ifindex associated with the packet.
    pub ifindex: u32,
    /// Index of the net device the packet arrived on.
    pub rx_ifindex: Option<u32>,
}

/// Mathematical image of a [`SkbDevEvent`].
pub ghost struct SkbDevModel {
    pub name: Seq<char>,
    pub ifindex: u32,
    pub rx_ifindex: Option<u32>,
}

impl View for SkbDevEvent {
    type V = SkbDevModel;

    open spec fn view(&self) -> SkbDevModel {
        SkbDevModel { name: self.name@, ifindex: self.ifindex, rx_ifindex: self.rx_ifindex }
    }
}

/// Network namespace fields.
#[derive(Clone, Copy, Debug, PartialEq, Eq, Structural)]
pub struct SkbNsEvent {
    /// Id of the network namespace associated with the packet, from the device
    /// or the associated socket (in that order).
    pub netns: u32,
}

/// Skb metadata & related fields.
#[derive(Clone, Copy, Debug, PartialEq, Eq, Structural)]
pub struct SkbMetaEvent {
    /// Total number of bytes in the packet.
    pub len: u32,
    /// Total number of bytes in the page buffer area.
    pub data_len: u32,
    /// Packet hash (!= hash of the packet data).
    pub hash: u32,
    /// Checksum status.
    pub ip_summed: u8,
    /// Packet checksum.
    pub csum: u32,
    /// Checksum level.
    pub csum_level: u8,
    /// QoS priority.
    pub priority: u32,
}

/// Skb data & refcnt fields.
#[derive(Clone, Copy, Debug, PartialEq, Eq, Structural)]
pub struct SkbDataRefEvent {
    /// Payload reference only.
    pub nohdr: bool,
    /// Is the skb a clone?
    pub cloned: bool,
    /// Skb fast clone information.
    pub fclone: u8,
    /// Users count.
    pub users: u8,
    /// Data refcount.
    pub dataref: u8,
}

/// GSO information.
#[derive(Clone, Copy, Debug, PartialEq, Eq, Structural)]
pub struct SkbGsoEvent {
    /// GSO flags.
    pub flags: u8,
    /// Number of fragments in the shared info.
    pub frags: u8,
    /// GSO size.
    pub size: u32,
    /// Number of GSO segments.
    pub segs: u32,
    /// GSO type.
    pub gso_type: u32,
}

/// Raw packet bytes, as captured.
#[derive(Clone, Debug, PartialEq, Eq)]
pub struct RawPacket(pub Vec<u8>);

/// Raw packet and related metadata extracted from skbs.
#[derive(Clone, Debug, PartialEq, Eq)]
pub struct SkbPacketEvent {
    /// Length of the packet.
    pub len: u32,
    /// Length of the capture, at most `len`.
    pub capture_len: u32,
    /// Raw packet data.
    pub packet: RawPacket,
}

/// Mathematical image of a [`SkbPacketEvent`].
pub ghost struct SkbPacketModel {
    pub len: u32,
    pub capture_len: u32,
    pub packet: Seq<u8>,
}

impl View for SkbPacketEvent {
    type V = SkbPacketModel;

    open spec fn view(&self) -> SkbPacketModel {
        SkbPacketModel { len: self.len, capture_len: self.capture_len, packet: self.packet.0@ }
    }
}

/// Mathematical image of a [`SkbEvent`].
pub ghost struct SkbModel {
    pub eth: Option<SkbEthModel>,
    pub arp: Option<SkbArpModel>,
    pub ip: Option<SkbIpModel>,
    pub tcp: Option<SkbTcpEvent>,
    pub udp: Option<SkbUdpEvent>,
    pub icmp: Option<SkbIcmpEvent>,
    pub icmpv6: Option<SkbIcmpV6Event>,
    pub dev: Option<SkbDevModel>,
    pub ns: Option<SkbNsEvent>,
    pub meta: Option<SkbMetaEvent>,
    pub data_ref: Option<SkbDataRefEvent>,
    pub gso: Option<SkbGsoEvent>,
    pub packet: Option<SkbPacketModel>,
}

/// The section with nothing in it.
pub open spec fn empty_skb() -> SkbModel {
    SkbModel {
        eth: None,
        arp: None,
        ip: None,
        tcp: None,
        udp: None,
        icmp: None,
        icmpv6: None,
        dev: None,
        ns: None,
        meta: None,
        data_ref: None,
        gso: None,
        packet: None,
    }
}

impl View for SkbEvent {
    type V = SkbModel;

    open spec fn view(&self) -> SkbModel {
        SkbModel {
            eth: match self.eth {
                Some(x) => Some(x@),
                None => None,
            },
            arp: match self.arp {
                Some(x) => Some(x@),
                None => None,
            },
            ip: match self.ip {
                Some(x) => Some(x@),
                None => None,
            },
            tcp: self.tcp,
            udp: self.udp,
            icmp: self.icmp,
            icmpv6: self.icmpv6,
            dev: match self.dev {
                Some(x) => Some(x@),
                None => None,
            },
            ns: self.ns,
            meta: self.meta,
            data_ref: self.data_ref,
            gso: self.gso,
            packet: match self.packet {
                Some(x) => Some(x@),
                None => None,
            },
        }
    }
}

/// Skb event section.
#[derive(Clone, Debug, PartialEq, Eq)]
pub struct SkbEvent {
    /// Ethernet fields, if any.
    pub eth: Option<SkbEthEvent>,
    /// ARP fields, if any.
    pub arp: Option<SkbArpEvent>,
    /// IPv4 or IPv6 fields, if any.
    pub ip: Option<SkbIpEvent>,
    /// TCP fields, if any.
    pub tcp: Option<SkbTcpEvent>,
    /// UDP fields, if any.
    pub udp: Option<SkbUdpEvent>,
    /// ICMP fields, if any.
    pub icmp: Option<SkbIcmpEvent>,
    /// ICMPv6 fields, if any.
    pub icmpv6: Option<SkbIcmpV6Event>,
    /// Net device data, if any.
    pub dev: Option<SkbDevEvent>,
    /// Net namespace data, if any.
    pub ns: Option<SkbNsEvent>,
    /// Skb metadata, if any.
    pub meta: Option<SkbMetaEvent>,
    /// Skb data-related and refcnt information, if any.
    pub data_ref: Option<SkbDataRefEvent>,
    /// GSO information, if any.
    pub gso: Option<SkbGsoEvent>,
    /// Raw packet, if any.
    pub packet: Option<SkbPacketEvent>,
}

impl SkbEvent {
    /// An skb section with nothing in it.
    pub fn new() -> (r: SkbEvent)
        ensures
            r@ == empty_skb(),
    {
        SkbEvent {
            eth: None,
            arp: None,
            ip: None,
            tcp: None,
            udp: None,
            icmp: None,
            icmpv6: None,
            dev: None,
            ns: None,
            meta: None,
            data_ref: None,
            gso: None,
            packet: None,
        }
    }
}

} // verus!
