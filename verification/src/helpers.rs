//! Network helpers: names of protocols and text of addresses.

use vstd::prelude::*;
use crate::fmt::{decimal, hex_char, hex_digit, push_decimal, string_push};

verus! {

/// The readable name of some ethertypes.
pub open spec fn etype_name(etype: u16) -> Option<Seq<char>> {
    if etype == 0x0800 {
        Some("IPv4"@)
    } else if etype == 0x0806 {
        Some("ARP"@)
    } else if etype == 0x8035 {
        Some("Reverse ARP"@)
    } else if etype == 0x809b {
        Some("Appletalk"@)
    } else if etype == 0x80f3 {
        Some("Appletalk ARP"@)
    } else if etype == 0x8100 {
        Some("802.1Q"@)
    } else if etype == 0x86dd {
        Some("IPv6"@)
    } else if etype == 0x880b {
        Some("PPP"@)
    } else if etype == 0x8847 {
        Some("MPLS unicast"@)
    } else if etype == 0x8848 {
        Some("MPLS multicast"@)
    } else if etype == 0x8863 {
        Some("PPPoE D"@)
    } else if etype == 0x8864 {
        Some("PPPoE S"@)
    } else if etype == 0x888e {
        Some("EAPOL"@)
    } else if etype == 0x88a8 {
        Some("802.1Q QinQ"@)
    } else if etype == 0x88e5 {
        Some("802.1AE MACsec"@)
    } else if etype == 0x88f7 {
        Some("PTP"@)
    } else {
        None
    }
}

/// Returns a translation of some ethertypes into a readable format.
pub fn etype_str(etype: u16) -> (r: Option<&'static str>)
    ensures
        match etype_name(etype) {
            Some(name) => r matches Some(s) && s@ == name,
            None => r is None,
        },
{
    match etype {
        0x0800 => Some("IPv4"),
        0x0806 => Some("ARP"),
        0x8035 => Some("Reverse ARP"),
        0x809b => Some("Appletalk"),
        0x80f3 => Some("Appletalk ARP"),
        0x8100 => Some("802.1Q"),
        0x86dd => Some("IPv6"),
        0x880b => Some("PPP"),
        0x8847 => Some("MPLS unicast"),
        0x8848 => Some("MPLS multicast"),
        0x8863 => Some("PPPoE D"),
        0x8864 => Some("PPPoE S"),
        0x888e => Some("EAPOL"),
        0x88a8 => Some("802.1Q QinQ"),
        0x88e5 => Some("802.1AE MACsec"),
        0x88f7 => Some("PTP"),
        _ => None,
    }
}

/// The readable name of some protocols.
pub open spec fn protocol_name(protocol: u8) -> Option<Seq<char>> {
    if protocol == 1 {
        Some("ICMP"@)
    } else if protocol == 2 {
        Some("IGMP"@)
    } else if protocol == 4 {
        Some("IPIP"@)
    } else if protocol == 6 {
        Some("TCP"@)
    } else if protocol == 17 {
        Some("UDP"@)
    } else if protocol == 27 {
        Some("RDP"@)
    } else if protocol == 33 {
        Some("DCCP"@)
    } else if protocol == 41 {
        Some("IPv6"@)
    } else if protocol == 47 {
        Some("GRE"@)
    } else if protocol == 50 {
        Some("ESP"@)
    } else if protocol == 51 {
        Some("AH"@)
    } else if protocol == 58 {
        Some("ICMPv6"@)
    } else if protocol == 89 {
        Some("OSPF"@)
    } else if protocol == 112 {
        Some("VRRP"@)
    } else if protocol == 115 {
        Some("L2TP"@)
    } else if protocol == 132 {
        Some("SCTP"@)
    } else if protocol == 143 {
        Some("Ethernet"@)
    } else {
        None
    }
}

/// Returns a translation of some protocols into a readable format.
pub fn protocol_str(protocol: u8) -> (r: Option<&'static str>)
    ensures
        match protocol_name(protocol) {
            Some(name) => r matches Some(s) && s@ == name,
            None => r is None,
        },
{
    match protocol {
        1 => Some("ICMP"),
        2 => Some("IGMP"),
        4 => Some("IPIP"),
        6 => Some("TCP"),
        17 => Some("UDP"),
        27 => Some("RDP"),
        33 => Some("DCCP"),
        41 => Some("IPv6"),
        47 => Some("GRE"),
        50 => Some("ESP"),
        51 => Some("AH"),
        58 => Some("ICMPv6"),
        89 => Some("OSPF"),
        112 => Some("VRRP"),
        115 => Some("L2TP"),
        132 => Some("SCTP"),
        143 => Some("Ethernet"),
        _ => None,
    }
}

/// The text of the first `n` groups of an Ethernet address: each byte as two
/// hexadecimal digits in lower case, a colon between two groups.
pub open spec fn eth_addr_groups(raw: Seq<u8>, n: int) -> Seq<char>
    decreases n,
{
    if n <= 0 {
        Seq::empty()
    } else if n == 1 {
        seq![hex_digit(raw[0] as int / 16), hex_digit(raw[0] as int % 16)]
    } else {
        eth_addr_groups(raw, n - 1) + seq![
            ':',
            hex_digit(raw[n - 1] as int / 16),
            hex_digit(raw[n - 1] as int % 16),
        ]
    }
}

/// The text of an Ethernet address, such as `2e:89:3b:fe:22:7a`.
pub open spec fn eth_addr_text(raw: Seq<u8>) -> Seq<char> {
    eth_addr_groups(raw, 6)
}

/// Parses an Ethernet address into a String.
pub fn parse_eth_addr(raw: &[u8; 6]) -> (r: String)
    ensures
        r@ == eth_addr_text(raw@),
{
    let mut addr = String::new();
    let mut i: usize = 0;
    assert(addr@ =~= eth_addr_groups(raw@, 0));
    while i < 6
        invariant
            i <= 6,
            raw@.len() == 6,
            addr@ == eth_addr_groups(raw@, i as int),
        decreases 6 - i,
    {
        let group: u8 = raw[i];
        if i > 0 {
            string_push(&mut addr, ':');
        }
        string_push(&mut addr, hex_char(group / 16));
        string_push(&mut addr, hex_char(group % 16));
        assert(addr@ =~= eth_addr_groups(raw@, i + 1));
        i += 1;
    }
    addr
}

/// The text of an IPv4 address held in 32 bits, most significant byte
/// first: four decimal numbers with a dot between them.
pub open spec fn ipv4_addr_text(addr: u32) -> Seq<char> {
    decimal((addr / 16777216) as nat) + seq!['.'] + decimal((addr / 65536 % 256) as nat) + seq![
        '.',
    ] + decimal((addr / 256 % 256) as nat) + seq!['.'] + decimal((addr % 256) as nat)
}

/// Parses an IPv4 address into a String.
pub fn parse_ipv4_addr(addr: u32) -> (r: String)
    ensures
        r@ == ipv4_addr_text(addr),
{
    let mut out = String::new();
    push_decimal(&mut out, (addr / 16777216) as u64);
    string_push(&mut out, '.');
    push_decimal(&mut out, (addr / 65536 % 256) as u64);
    string_push(&mut out, '.');
    push_decimal(&mut out, (addr / 256 % 256) as u64);
    string_push(&mut out, '.');
    push_decimal(&mut out, (addr % 256) as u64);
    assert(out@ =~= ipv4_addr_text(addr));
    out
}

} // verus!
