//! The text of the skb section.

use vstd::prelude::*;
use crate::display::format::{lemma_join, push_str};
use crate::events::skb::{
    ArpOperation, SkbArpEvent, SkbArpModel, SkbDataRefEvent, SkbDevEvent, SkbDevModel,
    SkbEthEvent, SkbEthModel, SkbEvent, SkbIpEvent, SkbIpModel, SkbMetaEvent, SkbModel,
    SkbNsEvent, SkbTcpEvent, SkbUdpEvent,
};
use crate::fmt::{
    decimal, hexadecimal, hexadecimal_padded, push_decimal, push_hexadecimal,
    push_hexadecimal_padded,
};
use crate::helpers::{etype_name, etype_str, protocol_name, protocol_str};

verus! {

/// The text of the net namespace.
pub open spec fn ns_text(ns: Option<SkbNsEvent>) -> Seq<char> {
    match ns {
        Some(ns) => " ns "@ + decimal(ns.netns as nat),
        None => Seq::empty(),
    }
}

fn push_ns(out: &mut String, ns: &Option<SkbNsEvent>)
    ensures
        final(out)@ == old(out)@ + ns_text(*ns),
{
    if let Some(ns) = ns {
        push_str(out, " ns ");
        push_decimal(out, ns.netns as u64);
        assert(out@ =~= old(out)@ + ns_text(Some(*ns)));
    } else {
        assert(out@ =~= old(out)@ + ns_text(None));
    }
}

/// The text of the net device: its index and, between parentheses, its
/// name, if it has an index; then the index of the device the packet
/// arrived on, if known.
pub open spec fn dev_text(dev: Option<SkbDevModel>) -> Seq<char> {
    match dev {
        Some(dev) => (if dev.ifindex > 0 {
            " if "@ + decimal(dev.ifindex as nat) + if dev.name.len() > 0 {
                " ("@ + dev.name + ")"@
            } else {
                Seq::empty()
            }
        } else {
            Seq::empty()
        }) + match dev.rx_ifindex {
            Some(rx) => " rxif "@ + decimal(rx as nat),
            None => Seq::empty(),
        },
        None => Seq::empty(),
    }
}

#[verifier::rlimit(40)]
fn push_dev(out: &mut String, dev: &Option<SkbDevEvent>)
    ensures
        final(out)@ == old(out)@ + dev_text(
            match dev {
                Some(d) => Some(d@),
                None => None,
            },
        ),
{
    if let Some(dev) = dev {
        if dev.ifindex > 0 {
            push_str(out, " if ");
            push_decimal(out, dev.ifindex as u64);
            if !dev.name.as_str().is_empty() {
                push_str(out, " (");
                push_str(out, dev.name.as_str());
                push_str(out, ")");
            }
        }
        if let Some(rx_ifindex) = dev.rx_ifindex {
            push_str(out, " rxif ");
            push_decimal(out, rx_ifindex as u64);
        }
        assert(out@ =~= old(out)@ + dev_text(Some(dev@)));
    } else {
        assert(out@ =~= old(out)@ + dev_text(None));
    }
}

/// The text of the Ethernet fields: the addresses, then the ethertype by
/// its name, if it has one, and in four hexadecimal digits.
pub open spec fn eth_text(eth: Option<SkbEthModel>) -> Seq<char> {
    match eth {
        Some(eth) => " "@ + eth.src + " > "@ + eth.dst + " ethertype"@ + match etype_name(
            eth.etype,
        ) {
            Some(name) => " "@ + name,
            None => Seq::empty(),
        } + " (0x"@ + hexadecimal_padded(eth.etype as nat, 4) + ")"@,
        None => Seq::empty(),
    }
}

#[verifier::rlimit(40)]
fn push_eth(out: &mut String, eth: &Option<SkbEthEvent>)
    ensures
        final(out)@ == old(out)@ + eth_text(
            match eth {
                Some(e) => Some(e@),
                None => None,
            },
        ),
{
    if let Some(eth) = eth {
        push_str(out, " ");
        push_str(out, eth.src.as_str());
        push_str(out, " > ");
        push_str(out, eth.dst.as_str());
        push_str(out, " ethertype");
        if let Some(name) = etype_str(eth.etype) {
            push_str(out, " ");
            push_str(out, name);
        }
        push_str(out, " (0x");
        push_hexadecimal_padded(out, eth.etype as u64, 4);
        push_str(out, ")");
        assert(out@ =~= old(out)@ + eth_text(Some(eth@)));
    } else {
        assert(out@ =~= old(out)@ + eth_text(None));
    }
}

/// The text of the ARP fields: who is asked for, or who answers.
pub open spec fn arp_text(arp: Option<SkbArpModel>) -> Seq<char> {
    match arp {
        Some(arp) => match arp.operation {
            ArpOperation::Request => " request who-has "@ + arp.tpa + " tell "@ + arp.spa,
            ArpOperation::Reply => " reply "@ + arp.spa + " is at "@ + arp.sha,
        },
        None => Seq::empty(),
    }
}

#[verifier::rlimit(40)]
fn push_arp(out: &mut String, arp: &Option<SkbArpEvent>)
    ensures
        final(out)@ == old(out)@ + arp_text(
            match arp {
                Some(a) => Some(a@),
                None => None,
            },
        ),
{
    if let Some(arp) = arp {
        match arp.operation {
            ArpOperation::Request => {
                push_str(out, " request who-has ");
                push_str(out, arp.tpa.as_str());
                push_str(out, " tell ");
                push_str(out, arp.spa.as_str());
            },
            ArpOperation::Reply => {
                push_str(out, " reply ");
                push_str(out, arp.spa.as_str());
                push_str(out, " is at ");
                push_str(out, arp.sha.as_str());
            },
        }
        assert(out@ =~= old(out)@ + arp_text(Some(arp@)));
    } else {
        assert(out@ =~= old(out)@ + arp_text(None));
    }
}

/// The ports of the transport header: those of TCP if there is one, else
/// those of UDP.
pub open spec fn ports_of(tcp: Option<SkbTcpEvent>, udp: Option<SkbUdpEvent>) -> Option<
    (u16, u16),
> {
    match tcp {
        Some(tcp) => Some((tcp.sport, tcp.dport)),
        None => match udp {
            Some(udp) => Some((udp.sport, udp.dport)),
            None => None,
        },
    }
}

/// The text of the addresses of the IP fields, each followed by a dot and
/// its port if the ports are known.
pub open spec fn ip_addr_part(ip: SkbIpModel, ports: Option<(u16, u16)>) -> Seq<char> {
    match ports {
        Some((sport, dport)) => " "@ + ip.saddr + "."@ + decimal(sport as nat) + " > "@ + ip.daddr
            + "."@ + decimal(dport as nat),
        None => " "@ + ip.saddr + " > "@ + ip.daddr,
    }
}

/// The text of the length of the IP fields and of their protocol, by its
/// name, if it has one, and by its number.
pub open spec fn ip_proto_part(ip: SkbIpModel) -> Seq<char> {
    " len "@ + decimal(ip.len as nat) + " proto"@ + match protocol_name(ip.protocol) {
        Some(name) => " "@ + name,
        None => Seq::empty(),
    } + " ("@ + decimal(ip.protocol as nat) + ")"@
}

/// The text of the IP fields: the addresses, each followed by a dot and its
/// port if the ports are known; then the length, and the protocol by its
/// name, if it has one, and by its number.
pub open spec fn ip_text(ip: Option<SkbIpModel>, ports: Option<(u16, u16)>) -> Seq<char> {
    match ip {
        Some(ip) => ip_addr_part(ip, ports) + ip_proto_part(ip),
        None => Seq::empty(),
    }
}

#[verifier::rlimit(40)]
fn push_ip_addr_part(out: &mut String, ip: &SkbIpEvent, ports: Option<(u16, u16)>)
    ensures
        final(out)@ == old(out)@ + ip_addr_part(ip@, ports),
{
    push_str(out, " ");
    push_str(out, ip.saddr.as_str());
    if let Some((sport, dport)) = ports {
        push_str(out, ".");
        push_decimal(out, sport as u64);
        push_str(out, " > ");
        push_str(out, ip.daddr.as_str());
        push_str(out, ".");
        push_decimal(out, dport as u64);
        assert(out@ =~= old(out)@ + ip_addr_part(ip@, ports));
    } else {
        push_str(out, " > ");
        push_str(out, ip.daddr.as_str());
        assert(out@ =~= old(out)@ + ip_addr_part(ip@, ports));
    }
}

#[verifier::rlimit(40)]
fn push_ip_proto_part(out: &mut String, ip: &SkbIpEvent)
    ensures
        final(out)@ == old(out)@ + ip_proto_part(ip@),
{
    push_str(out, " len ");
    push_decimal(out, ip.len as u64);
    push_str(out, " proto");
    if let Some(name) = protocol_str(ip.protocol) {
        push_str(out, " ");
        push_str(out, name);
    }
    push_str(out, " (");
    push_decimal(out, ip.protocol as u64);
    push_str(out, ")");
    assert(out@ =~= old(out)@ + ip_proto_part(ip@));
}

fn push_ip(out: &mut String, ip: &Option<SkbIpEvent>, ports: Option<(u16, u16)>)
    ensures
        final(out)@ == old(out)@ + ip_text(
            match ip {
                Some(i) => Some(i@),
                None => None,
            },
            ports,
        ),
{
    if let Some(ip) = ip {
        push_ip_addr_part(out, ip, ports);
        push_ip_proto_part(out, ip);
        proof {
            lemma_join(old(out)@, ip_addr_part(ip@, ports), ip_proto_part(ip@));
        }
    } else {
        assert(out@ =~= old(out)@ + ip_text(None, ports));
    }
}

/// Whether bit `bit` of `flags` is set.
pub open spec fn has_flag(flags: u8, bit: u8) -> bool {
    if bit == 0 {
        flags % 2 == 1
    } else if bit == 1 {
        flags / 2 % 2 == 1
    } else if bit == 2 {
        flags / 4 % 2 == 1
    } else if bit == 3 {
        flags / 8 % 2 == 1
    } else if bit == 4 {
        flags / 16 % 2 == 1
    } else {
        flags / 32 % 2 == 1
    }
}

/// `c` if `set`, nothing otherwise.
pub open spec fn flag_text(set: bool, c: char) -> Seq<char> {
    if set {
        seq![c]
    } else {
        Seq::empty()
    }
}

/// The text of the TCP flags: F, S, R, P, a dot for the acknowledgement and
/// U, for the flags that are set, in this order.
pub open spec fn tcp_flags_text(flags: u8) -> Seq<char> {
    flag_text(has_flag(flags, 0), 'F') + flag_text(has_flag(flags, 1), 'S') + flag_text(
        has_flag(flags, 2),
        'R',
    ) + flag_text(has_flag(flags, 3), 'P') + flag_text(has_flag(flags, 4), '.') + flag_text(
        has_flag(flags, 5),
        'U',
    )
}

fn push_flag(out: &mut String, set: bool, c: char)
    ensures
        final(out)@ == old(out)@ + flag_text(set, c),
{
    if set {
        crate::fmt::string_push(out, c);
        assert(out@ =~= old(out)@ + flag_text(set, c));
    } else {
        assert(out@ =~= old(out)@ + flag_text(set, c));
    }
}

fn push_tcp_flags(out: &mut String, flags: u8)
    ensures
        final(out)@ == old(out)@ + tcp_flags_text(flags),
{
    push_flag(out, flags % 2 == 1, 'F');
    push_flag(out, flags / 2 % 2 == 1, 'S');
    push_flag(out, flags / 4 % 2 == 1, 'R');
    push_flag(out, flags / 8 % 2 == 1, 'P');
    push_flag(out, flags / 16 % 2 == 1, '.');
    push_flag(out, flags / 32 % 2 == 1, 'U');
    proof {
        let s = old(out)@;
        let f0 = flag_text(has_flag(flags, 0), 'F');
        let f1 = flag_text(has_flag(flags, 1), 'S');
        let f2 = flag_text(has_flag(flags, 2), 'R');
        let f3 = flag_text(has_flag(flags, 3), 'P');
        let f4 = flag_text(has_flag(flags, 4), '.');
        let f5 = flag_text(has_flag(flags, 5), 'U');
        lemma_join(s, f0, f1);
        lemma_join(s, f0 + f1, f2);
        lemma_join(s, f0 + f1 + f2, f3);
        lemma_join(s, f0 + f1 + f2 + f3, f4);
        lemma_join(s, f0 + f1 + f2 + f3 + f4, f5);
    }
}

/// The length that the IP header gives, less the data offset of the TCP
/// header, and zero where the offset is the greater.
pub open spec fn tcp_data_len(ip_len: u16, doff: u8) -> int {
    if ip_len > doff {
        ip_len - doff
    } else {
        0
    }
}

/// The sequence number that follows those of the data: the sequence number
/// plus the length, in 32 bits.
pub open spec fn tcp_next_seq(seq: u32, len: int) -> int {
    (seq + len) % 4294967296
}

/// The text of the TCP flags, between brackets.
pub open spec fn tcp_flags_part(tcp: SkbTcpEvent) -> Seq<char> {
    " flags ["@ + tcp_flags_text(tcp.flags) + "]"@
}

/// The text of the TCP sequence numbers: that of the segment and, where the
/// segment has data, a colon and the one that follows the data.
pub open spec fn tcp_seq_part(tcp: SkbTcpEvent, ip_len: u16) -> Seq<char> {
    " seq "@ + decimal(tcp.seq as nat) + if tcp_data_len(ip_len, tcp.doff) > 0 {
        ":"@ + decimal(tcp_next_seq(tcp.seq, tcp_data_len(ip_len, tcp.doff)) as nat)
    } else {
        Seq::empty()
    }
}

/// The text of the TCP acknowledgement, where it is flagged.
pub open spec fn tcp_ack_part(tcp: SkbTcpEvent) -> Seq<char> {
    if has_flag(tcp.flags, 4) {
        " ack "@ + decimal(tcp.ack_seq as nat)
    } else {
        Seq::empty()
    }
}

/// The text of the TCP window.
pub open spec fn tcp_win_part(tcp: SkbTcpEvent) -> Seq<char> {
    " win "@ + decimal(tcp.window as nat)
}

/// The text of the TCP fields: the flags, the sequence numbers, the
/// acknowledgement if it is flagged, and the window.
pub open spec fn tcp_text(tcp: Option<SkbTcpEvent>, ip_len: u16) -> Seq<char> {
    match tcp {
        Some(tcp) => tcp_flags_part(tcp) + tcp_seq_part(tcp, ip_len) + tcp_ack_part(tcp)
            + tcp_win_part(tcp),
        None => Seq::empty(),
    }
}

fn push_tcp_flags_part(out: &mut String, tcp: &SkbTcpEvent)
    ensures
        final(out)@ == old(out)@ + tcp_flags_part(*tcp),
{
    push_str(out, " flags [");
    push_tcp_flags(out, tcp.flags);
    push_str(out, "]");
    assert(out@ =~= old(out)@ + tcp_flags_part(*tcp));
}

fn push_tcp_seq_part(out: &mut String, tcp: &SkbTcpEvent, ip_len: u16)
    ensures
        final(out)@ == old(out)@ + tcp_seq_part(*tcp, ip_len),
{
    push_str(out, " seq ");
    push_decimal(out, tcp.seq as u64);
    if ip_len > tcp.doff as u16 {
        let len: u64 = (ip_len - tcp.doff as u16) as u64;
        let next: u64 = (tcp.seq as u64 + len) % 4294967296;
        push_str(out, ":");
        push_decimal(out, next);
        assert(out@ =~= old(out)@ + tcp_seq_part(*tcp, ip_len));
    } else {
        assert(out@ =~= old(out)@ + tcp_seq_part(*tcp, ip_len));
    }
}

fn push_tcp_ack_part(out: &mut String, tcp: &SkbTcpEvent)
    ensures
        final(out)@ == old(out)@ + tcp_ack_part(*tcp),
{
    if tcp.flags / 16 % 2 == 1 {
        push_str(out, " ack ");
        push_decimal(out, tcp.ack_seq as u64);
        assert(out@ =~= old(out)@ + tcp_ack_part(*tcp));
    } else {
        assert(out@ =~= old(out)@ + tcp_ack_part(*tcp));
    }
}

fn push_tcp_win_part(out: &mut String, tcp: &SkbTcpEvent)
    ensures
        final(out)@ == old(out)@ + tcp_win_part(*tcp),
{
    push_str(out, " win ");
    push_decimal(out, tcp.window as u64);
    assert(out@ =~= old(out)@ + tcp_win_part(*tcp));
}

fn push_tcp(out: &mut String, tcp: &Option<SkbTcpEvent>, ip_len: u16)
    ensures
        final(out)@ == old(out)@ + tcp_text(*tcp, ip_len),
{
    if let Some(tcp) = tcp {
        push_tcp_flags_part(out, tcp);
        push_tcp_seq_part(out, tcp, ip_len);
        push_tcp_ack_part(out, tcp);
        push_tcp_win_part(out, tcp);
        proof {
            let s = old(out)@;
            let a = tcp_flags_part(*tcp);
            let b = tcp_seq_part(*tcp, ip_len);
            let c = tcp_ack_part(*tcp);
            let d = tcp_win_part(*tcp);
            lemma_join(s, a, b);
            lemma_join(s, a + b, c);
            lemma_join(s, a + b + c, d);
        }
    } else {
        assert(out@ =~= old(out)@ + tcp_text(None, ip_len));
    }
}

/// The text of the UDP fields.
pub open spec fn udp_text(udp: Option<SkbUdpEvent>) -> Seq<char> {
    match udp {
        Some(udp) => " len "@ + decimal(udp.len as nat),
        None => Seq::empty(),
    }
}

fn push_udp(out: &mut String, udp: &Option<SkbUdpEvent>)
    ensures
        final(out)@ == old(out)@ + udp_text(*udp),
{
    if let Some(udp) = udp {
        push_str(out, " len ");
        push_decimal(out, udp.len as u64);
        assert(out@ =~= old(out)@ + udp_text(Some(*udp)));
    } else {
        assert(out@ =~= old(out)@ + udp_text(None));
    }
}

/// The text of a type and a code, if there are any.
pub open spec fn type_code_text(message: Option<(u8, u8)>) -> Seq<char> {
    match message {
        Some((kind, code)) => " type "@ + decimal(kind as nat) + " code "@ + decimal(code as nat),
        None => Seq::empty(),
    }
}

fn push_type_code(out: &mut String, message: Option<(u8, u8)>)
    ensures
        final(out)@ == old(out)@ + type_code_text(message),
{
    if let Some((kind, code)) = message {
        push_str(out, " type ");
        push_decimal(out, kind as u64);
        push_str(out, " code ");
        push_decimal(out, code as u64);
        assert(out@ =~= old(out)@ + type_code_text(message));
    } else {
        assert(out@ =~= old(out)@ + type_code_text(message));
    }
}

/// The text of a label and of a number in hexadecimal, followed by a
/// space, where the number is not zero.
pub open spec fn hex_field(label: Seq<char>, n: u32) -> Seq<char> {
    if n != 0 {
        label + hexadecimal(n as nat) + " "@
    } else {
        Seq::empty()
    }
}

/// The text of a label and of a number in decimal, followed by a space.
pub open spec fn field(label: Seq<char>, n: u32) -> Seq<char> {
    label + decimal(n as nat) + " "@
}

/// The text of a label and of a number in decimal, followed by a space,
/// where the number is not zero.
pub open spec fn nonzero_field(label: Seq<char>, n: u32) -> Seq<char> {
    if n != 0 {
        field(label, n)
    } else {
        Seq::empty()
    }
}

/// The text of the metadata: the checksum and the hash in hexadecimal
/// where they are not zero, the length, the length of the data where it is
/// not zero, and the priority, each followed by a space.
pub open spec fn meta_text(meta: Option<SkbMetaEvent>) -> Seq<char> {
    match meta {
        Some(meta) => hex_field("csum 0x"@, meta.csum) + hex_field("hash 0x"@, meta.hash) + field(
            "len "@,
            meta.len,
        ) + nonzero_field("data_len "@, meta.data_len) + field("priority "@, meta.priority),
        None => Seq::empty(),
    }
}

fn push_hex_field(out: &mut String, label: &str, n: u32)
    ensures
        final(out)@ == old(out)@ + hex_field(label@, n),
{
    if n != 0 {
        push_str(out, label);
        push_hexadecimal(out, n as u64);
        push_str(out, " ");
        assert(out@ =~= old(out)@ + hex_field(label@, n));
    } else {
        assert(out@ =~= old(out)@ + hex_field(label@, n));
    }
}

fn push_field(out: &mut String, label: &str, n: u32)
    ensures
        final(out)@ == old(out)@ + field(label@, n),
{
    push_str(out, label);
    push_decimal(out, n as u64);
    push_str(out, " ");
    assert(out@ =~= old(out)@ + field(label@, n));
}

fn push_nonzero_field(out: &mut String, label: &str, n: u32)
    ensures
        final(out)@ == old(out)@ + nonzero_field(label@, n),
{
    if n != 0 {
        push_field(out, label, n);
    } else {
        assert(out@ =~= old(out)@ + nonzero_field(label@, n));
    }
}

fn push_meta(out: &mut String, meta: &Option<SkbMetaEvent>)
    ensures
        final(out)@ == old(out)@ + meta_text(*meta),
{
    if let Some(meta) = meta {
        push_hex_field(out, "csum 0x", meta.csum);
        push_hex_field(out, "hash 0x", meta.hash);
        push_field(out, "len ", meta.len);
        push_nonzero_field(out, "data_len ", meta.data_len);
        push_field(out, "priority ", meta.priority);
        proof {
            let s = old(out)@;
            let a = hex_field("csum 0x"@, meta.csum);
            let b = hex_field("hash 0x"@, meta.hash);
            let c = field("len "@, meta.len);
            let d = nonzero_field("data_len "@, meta.data_len);
            let e = field("priority "@, meta.priority);
            lemma_join(s, a, b);
            lemma_join(s, a + b, c);
            lemma_join(s, a + b + c, d);
            lemma_join(s, a + b + c + d, e);
        }
    } else {
        assert(out@ =~= old(out)@ + meta_text(None));
    }
}

/// The text of the reference counts: what the buffer is, then its users and
/// the references to its data.
pub open spec fn data_ref_text(data_ref: Option<SkbDataRefEvent>) -> Seq<char> {
    match data_ref {
        Some(d) => (if d.nohdr {
            "nohdr "@
        } else {
            Seq::empty()
        }) + if d.cloned {
            "cloned "@
        } else {
            Seq::empty()
        } + if d.fclone > 0 {
            "fclone "@ + decimal(d.fclone as nat) + " "@
        } else {
            Seq::empty()
        } + "users "@ + decimal(d.users as nat) + " dataref "@ + decimal(d.dataref as nat),
        None => Seq::empty(),
    }
}

#[verifier::rlimit(40)]
fn push_data_ref(out: &mut String, data_ref: &Option<SkbDataRefEvent>)
    ensures
        final(out)@ == old(out)@ + data_ref_text(*data_ref),
{
    if let Some(d) = data_ref {
        if d.nohdr {
            push_str(out, "nohdr ");
        }
        if d.cloned {
            push_str(out, "cloned ");
        }
        if d.fclone > 0 {
            push_str(out, "fclone ");
            push_decimal(out, d.fclone as u64);
            push_str(out, " ");
        }
        push_str(out, "users ");
        push_decimal(out, d.users as u64);
        push_str(out, " dataref ");
        push_decimal(out, d.dataref as u64);
        assert(out@ =~= old(out)@ + data_ref_text(Some(*d)));
    } else {
        assert(out@ =~= old(out)@ + data_ref_text(None));
    }
}

/// The text of what is known of the buffer itself, between brackets, if
/// anything is known.
pub open spec fn buffer_text(meta: Option<SkbMetaEvent>, data_ref: Option<SkbDataRefEvent>) -> Seq<
    char,
> {
    if meta is Some || data_ref is Some {
        " skb ["@ + meta_text(meta) + data_ref_text(data_ref) + "]"@
    } else {
        Seq::empty()
    }
}

fn push_buffer(out: &mut String, meta: &Option<SkbMetaEvent>, data_ref: &Option<SkbDataRefEvent>)
    ensures
        final(out)@ == old(out)@ + buffer_text(*meta, *data_ref),
{
    if meta.is_some() || data_ref.is_some() {
        push_str(out, " skb [");
        push_meta(out, meta);
        push_data_ref(out, data_ref);
        push_str(out, "]");
        assert(out@ =~= old(out)@ + buffer_text(*meta, *data_ref));
    } else {
        assert(out@ =~= old(out)@ + buffer_text(*meta, *data_ref));
    }
}

/// The length that the IP fields give, or zero without them.
pub open spec fn ip_len_of(ip: Option<SkbIpModel>) -> u16 {
    match ip {
        Some(ip) => ip.len,
        None => 0,
    }
}

/// The text of the link and network layers: namespace, device, Ethernet,
/// ARP and IP.
pub open spec fn lower_text(skb: SkbModel) -> Seq<char> {
    ns_text(skb.ns) + dev_text(skb.dev) + eth_text(skb.eth) + arp_text(skb.arp) + ip_text(
        skb.ip,
        ports_of(skb.tcp, skb.udp),
    )
}

/// The text of the transport layer: TCP and UDP.
pub open spec fn transport_text(skb: SkbModel) -> Seq<char> {
    tcp_text(skb.tcp, ip_len_of(skb.ip)) + udp_text(skb.udp)
}

fn push_lower(out: &mut String, skb: &SkbEvent)
    ensures
        final(out)@ == old(out)@ + lower_text(skb@),
{
    push_ns(out, &skb.ns);
    push_dev(out, &skb.dev);
    push_eth(out, &skb.eth);
    push_arp(out, &skb.arp);
    let ports: Option<(u16, u16)> = match &skb.tcp {
        Some(tcp) => Some((tcp.sport, tcp.dport)),
        None => match &skb.udp {
            Some(udp) => Some((udp.sport, udp.dport)),
            None => None,
        },
    };
    push_ip(out, &skb.ip, ports);
    proof {
        let s = old(out)@;
        let m = skb@;
        let a = ns_text(m.ns);
        let b = dev_text(m.dev);
        let c = eth_text(m.eth);
        let d = arp_text(m.arp);
        let e = ip_text(m.ip, ports_of(m.tcp, m.udp));
        lemma_join(s, a, b);
        lemma_join(s, a + b, c);
        lemma_join(s, a + b + c, d);
        lemma_join(s, a + b + c + d, e);
    }
}

fn push_transport(out: &mut String, skb: &SkbEvent)
    ensures
        final(out)@ == old(out)@ + transport_text(skb@),
{
    let len: u16 = match &skb.ip {
        Some(ip) => ip.len,
        None => 0,
    };
    push_tcp(out, &skb.tcp, len);
    push_udp(out, &skb.udp);
    proof {
        lemma_join(old(out)@, tcp_text(skb@.tcp, ip_len_of(skb@.ip)), udp_text(skb@.udp));
    }
}

/// Adds the text of the skb section to `out`, but for the control
/// messages; see [`crate::display::skb_text::skb_text`].
pub fn fmt_skb_parts(
    skb: &SkbEvent,
    out: &mut String,
    control: Option<(u8, u8)>,
    control6: Option<(u8, u8)>,
)
    ensures
        final(out)@ == old(out)@ + (lower_text(skb@) + transport_text(skb@) + type_code_text(
            control,
        ) + type_code_text(control6) + buffer_text(skb.meta, skb.data_ref)),
{
    push_lower(out, skb);
    push_transport(out, skb);
    push_type_code(out, control);
    push_type_code(out, control6);
    push_buffer(out, &skb.meta, &skb.data_ref);
    proof {
        let s = old(out)@;
        let a = lower_text(skb@);
        let b = transport_text(skb@);
        let c = type_code_text(control);
        let d = type_code_text(control6);
        let e = buffer_text(skb.meta, skb.data_ref);
        lemma_join(s, a, b);
        lemma_join(s, a + b, c);
        lemma_join(s, a + b + c, d);
        lemma_join(s, a + b + c + d, e);
    }
}

} // verus!
