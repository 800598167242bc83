//! The text of the conntrack section.

use vstd::prelude::*;
use crate::display::format::push_str;
use crate::events::ct::{
    CtConnEvent, CtConnModel, CtEvent, CtIcmp, CtModel, CtProto, CtState, CtTupleModel, ZoneDir,
};
use crate::fmt::{decimal, push_decimal};

verus! {

/// The text of a conntrack state.
pub open spec fn ct_state_text(state: CtState) -> Seq<char> {
    match state {
        CtState::Established => "ct_state ESTABLISHED "@,
        CtState::Related => "ct_state RELATED "@,
        CtState::New => "ct_state NEW "@,
        CtState::Reply => "ct_state REPLY "@,
        CtState::RelatedReply => "ct_state RELATED_REPLY "@,
        CtState::Untracked => "ct_state UNTRACKED "@,
    }
}

/// The text of a tuple with ports: source and destination, each as the
/// address, a dot and the port.
pub open spec fn ports_text(t: CtTupleModel, sport: u16, dport: u16) -> Seq<char> {
    t.ip.src + "."@ + decimal(sport as nat) + " > "@ + t.ip.dst + "."@ + decimal(dport as nat)
}

/// The text of a tuple with a type, a code and an id: the addresses, then
/// the three numbers.
pub open spec fn message_text(src: Seq<char>, dst: Seq<char>, kind: u8, code: u8, id: u16) -> Seq<
    char,
> {
    src + " > "@ + dst + " type "@ + decimal(kind as nat) + " code "@ + decimal(code as nat)
        + " id "@ + decimal(id as nat)
}

/// The text of an ICMP tuple: the addresses, then the type, the code and
/// the id.
pub open spec fn icmp_text(t: CtTupleModel, icmp: CtIcmp) -> Seq<char> {
    message_text(t.ip.src, t.ip.dst, icmp.icmp_type, icmp.code, icmp.id)
}

/// The text of the tuples of a connection, where both are of the same
/// protocol; nothing otherwise.
pub open spec fn tuples_text(conn: CtConnModel) -> Seq<char> {
    match (conn.orig.proto, conn.reply.proto) {
        (CtProto::Tcp(o), CtProto::Tcp(r)) => "tcp ("@ + match conn.tcp_state {
            Some(s) => s,
            None => "UNKNOWN"@,
        } + ") orig ["@ + ports_text(conn.orig, o.sport, o.dport) + "] reply ["@ + ports_text(
            conn.reply,
            r.sport,
            r.dport,
        ) + "] "@,
        (CtProto::Udp(o), CtProto::Udp(r)) => "udp orig ["@ + ports_text(
            conn.orig,
            o.sport,
            o.dport,
        ) + "] reply ["@ + ports_text(conn.reply, r.sport, r.dport) + "] "@,
        (CtProto::Icmp(o), CtProto::Icmp(r)) => "icmp orig ["@ + icmp_text(conn.orig, o)
            + "] reply ["@ + icmp_text(conn.reply, r) + "] "@,
        _ => Seq::empty(),
    }
}

/// The text of the zone of a connection.
pub open spec fn zone_text(dir: ZoneDir, id: u16) -> Seq<char> {
    match dir {
        ZoneDir::Original => "orig-zone "@ + decimal(id as nat),
        ZoneDir::Reply => "reply-zone "@ + decimal(id as nat),
        ZoneDir::Default => "zone "@ + decimal(id as nat),
        ZoneDir::Unset => Seq::empty(),
    }
}

/// The text of a connection: its tuples, then its zone.
pub open spec fn conn_text(conn: CtConnModel) -> Seq<char> {
    tuples_text(conn) + zone_text(conn.zone_dir, conn.zone_id)
}

/// The text of the conntrack section: the state, the connection and, between
/// brackets, the parent connection if there is one.
pub open spec fn ct_text(ct: CtModel) -> Seq<char> {
    ct_state_text(ct.state) + conn_text(ct.base) + match ct.parent {
        Some(p) => " parent ["@ + conn_text(p) + "]"@,
        None => Seq::empty(),
    }
}

/// Adds the text of a tuple with ports to `out`.
#[verifier::rlimit(40)]
fn push_ports(out: &mut String, src: &str, dst: &str, sport: u16, dport: u16)
    ensures
        final(out)@ == old(out)@ + (src@ + "."@ + decimal(sport as nat) + " > "@ + dst@ + "."@
            + decimal(dport as nat)),
{
    push_str(out, src);
    push_str(out, ".");
    push_decimal(out, sport as u64);
    push_str(out, " > ");
    push_str(out, dst);
    push_str(out, ".");
    push_decimal(out, dport as u64);
    assert(out@ =~= old(out)@ + (src@ + "."@ + decimal(sport as nat) + " > "@ + dst@ + "."@
        + decimal(dport as nat)));
}

/// Adds the text of a tuple with a type, a code and an id to `out`.
#[verifier::rlimit(40)]
fn push_message(out: &mut String, src: &str, dst: &str, kind: u8, code: u8, id: u16)
    ensures
        final(out)@ == old(out)@ + message_text(src@, dst@, kind, code, id),
{
    push_str(out, src);
    push_str(out, " > ");
    push_str(out, dst);
    push_str(out, " type ");
    push_decimal(out, kind as u64);
    push_str(out, " code ");
    push_decimal(out, code as u64);
    push_str(out, " id ");
    push_decimal(out, id as u64);
    assert(out@ =~= old(out)@ + message_text(src@, dst@, kind, code, id));
}

/// Adds the text of the zone of a connection to `out`.
fn push_zone(out: &mut String, dir: ZoneDir, id: u16)
    ensures
        final(out)@ == old(out)@ + zone_text(dir, id),
{
    match dir {
        ZoneDir::Original => {
            push_str(out, "orig-zone ");
            push_decimal(out, id as u64);
        },
        ZoneDir::Reply => {
            push_str(out, "reply-zone ");
            push_decimal(out, id as u64);
        },
        ZoneDir::Default => {
            push_str(out, "zone ");
            push_decimal(out, id as u64);
        },
        ZoneDir::Unset => {},
    }
    assert(out@ =~= old(out)@ + zone_text(dir, id));
}

/// Adds the text of a connection to `out`.
#[verifier::rlimit(40)]
pub fn format_conn(conn: &CtConnEvent, out: &mut String)
    ensures
        final(out)@ == old(out)@ + conn_text(conn@),
{
    let ghost start = out@;
    match (&conn.orig.proto, &conn.reply.proto) {
        (CtProto::Tcp(tcp_orig), CtProto::Tcp(tcp_reply)) => {
            push_str(out, "tcp (");
            match &conn.tcp_state {
                Some(state) => {
                    push_str(out, state.as_str());
                },
                None => {
                    push_str(out, "UNKNOWN");
                },
            }
            push_str(out, ") orig [");
            push_ports(
                out,
                conn.orig.ip.src.as_str(),
                conn.orig.ip.dst.as_str(),
                tcp_orig.sport,
                tcp_orig.dport,
            );
            push_str(out, "] reply [");
            push_ports(
                out,
                conn.reply.ip.src.as_str(),
                conn.reply.ip.dst.as_str(),
                tcp_reply.sport,
                tcp_reply.dport,
            );
            push_str(out, "] ");
            assert(out@ =~= start + tuples_text(conn@));
        },
        (CtProto::Udp(udp_orig), CtProto::Udp(udp_reply)) => {
            push_str(out, "udp orig [");
            push_ports(
                out,
                conn.orig.ip.src.as_str(),
                conn.orig.ip.dst.as_str(),
                udp_orig.sport,
                udp_orig.dport,
            );
            push_str(out, "] reply [");
            push_ports(
                out,
                conn.reply.ip.src.as_str(),
                conn.reply.ip.dst.as_str(),
                udp_reply.sport,
                udp_reply.dport,
            );
            push_str(out, "] ");
            assert(out@ =~= start + tuples_text(conn@));
        },
        (CtProto::Icmp(icmp_orig), CtProto::Icmp(icmp_reply)) => {
            push_str(out, "icmp orig [");
            push_message(
                out,
                conn.orig.ip.src.as_str(),
                conn.orig.ip.dst.as_str(),
                icmp_orig.icmp_type,
                icmp_orig.code,
                icmp_orig.id,
            );
            push_str(out, "] reply [");
            push_message(
                out,
                conn.reply.ip.src.as_str(),
                conn.reply.ip.dst.as_str(),
                icmp_reply.icmp_type,
                icmp_reply.code,
                icmp_reply.id,
            );
            push_str(out, "] ");
            assert(out@ =~= start + tuples_text(conn@));
        },
        _ => {
            assert(out@ =~= start + tuples_text(conn@));
        },
    }
    push_zone(out, conn.zone_dir, conn.zone_id);
    assert(out@ =~= old(out)@ + conn_text(conn@));
}

/// Adds the text of a conntrack state to `out`.
fn push_ct_state(out: &mut String, state: CtState)
    ensures
        final(out)@ == old(out)@ + ct_state_text(state),
{
    match state {
        CtState::Established => push_str(out, "ct_state ESTABLISHED "),
        CtState::Related => push_str(out, "ct_state RELATED "),
        CtState::New => push_str(out, "ct_state NEW "),
        CtState::Reply => push_str(out, "ct_state REPLY "),
        CtState::RelatedReply => push_str(out, "ct_state RELATED_REPLY "),
        CtState::Untracked => push_str(out, "ct_state UNTRACKED "),
    }
}

/// Adds the text of the conntrack section to `out`.
pub fn fmt_ct(ct: &CtEvent, out: &mut String)
    ensures
        final(out)@ == old(out)@ + ct_text(ct@),
{
    push_ct_state(out, ct.state);
    format_conn(&ct.base, out);
    let ghost mid = out@;
    assert(mid =~= old(out)@ + (ct_state_text(ct.state) + conn_text(ct.base@)));
    if let Some(parent) = &ct.parent {
        push_str(out, " parent [");
        format_conn(parent, out);
        push_str(out, "]");
        assert(out@ =~= mid + (" parent ["@ + conn_text(parent@) + "]"@));
        assert(out@ =~= old(out)@ + ct_text(ct@));
    } else {
        assert(out@ =~= old(out)@ + ct_text(ct@));
    }
}

} // verus!
