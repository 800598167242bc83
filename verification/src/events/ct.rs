//! Conntrack state attached to a packet.

use vstd::prelude::*;

verus! {

/// Direction a conntrack zone applies to.
#[derive(Clone, Copy, Debug, PartialEq, Eq, Structural)]
pub enum ZoneDir {
    Original,
    Reply,
    Default,
    /// No zone applies.
    Unset,
}

#[derive(Clone, Copy, Debug, PartialEq, Eq, Structural)]
pub struct CtTcp {
    /// TCP source port
    pub sport: u16,
    /// TCP destination port
    pub dport: u16,
}

#[derive(Clone, Copy, Debug, PartialEq, Eq, Structural)]
pub struct CtUdp {
    /// UDP source port
    pub sport: u16,
    /// UDP destination port
    pub dport: u16,
}

#[derive(Clone, Copy, Debug, PartialEq, Eq, Structural)]
pub struct CtIcmp {
    /// ICMP code
    pub code: u8,
    /// ICMP type
    pub icmp_type: u8,
    /// ICMP ID
    pub id: u16,
}

/// Layer 4 part of a conntrack tuple.
#[derive(Clone, Copy, Debug, PartialEq, Eq, Structural)]
pub enum CtProto {
    Tcp(CtTcp),
    Udp(CtUdp),
    Icmp(CtIcmp),
}

impl Default for CtTcp {
    /// Both ports are zero.
    fn default() -> (r: CtTcp)
        ensures
            r == (CtTcp { sport: 0, dport: 0 }),
    {
        CtTcp { sport: 0, dport: 0 }
    }
}

impl Default for CtProto {
    /// TCP, with its default ports.
    fn default() -> (r: CtProto)
        ensures
            r == CtProto::Tcp(CtTcp { sport: 0, dport: 0 }),
    {
        CtProto::Tcp(CtTcp::default())
    }
}

#[derive(Clone, Copy, Debug, PartialEq, Eq, Structural)]
pub enum CtIpVersion {
    V4,
    V6,
}

#[derive(Clone, Debug, PartialEq, Eq)]
pub struct CtIp {
    /// Source IP address
    pub src: String,
    /// Destination IP address
    pub dst: String,
    /// IP version
    pub version: CtIpVersion,
}

/// Mathematical image of a [`CtIp`].
pub ghost struct CtIpModel {
    pub src: Seq<char>,
    pub dst: Seq<char>,
    pub version: CtIpVersion,
}

impl View for CtIp {
    type V = CtIpModel;

    open spec fn view(&self) -> CtIpModel {
        CtIpModel { src: self.src@, dst: self.dst@, version: self.version }
    }
}

/// Mathematical image of a [`CtTuple`].
pub ghost struct CtTupleModel {
    pub ip: CtIpModel,
    pub proto: CtProto,
}

impl View for CtTuple {
    type V = CtTupleModel;

    open spec fn view(&self) -> CtTupleModel {
        CtTupleModel { ip: self.ip@, proto: self.proto }
    }
}

/// Conntrack tuple.
#[derive(Clone, Debug, PartialEq, Eq)]
pub struct CtTuple {
    /// IP address
    pub ip: CtIp,
    /// Protocol information
    pub proto: CtProto,
}

/// Conntrack state
#[derive(Clone, Copy, Debug, PartialEq, Eq, Structural)]
pub enum CtState {
    Established,
    Related,
    New,
    /// Represents both the reply and the established-reply kernel states, as
    /// they have the same value.
    Reply,
    RelatedReply,
    Untracked,
}

/// Conntrack event
#[derive(Clone, Debug, PartialEq, Eq)]
pub struct CtEvent {
    /// Packet's conntrack state
    pub state: CtState,
    /// Base connection event.
    pub base: CtConnEvent,
    /// Parent connection information.
    pub parent: Option<CtConnEvent>,
}

/// Conntrack connection information
#[derive(Clone, Debug, PartialEq, Eq)]
pub struct CtConnEvent {
    /// Zone ID
    pub zone_id: u16,
    /// Zone direction
    pub zone_dir: ZoneDir,
    /// Original tuple
    pub orig: CtTuple,
    /// Reply tuple
    pub reply: CtTuple,
    /// TCP state; if any
    pub tcp_state: Option<String>,
}

/// Mathematical image of a [`CtConnEvent`].
pub ghost struct CtConnModel {
    pub zone_id: u16,
    pub zone_dir: ZoneDir,
    pub orig: CtTupleModel,
    pub reply: CtTupleModel,
    pub tcp_state: Option<Seq<char>>,
}

impl View for CtConnEvent {
    type V = CtConnModel;

    open spec fn view(&self) -> CtConnModel {
        CtConnModel {
            zone_id: self.zone_id,
            zone_dir: self.zone_dir,
            orig: self.orig@,
            reply: self.reply@,
            tcp_state: match self.tcp_state {
                Some(s) => Some(s@),
                None => None,
            },
        }
    }
}

/// Mathematical image of a [`CtEvent`].
pub ghost struct CtModel {
    pub state: CtState,
    pub base: CtConnModel,
    pub parent: Option<CtConnModel>,
}

impl View for CtEvent {
    type V = CtModel;

    open spec fn view(&self) -> CtModel {
        CtModel {
            state: self.state,
            base: self.base@,
            parent: match self.parent {
                Some(p) => Some(p@),
                None => None,
            },
        }
    }
}

} // verus!
