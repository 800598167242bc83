//! The text of the skb section as a whole.

use vstd::prelude::*;
use crate::display::skb::{
    buffer_text, fmt_skb_parts, lower_text, transport_text, type_code_text,
};
use crate::events::skb::{SkbEvent, SkbModel};

verus! {

/// Type and code of the control message of `skb`, if it has one.
pub open spec fn control_of(skb: SkbModel) -> Option<(u8, u8)> {
    match skb.icmp {
        Some(m) => Some((m.icmp_type, m.code)),
        None => None,
    }
}

/// Type and code of the control message of `skb` for IPv6, if it has one.
pub open spec fn control6_of(skb: SkbModel) -> Option<(u8, u8)> {
    match skb.icmpv6 {
        Some(m) => Some((m.icmp_type, m.code)),
        None => None,
    }
}

/// The text of the skb section: namespace, device, Ethernet, ARP, IP, TCP,
/// UDP, ICMP, ICMPv6 and what is known of the buffer, each if present.
pub open spec fn skb_text(skb: SkbModel) -> Seq<char> {
    lower_text(skb) + transport_text(skb) + type_code_text(control_of(skb)) + type_code_text(
        control6_of(skb),
    ) + buffer_text(skb.meta, skb.data_ref)
}

/// Adds the text of the skb section to `out`.
pub fn fmt_skb(skb: &SkbEvent, out: &mut String)
    ensures
        final(out)@ == old(out)@ + skb_text(skb@),
{
    let control: Option<(u8, u8)> = match &skb.icmp {
        Some(m) => Some((m.icmp_type, m.code)),
        None => None,
    };
    let control6: Option<(u8, u8)> = match &skb.icmpv6 {
        Some(m) => Some((m.icmp_type, m.code)),
        None => None,
    };
    fmt_skb_parts(skb, out, control, control6);
}

} // verus!
