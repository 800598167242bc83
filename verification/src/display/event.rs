//! The text of an event: the sections that make its first line, then the
//! stack trace and the other sections.

use vstd::prelude::*;
use crate::display::ct::{ct_text, fmt_ct};
use crate::display::format::{indented, lemma_join, push_indented, push_str, DisplayFormat};
use crate::display::sections::{
    common_text, fmt_common, fmt_kernel, fmt_nft, fmt_ovs, fmt_skb_drop, fmt_skb_tracking,
    fmt_stack_trace, fmt_startup, fmt_tracking, fmt_user, kernel_text, nft_text, ovs_text,
    skb_drop_text, skb_tracking_text, stack_text, startup_text, tracking_text, user_text,
};
use crate::display::skb_text::{fmt_skb, skb_text};
use crate::events::event::Event;
use crate::events::section::Section;
use crate::fmt::string_push;
use crate::section_id::{section_of_u8, SectionId};

verus! {

/// Spaces put after each new line of the stack trace.
pub const STACK_LEVEL: usize = 4;

/// Spaces put after each new line of the sections that follow the first
/// line.
pub const SECTION_LEVEL: usize = 2;

/// The text of a section.
pub open spec fn section_text(section: Section, format: DisplayFormat) -> Seq<char> {
    match section {
        Section::Common(c) => common_text(c@, format),
        Section::Kernel(k) => kernel_text(k.symbol@, k.probe_type@),
        Section::Userspace(u) => user_text(u.event_type@, u.symbol@, u.pid, u.tid),
        Section::Tracking(t) => tracking_text(t),
        Section::SkbTracking(t) => skb_tracking_text(t),
        Section::SkbDrop(d) => skb_drop_text(
            match d.subsys {
                Some(s) => Some(s@),
                None => None,
            },
            d.drop_reason@,
        ),
        Section::Skb(s) => skb_text(s@),
        Section::Ovs(o) => ovs_text(o),
        Section::Nft(n) => nft_text(
            n.table_name@,
            n.table_handle,
            n.chain_name@,
            n.chain_handle,
            n.rule_handle,
            n.verdict@,
            match n.verdict_chain_name {
                Some(c) => Some(c@),
                None => None,
            },
        ),
        Section::Ct(c) => ct_text(c@),
        Section::Startup(s) => startup_text(s.retis_version@),
    }
}

/// Adds the text of a section to `out`.
pub fn fmt_section(section: &Section, out: &mut String, format: &DisplayFormat)
    ensures
        final(out)@ == old(out)@ + section_text(*section, *format),
{
    match section {
        Section::Common(c) => fmt_common(c, out, format),
        Section::Kernel(k) => fmt_kernel(k, out),
        Section::Userspace(u) => fmt_user(u, out),
        Section::Tracking(t) => fmt_tracking(t, out),
        Section::SkbTracking(t) => fmt_skb_tracking(t, out),
        Section::SkbDrop(d) => fmt_skb_drop(d, out),
        Section::Skb(s) => fmt_skb(s, out),
        Section::Ovs(o) => fmt_ovs(o, out),
        Section::Nft(n) => fmt_nft(n, out),
        Section::Ct(c) => fmt_ct(c, out),
        Section::Startup(s) => fmt_startup(s, out),
    }
}

/// The text of the section stored under `id`, after a space, if there is
/// one.
pub open spec fn spaced(sections: Map<SectionId, Section>, id: SectionId, format: DisplayFormat)
    -> Seq<char> {
    if sections.contains_key(id) {
        " "@ + section_text(sections[id], format)
    } else {
        Seq::empty()
    }
}

/// The text of the section stored under `first`, after a space, if there is
/// one, and else that of the section stored under `second`.
pub open spec fn either(
    sections: Map<SectionId, Section>,
    first: SectionId,
    second: SectionId,
    format: DisplayFormat,
) -> Seq<char> {
    if sections.contains_key(first) {
        spaced(sections, first, format)
    } else {
        spaced(sections, second, format)
    }
}

/// The first line of an event: the common section, the kernel section or
/// else the userspace one, the tracking section or else the skb tracking
/// one, and the drop section.
pub open spec fn head_text(sections: Map<SectionId, Section>, format: DisplayFormat) -> Seq<char> {
    (if sections.contains_key(SectionId::Common) {
        section_text(sections[SectionId::Common], format)
    } else {
        Seq::empty()
    }) + either(sections, SectionId::Kernel, SectionId::Userspace, format) + either(
        sections,
        SectionId::Tracking,
        SectionId::SkbTracking,
        format,
    ) + spaced(sections, SectionId::SkbDrop, format)
}

/// The stack trace that the kernel section carries, if any.
pub open spec fn stack_of(sections: Map<SectionId, Section>) -> Option<Seq<String>> {
    if sections.contains_key(SectionId::Kernel) {
        match sections[SectionId::Kernel] {
            Section::Kernel(k) => match k.stack_trace {
                Some(stack) => Some(stack.0@),
                None => None,
            },
            _ => None,
        }
    } else {
        None
    }
}

/// The block of the stack trace: the separator, then the stack trace, with
/// four spaces after each new line.
pub open spec fn stack_block(sections: Map<SectionId, Section>, format: DisplayFormat) -> Seq<
    char,
> {
    match stack_of(sections) {
        Some(frames) => indented(
            seq![format.spec_separator()] + stack_text(frames, format.spec_multiline()),
            STACK_LEVEL as nat,
        ),
        None => Seq::empty(),
    }
}

/// The block of the section stored under `id`, if there is one: the
/// separator, then the section, with two spaces after each new line.
pub open spec fn section_block(
    sections: Map<SectionId, Section>,
    id: SectionId,
    format: DisplayFormat,
) -> Seq<char> {
    if sections.contains_key(id) {
        indented(
            seq![format.spec_separator()] + section_text(sections[id], format),
            SECTION_LEVEL as nat,
        )
    } else {
        Seq::empty()
    }
}

/// The blocks of the sections whose numeric identifier is `from` at least,
/// in the order of the identifiers.
pub open spec fn blocks_from(sections: Map<SectionId, Section>, from: u8, format: DisplayFormat)
    -> Seq<char>
    decreases 256 - from,
{
    match section_of_u8(from) {
        None => Seq::empty(),
        Some(id) => section_block(sections, id, format) + blocks_from(
            sections,
            (from + 1) as u8,
            format,
        ),
    }
}

/// The text of an event: the first line, the block of the stack trace if
/// the kernel section carries one, then the blocks of the sections that are
/// not on the first line, from the skb section on, in the order of their
/// numeric identifiers.
pub open spec fn event_text(sections: Map<SectionId, Section>, format: DisplayFormat) -> Seq<char> {
    head_text(sections, format) + stack_block(sections, format) + blocks_from(sections, 7, format)
}

fn push_spaced(event: &Event, id: SectionId, out: &mut String, format: &DisplayFormat)
    ensures
        final(out)@ == old(out)@ + spaced(event@, id, *format),
{
    match event.get_section(id) {
        Some(section) => {
            push_str(out, " ");
            fmt_section(section, out, format);
            assert(out@ =~= old(out)@ + spaced(event@, id, *format));
        },
        None => {
            assert(out@ =~= old(out)@ + spaced(event@, id, *format));
        },
    }
}

fn push_either(
    event: &Event,
    first: SectionId,
    second: SectionId,
    out: &mut String,
    format: &DisplayFormat,
)
    ensures
        final(out)@ == old(out)@ + either(event@, first, second, *format),
{
    if event.contains(first) {
        push_spaced(event, first, out, format);
    } else {
        push_spaced(event, second, out, format);
    }
}

fn push_head(event: &Event, out: &mut String, format: &DisplayFormat)
    ensures
        final(out)@ == old(out)@ + head_text(event@, *format),
{
    let ghost common = if event@.contains_key(SectionId::Common) {
        section_text(event@[SectionId::Common], *format)
    } else {
        Seq::empty()
    };
    match event.get_section(SectionId::Common) {
        Some(section) => {
            fmt_section(section, out, format);
        },
        None => {
            assert(out@ =~= old(out)@ + common);
        },
    }
    push_either(event, SectionId::Kernel, SectionId::Userspace, out, format);
    push_either(event, SectionId::Tracking, SectionId::SkbTracking, out, format);
    push_spaced(event, SectionId::SkbDrop, out, format);
    proof {
        let s = old(out)@;
        let b = either(event@, SectionId::Kernel, SectionId::Userspace, *format);
        let c = either(event@, SectionId::Tracking, SectionId::SkbTracking, *format);
        let d = spaced(event@, SectionId::SkbDrop, *format);
        lemma_join(s, common, b);
        lemma_join(s, common + b, c);
        lemma_join(s, common + b + c, d);
    }
}

fn push_stack_block(event: &Event, out: &mut String, format: &DisplayFormat)
    ensures
        final(out)@ == old(out)@ + stack_block(event@, *format),
{
    match event.get_section(SectionId::Kernel) {
        Some(Section::Kernel(kernel)) => match &kernel.stack_trace {
            Some(stack) => {
                let mut block = String::new();
                string_push(&mut block, format.separator());
                fmt_stack_trace(stack, &mut block, format);
                assert(block@ =~= seq![format.spec_separator()] + stack_text(
                    stack.0@,
                    format.spec_multiline(),
                ));
                push_indented(out, block.as_str(), STACK_LEVEL);
            },
            None => {
                assert(out@ =~= old(out)@ + stack_block(event@, *format));
            },
        },
        _ => {
            assert(out@ =~= old(out)@ + stack_block(event@, *format));
        },
    }
}

fn push_section_block(event: &Event, id: SectionId, out: &mut String, format: &DisplayFormat)
    ensures
        final(out)@ == old(out)@ + section_block(event@, id, *format),
{
    match event.get_section(id) {
        Some(section) => {
            let mut block = String::new();
            string_push(&mut block, format.separator());
            fmt_section(section, &mut block, format);
            assert(block@ =~= seq![format.spec_separator()] + section_text(*section, *format));
            push_indented(out, block.as_str(), SECTION_LEVEL);
        },
        None => {
            assert(out@ =~= old(out)@ + section_block(event@, id, *format));
        },
    }
}

fn push_blocks(event: &Event, out: &mut String, format: &DisplayFormat)
    ensures
        final(out)@ == old(out)@ + blocks_from(event@, 7, *format),
{
    let mut cur: Option<SectionId> = Some(SectionId::Skb);
    let ghost all = blocks_from(event@, 7, *format);
    assert(out@ + all =~= old(out)@ + all);
    while cur.is_some()
        invariant
            all == blocks_from(event@, 7, *format),
            out@ + match cur {
                Some(c) => blocks_from(event@, c.wire_id(), *format),
                None => Seq::empty(),
            } == old(out)@ + all,
        decreases
                match cur {
                    Some(c) => 12 - c.wire_id(),
                    None => 0,
                },
    {
        let id = cur.unwrap();
        let ghost before = out@;
        let ghost rest = blocks_from(event@, (id.wire_id() + 1) as u8, *format);
        proof {
            assert(section_of_u8(id.wire_id()) == Some(id));
            assert(blocks_from(event@, id.wire_id(), *format) == section_block(event@, id, *format)
                + rest);
            assert(blocks_from(event@, 12, *format) =~= Seq::<char>::empty());
        }
        push_section_block(event, id, out, format);
        proof {
            lemma_join(before, section_block(event@, id, *format), rest);
        }
        cur = id.next();
    }
    assert(out@ + Seq::<char>::empty() =~= out@);
}

/// Adds the text of an event to `out`.
pub fn event_fmt(event: &Event, out: &mut String, format: &DisplayFormat)
    ensures
        final(out)@ == old(out)@ + event_text(event@, *format),
{
    push_head(event, out, format);
    push_stack_block(event, out, format);
    push_blocks(event, out, format);
    proof {
        let s = old(out)@;
        let a = head_text(event@, *format);
        let b = stack_block(event@, *format);
        let c = blocks_from(event@, 7, *format);
        lemma_join(s, a, b);
        lemma_join(s, a + b, c);
    }
}

/// The text of an event.
pub fn to_text(event: &Event, format: &DisplayFormat) -> (r: String)
    ensures
        r@ == event_text(event@, *format),
{
    let mut out = String::new();
    event_fmt(event, &mut out, format);
    assert(out@ =~= event_text(event@, *format));
    out
}

} // verus!
