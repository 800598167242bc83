//! The text of the sections that fit on the first line of an event, and of
//! the stack trace.

use vstd::prelude::*;
use crate::display::format::{lemma_join, push_str, DisplayFormat, TimeFormat};
use crate::events::common::{CommonEvent, CommonModel, TaskModel, TimeSpec};
use crate::events::kernel::{KernelEvent, StackTrace};
use crate::events::nft::NftEvent;
use crate::events::ovs::OvsEvent;
use crate::events::skb_drop::SkbDropEvent;
use crate::events::skb_tracking::{SkbTrackingEvent, TrackingInfo};
use crate::events::startup::StartupEvent;
use crate::events::user::UserEvent;
use crate::fmt::{
    decimal, hexadecimal, hexadecimal_padded, push_decimal, push_hexadecimal,
    push_hexadecimal_padded, push_signed_decimal, signed_decimal,
};
use crate::text::str_eq;

verus! {

/// Nanoseconds in a second.
pub const NSEC: i128 = 1_000_000_000;

/// A number of seconds that holds more nanoseconds than 64 bits can count.
pub const SHIFT_SECONDS: i128 = 10_000_000_000;

/// The text of the UTC date and time that is `sec` seconds and `nsec`
/// nanoseconds after the epoch, as `YYYY-MM-DD hh:mm:ss.uuuuuu`, if there is
/// such a date.
pub uninterp spec fn utc_date_text(sec: i64, nsec: u32) -> Option<Seq<char>>;

/// `DateTime::from_timestamp` and `DateTime::format` of the chrono crate:
/// the date and time in UTC, written with the format `%F %T.%6f`. Nothing
/// comes back where the seconds are out of the range of dates or the
/// nanoseconds no part of a second.
#[verifier::external_body]
fn utc_date(sec: i64, nsec: u32) -> (r: Option<String>)
    ensures
        r is Some <==> utc_date_text(sec, nsec) is Some,
        r matches Some(s) ==> Some(s@) == utc_date_text(sec, nsec),
{
    chrono::DateTime::from_timestamp(sec, nsec).map(|t| t.format("%F %T.%6f").to_string())
}

/// The whole seconds of the time that is `timestamp` nanoseconds after
/// `offset`.
pub open spec fn utc_seconds(timestamp: u64, offset: TimeSpec) -> int {
    offset.sec + (timestamp + offset.nsec) / 1_000_000_000
}

/// The nanoseconds, past the whole seconds, of the time that is `timestamp`
/// nanoseconds after `offset`.
pub open spec fn utc_nanos(timestamp: u64, offset: TimeSpec) -> int {
    (timestamp + offset.nsec) % 1_000_000_000
}

/// The text of the time of an event: the UTC date where it is asked for and
/// the offset of the monotonic clock is known and gives a date, the
/// monotonic timestamp otherwise.
pub open spec fn time_text(timestamp: u64, format: DisplayFormat) -> Seq<char> {
    match (format.time_format, format.monotonic_offset) {
        (TimeFormat::UtcDate, Some(offset)) => {
            let sec = utc_seconds(timestamp, offset);
            if i64::MIN <= sec <= i64::MAX && utc_date_text(
                sec as i64,
                utc_nanos(timestamp, offset) as u32,
            ) is Some {
                utc_date_text(sec as i64, utc_nanos(timestamp, offset) as u32)->Some_0
            } else {
                decimal(timestamp as nat)
            }
        },
        _ => decimal(timestamp as nat),
    }
}

/// Adds the time of an event to `out`.
#[verifier::rlimit(40)]
pub fn push_time(out: &mut String, timestamp: u64, format: &DisplayFormat)
    ensures
        final(out)@ == old(out)@ + time_text(timestamp, *format),
{
    match (format.time_format, format.monotonic_offset) {
        (TimeFormat::UtcDate, Some(offset)) => {
            // The sum is shifted by a whole number of seconds to divide a
            // number that is not negative.
            let shifted: i128 = timestamp as i128 + offset.nsec as i128 + SHIFT_SECONDS * NSEC;
            let carry: i128 = shifted / NSEC - SHIFT_SECONDS;
            let nanos: i128 = shifted % NSEC;
            assert(carry == (timestamp + offset.nsec) / 1_000_000_000);
            assert(nanos == (timestamp + offset.nsec) % 1_000_000_000);
            let sec: i128 = offset.sec as i128 + carry;
            if sec >= i64::MIN as i128 && sec <= i64::MAX as i128 {
                match utc_date(sec as i64, nanos as u32) {
                    Some(text) => {
                        push_str(out, text.as_str());
                        return ;
                    },
                    None => {},
                }
            }
            push_decimal(out, timestamp);
        },
        _ => {
            push_decimal(out, timestamp);
        },
    }
}

/// The text of a task: its name between brackets, then the process id and a
/// slash where it differs from the thread group id, then the thread group
/// id.
pub open spec fn task_text(task: TaskModel) -> Seq<char> {
    " ["@ + task.comm + "] "@ + if task.tgid != task.pid {
        signed_decimal(task.pid as int) + "/"@
    } else {
        Seq::empty()
    } + signed_decimal(task.tgid as int)
}

/// The text of the common section: the time, the processor between
/// parentheses and the task, if any.
pub open spec fn common_text(common: CommonModel, format: DisplayFormat) -> Seq<char> {
    time_text(common.timestamp, format) + " ("@ + decimal(common.smp_id as nat) + ")"@ + match common.task {
        Some(task) => task_text(task),
        None => Seq::empty(),
    }
}

/// Adds the text of the common section to `out`.
#[verifier::rlimit(40)]
pub fn fmt_common(common: &CommonEvent, out: &mut String, format: &DisplayFormat)
    ensures
        final(out)@ == old(out)@ + common_text(common@, *format),
{
    push_time(out, common.timestamp, format);
    push_str(out, " (");
    push_decimal(out, common.smp_id as u64);
    push_str(out, ")");
    if let Some(current) = &common.task {
        push_str(out, " [");
        push_str(out, current.comm.as_str());
        push_str(out, "] ");
        if current.tgid != current.pid {
            push_signed_decimal(out, current.pid as i64);
            push_str(out, "/");
        }
        push_signed_decimal(out, current.tgid as i64);
        assert(out@ =~= old(out)@ + common_text(common@, *format));
    } else {
        assert(out@ =~= old(out)@ + common_text(common@, *format));
    }
}

/// The short name of a type of probe.
pub open spec fn probe_type_text(probe_type: Seq<char>) -> Seq<char> {
    if probe_type == "raw_tracepoint"@ {
        "tp"@
    } else if probe_type == "kprobe"@ {
        "k"@
    } else if probe_type == "kretprobe"@ {
        "kr"@
    } else {
        "invalid"@
    }
}

/// The text of the kernel section: the short name of the type of probe
/// between brackets, then the symbol.
pub open spec fn kernel_text(symbol: Seq<char>, probe_type: Seq<char>) -> Seq<char> {
    "["@ + probe_type_text(probe_type) + "] "@ + symbol
}

/// Adds the text of the kernel section to `out`.
pub fn fmt_kernel(kernel: &KernelEvent, out: &mut String)
    ensures
        final(out)@ == old(out)@ + kernel_text(kernel.symbol@, kernel.probe_type@),
{
    push_str(out, "[");
    let probe_type = kernel.probe_type.as_str();
    if str_eq(probe_type, "raw_tracepoint") {
        push_str(out, "tp");
    } else if str_eq(probe_type, "kprobe") {
        push_str(out, "k");
    } else if str_eq(probe_type, "kretprobe") {
        push_str(out, "kr");
    } else {
        push_str(out, "invalid");
    }
    push_str(out, "] ");
    push_str(out, kernel.symbol.as_str());
    assert(out@ =~= old(out)@ + kernel_text(kernel.symbol@, kernel.probe_type@));
}

/// The first `n` frames of a stack trace on one line, a comma and a space
/// between two frames.
pub open spec fn frames_inline(frames: Seq<String>, n: int) -> Seq<char>
    decreases n,
{
    if n <= 0 {
        Seq::empty()
    } else if n == 1 {
        frames[0]@
    } else {
        frames_inline(frames, n - 1) + ", "@ + frames[n - 1]@
    }
}

/// The first `n` frames of a stack trace, one per line, each after four
/// spaces.
pub open spec fn frames_lines(frames: Seq<String>, n: int) -> Seq<char>
    decreases n,
{
    if n <= 0 {
        Seq::empty()
    } else if n == 1 {
        "    "@ + frames[0]@
    } else {
        frames_lines(frames, n - 1) + "\n"@ + "    "@ + frames[n - 1]@
    }
}

/// The text of a stack trace: on one line the frames between brackets, on
/// several lines one frame per line.
pub open spec fn stack_text(frames: Seq<String>, multiline: bool) -> Seq<char> {
    if multiline {
        frames_lines(frames, frames.len() as int)
    } else {
        "["@ + frames_inline(frames, frames.len() as int) + "]"@
    }
}

/// Adds the text of a stack trace to `out`.
#[verifier::rlimit(40)]
pub fn fmt_stack_trace(stack: &StackTrace, out: &mut String, format: &DisplayFormat)
    ensures
        final(out)@ == old(out)@ + stack_text(stack.0@, format.spec_multiline()),
{
    let frames = &stack.0;
    let multiline = format.multiline();
    if !multiline {
        push_str(out, "[");
    }
    let ghost start = out@;
    let mut i: usize = 0;
    assert(out@ =~= start + frames_inline(frames@, 0));
    assert(out@ =~= start + frames_lines(frames@, 0));
    while i < frames.len()
        invariant
            i <= frames@.len(),
            multiline ==> out@ == start + frames_lines(frames@, i as int),
            !multiline ==> out@ == start + frames_inline(frames@, i as int),
        decreases frames@.len() - i,
    {
        if multiline {
            if i > 0 {
                push_str(out, "\n");
            }
            push_str(out, "    ");
            push_str(out, frames[i].as_str());
            assert(out@ =~= start + frames_lines(frames@, i + 1));
        } else {
            if i > 0 {
                push_str(out, ", ");
            }
            push_str(out, frames[i].as_str());
            assert(out@ =~= start + frames_inline(frames@, i + 1));
        }
        i += 1;
    }
    if !multiline {
        push_str(out, "]");
        assert(out@ =~= old(out)@ + stack_text(stack.0@, false));
    }
}

/// The text of a tracking fingerprint: after a hash sign the timestamp in
/// hexadecimal followed by the original head in 16 hexadecimal digits, then
/// the address of the buffer between parentheses.
pub open spec fn skb_tracking_text(t: SkbTrackingEvent) -> Seq<char> {
    "#"@ + hexadecimal(t.timestamp as nat) + hexadecimal_padded(t.orig_head as nat, 16)
        + " (skb "@ + hexadecimal(t.skb as nat) + ")"@
}

/// Adds the text of a tracking fingerprint to `out`.
#[verifier::rlimit(40)]
pub fn fmt_skb_tracking(t: &SkbTrackingEvent, out: &mut String)
    ensures
        final(out)@ == old(out)@ + skb_tracking_text(*t),
{
    push_str(out, "#");
    push_hexadecimal(out, t.timestamp);
    push_hexadecimal_padded(out, t.orig_head, 16);
    push_str(out, " (skb ");
    push_hexadecimal(out, t.skb);
    push_str(out, ")");
    assert(out@ =~= old(out)@ + skb_tracking_text(*t));
}

/// The text of the tracking section: the fingerprint, then the place of
/// the event among those of the packet.
pub open spec fn tracking_text(t: TrackingInfo) -> Seq<char> {
    skb_tracking_text(t.skb) + " n "@ + decimal(t.idx as nat)
}

/// Adds the text of the tracking section to `out`.
pub fn fmt_tracking(t: &TrackingInfo, out: &mut String)
    ensures
        final(out)@ == old(out)@ + tracking_text(*t),
{
    fmt_skb_tracking(&t.skb, out);
    push_str(out, " n ");
    push_decimal(out, t.idx as u64);
    assert(out@ =~= old(out)@ + tracking_text(*t));
}

/// The text of the drop section: the reason of the drop, after the
/// sub-system that gave it, if any.
pub open spec fn skb_drop_text(subsys: Option<Seq<char>>, reason: Seq<char>) -> Seq<char> {
    "drop (reason "@ + match subsys {
        Some(s) => s + "/"@,
        None => Seq::empty(),
    } + reason + ")"@
}

/// Adds the text of the drop section to `out`.
pub fn fmt_skb_drop(drop: &SkbDropEvent, out: &mut String)
    ensures
        final(out)@ == old(out)@ + skb_drop_text(
            match drop.subsys {
                Some(s) => Some(s@),
                None => None,
            },
            drop.drop_reason@,
        ),
{
    push_str(out, "drop (reason ");
    if let Some(subsys) = &drop.subsys {
        push_str(out, subsys.as_str());
        push_str(out, "/");
    }
    push_str(out, drop.drop_reason.as_str());
    push_str(out, ")");
    assert(out@ =~= old(out)@ + skb_drop_text(
        match drop.subsys {
            Some(s) => Some(s@),
            None => None,
        },
        drop.drop_reason@,
    ));
}

/// The text of the userspace section: the type of probe between brackets,
/// the symbol, then the process and thread ids.
pub open spec fn user_text(event_type: Seq<char>, symbol: Seq<char>, pid: i32, tid: i32) -> Seq<
    char,
> {
    "["@ + event_type + "] "@ + symbol + " (pid "@ + signed_decimal(pid as int) + " tid "@
        + signed_decimal(tid as int) + ")"@
}

/// Adds the text of the userspace section to `out`.
#[verifier::rlimit(40)]
pub fn fmt_user(user: &UserEvent, out: &mut String)
    ensures
        final(out)@ == old(out)@ + user_text(user.event_type@, user.symbol@, user.pid, user.tid),
{
    push_str(out, "[");
    push_str(out, user.event_type.as_str());
    push_str(out, "] ");
    push_str(out, user.symbol.as_str());
    push_str(out, " (pid ");
    push_signed_decimal(out, user.pid as i64);
    push_str(out, " tid ");
    push_signed_decimal(out, user.tid as i64);
    push_str(out, ")");
    assert(out@ =~= old(out)@ + user_text(user.event_type@, user.symbol@, user.pid, user.tid));
}

/// The text of the OVS section.
pub open spec fn ovs_text(ovs: OvsEvent) -> Seq<char> {
    match ovs.upcall {
        Some(u) => "upcall port "@ + decimal(u.port as nat) + " cmd "@ + decimal(u.cmd as nat),
        None => Seq::empty(),
    }
}

/// Adds the text of the OVS section to `out`.
pub fn fmt_ovs(ovs: &OvsEvent, out: &mut String)
    ensures
        final(out)@ == old(out)@ + ovs_text(*ovs),
{
    if let Some(u) = &ovs.upcall {
        push_str(out, "upcall port ");
        push_decimal(out, u.port as u64);
        push_str(out, " cmd ");
        push_decimal(out, u.cmd as u64);
        assert(out@ =~= old(out)@ + ovs_text(*ovs));
    } else {
        assert(out@ =~= old(out)@ + ovs_text(*ovs));
    }
}

/// The text of a name and of its handle between parentheses.
pub open spec fn handle_text(name: Seq<char>, handle: i64) -> Seq<char> {
    name + " ("@ + signed_decimal(handle as int) + ")"@
}

/// The text of the handle of a rule, if there is one.
pub open spec fn rule_text(rule_handle: Option<i64>) -> Seq<char> {
    match rule_handle {
        Some(h) => " handle "@ + signed_decimal(h as int),
        None => Seq::empty(),
    }
}

/// The text of a verdict, with the chain it leads to if any.
pub open spec fn verdict_text(verdict: Seq<char>, verdict_chain: Option<Seq<char>>) -> Seq<char> {
    " "@ + verdict + match verdict_chain {
        Some(c) => " chain "@ + c,
        None => Seq::empty(),
    }
}

/// The text of the nft section: the table and the chain with their handles,
/// the handle of the rule if any, and the verdict with its chain if any.
pub open spec fn nft_text(
    table: Seq<char>,
    table_handle: i64,
    chain: Seq<char>,
    chain_handle: i64,
    rule_handle: Option<i64>,
    verdict: Seq<char>,
    verdict_chain: Option<Seq<char>>,
) -> Seq<char> {
    "table "@ + handle_text(table, table_handle) + " chain "@ + handle_text(chain, chain_handle)
        + rule_text(rule_handle) + verdict_text(verdict, verdict_chain)
}

fn push_handle(out: &mut String, name: &str, handle: i64)
    ensures
        final(out)@ == old(out)@ + handle_text(name@, handle),
{
    push_str(out, name);
    push_str(out, " (");
    push_signed_decimal(out, handle);
    push_str(out, ")");
    assert(out@ =~= old(out)@ + handle_text(name@, handle));
}

fn push_rule(out: &mut String, rule_handle: Option<i64>)
    ensures
        final(out)@ == old(out)@ + rule_text(rule_handle),
{
    if let Some(h) = rule_handle {
        push_str(out, " handle ");
        push_signed_decimal(out, h);
        assert(out@ =~= old(out)@ + rule_text(rule_handle));
    } else {
        assert(out@ =~= old(out)@ + rule_text(rule_handle));
    }
}

fn push_verdict(out: &mut String, verdict: &str, verdict_chain: &Option<String>)
    ensures
        final(out)@ == old(out)@ + verdict_text(
            verdict@,
            match verdict_chain {
                Some(c) => Some(c@),
                None => None,
            },
        ),
{
    push_str(out, " ");
    push_str(out, verdict);
    if let Some(c) = verdict_chain {
        push_str(out, " chain ");
        push_str(out, c.as_str());
        assert(out@ =~= old(out)@ + verdict_text(verdict@, Some(c@)));
    } else {
        assert(out@ =~= old(out)@ + verdict_text(verdict@, None));
    }
}

/// Adds the text of the nft section to `out`.
pub fn fmt_nft(nft: &NftEvent, out: &mut String)
    ensures
        final(out)@ == old(out)@ + nft_text(
            nft.table_name@,
            nft.table_handle,
            nft.chain_name@,
            nft.chain_handle,
            nft.rule_handle,
            nft.verdict@,
            match nft.verdict_chain_name {
                Some(c) => Some(c@),
                None => None,
            },
        ),
{
    push_str(out, "table ");
    push_handle(out, nft.table_name.as_str(), nft.table_handle);
    push_str(out, " chain ");
    push_handle(out, nft.chain_name.as_str(), nft.chain_handle);
    push_rule(out, nft.rule_handle);
    push_verdict(out, nft.verdict.as_str(), &nft.verdict_chain_name);
    proof {
        let s = old(out)@;
        let a = "table "@;
        let b = handle_text(nft.table_name@, nft.table_handle);
        let c = " chain "@;
        let d = handle_text(nft.chain_name@, nft.chain_handle);
        let e = rule_text(nft.rule_handle);
        let f = verdict_text(
            nft.verdict@,
            match &nft.verdict_chain_name {
                Some(c) => Some(c@),
                None => None,
            },
        );
        lemma_join(s, a, b);
        lemma_join(s, a + b, c);
        lemma_join(s, a + b + c, d);
        lemma_join(s, a + b + c + d, e);
        lemma_join(s, a + b + c + d + e, f);
    }
}

/// The text of the startup section.
pub open spec fn startup_text(version: Seq<char>) -> Seq<char> {
    "Retis version "@ + version
}

/// Adds the text of the startup section to `out`.
pub fn fmt_startup(startup: &StartupEvent, out: &mut String)
    ensures
        final(out)@ == old(out)@ + startup_text(startup.retis_version@),
{
    push_str(out, "Retis version ");
    push_str(out, startup.retis_version.as_str());
    assert(out@ =~= old(out)@ + startup_text(startup.retis_version@));
}

} // verus!
