//! How events are laid out, and the pieces that every formatter uses.

use vstd::prelude::*;
use crate::cli::DisplayFormatFlavor;
use crate::events::common::TimeSpec;
use crate::fmt::string_push;

verus! {

/// How the time of an event is written.
#[derive(Clone, Copy, Debug, PartialEq, Eq, Structural)]
pub enum TimeFormat {
    /// The monotonic timestamp, as a number of nanoseconds.
    MonotonicTimestamp,
    /// The date and time, in UTC.
    UtcDate,
}

/// How an event is written.
#[derive(Clone, Copy, Debug, PartialEq, Eq, Structural)]
pub struct DisplayFormat {
    /// On one line or on several.
    pub flavor: DisplayFormatFlavor,
    /// How the time is written.
    pub time_format: TimeFormat,
    /// Offset of the monotonic clock in regards to the time of the machine,
    /// if known.
    pub monotonic_offset: Option<TimeSpec>,
}

impl DisplayFormat {
    /// The format of the given flavor, with monotonic timestamps.
    pub fn new(flavor: DisplayFormatFlavor) -> (r: DisplayFormat)
        ensures
            r == (DisplayFormat {
                flavor,
                time_format: TimeFormat::MonotonicTimestamp,
                monotonic_offset: None,
            }),
    {
        DisplayFormat {
            flavor,
            time_format: TimeFormat::MonotonicTimestamp,
            monotonic_offset: None,
        }
    }

    /// Whether events are written on several lines.
    pub open spec fn spec_multiline(&self) -> bool {
        self.flavor == DisplayFormatFlavor::MultiLine
    }

    /// Whether events are written on several lines.
    pub fn multiline(&self) -> (r: bool)
        ensures
            r == self.spec_multiline(),
    {
        match self.flavor {
            DisplayFormatFlavor::MultiLine => true,
            DisplayFormatFlavor::SingleLine => false,
        }
    }

    /// What separates the sections that follow the first line: a new line
    /// where events are written on several lines, a space otherwise.
    pub open spec fn spec_separator(&self) -> char {
        if self.spec_multiline() {
            '\n'
        } else {
            ' '
        }
    }

    /// What separates the sections that follow the first line.
    pub fn separator(&self) -> (r: char)
        ensures
            r == self.spec_separator(),
    {
        if self.multiline() {
            '\n'
        } else {
            ' '
        }
    }
}

/// Adds `text` to `out`.
pub fn push_str(out: &mut String, text: &str)
    ensures
        final(out)@ == old(out)@ + text@,
{
    out.append(text);
}

/// Text can be joined in any grouping.
pub proof fn lemma_join(a: Seq<char>, b: Seq<char>, c: Seq<char>)
    ensures
        (a + b) + c == a + (b + c),
{
    assert((a + b) + c =~= a + (b + c));
}

/// `n` spaces.
pub open spec fn spaces(n: nat) -> Seq<char> {
    Seq::new(n, |i: int| ' ')
}

/// Adds `n` spaces to `out`.
pub fn push_spaces(out: &mut String, n: usize)
    ensures
        final(out)@ == old(out)@ + spaces(n as nat),
{
    let mut i: usize = 0;
    assert(out@ =~= old(out)@ + spaces(0));
    while i < n
        invariant
            i <= n,
            out@ == old(out)@ + spaces(i as nat),
        decreases n - i,
    {
        string_push(out, ' ');
        i += 1;
        assert(out@ =~= old(out)@ + spaces(i as nat));
    }
}

/// `text` with `level` spaces after each new line.
pub open spec fn indented(text: Seq<char>, level: nat) -> Seq<char>
    decreases text.len(),
{
    if text.len() == 0 {
        Seq::empty()
    } else if text.last() == '\n' {
        indented(text.drop_last(), level) + seq!['\n'] + spaces(level)
    } else {
        indented(text.drop_last(), level).push(text.last())
    }
}

/// Adds `text` to `out`, with `level` spaces after each of its new lines.
pub fn push_indented(out: &mut String, text: &str, level: usize)
    ensures
        final(out)@ == old(out)@ + indented(text@, level as nat),
{
    let n: usize = text.unicode_len();
    let mut i: usize = 0;
    assert(text@.take(0) =~= Seq::<char>::empty());
    assert(out@ =~= old(out)@ + indented(text@.take(0), level as nat));
    while i < n
        invariant
            i <= n,
            n == text@.len(),
            out@ == old(out)@ + indented(text@.take(i as int), level as nat),
        decreases n - i,
    {
        let c = text.get_char(i);
        proof {
            assert(text@.take(i + 1).drop_last() =~= text@.take(i as int));
            assert(text@.take(i + 1).last() == c);
        }
        string_push(out, c);
        if c == '\n' {
            push_spaces(out, level);
        }
        assert(out@ =~= old(out)@ + indented(text@.take(i + 1), level as nat));
        i += 1;
    }
    assert(text@.take(n as int) =~= text@);
}

} // verus!
