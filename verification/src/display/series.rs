//! Series of events as text.

use vstd::prelude::*;
use crate::display::event::{event_fmt, event_text};
use crate::display::format::{indented, push_indented, push_str, DisplayFormat};
use crate::events::event::Event;
use crate::fmt::string_push;
use crate::sorter::EventSeries;

verus! {

/// What stands before each event of a series but the first.
pub open spec fn follow_mark() -> Seq<char> {
    seq![' ', ' ', '+', ' ']
}

/// The lines of one event of a series. The first event is written as it
/// is. Each later one starts with a mark, and its further lines are moved
/// to the right by the width of the mark.
pub open spec fn series_entry(event: Event, first: bool, format: DisplayFormat) -> Seq<char> {
    if first {
        event_text(event@, format).push('\n')
    } else {
        (follow_mark() + indented(event_text(event@, format), 4)).push('\n')
    }
}

/// The lines of the first `upto` events of a series.
pub open spec fn series_lines(events: Seq<Event>, upto: int, format: DisplayFormat) -> Seq<char>
    decreases upto,
{
    if upto <= 0 {
        Seq::empty()
    } else {
        series_lines(events, upto - 1, format) + series_entry(
            events[upto - 1],
            upto == 1,
            format,
        )
    }
}

/// The text of a series: the lines of its events, in the order of the
/// series, then an empty line.
pub open spec fn series_text(events: Seq<Event>, format: DisplayFormat) -> Seq<char> {
    series_lines(events, events.len() as int, format).push('\n')
}

/// Adds the lines of one event of a series to `out`.
fn push_entry(out: &mut String, event: &Event, first: bool, format: &DisplayFormat)
    ensures
        final(out)@ == old(out)@ + series_entry(*event, first, *format),
{
    if first {
        event_fmt(event, out, format);
        string_push(out, '\n');
        assert(out@ =~= old(out)@ + series_entry(*event, first, *format));
    } else {
        let mut text = String::new();
        event_fmt(event, &mut text, format);
        assert(text@ =~= event_text(event@, *format));
        push_str(out, "  + ");
        proof {
            reveal_strlit("  + ");
            assert("  + "@ =~= follow_mark());
        }
        push_indented(out, text.as_str(), 4);
        string_push(out, '\n');
        assert(out@ =~= old(out)@ + series_entry(*event, first, *format));
    }
}

/// The text of a series.
pub fn series_to_text(series: &EventSeries, format: &DisplayFormat) -> (r: String)
    ensures
        r@ == series_text(series@, *format),
{
    let mut out = String::new();
    let mut i: usize = 0;
    assert(out@ =~= series_lines(series@, 0, *format));
    while i < series.events.len()
        invariant
            i <= series.events@.len(),
            series@ == series.events@,
            out@ == series_lines(series@, i as int, *format),
        decreases series.events@.len() - i,
    {
        push_entry(&mut out, &series.events[i], i == 0, format);
        i += 1;
    }
    string_push(&mut out, '\n');
    out
}

} // verus!
