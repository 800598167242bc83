//! Sorting of a stream of events that is held as a whole.

use vstd::prelude::*;
use crate::events::event::Event;
use crate::sorter::{
    added, flush_count, lemma_added_total, lemma_flush_count_bound, lemma_total_skip, series_of,
    total, EventSeries, EventSorter,
};
use crate::sorter_laws::{run, sorted};

verus! {

/// The default size of the sorting buffer.
pub const DEFAULT_BUFFER: usize = 1000;

proof fn lemma_total_skip_n(state: Seq<Seq<Event>>, n: int)
    requires
        0 <= n <= state.len(),
    ensures
        total(state.skip(n)) <= total(state),
    decreases n,
{
    if n > 0 {
        lemma_total_skip(state);
        lemma_total_skip_n(state.skip(1), n - 1);
        assert(state.skip(1).skip(n - 1) =~= state.skip(n));
    } else {
        assert(state.skip(0) =~= state);
    }
}

proof fn lemma_run_total(stream: Seq<Event>, max_buffer: nat)
    ensures
        total(run(stream, max_buffer).1) <= stream.len(),
    decreases stream.len(),
{
    if stream.len() > 0 {
        lemma_run_total(stream.drop_last(), max_buffer);
        let held = run(stream.drop_last(), max_buffer).1;
        let after = added(held, stream.last());
        lemma_added_total(held, stream.last());
        lemma_flush_count_bound(after, max_buffer);
        lemma_total_skip_n(after, flush_count(after, max_buffer) as int);
    }
}

/// Sorts a stream of events into series, through a buffer of at most
/// `max_buffer` events; zero is no bound.
///
/// The events are taken in one after the other. Each joins the series of its
/// tracking identity that the buffer holds, or starts a new one; then the
/// oldest series leave the buffer for as long as it holds `max_buffer`
/// events or more. At the end of the stream the series left in the buffer
/// leave it, oldest first.
pub fn sort_events(events: Vec<Event>, max_buffer: usize) -> (r: Vec<EventSeries>)
    ensures
        series_of(r@) == sorted(events@, max_buffer as nat),
{
    let mut sorter = EventSorter::new();
    let mut out: Vec<EventSeries> = Vec::new();
    let ghost all = events@;
    let n: usize = events.len();
    // The events are taken from the end of a list: the stream is put in
    // reverse order first.
    let mut events = events;
    let mut pending: Vec<Event> = Vec::new();
    while events.len() > 0
        invariant
            events@.len() + pending@.len() == n,
            n == all.len(),
            events@ == all.take(events@.len() as int),
            forall|k: int| 0 <= k < pending@.len() ==> #[trigger] pending@[k] == all[n - 1 - k],
        decreases events@.len(),
    {
        let ghost left = events@;
        match events.pop() {
            Some(event) => {
                assert(event == all[left.len() - 1]);
                pending.push(event);
                assert(events@ =~= all.take(events@.len() as int));
            },
            None => {},
        }
    }
    let mut done: usize = 0;
    assert(all.take(0) =~= Seq::<Event>::empty());
    assert(series_of(out@) =~= Seq::<Seq<Event>>::empty());
    while pending.len() > 0
        invariant
            done + pending@.len() == n,
            n == all.len(),
            forall|k: int| 0 <= k < pending@.len() ==> #[trigger] pending@[k] == all[n - 1 - k],
            run(all.take(done as int), max_buffer as nat) == (series_of(out@), sorter@),
        decreases pending@.len(),
    {
        let ghost left = pending@;
        let event = pending.pop().unwrap();
        proof {
            assert(event == left[left.len() - 1]);
            assert(event == all[done as int]);
            assert forall|k: int| 0 <= k < pending@.len() implies #[trigger] pending@[k] == all[n
                - 1 - k] by {
                assert(pending@[k] == left[k]);
            }
            lemma_run_total(all.take(done as int), max_buffer as nat);
            assert(all.take(done + 1).drop_last() =~= all.take(done as int));
            assert(all.take(done + 1).last() == event);
        }
        let ghost before = out@;
        let mut emitted = sorter.process(event, max_buffer);
        let ghost given = emitted@;
        out.append(&mut emitted);
        assert(series_of(out@) =~= series_of(before) + series_of(given));
        done += 1;
    }
    assert(done == n);
    assert(all.take(n as int) =~= all);
    let ghost before = out@;
    let mut rest = sorter.drain();
    let ghost left = rest@;
    out.append(&mut rest);
    assert(series_of(out@) =~= series_of(before) + series_of(left));
    out
}

} // verus!
