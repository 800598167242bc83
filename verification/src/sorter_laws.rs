//! What sorting a whole stream gives: the series that leave the sorter while
//! the stream is read and those that leave it at the end.

use vstd::prelude::*;
use vstd::multiset::Multiset;
use vstd::seq_lib::to_multiset_build;
use crate::events::event::Event;
use crate::sorter::{
    added, find_series, flush_count, lemma_added_wf, lemma_find_series, lemma_flush_count_bound,
    series_id, sorted_wf, tracking_id_of, TrackingId,
};

verus! {

/// What left the sorter and what it holds, once `stream` has been read into
/// a buffer bounded by `max_buffer`.
pub open spec fn run(stream: Seq<Event>, max_buffer: nat) -> (Seq<Seq<Event>>, Seq<Seq<Event>>)
    decreases stream.len(),
{
    if stream.len() == 0 {
        (Seq::empty(), Seq::empty())
    } else {
        let (emitted, held) = run(stream.drop_last(), max_buffer);
        let after = added(held, stream.last());
        let n = flush_count(after, max_buffer) as int;
        (emitted + after.take(n), after.skip(n))
    }
}

/// The series that sorting `stream` gives, in the order they leave the
/// sorter: those that leave while the stream is read, then those held at the
/// end, oldest first.
pub open spec fn sorted(stream: Seq<Event>, max_buffer: nat) -> Seq<Seq<Event>> {
    run(stream, max_buffer).0 + run(stream, max_buffer).1
}

/// The events of a list of series, as a collection without order.
pub open spec fn bag(series: Seq<Seq<Event>>) -> Multiset<Event>
    decreases series.len(),
{
    if series.len() == 0 {
        Multiset::empty()
    } else {
        bag(series.drop_last()).add(series.last().to_multiset())
    }
}

/// The events of the series of identity `id`, series after series.
pub open spec fn events_with(series: Seq<Seq<Event>>, id: Option<TrackingId>) -> Seq<Event>
    decreases series.len(),
{
    if series.len() == 0 {
        Seq::empty()
    } else if series_id(series.last()) == id {
        events_with(series.drop_last(), id) + series.last()
    } else {
        events_with(series.drop_last(), id)
    }
}

/// The events of `stream` of identity `id`, in the order of the stream.
pub open spec fn stream_with(stream: Seq<Event>, id: Option<TrackingId>) -> Seq<Event>
    decreases stream.len(),
{
    if stream.len() == 0 {
        Seq::empty()
    } else if tracking_id_of(stream.last()) == id {
        stream_with(stream.drop_last(), id).push(stream.last())
    } else {
        stream_with(stream.drop_last(), id)
    }
}

/// Whether one of `series` has the identity `id`.
pub open spec fn has_series(series: Seq<Seq<Event>>, id: Option<TrackingId>) -> bool {
    exists|i: int| 0 <= i < series.len() && series_id(#[trigger] series[i]) == id
}

/// Whether an event of `stream` has the identity `id`.
pub open spec fn occurs(stream: Seq<Event>, id: Option<TrackingId>) -> bool {
    exists|k: int| 0 <= k < stream.len() && tracking_id_of(#[trigger] stream[k]) == id
}

/// No series is empty, and the events of a series share its identity.
pub open spec fn grouped(series: Seq<Seq<Event>>) -> bool {
    &&& forall|i: int| 0 <= i < series.len() ==> (#[trigger] series[i]).len() > 0
    &&& forall|i: int, k: int|
        0 <= i < series.len() && 0 <= k < series[i].len() ==> tracking_id_of(
            #[trigger] series[i][k],
        ) == series_id(series[i])
}

proof fn lemma_empty_to_multiset()
    ensures
        Seq::<Event>::empty().to_multiset() =~= Multiset::<Event>::empty(),
{
    broadcast use vstd::seq_lib::group_to_multiset_ensures;

    let m = Seq::<Event>::empty().to_multiset();
    assert forall|e: Event| m.count(e) == 0 by {
        assert(!Seq::<Event>::empty().contains(e));
    }
}

proof fn lemma_bag_concat(a: Seq<Seq<Event>>, b: Seq<Seq<Event>>)
    ensures
        bag(a + b) =~= bag(a).add(bag(b)),
    decreases b.len(),
{
    if b.len() == 0 {
        assert(a + b =~= a);
    } else {
        lemma_bag_concat(a, b.drop_last());
        assert((a + b).drop_last() =~= a + b.drop_last());
        assert((a + b).last() == b.last());
    }
}

proof fn lemma_bag_update(s: Seq<Seq<Event>>, i: int, event: Event)
    requires
        0 <= i < s.len(),
    ensures
        bag(s.update(i, s[i].push(event))) =~= bag(s).insert(event),
    decreases s.len(),
{
    let after = s.update(i, s[i].push(event));
    if i == s.len() - 1 {
        assert(after.drop_last() =~= s.drop_last());
        to_multiset_build(s[i], event);
    } else {
        lemma_bag_update(s.drop_last(), i, event);
        assert(after.drop_last() =~= s.drop_last().update(i, s[i].push(event)));
        assert(after.last() == s.last());
    }
}

proof fn lemma_bag_added(held: Seq<Seq<Event>>, event: Event)
    ensures
        bag(added(held, event)) =~= bag(held).insert(event),
{
    let fresh = held.push(seq![event]);
    assert(fresh.drop_last() =~= held);
    assert(seq![event] =~= Seq::<Event>::empty().push(event));
    to_multiset_build(Seq::<Event>::empty(), event);
    lemma_empty_to_multiset();
    match tracking_id_of(event) {
        Some(id) => {
            lemma_find_series(held, id);
            let i = find_series(held, id);
            if i < held.len() {
                lemma_bag_update(held, i, event);
            }
        },
        None => {},
    }
}

proof fn lemma_events_with_concat(a: Seq<Seq<Event>>, b: Seq<Seq<Event>>, id: Option<TrackingId>)
    ensures
        events_with(a + b, id) =~= events_with(a, id) + events_with(b, id),
    decreases b.len(),
{
    if b.len() == 0 {
        assert(a + b =~= a);
    } else {
        lemma_events_with_concat(a, b.drop_last(), id);
        assert((a + b).drop_last() =~= a + b.drop_last());
        assert((a + b).last() == b.last());
    }
}

proof fn lemma_events_with_none(s: Seq<Seq<Event>>, id: Option<TrackingId>)
    requires
        forall|i: int| 0 <= i < s.len() ==> series_id(#[trigger] s[i]) != id,
    ensures
        events_with(s, id) =~= Seq::<Event>::empty(),
    decreases s.len(),
{
    if s.len() > 0 {
        assert(s.drop_last().len() == s.len() - 1);
        assert forall|i: int| 0 <= i < s.drop_last().len() implies series_id(
            #[trigger] s.drop_last()[i],
        ) != id by {
            assert(s.drop_last()[i] == s[i]);
        }
        lemma_events_with_none(s.drop_last(), id);
        assert(series_id(s[s.len() - 1]) != id);
    }
}

proof fn lemma_events_with_single(x: Seq<Event>, id: Option<TrackingId>)
    ensures
        events_with(seq![x], id) =~= if series_id(x) == id {
            x
        } else {
            Seq::<Event>::empty()
        },
{
    reveal_with_fuel(events_with, 2);
    assert(seq![x].drop_last() =~= Seq::<Seq<Event>>::empty());
    assert(seq![x].last() == x);
    assert(Seq::<Event>::empty() + x =~= x);
}

proof fn lemma_events_with_added(held: Seq<Seq<Event>>, event: Event, id: Option<TrackingId>)
    requires
        sorted_wf(held),
    ensures
        events_with(added(held, event), id) =~= if tracking_id_of(event) == id {
            events_with(held, id).push(event)
        } else {
            events_with(held, id)
        },
{
    let fresh = held.push(seq![event]);
    assert(fresh.drop_last() =~= held);
    assert(fresh.last() == seq![event]);
    assert(series_id(seq![event]) == tracking_id_of(event));
    assert(events_with(held, id) + seq![event] =~= events_with(held, id).push(event));
    match tracking_id_of(event) {
        Some(t) => {
            lemma_find_series(held, t);
            let i = find_series(held, t);
            if i < held.len() {
                let after = held.update(i, held[i].push(event));
                let head = held.take(i);
                let tail = held.skip(i + 1);
                assert(held =~= head + seq![held[i]] + tail);
                assert(after =~= head + seq![held[i].push(event)] + tail);
                assert(series_id(held[i].push(event)) == series_id(held[i])) by {
                    assert(held[i].len() > 0);
                    assert(held[i].push(event)[0] == held[i][0]);
                }
                lemma_events_with_concat(head + seq![held[i]], tail, id);
                lemma_events_with_concat(head, seq![held[i]], id);
                lemma_events_with_concat(head + seq![held[i].push(event)], tail, id);
                lemma_events_with_concat(head, seq![held[i].push(event)], id);
                lemma_events_with_single(held[i], id);
                lemma_events_with_single(held[i].push(event), id);
                if id == Some(t) {
                    assert forall|k: int| 0 <= k < tail.len() implies series_id(
                        #[trigger] tail[k],
                    ) != id by {
                        assert(tail[k] == held[i + 1 + k]);
                        assert(series_id(held[i]) != series_id(held[i + 1 + k]));
                    }
                    lemma_events_with_none(tail, id);
                }
            }
        },
        None => {},
    }
}

proof fn lemma_skip_keeps_wf(s: Seq<Seq<Event>>, n: int)
    requires
        sorted_wf(s),
        0 <= n <= s.len(),
    ensures
        sorted_wf(s.skip(n)),
{
    let rest = s.skip(n);
    assert forall|a: int| 0 <= a < rest.len() implies #[trigger] rest[a] == s[a + n] by {}
    assert forall|a: int, b: int|
        0 <= a < b < rest.len() && series_id(#[trigger] rest[a]) is Some implies series_id(rest[a])
        != series_id(#[trigger] rest[b]) by {
        assert(rest[a] == s[a + n]);
        assert(rest[b] == s[b + n]);
    }
}

/// What a run keeps true at every step: the buffer is sound, what left is
/// grouped, and the series that left and those held are, together, the
/// events of the stream: the same events, and for each identity the same
/// events in the same order.
proof fn lemma_run(stream: Seq<Event>, max_buffer: nat)
    ensures
        sorted_wf(run(stream, max_buffer).1),
        grouped(run(stream, max_buffer).0),
        bag(sorted(stream, max_buffer)) =~= stream.to_multiset(),
        forall|id: Option<TrackingId>| #[trigger]
            events_with(sorted(stream, max_buffer), id) =~= stream_with(stream, id),
        max_buffer == 0 ==> run(stream, max_buffer).0 =~= Seq::<Seq<Event>>::empty(),
    decreases stream.len(),
{
    if stream.len() == 0 {
        assert(sorted(stream, max_buffer) =~= Seq::<Seq<Event>>::empty());
        lemma_empty_to_multiset();
        assert(stream =~= Seq::<Event>::empty());
    } else {
        let before = stream.drop_last();
        let event = stream.last();
        lemma_run(before, max_buffer);
        let (emitted, held) = run(before, max_buffer);
        let after = added(held, event);
        let n = flush_count(after, max_buffer) as int;
        lemma_flush_count_bound(after, max_buffer);
        lemma_added_wf(held, event);
        lemma_skip_keeps_wf(after, n);
        let emitted2 = emitted + after.take(n);
        let held2 = after.skip(n);
        assert(run(stream, max_buffer) == (emitted2, held2));
        assert(emitted2 + held2 =~= emitted + after);
        assert(grouped(emitted2)) by {
            assert forall|i: int| 0 <= i < emitted2.len() implies (#[trigger] emitted2[i]).len()
                > 0 by {
                if i >= emitted.len() {
                    assert(emitted2[i] == after[i - emitted.len()]);
                }
            }
            assert forall|i: int, k: int|
                0 <= i < emitted2.len() && 0 <= k < emitted2[i].len() implies tracking_id_of(
                #[trigger] emitted2[i][k],
            ) == series_id(emitted2[i]) by {
                if i >= emitted.len() {
                    assert(emitted2[i] == after[i - emitted.len()]);
                }
            }
        }
        lemma_bag_concat(emitted, after);
        lemma_bag_concat(emitted, held);
        lemma_bag_added(held, event);
        assert(stream =~= before.push(event));
        to_multiset_build(before, event);
        assert(bag(sorted(stream, max_buffer)) =~= stream.to_multiset());
        assert forall|id: Option<TrackingId>| #[trigger]
            events_with(sorted(stream, max_buffer), id) =~= stream_with(stream, id) by {
            lemma_events_with_concat(emitted, after, id);
            lemma_events_with_concat(emitted, held, id);
            lemma_events_with_added(held, event, id);
            assert(events_with(sorted(before, max_buffer), id) =~= stream_with(before, id));
        }
        if max_buffer == 0 {
            assert(after.take(0) =~= Seq::<Seq<Event>>::empty());
        }
    }
}

/// Sorting gives back the events of the stream: the series hold, all
/// together, each event as many times as the stream does.
pub proof fn lemma_sorted_is_permutation(stream: Seq<Event>, max_buffer: nat)
    ensures
        bag(sorted(stream, max_buffer)) == stream.to_multiset(),
{
    lemma_run(stream, max_buffer);
}

/// Sorting groups the events by tracking identity: no series is empty and
/// the events of a series share one identity.
pub proof fn lemma_sorted_is_grouped(stream: Seq<Event>, max_buffer: nat)
    ensures
        grouped(sorted(stream, max_buffer)),
{
    lemma_run(stream, max_buffer);
    let (emitted, held) = run(stream, max_buffer);
    let all = sorted(stream, max_buffer);
    assert forall|i: int| 0 <= i < all.len() implies (#[trigger] all[i]).len() > 0 by {
        if i < emitted.len() {
            assert(all[i] == emitted[i]);
        } else {
            assert(all[i] == held[i - emitted.len()]);
        }
    }
    assert forall|i: int, k: int|
        0 <= i < all.len() && 0 <= k < all[i].len() implies tracking_id_of(#[trigger] all[i][k])
        == series_id(all[i]) by {
        if i < emitted.len() {
            assert(all[i] == emitted[i]);
        } else {
            assert(all[i] == held[i - emitted.len()]);
        }
    }
}

/// Sorting keeps the order of the events of one packet: the series of one
/// identity hold, one after the other, the events of the stream that have
/// this identity, in the order of the stream.
pub proof fn lemma_sorted_keeps_order(stream: Seq<Event>, max_buffer: nat, id: Option<TrackingId>)
    ensures
        events_with(sorted(stream, max_buffer), id) == stream_with(stream, id),
{
    lemma_run(stream, max_buffer);
}

proof fn lemma_stream_with_nonempty(stream: Seq<Event>, id: Option<TrackingId>)
    ensures
        stream_with(stream, id).len() > 0 <==> exists|k: int|
            0 <= k < stream.len() && tracking_id_of(#[trigger] stream[k]) == id,
    decreases stream.len(),
{
    if stream.len() > 0 {
        let before = stream.drop_last();
        lemma_stream_with_nonempty(before, id);
        if stream_with(stream, id).len() > 0 {
            if tracking_id_of(stream.last()) == id {
                assert(tracking_id_of(stream[stream.len() - 1]) == id);
            } else {
                let k = choose|k: int|
                    0 <= k < before.len() && tracking_id_of(#[trigger] before[k]) == id;
                assert(stream[k] == before[k]);
            }
        }
        if exists|k: int| 0 <= k < stream.len() && tracking_id_of(#[trigger] stream[k]) == id {
            let k = choose|k: int|
                0 <= k < stream.len() && tracking_id_of(#[trigger] stream[k]) == id;
            if k < before.len() {
                assert(before[k] == stream[k]);
            }
        }
    }
}

proof fn lemma_events_with_nonempty(series: Seq<Seq<Event>>, id: Option<TrackingId>)
    requires
        forall|i: int| 0 <= i < series.len() ==> (#[trigger] series[i]).len() > 0,
    ensures
        events_with(series, id).len() > 0 <==> exists|i: int|
            0 <= i < series.len() && series_id(#[trigger] series[i]) == id,
    decreases series.len(),
{
    if series.len() > 0 {
        let before = series.drop_last();
        assert forall|i: int| 0 <= i < before.len() implies (#[trigger] before[i]).len() > 0 by {
            assert(before[i] == series[i]);
        }
        lemma_events_with_nonempty(before, id);
        if events_with(series, id).len() > 0 {
            if series_id(series.last()) == id {
                assert(series_id(series[series.len() - 1]) == id);
            } else {
                let i = choose|i: int|
                    0 <= i < before.len() && series_id(#[trigger] before[i]) == id;
                assert(series[i] == before[i]);
            }
        }
        if exists|i: int| 0 <= i < series.len() && series_id(#[trigger] series[i]) == id {
            let i = choose|i: int| 0 <= i < series.len() && series_id(#[trigger] series[i]) == id;
            if i < before.len() {
                assert(before[i] == series[i]);
            } else {
                assert(series[series.len() - 1].len() > 0);
            }
        }
    }
}

/// Without a bound on the buffer there is one series per tracking identity:
/// no two series share an identity, each identity found in the stream has
/// its series, and each series has the identity of an event of the stream.
/// An event without identity is a series of its own.
pub proof fn lemma_unbounded_one_series_per_id(stream: Seq<Event>)
    ensures
        sorted_wf(sorted(stream, 0)),
        forall|id: Option<TrackingId>| #[trigger]
            has_series(sorted(stream, 0), id) <==> occurs(stream, id),
{
    lemma_run(stream, 0);
    let all = sorted(stream, 0);
    assert(all =~= run(stream, 0).1);
    assert forall|id: Option<TrackingId>| #[trigger]
        has_series(all, id) <==> occurs(stream, id) by {
        lemma_events_with_nonempty(all, id);
        lemma_stream_with_nonempty(stream, id);
        assert(events_with(all, id) =~= stream_with(stream, id));
    }
}

/// The identities that the series of a list have.
pub open spec fn series_identities(series: Seq<Seq<Event>>) -> Set<TrackingId> {
    Set::new(|id: TrackingId| has_series(series, Some(id)))
}

/// The identities that the events of a stream have.
pub open spec fn stream_identities(stream: Seq<Event>) -> Set<TrackingId> {
    Set::new(|id: TrackingId| occurs(stream, Some(id)))
}

proof fn lemma_series_count(series: Seq<Seq<Event>>)
    requires
        sorted_wf(series),
    ensures
        series_identities(series).finite(),
        series.len() == series_identities(series).len() + events_with(series, None).len(),
    decreases series.len(),
{
    if series.len() == 0 {
        assert(series_identities(series) =~= Set::empty());
    } else {
        let before = series.drop_last();
        let n = before.len() as int;
        assert forall|i: int| 0 <= i < before.len() implies before[i] == series[i] by {}
        assert(sorted_wf(before));
        lemma_series_count(before);
        assert(series[n] == series.last());
        match series_id(series.last()) {
            None => {
                assert(series[n].len() == 1);
                assert forall|id: TrackingId|
                    has_series(series, Some(id)) == has_series(before, Some(id)) by {
                    if has_series(series, Some(id)) {
                        let i = choose|i: int|
                            0 <= i < series.len() && series_id(#[trigger] series[i]) == Some(id);
                        assert(series_id(before[i]) == Some(id));
                    }
                    if has_series(before, Some(id)) {
                        let i = choose|i: int|
                            0 <= i < before.len() && series_id(#[trigger] before[i]) == Some(id);
                        assert(series_id(series[i]) == Some(id));
                    }
                }
                assert(series_identities(series) =~= series_identities(before));
            },
            Some(last) => {
                assert(!has_series(before, Some(last))) by {
                    if has_series(before, Some(last)) {
                        let i = choose|i: int|
                            0 <= i < before.len() && series_id(#[trigger] before[i]) == Some(
                                last,
                            );
                        assert(series_id(series[i]) != series_id(series[n]));
                    }
                }
                assert forall|id: TrackingId|
                    has_series(series, Some(id)) == (id == last || has_series(
                        before,
                        Some(id),
                    )) by {
                    if has_series(series, Some(id)) && id != last {
                        let i = choose|i: int|
                            0 <= i < series.len() && series_id(#[trigger] series[i]) == Some(id);
                        assert(series_id(before[i]) == Some(id));
                    }
                    if has_series(before, Some(id)) {
                        let i = choose|i: int|
                            0 <= i < before.len() && series_id(#[trigger] before[i]) == Some(id);
                        assert(series_id(series[i]) == Some(id));
                    }
                    if id == last {
                        assert(series_id(series[n]) == Some(id));
                    }
                }
                assert(series_identities(series) =~= series_identities(before).insert(last));
            },
        }
    }
}

/// Without a bound on the buffer there are as many series as the stream
/// holds identities, and one more for each event without identity.
pub proof fn lemma_unbounded_series_count(stream: Seq<Event>)
    ensures
        stream_identities(stream).finite(),
        sorted(stream, 0).len() == stream_identities(stream).len() + stream_with(
            stream,
            None,
        ).len(),
{
    lemma_unbounded_one_series_per_id(stream);
    lemma_run(stream, 0);
    let all = sorted(stream, 0);
    lemma_series_count(all);
    assert(series_identities(all) =~= stream_identities(stream)) by {
        assert forall|id: TrackingId|
            has_series(all, Some(id)) == occurs(stream, Some(id)) by {
            assert(has_series(all, Some(id)) <==> occurs(stream, Some(id)));
        }
    }
    assert(events_with(all, None) == stream_with(stream, None));
}

/// Where in `stream` the series start that sorting without a bound gives:
/// for each series, in the order the series leave, the position of its
/// first event.
pub open spec fn starts_of(stream: Seq<Event>) -> Seq<int>
    decreases stream.len(),
{
    if stream.len() == 0 {
        Seq::empty()
    } else {
        let before = stream.drop_last();
        let held = sorted(before, 0);
        let joins = match tracking_id_of(stream.last()) {
            Some(id) => find_series(held, id) < held.len(),
            None => false,
        };
        if joins {
            starts_of(before)
        } else {
            starts_of(before).push(stream.len() - 1)
        }
    }
}

/// Whether `series` start at the positions `starts` of `stream`, each at
/// the first event of its identity, and come in the order of these
/// positions.
pub open spec fn in_order_of_first(
    stream: Seq<Event>,
    series: Seq<Seq<Event>>,
    starts: Seq<int>,
) -> bool {
    &&& starts.len() == series.len()
    &&& forall|i: int|
        0 <= i < series.len() ==> 0 <= #[trigger] starts[i] < stream.len() && series[i].len() > 0
            && stream[starts[i]] == series[i][0]
    &&& forall|i: int, k: int|
        0 <= i < series.len() && 0 <= k < starts[i] && series_id(series[i]) is Some
            ==> tracking_id_of(#[trigger] stream[k]) != series_id(#[trigger] series[i])
    &&& forall|i: int, j: int|
        0 <= i < j < starts.len() ==> #[trigger] starts[i] < #[trigger] starts[j]
}

/// Without a bound on the buffer the series leave in the order of their
/// first events: each series starts with the first event of its identity in
/// the stream, and a series whose first event came earlier leaves earlier.
pub proof fn lemma_unbounded_series_in_order(stream: Seq<Event>)
    ensures
        in_order_of_first(stream, sorted(stream, 0), starts_of(stream)),
    decreases stream.len(),
{
    lemma_run(stream, 0);
    let all = sorted(stream, 0);
    let starts = starts_of(stream);
    if stream.len() == 0 {
        assert(all =~= Seq::<Seq<Event>>::empty());
    } else {
        let before = stream.drop_last();
        let event = stream.last();
        let n = stream.len() as int;
        lemma_run(before, 0);
        lemma_unbounded_series_in_order(before);
        lemma_unbounded_one_series_per_id(before);
        let held = sorted(before, 0);
        let was = starts_of(before);
        assert(held =~= run(before, 0).1);
        assert(all =~= added(held, event)) by {
            let after = added(run(before, 0).1, event);
            assert(flush_count(after, 0) == 0);
            assert(after.take(0) =~= Seq::<Seq<Event>>::empty());
            assert(after.skip(0) =~= after);
        }
        assert forall|k: int| 0 <= k < n - 1 implies stream[k] == before[k] by {}
        let joins = match tracking_id_of(event) {
            Some(id) => find_series(held, id) < held.len(),
            None => false,
        };
        if joins {
            let id = tracking_id_of(event)->Some_0;
            let at = find_series(held, id);
            lemma_find_series(held, id);
            assert(starts == was);
            assert forall|i: int| 0 <= i < all.len() implies all[i].len() > 0 && all[i][0]
                == held[i][0] by {
                if i == at {
                    assert(held[at].len() > 0);
                }
            }
            assert(in_order_of_first(stream, all, starts));
        } else {
            assert(all =~= held.push(seq![event]));
            assert(starts == was.push(n - 1));
            assert forall|i: int| 0 <= i < held.len() implies all[i] == held[i] by {}
            assert(all[held.len() as int] == seq![event]);
            assert forall|i: int, k: int|
                0 <= i < all.len() && 0 <= k < starts[i] && series_id(
                    all[i],
                ) is Some implies tracking_id_of(#[trigger] stream[k]) != series_id(
                #[trigger] all[i],
            ) by {
                if i == held.len() {
                    let id = tracking_id_of(event)->Some_0;
                    lemma_find_series(held, id);
                    assert(!has_series(held, Some(id))) by {
                        if has_series(held, Some(id)) {
                            let j = choose|j: int|
                                0 <= j < held.len() && series_id(#[trigger] held[j]) == Some(id);
                            assert(series_id(held[j]) != Some(id));
                        }
                    }
                    assert(!occurs(before, Some(id)));
                    if tracking_id_of(stream[k]) == Some(id) {
                        assert(tracking_id_of(before[k]) == Some(id));
                    }
                } else {
                    assert(starts[i] == was[i]);
                    assert(tracking_id_of(before[k]) != series_id(held[i]));
                }
            }
            assert forall|i: int|
                0 <= i < all.len() implies 0 <= #[trigger] starts[i] < stream.len() && all[i].len()
                > 0 && stream[starts[i]] == all[i][0] by {
                if i < held.len() {
                    assert(starts[i] == was[i]);
                }
            }
            assert forall|i: int, j: int| 0 <= i < j < starts.len() implies #[trigger] starts[i]
                < #[trigger] starts[j] by {
                assert(starts[i] == was[i]);
                if j < was.len() {
                    assert(starts[j] == was[j]);
                }
            }
        }
    }
}

} // verus!
