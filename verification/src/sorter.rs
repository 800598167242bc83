//! Sorting of an interleaved stream of events into series: the events of one
//! packet together, in the order they came.

use vstd::prelude::*;
use crate::events::event::Event;
use crate::events::section::Section;
use crate::section_id::SectionId;

verus! {

/// What identifies the packet an event is about: the time the packet was
/// first seen and the head its buffer then had.
pub type TrackingId = (u64, u64);

/// The tracking identity of an event, if it has one: that of its tracking
/// section.
pub open spec fn tracking_id_of(event: Event) -> Option<TrackingId> {
    if event@.contains_key(SectionId::Tracking) {
        match event@[SectionId::Tracking] {
            Section::Tracking(info) => Some(info.skb.spec_tracking_id()),
            _ => None,
        }
    } else {
        None
    }
}

/// The tracking identity of an event, if it has one.
pub fn tracking_id(event: &Event) -> (r: Option<TrackingId>)
    ensures
        r == tracking_id_of(*event),
{
    match event.get_section(SectionId::Tracking) {
        Some(Section::Tracking(info)) => Some(info.skb.tracking_id()),
        _ => None,
    }
}

/// A series of events sharing a tracking identity, in the order they came.
pub struct EventSeries {
    pub events: Vec<Event>,
}

impl View for EventSeries {
    type V = Seq<Event>;

    open spec fn view(&self) -> Seq<Event> {
        self.events@
    }
}

/// The images of a list of series.
pub open spec fn series_of(series: Seq<EventSeries>) -> Seq<Seq<Event>> {
    series.map_values(|s: EventSeries| s@)
}

/// The tracking identity of a series: that of its first event.
pub open spec fn series_id(series: Seq<Event>) -> Option<TrackingId> {
    tracking_id_of(series[0])
}

/// Position of the first series of `state` whose identity is `id`, or the
/// length of `state` if there is none.
pub open spec fn find_series(state: Seq<Seq<Event>>, id: TrackingId) -> int
    decreases state.len(),
{
    if state.len() == 0 {
        0
    } else if series_id(state[0]) == Some(id) {
        0
    } else {
        1 + find_series(state.skip(1), id)
    }
}

/// The series after `event` came: it joins the series of its tracking
/// identity if there is one, and starts a new series at the end otherwise.
/// An event without tracking identity always starts a new series.
pub open spec fn added(state: Seq<Seq<Event>>, event: Event) -> Seq<Seq<Event>> {
    match tracking_id_of(event) {
        Some(id) => {
            let i = find_series(state, id);
            if i < state.len() {
                state.update(i, state[i].push(event))
            } else {
                state.push(seq![event])
            }
        },
        None => state.push(seq![event]),
    }
}

/// Number of events in all the series of `state`.
pub open spec fn total(state: Seq<Seq<Event>>) -> nat
    decreases state.len(),
{
    if state.len() == 0 {
        0
    } else {
        total(state.drop_last()) + state.last().len()
    }
}

/// How many of the oldest series leave a buffer bounded by `max_buffer`:
/// the oldest leaves for as long as the buffer holds at least `max_buffer`
/// events. A bound of zero is no bound.
pub open spec fn flush_count(state: Seq<Seq<Event>>, max_buffer: nat) -> nat
    decreases state.len(),
{
    if max_buffer == 0 || state.len() == 0 || total(state) < max_buffer {
        0
    } else {
        1 + flush_count(state.skip(1), max_buffer)
    }
}

/// What makes a buffer of series sound: no series is empty, the events of a
/// series share its identity, a series without identity holds one event, and
/// no two series have the same identity.
pub open spec fn sorted_wf(state: Seq<Seq<Event>>) -> bool {
    &&& forall|i: int| 0 <= i < state.len() ==> (#[trigger] state[i]).len() > 0
    &&& forall|i: int, k: int|
        0 <= i < state.len() && 0 <= k < state[i].len() ==> tracking_id_of(
            #[trigger] state[i][k],
        ) == series_id(state[i])
    &&& forall|i: int|
        0 <= i < state.len() && series_id(#[trigger] state[i]) is None ==> state[i].len() == 1
    &&& forall|i: int, j: int|
        0 <= i < j < state.len() && series_id(#[trigger] state[i]) is Some ==> series_id(state[i])
            != series_id(#[trigger] state[j])
}

/// `find_series` gives a position at or before the end; a position before
/// the end holds a series of the identity looked for, and no position before
/// it does.
pub proof fn lemma_find_series(state: Seq<Seq<Event>>, id: TrackingId)
    ensures
        0 <= find_series(state, id) <= state.len(),
        find_series(state, id) < state.len() ==> series_id(state[find_series(state, id)]) == Some(
            id,
        ),
        forall|j: int|
            0 <= j < find_series(state, id) ==> series_id(#[trigger] state[j]) != Some(id),
    decreases state.len(),
{
    if state.len() > 0 && series_id(state[0]) != Some(id) {
        let rest = state.skip(1);
        lemma_find_series(rest, id);
        let k = find_series(rest, id);
        assert forall|j: int| 0 <= j < 1 + k implies series_id(#[trigger] state[j]) != Some(
            id,
        ) by {
            if j > 0 {
                assert(rest[j - 1] == state[j]);
            }
        }
        if k < rest.len() {
            assert(rest[k] == state[k + 1]);
        }
    }
}

/// Adding an event keeps a buffer sound.
pub proof fn lemma_added_wf(state: Seq<Seq<Event>>, event: Event)
    requires
        sorted_wf(state),
    ensures
        sorted_wf(added(state, event)),
{
    let after = added(state, event);
    match tracking_id_of(event) {
        Some(id) => {
            lemma_find_series(state, id);
            let i = find_series(state, id);
            if i < state.len() {
                assert(after[i][0] == state[i][0]);
                assert forall|a: int| 0 <= a < after.len() implies series_id(#[trigger] after[a])
                    == series_id(state[a]) by {
                    if a != i {
                        assert(after[a] == state[a]);
                    }
                }
                assert forall|a: int, k: int|
                    0 <= a < after.len() && 0 <= k < after[a].len() implies tracking_id_of(
                    #[trigger] after[a][k],
                ) == series_id(after[a]) by {
                    if a == i {
                        if k < state[i].len() {
                            assert(after[a][k] == state[i][k]);
                        }
                    } else {
                        assert(after[a] == state[a]);
                    }
                }
                assert forall|a: int|
                    0 <= a < after.len() && series_id(#[trigger] after[a]) is None implies after[a].len()
                    == 1 by {
                    assert(after[a] == state[a]);
                }
                assert forall|a: int, b: int|
                    0 <= a < b < after.len() && series_id(#[trigger] after[a]) is Some implies series_id(
                    after[a],
                ) != series_id(#[trigger] after[b]) by {
                    assert(series_id(after[a]) == series_id(state[a]));
                    assert(series_id(after[b]) == series_id(state[b]));
                }
            } else {
                assert forall|a: int| 0 <= a < state.len() implies #[trigger] after[a]
                    == state[a] by {}
                assert(after[state.len() as int] == seq![event]);
                assert forall|a: int, b: int|
                    0 <= a < b < after.len() && series_id(#[trigger] after[a]) is Some implies series_id(
                    after[a],
                ) != series_id(#[trigger] after[b]) by {
                    if b == state.len() {
                        assert(series_id(state[a]) != Some(id));
                    }
                }
            }
        },
        None => {
            assert forall|a: int| 0 <= a < state.len() implies #[trigger] after[a] == state[a] by {}
            assert(after[state.len() as int] == seq![event]);
        },
    }
}

/// Removing the oldest series keeps a buffer sound.
pub proof fn lemma_skip_wf(state: Seq<Seq<Event>>)
    requires
        sorted_wf(state),
        state.len() > 0,
    ensures
        sorted_wf(state.skip(1)),
{
    let rest = state.skip(1);
    assert forall|a: int| 0 <= a < rest.len() implies #[trigger] rest[a] == state[a + 1] by {}
    assert forall|a: int, b: int|
        0 <= a < b < rest.len() && series_id(#[trigger] rest[a]) is Some implies series_id(rest[a])
        != series_id(#[trigger] rest[b]) by {
        assert(rest[a] == state[a + 1]);
        assert(rest[b] == state[b + 1]);
    }
}

/// The events of a buffer are those it had and the event that came.
pub proof fn lemma_added_total(state: Seq<Seq<Event>>, event: Event)
    ensures
        total(added(state, event)) == total(state) + 1,
{
    match tracking_id_of(event) {
        Some(id) => {
            lemma_find_series(state, id);
            let i = find_series(state, id);
            if i < state.len() {
                lemma_total_update(state, i, state[i].push(event));
            } else {
                assert(state.push(seq![event]).drop_last() =~= state);
            }
        },
        None => {
            assert(state.push(seq![event]).drop_last() =~= state);
        },
    }
}

proof fn lemma_total_update(state: Seq<Seq<Event>>, i: int, s: Seq<Event>)
    requires
        0 <= i < state.len(),
    ensures
        total(state.update(i, s)) == total(state) - state[i].len() + s.len(),
    decreases state.len(),
{
    let after = state.update(i, s);
    if i == state.len() - 1 {
        assert(after.drop_last() =~= state.drop_last());
    } else {
        lemma_total_update(state.drop_last(), i, s);
        assert(after.drop_last() =~= state.drop_last().update(i, s));
    }
}

/// The events of a buffer are those of its oldest series and those of the
/// others.
pub proof fn lemma_total_skip(state: Seq<Seq<Event>>)
    requires
        state.len() > 0,
    ensures
        total(state) == state[0].len() + total(state.skip(1)),
    decreases state.len(),
{
    if state.len() == 1 {
        assert(state.drop_last() =~= Seq::<Seq<Event>>::empty());
        assert(state.skip(1) =~= Seq::<Seq<Event>>::empty());
    } else {
        lemma_total_skip(state.drop_last());
        assert(state.drop_last().skip(1) =~= state.skip(1).drop_last());
        assert(state.drop_last()[0] == state[0]);
    }
}

/// Buffered reorderer producing one series per tracking identity.
pub struct EventSorter {
    ids: Vec<Option<TrackingId>>,
    series: Vec<EventSeries>,
    n_events: usize,
}

impl View for EventSorter {
    type V = Seq<Seq<Event>>;

    closed spec fn view(&self) -> Seq<Seq<Event>> {
        series_of(self.series@)
    }
}

impl EventSorter {
    #[verifier::type_invariant]
    spec fn inv(self) -> bool {
        &&& sorted_wf(series_of(self.series@))
        &&& self.ids@.len() == self.series@.len()
        &&& forall|i: int|
            0 <= i < self.ids@.len() ==> #[trigger] self.ids@[i] == series_id(self.series@[i]@)
        &&& self.n_events == total(series_of(self.series@))
    }

    /// A sorter holding nothing.
    pub fn new() -> (r: EventSorter)
        ensures
            r@ == Seq::<Seq<Event>>::empty(),
    {
        let r = EventSorter { ids: Vec::new(), series: Vec::new(), n_events: 0 };
        assert(series_of(r.series@) =~= Seq::<Seq<Event>>::empty());
        r
    }

    /// Number of events held.
    pub fn len(&self) -> (r: usize)
        ensures
            r == total(self@),
            sorted_wf(self@),
    {
        proof {
            use_type_invariant(self);
        }
        self.n_events
    }

    /// Number of series held.
    pub fn n_series(&self) -> (r: usize)
        ensures
            r == self@.len(),
    {
        self.series.len()
    }

    /// Position of the series of identity `id`, or the number of series if
    /// there is none.
    fn position(&self, id: TrackingId) -> (r: usize)
        ensures
            r == find_series(self@, id),
            r <= self.series@.len(),
    {
        proof {
            use_type_invariant(self);
        }
        let ghost all = series_of(self.series@);
        let mut i: usize = 0;
        assert(all.skip(0) =~= all);
        while i < self.ids.len()
            invariant
                i <= self.ids@.len(),
                self.ids@.len() == self.series@.len(),
                all == series_of(self.series@),
                forall|j: int|
                    0 <= j < self.ids@.len() ==> #[trigger] self.ids@[j] == series_id(
                        self.series@[j]@,
                    ),
                find_series(all, id) == i + find_series(all.skip(i as int), id),
            decreases self.ids@.len() - i,
        {
            assert(all.skip(i as int)[0] == self.series@[i as int]@);
            let found = match self.ids[i] {
                Some(x) => x.0 == id.0 && x.1 == id.1,
                None => false,
            };
            if found {
                return i;
            }
            assert(all.skip(i as int).skip(1) =~= all.skip(i + 1));
            i += 1;
        }
        i
    }

    /// Takes an event in: it joins the series of its tracking identity if
    /// one is held, and starts a new series, the youngest, otherwise.
    pub fn add(&mut self, event: Event)
        requires
            total(old(self)@) < usize::MAX,
        ensures
            final(self)@ == added(old(self)@, event),
    {
        proof {
            use_type_invariant(&*self);
            lemma_added_wf(self@, event);
            lemma_added_total(self@, event);
        }
        let id = tracking_id(&event);
        let at: Option<usize> = match id {
            Some(t) => {
                let i = self.position(t);
                if i < self.series.len() {
                    Some(i)
                } else {
                    None
                }
            },
            None => None,
        };
        let mut taken = EventSorter::new();
        std::mem::swap(self, &mut taken);
        let EventSorter { mut ids, mut series, n_events } = taken;
        let ghost before = series@;
        match at {
            Some(i) => {
                let mut held = series.remove(i);
                held.events.push(event);
                series.insert(i, held);
                assert(series_of(series@) =~= series_of(before).update(
                    i as int,
                    before[i as int]@.push(event),
                ));
                assert(series@[i as int]@[0] == before[i as int]@[0]);
                assert forall|j: int| 0 <= j < ids@.len() implies #[trigger] ids@[j] == series_id(
                    series@[j]@,
                ) by {
                    if j != i {
                        assert(series@[j] == before[j]);
                    }
                }
            },
            None => {
                let mut events: Vec<Event> = Vec::new();
                events.push(event);
                let fresh = EventSeries { events };
                assert(fresh@ =~= seq![event]);
                ids.push(id);
                series.push(fresh);
                assert(series_of(series@) =~= series_of(before).push(seq![event]));
                assert forall|j: int| 0 <= j < ids@.len() implies #[trigger] ids@[j] == series_id(
                    series@[j]@,
                ) by {
                    if j < before.len() {
                        assert(series@[j] == before[j]);
                    }
                }
            },
        }
        *self = EventSorter { ids, series, n_events: n_events + 1 };
    }

    /// Gives out the oldest series, if any is held.
    pub fn pop_oldest(&mut self) -> (r: Option<EventSeries>)
        ensures
            old(self)@.len() == 0 ==> r is None && final(self)@ == old(self)@,
            old(self)@.len() > 0 ==> (r matches Some(s) && s@ == old(self)@[0]) && final(self)@
                == old(self)@.skip(1),
    {
        proof {
            use_type_invariant(&*self);
        }
        if self.series.len() == 0 {
            return None;
        }
        proof {
            lemma_skip_wf(self@);
            lemma_total_skip(self@);
        }
        let mut taken = EventSorter::new();
        std::mem::swap(self, &mut taken);
        let EventSorter { mut ids, mut series, n_events } = taken;
        let ghost before = series@;
        let _ = ids.remove(0);
        let oldest = series.remove(0);
        assert(series_of(series@) =~= series_of(before).skip(1));
        assert forall|j: int| 0 <= j < ids@.len() implies #[trigger] ids@[j] == series_id(
            series@[j]@,
        ) by {
            assert(series@[j] == before[j + 1]);
        }
        let left: usize = n_events - oldest.events.len();
        *self = EventSorter { ids, series, n_events: left };
        Some(oldest)
    }

    /// Gives out the oldest series for as long as at least `max_buffer`
    /// events are held; with a bound of zero nothing leaves.
    pub fn flush(&mut self, max_buffer: usize) -> (r: Vec<EventSeries>)
        ensures
            series_of(r@) == old(self)@.take(flush_count(old(self)@, max_buffer as nat) as int),
            final(self)@ == old(self)@.skip(flush_count(old(self)@, max_buffer as nat) as int),
            flush_count(old(self)@, max_buffer as nat) <= old(self)@.len(),
    {
        let mut out: Vec<EventSeries> = Vec::new();
        let ghost start = self@;
        assert(series_of(out@) =~= start.take(0));
        assert(start.skip(0) =~= start);
        if max_buffer == 0 {
            return out;
        }
        while self.len() >= max_buffer && self.n_series() > 0
            invariant
                max_buffer > 0,
                out@.len() <= start.len(),
                series_of(out@) == start.take(out@.len() as int),
                self@ == start.skip(out@.len() as int),
                flush_count(start, max_buffer as nat) == out@.len() + flush_count(
                    self@,
                    max_buffer as nat,
                ),
            decreases self@.len(),
        {
            let ghost held = self@;
            let ghost done = out@;
            match self.pop_oldest() {
                Some(s) => {
                    out.push(s);
                    assert(series_of(out@) =~= series_of(done).push(s@));
                    assert(start.take(out@.len() as int) =~= start.take(done.len() as int).push(
                        held[0],
                    ));
                    assert(held.skip(1) =~= start.skip(out@.len() as int));
                },
                None => {},
            }
        }
        proof {
            lemma_flush_count_bound(self@, max_buffer as nat);
        }
        out
    }

    /// Takes an event in, then gives out the oldest series for as long as at
    /// least `max_buffer` events are held.
    pub fn process(&mut self, event: Event, max_buffer: usize) -> (r: Vec<EventSeries>)
        requires
            total(old(self)@) < usize::MAX,
        ensures
            series_of(r@) == added(old(self)@, event).take(
                flush_count(added(old(self)@, event), max_buffer as nat) as int,
            ),
            final(self)@ == added(old(self)@, event).skip(
                flush_count(added(old(self)@, event), max_buffer as nat) as int,
            ),
    {
        self.add(event);
        self.flush(max_buffer)
    }

    /// Gives out every series held, oldest first.
    pub fn drain(&mut self) -> (r: Vec<EventSeries>)
        ensures
            series_of(r@) == old(self)@,
            final(self)@ == Seq::<Seq<Event>>::empty(),
    {
        let mut out: Vec<EventSeries> = Vec::new();
        let ghost start = self@;
        assert(series_of(out@) =~= start.take(0));
        assert(start.skip(0) =~= start);
        while self.n_series() > 0
            invariant
                out@.len() <= start.len(),
                series_of(out@) == start.take(out@.len() as int),
                self@ == start.skip(out@.len() as int),
            decreases self@.len(),
        {
            let ghost held = self@;
            let ghost done = out@;
            match self.pop_oldest() {
                Some(s) => {
                    out.push(s);
                    assert(series_of(out@) =~= series_of(done).push(s@));
                    assert(start.take(out@.len() as int) =~= start.take(done.len() as int).push(
                        held[0],
                    ));
                    assert(held.skip(1) =~= start.skip(out@.len() as int));
                },
                None => {},
            }
        }
        assert(start.take(start.len() as int) =~= start);
        assert(self@ =~= Seq::<Seq<Event>>::empty());
        out
    }
}

/// No more series leave a buffer than it holds.
pub proof fn lemma_flush_count_bound(state: Seq<Seq<Event>>, max_buffer: nat)
    ensures
        flush_count(state, max_buffer) <= state.len(),
    decreases state.len(),
{
    if !(max_buffer == 0 || state.len() == 0 || total(state) < max_buffer) {
        lemma_flush_count_bound(state.skip(1), max_buffer);
    }
}

} // verus!
