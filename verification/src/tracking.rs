//! Annotation of events with tracking information: which packet an event is
//! about, and which place it has among the events of that packet.

use vstd::prelude::*;
use crate::error::DecodeError;
use crate::events::event::Event;
use crate::events::section::Section;
use crate::events::skb_tracking::{SkbTrackingEvent, TrackingInfo};
use crate::section_id::SectionId;
use crate::sorter::TrackingId;

verus! {

/// The tracking fingerprint an event was collected with, if any.
pub open spec fn skb_tracking_of(event: Event) -> Option<SkbTrackingEvent> {
    if event@.contains_key(SectionId::SkbTracking) {
        match event@[SectionId::SkbTracking] {
            Section::SkbTracking(t) => Some(t),
            _ => None,
        }
    } else {
        None
    }
}

/// How many events of one packet were seen.
struct Seen {
    id: TrackingId,
    count: u32,
}

/// No identity occurs twice.
spec fn distinct_seen(seen: Seq<Seen>) -> bool {
    forall|i: int, j: int| 0 <= i < j < seen.len() ==> seen[i].id != seen[j].id
}

/// Whether events of the packet `id` were seen.
spec fn holds(seen: Seq<Seen>, id: TrackingId) -> bool {
    exists|i: int| 0 <= i < seen.len() && (#[trigger] seen[i]).id == id
}

/// Where the count of the packet `id` is.
spec fn index_of(seen: Seq<Seen>, id: TrackingId) -> int {
    choose|i: int| 0 <= i < seen.len() && (#[trigger] seen[i]).id == id
}

/// The mapping that a list of counts stands for.
spec fn seen_map(seen: Seq<Seen>) -> Map<TrackingId, u32> {
    Map::new(|id: TrackingId| holds(seen, id), |id: TrackingId| seen[index_of(seen, id)].count)
}

proof fn lemma_seen_entry(seen: Seq<Seen>, i: int)
    requires
        distinct_seen(seen),
        0 <= i < seen.len(),
    ensures
        seen_map(seen).contains_key(seen[i].id),
        seen_map(seen)[seen[i].id] == seen[i].count,
{
    let id = seen[i].id;
    assert(holds(seen, id));
    let k = index_of(seen, id);
    assert(seen[k].id == seen[i].id);
    assert(k == i);
}

/// The place of the next event of the packet `id` among those of that
/// packet, counted from zero; the count stops growing at its largest value.
pub open spec fn next_idx(seen: Map<TrackingId, u32>, id: TrackingId) -> u32 {
    if seen.contains_key(id) {
        seen[id]
    } else {
        0
    }
}

/// The count that follows `n`: one more, up to the largest value.
pub open spec fn bumped(n: u32) -> u32 {
    if n < u32::MAX {
        (n + 1) as u32
    } else {
        n
    }
}

/// Stage that adds tracking information to the events that were collected
/// with a tracking fingerprint.
pub struct AddTracking {
    seen: Vec<Seen>,
}

impl View for AddTracking {
    type V = Map<TrackingId, u32>;

    closed spec fn view(&self) -> Map<TrackingId, u32> {
        seen_map(self.seen@)
    }
}

impl AddTracking {
    #[verifier::type_invariant]
    spec fn inv(self) -> bool {
        distinct_seen(self.seen@)
    }

    /// A stage that has seen no event.
    pub fn new() -> (r: AddTracking)
        ensures
            r@ == Map::<TrackingId, u32>::empty(),
    {
        let r = AddTracking { seen: Vec::new() };
        assert(r@ =~= Map::<TrackingId, u32>::empty());
        r
    }

    /// Position of the count of the packet `id`, if events of it were seen.
    fn position(&self, id: TrackingId) -> (r: Option<usize>)
        ensures
            match r {
                Some(i) => i < self.seen@.len() && self.seen@[i as int].id == id
                    && self@.contains_key(id) && self@[id] == self.seen@[i as int].count,
                None => !self@.contains_key(id),
            },
            distinct_seen(self.seen@),
    {
        proof {
            use_type_invariant(self);
        }
        let mut i: usize = 0;
        let mut found: Option<usize> = None;
        while i < self.seen.len() && found.is_none()
            invariant
                i <= self.seen@.len(),
                found is None ==> forall|j: int| 0 <= j < i ==> self.seen@[j].id != id,
                found matches Some(k) ==> k < self.seen@.len() && self.seen@[k as int].id == id,
            decreases self.seen@.len() - i + if found is None { 1int } else { 0int },
        {
            if self.seen[i].id.0 == id.0 && self.seen[i].id.1 == id.1 {
                found = Some(i);
            } else {
                i += 1;
            }
        }
        proof {
            if let Some(k) = found {
                lemma_seen_entry(self.seen@, k as int);
            }
        }
        found
    }

    /// Counts one more event of the packet `id`, and says which place this
    /// event has among those of the packet.
    fn count(&mut self, id: TrackingId) -> (r: u32)
        ensures
            r == next_idx(old(self)@, id),
            final(self)@ == old(self)@.insert(id, bumped(r)),
    {
        let found = self.position(id);
        let mut taken = AddTracking::new();
        std::mem::swap(self, &mut taken);
        let AddTracking { mut seen } = taken;
        let ghost before = seen@;
        let idx: u32 = match found {
            Some(i) => seen[i].count,
            None => 0,
        };
        let next: u32 = if idx < u32::MAX {
            idx + 1
        } else {
            idx
        };
        match found {
            Some(i) => {
                seen.set(i, Seen { id, count: next });
            },
            None => {
                seen.push(Seen { id, count: next });
            },
        }
        let ghost k: int = match found {
            Some(i) => i as int,
            None => before.len() as int,
        };
        proof {
            assert forall|a: int, b: int| 0 <= a < b < seen@.len() implies seen@[a].id
                != seen@[b].id by {
                if a != k && b != k {
                    assert(seen@[a] == before[a]);
                    assert(seen@[b] == before[b]);
                } else if a == k {
                    assert(seen@[b] == before[b]);
                    if found is Some {
                        assert(before[k].id == id);
                    }
                } else {
                    assert(seen@[a] == before[a]);
                    if found is Some {
                        assert(before[k].id == id);
                    }
                }
            }
        }
        *self = AddTracking { seen };
        proof {
            lemma_seen_entry(self.seen@, k);
            let target = old(self)@.insert(id, bumped(idx));
            assert forall|o: TrackingId| #[trigger] target.dom().contains(o) implies self@.dom().contains(
                o,
            ) && self@[o] == target[o] by {
                if o != id {
                    let j = index_of(before, o);
                    assert(self.seen@[j] == before[j]);
                    lemma_seen_entry(before, j);
                    lemma_seen_entry(self.seen@, j);
                }
            }
            assert forall|o: TrackingId| #[trigger] self@.dom().contains(o) implies target.dom().contains(
                o,
            ) by {
                if o != id {
                    let j = index_of(self.seen@, o);
                    assert(self.seen@[j] == before[j]);
                    lemma_seen_entry(before, j);
                }
            }
            assert(self@ =~= target);
        }
        idx
    }

    /// Adds tracking information to an event that was collected with a
    /// tracking fingerprint.
    ///
    /// The tracking section that is added holds the fingerprint and the place
    /// of the event among the events of the same packet that went through
    /// this stage, counted from zero. An event without fingerprint is left
    /// alone. An event that has a tracking section already is left alone too,
    /// and is an error.
    pub fn process_one(&mut self, event: &mut Event) -> (r: Result<(), DecodeError>)
        ensures
            match skb_tracking_of(*old(event)) {
                None => r is Ok && *final(event) == *old(event) && final(self)@ == old(self)@,
                Some(t) => if old(event)@.contains_key(SectionId::Tracking) {
                    r == Err::<(), DecodeError>(DecodeError::DuplicateSection(SectionId::Tracking))
                        && *final(event) == *old(event) && final(self)@ == old(self)@
                } else {
                    r is Ok && final(event)@ == old(event)@.insert(
                        SectionId::Tracking,
                        Section::Tracking(
                            TrackingInfo {
                                skb: t,
                                idx: next_idx(old(self)@, t.spec_tracking_id()),
                            },
                        ),
                    ) && final(self)@ == old(self)@.insert(
                        t.spec_tracking_id(),
                        bumped(next_idx(old(self)@, t.spec_tracking_id())),
                    )
                },
            },
    {
        let skb: SkbTrackingEvent = match event.get_section(SectionId::SkbTracking) {
            Some(Section::SkbTracking(t)) => *t,
            _ => {
                return Ok(());
            },
        };
        if event.contains(SectionId::Tracking) {
            return Err(DecodeError::DuplicateSection(SectionId::Tracking));
        }
        let idx = self.count(skb.tracking_id());
        event.insert_section(SectionId::Tracking, Section::Tracking(TrackingInfo { skb, idx }))
    }
}

} // verus!
