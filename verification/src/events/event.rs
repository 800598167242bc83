//! The event: at most one section per owner.

use vstd::prelude::*;
use crate::error::DecodeError;
use crate::events::section::Section;
use crate::section_id::SectionId;

verus! {

/// No owner occurs twice.
spec fn distinct_owners(owners: Seq<SectionId>) -> bool {
    forall|i: int, j: int| 0 <= i < j < owners.len() ==> owners[i] != owners[j]
}

/// The mapping that a list of owners and the list of their sections stand for.
spec fn entries_map(owners: Seq<SectionId>, sections: Seq<Section>) -> Map<SectionId, Section>
    decreases owners.len(),
{
    if owners.len() == 0 {
        Map::empty()
    } else {
        entries_map(owners.drop_last(), sections.drop_last()).insert(
            owners.last(),
            sections[owners.len() - 1],
        )
    }
}

proof fn lemma_entries_map(owners: Seq<SectionId>, sections: Seq<Section>)
    requires
        distinct_owners(owners),
        owners.len() == sections.len(),
    ensures
        forall|o: SectionId|
            entries_map(owners, sections).contains_key(o) <==> owners.contains(o),
        forall|i: int|
            0 <= i < owners.len() ==> entries_map(owners, sections)[#[trigger] owners[i]]
                == sections[i],
        entries_map(owners, sections).dom().finite(),
        entries_map(owners, sections).len() == owners.len(),
    decreases owners.len(),
{
    if owners.len() > 0 {
        let t = owners.drop_last();
        let u = sections.drop_last();
        lemma_entries_map(t, u);
        assert(entries_map(owners, sections) == entries_map(t, u).insert(
            owners.last(),
            sections[owners.len() - 1],
        ));
        assert forall|o: SectionId|
            entries_map(owners, sections).contains_key(o) <==> owners.contains(o) by {
            if entries_map(owners, sections).contains_key(o) {
                if o == owners.last() {
                    assert(owners[owners.len() - 1] == o);
                } else {
                    assert(entries_map(t, u).contains_key(o));
                    assert(t.contains(o));
                    let i = choose|i: int| 0 <= i < t.len() && t[i] == o;
                    assert(owners[i] == o);
                }
            }
            if owners.contains(o) {
                let i = choose|i: int| 0 <= i < owners.len() && owners[i] == o;
                if i < t.len() {
                    assert(t[i] == o);
                    assert(t.contains(o));
                    assert(entries_map(t, u).contains_key(o));
                } else {
                    assert(o == owners.last());
                }
                assert(entries_map(owners, sections).contains_key(o));
            }
        }
        assert forall|i: int| 0 <= i < owners.len() implies entries_map(owners, sections)[
            #[trigger] owners[i]] == sections[i] by {
            if i < t.len() {
                assert(t[i] == owners[i]);
                assert(u[i] == sections[i]);
                assert(owners[i] != owners[owners.len() - 1]);
            }
        }
        assert(!entries_map(t, u).contains_key(owners.last())) by {
            if t.contains(owners.last()) {
                let i = choose|i: int| 0 <= i < t.len() && t[i] == owners.last();
                assert(owners[i] == owners[owners.len() - 1]);
            }
        }
    }
}

proof fn lemma_entries_map_update(
    owners: Seq<SectionId>,
    sections: Seq<Section>,
    i: int,
    s: Section,
)
    requires
        distinct_owners(owners),
        owners.len() == sections.len(),
        0 <= i < owners.len(),
    ensures
        entries_map(owners, sections.update(i, s)) == entries_map(owners, sections).insert(
            owners[i],
            s,
        ),
    decreases owners.len(),
{
    let t = owners.drop_last();
    let u = sections.drop_last();
    let last = owners.len() - 1;
    if i == last {
        assert(sections.update(i, s).drop_last() =~= u);
        assert(entries_map(owners, sections.update(i, s)) =~= entries_map(owners, sections).insert(
            owners[i],
            s,
        ));
    } else {
        lemma_entries_map_update(t, u, i, s);
        assert(sections.update(i, s).drop_last() =~= u.update(i, s));
        assert(t[i] == owners[i]);
        assert(owners[i] != owners[last]);
        assert(entries_map(owners, sections.update(i, s)) =~= entries_map(owners, sections).insert(
            owners[i],
            s,
        ));
    }
}

/// Full event: the sections that make it, each under the identifier of the
/// collector it originates from.
pub struct Event {
    owners: Vec<SectionId>,
    sections: Vec<Section>,
}

impl View for Event {
    type V = Map<SectionId, Section>;

    closed spec fn view(&self) -> Map<SectionId, Section> {
        entries_map(self.owners@, self.sections@)
    }
}

impl Event {
    #[verifier::type_invariant]
    spec fn inv(self) -> bool {
        &&& distinct_owners(self.owners@)
        &&& self.owners@.len() == self.sections@.len()
    }

    /// An event without any section.
    pub fn new() -> (r: Event)
        ensures
            r@ == Map::<SectionId, Section>::empty(),
    {
        Event { owners: Vec::new(), sections: Vec::new() }
    }

    /// Position of the section stored under `owner`, if there is one.
    fn position(&self, owner: SectionId) -> (r: Option<usize>)
        ensures
            match r {
                Some(i) => i < self.owners@.len() && self.owners@[i as int] == owner
                    && self@.contains_key(owner) && self@[owner] == self.sections@[i as int],
                None => !self@.contains_key(owner),
            },
            self.owners@.len() == self.sections@.len(),
    {
        proof {
            use_type_invariant(self);
            lemma_entries_map(self.owners@, self.sections@);
        }
        let mut i: usize = 0;
        let mut found: Option<usize> = None;
        while i < self.owners.len() && found.is_none()
            invariant
                i <= self.owners@.len(),
                found is None ==> forall|j: int| 0 <= j < i ==> self.owners@[j] != owner,
                found matches Some(k) ==> k < self.owners@.len() && self.owners@[k as int]
                    == owner,
            decreases self.owners@.len() - i + if found is None { 1int } else { 0int },
        {
            if self.owners[i] == owner {
                found = Some(i);
            } else {
                i += 1;
            }
        }
        proof {
            match found {
                Some(k) => {
                    assert(self.owners@.contains(self.owners@[k as int]));
                },
                None => {
                    if self.owners@.contains(owner) {
                        let j = choose|j: int|
                            0 <= j < self.owners@.len() && self.owners@[j] == owner;
                        assert(self.owners@[j] != owner);
                    }
                },
            }
        }
        found
    }

    /// Insert a new section into an event, under `owner`.
    ///
    /// An owner holds at most one section: a second insertion under the same
    /// owner is refused and leaves the event as it was.
    pub fn insert_section(&mut self, owner: SectionId, section: Section) -> (r: Result<
        (),
        DecodeError,
    >)
        ensures
            old(self)@.contains_key(owner) ==> r == Err::<(), DecodeError>(
                DecodeError::DuplicateSection(owner),
            ) && final(self)@ == old(self)@,
            !old(self)@.contains_key(owner) ==> r is Ok && final(self)@ == old(self)@.insert(
                owner,
                section,
            ),
    {
        if self.position(owner).is_some() {
            return Err(DecodeError::DuplicateSection(owner));
        }
        proof {
            use_type_invariant(&*self);
            lemma_entries_map(self.owners@, self.sections@);
        }
        let mut taken = Event::new();
        std::mem::swap(self, &mut taken);
        let Event { mut owners, mut sections } = taken;
        let ghost before = owners@;
        let ghost held = sections@;
        owners.push(owner);
        sections.push(section);
        proof {
            assert(owners@.drop_last() =~= before);
            assert(sections@.drop_last() =~= held);
            assert forall|i: int, j: int| 0 <= i < j < owners@.len() implies owners@[i]
                != owners@[j] by {
                if j == before.len() {
                    assert(before.contains(before[i]));
                }
            }
        }
        *self = Event { owners, sections };
        Ok(())
    }

    /// Get a reference to the section stored under `owner`.
    pub fn get_section(&self, owner: SectionId) -> (r: Option<&Section>)
        ensures
            self@.contains_key(owner) ==> r == Some(&self@[owner]),
            !self@.contains_key(owner) ==> r is None,
    {
        match self.position(owner) {
            Some(i) => Some(&self.sections[i]),
            None => None,
        }
    }

    /// Get a mutable reference to the section stored under `owner`.
    ///
    /// What the caller writes through the reference replaces the section
    /// stored under `owner`; nothing else changes.
    pub fn get_section_mut(&mut self, owner: SectionId) -> (r: Option<&mut Section>)
        ensures
            old(self)@.contains_key(owner) ==> (r matches Some(s) && *s == old(self)@[owner]
                && final(self)@ == old(self)@.insert(owner, *final(s))),
            !old(self)@.contains_key(owner) ==> r is None && final(self)@ == old(self)@,
    {
        proof {
            use_type_invariant(&*self);
        }
        match self.position(owner) {
            Some(i) => {
                proof {
                    assert forall|s: Section|
                        entries_map(self.owners@, self.sections@.update(i as int, s))
                            == #[trigger] entries_map(self.owners@, self.sections@).insert(
                            owner,
                            s,
                        ) by {
                        lemma_entries_map_update(self.owners@, self.sections@, i as int, s);
                    }
                }
                Some(&mut self.sections[i])
            },
            None => None,
        }
    }

    /// Whether a section is stored under `owner`.
    pub fn contains(&self, owner: SectionId) -> (r: bool)
        ensures
            r == self@.contains_key(owner),
    {
        self.position(owner).is_some()
    }

    /// Number of sections in the event.
    pub fn len(&self) -> (r: usize)
        ensures
            self@.dom().finite(),
            r == self@.len(),
    {
        proof {
            use_type_invariant(self);
            lemma_entries_map(self.owners@, self.sections@);
        }
        self.owners.len()
    }

    /// The owners of the sections present, in the order of their numeric
    /// identifiers.
    pub fn sections(&self) -> (r: Vec<SectionId>)
        ensures
            forall|id: SectionId| r@.contains(id) <==> self@.contains_key(id),
            forall|i: int, j: int|
                0 <= i < j < r@.len() ==> (#[trigger] r@[i]).wire_id() < (
                #[trigger] r@[j]).wire_id(),
    {
        let mut out: Vec<SectionId> = Vec::new();
        let mut cur: Option<SectionId> = Some(SectionId::Common);
        while cur.is_some()
            invariant
                forall|id: SectionId|
                    out@.contains(id) <==> self@.contains_key(id) && (cur matches Some(c)
                        ==> id.wire_id() < c.wire_id()),
                forall|i: int, j: int|
                    0 <= i < j < out@.len() ==> (#[trigger] out@[i]).wire_id() < (
                    #[trigger] out@[j]).wire_id(),
                forall|i: int|
                    0 <= i < out@.len() && cur is Some ==> (#[trigger] out@[i]).wire_id()
                        < cur->Some_0.wire_id(),
            decreases
                    match cur {
                        Some(c) => 12 - c.wire_id(),
                        None => 0,
                    },
        {
            let id = cur.unwrap();
            let ghost before = out@;
            let present = self.contains(id);
            if present {
                out.push(id);
            }
            cur = id.next();
            proof {
                assert forall|x: SectionId|
                    out@.contains(x) <==> self@.contains_key(x) && (cur matches Some(c)
                        ==> x.wire_id() < c.wire_id()) by {
                    if out@.contains(x) {
                        let k = choose|k: int| 0 <= k < out@.len() && out@[k] == x;
                        if k < before.len() {
                            assert(before[k] == x);
                            assert(before.contains(x));
                        }
                    }
                    if self@.contains_key(x) && (cur matches Some(c) ==> x.wire_id()
                        < c.wire_id()) {
                        if x.wire_id() < id.wire_id() {
                            assert(before.contains(x));
                            let k = choose|k: int| 0 <= k < before.len() && before[k] == x;
                            assert(out@[k] == x);
                        } else {
                            assert(x == id);
                            assert(out@[out@.len() - 1] == x);
                        }
                    }
                }
            }
        }
        out
    }
}

} // verus!
