//! Section factories: what turns the raw records of one owner into a typed
//! section, and the registry that holds one factory per owner.

use vstd::prelude::*;
use crate::error::SectionError;
use crate::events::section::Section;
use crate::raw::{records_of, BpfRawSection, RawRecord};
use crate::section_id::SectionId;

verus! {

/// Event section factory, converting the raw records of one owner into the
/// section of that owner.
pub trait RawEventSectionFactory {
    /// Whether `create`, called on this factory with these records, may
    /// return `r`. A factory that says nothing of itself may return anything.
    open spec fn creates(&self, records: Seq<RawRecord>, r: Result<Section, SectionError>) -> bool {
        true
    }

    /// Builds a section from all the records of one owner found in a frame,
    /// in wire order.
    fn create<'a>(&mut self, raw_sections: Vec<BpfRawSection<'a>>) -> (r: Result<
        Section,
        SectionError,
    >)
        requires
            forall|i: int| 0 <= i < raw_sections@.len() ==> (#[trigger] raw_sections@[i]).wf(),
        ensures
            old(self).creates(records_of(raw_sections@), r),
    ;
}

/// A factory and the owner it is registered for.
struct FactoryEntry<F> {
    id: SectionId,
    factory: F,
}

/// No owner occurs twice.
spec fn distinct_ids<F>(entries: Seq<FactoryEntry<F>>) -> bool {
    forall|i: int, j: int| 0 <= i < j < entries.len() ==> entries[i].id != entries[j].id
}

/// Whether `entries` holds a factory for `owner`.
spec fn holds<F>(entries: Seq<FactoryEntry<F>>, owner: SectionId) -> bool {
    exists|i: int| 0 <= i < entries.len() && (#[trigger] entries[i]).id == owner
}

/// Where `entries` holds the factory for `owner`.
spec fn index_of<F>(entries: Seq<FactoryEntry<F>>, owner: SectionId) -> int {
    choose|i: int| 0 <= i < entries.len() && (#[trigger] entries[i]).id == owner
}

/// The mapping that a list of entries stands for.
spec fn registry_map<F>(entries: Seq<FactoryEntry<F>>) -> Map<SectionId, F> {
    Map::new(
        |o: SectionId| holds(entries, o),
        |o: SectionId| entries[index_of(entries, o)].factory,
    )
}

proof fn lemma_registry_entry<F>(entries: Seq<FactoryEntry<F>>, i: int)
    requires
        distinct_ids(entries),
        0 <= i < entries.len(),
    ensures
        registry_map(entries).contains_key(entries[i].id),
        registry_map(entries)[entries[i].id] == entries[i].factory,
{
    let o = entries[i].id;
    assert(holds(entries, o));
    let k = index_of(entries, o);
    assert(entries[k].id == entries[i].id);
    assert(k == i);
}

/// The factories known to a decoder, at most one per owner.
pub struct SectionFactories<F: RawEventSectionFactory> {
    entries: Vec<FactoryEntry<F>>,
}

impl<F: RawEventSectionFactory> View for SectionFactories<F> {
    type V = Map<SectionId, F>;

    closed spec fn view(&self) -> Map<SectionId, F> {
        registry_map(self.entries@)
    }
}

impl<F: RawEventSectionFactory> SectionFactories<F> {
    #[verifier::type_invariant]
    spec fn inv(self) -> bool {
        distinct_ids(self.entries@)
    }

    /// A registry without any factory.
    pub fn new() -> (r: SectionFactories<F>)
        ensures
            r@ == Map::<SectionId, F>::empty(),
    {
        let r = SectionFactories { entries: Vec::new() };
        assert(r@ =~= Map::<SectionId, F>::empty());
        r
    }

    /// Position of the factory registered for `owner`, if there is one.
    fn position(&self, owner: SectionId) -> (r: Option<usize>)
        ensures
            match r {
                Some(i) => i < self.entries@.len() && self.entries@[i as int].id == owner
                    && self@.contains_key(owner) && self@[owner]
                    == self.entries@[i as int].factory,
                None => !self@.contains_key(owner),
            },
            distinct_ids(self.entries@),
    {
        proof {
            use_type_invariant(self);
        }
        let mut i: usize = 0;
        let mut found: Option<usize> = None;
        while i < self.entries.len() && found.is_none()
            invariant
                i <= self.entries@.len(),
                found is None ==> forall|j: int| 0 <= j < i ==> self.entries@[j].id != owner,
                found matches Some(k) ==> k < self.entries@.len() && self.entries@[k as int].id
                    == owner,
            decreases self.entries@.len() - i + if found is None { 1int } else { 0int },
        {
            if self.entries[i].id == owner {
                found = Some(i);
            } else {
                i += 1;
            }
        }
        proof {
            if let Some(k) = found {
                lemma_registry_entry(self.entries@, k as int);
            }
        }
        found
    }

    /// Registers `factory` for `owner`, in place of the one registered for it
    /// before, if any.
    pub fn insert(&mut self, owner: SectionId, factory: F)
        ensures
            final(self)@ == old(self)@.insert(owner, factory),
    {
        let found = self.position(owner);
        let mut taken = SectionFactories::new();
        std::mem::swap(self, &mut taken);
        let SectionFactories { mut entries } = taken;
        let ghost before = entries@;
        match found {
            Some(i) => {
                entries.set(i, FactoryEntry { id: owner, factory });
            },
            None => {
                entries.push(FactoryEntry { id: owner, factory });
            },
        }
        let ghost k: int = match found {
            Some(i) => i as int,
            None => before.len() as int,
        };
        proof {
            assert forall|a: int, b: int| 0 <= a < b < entries@.len() implies entries@[a].id
                != entries@[b].id by {
                if a != k && b != k {
                    assert(entries@[a] == before[a]);
                    assert(entries@[b] == before[b]);
                } else if a == k {
                    assert(entries@[b] == before[b]);
                    if found is Some {
                        assert(before[k].id == owner);
                    }
                } else {
                    assert(entries@[a] == before[a]);
                    if found is Some {
                        assert(before[k].id == owner);
                    }
                }
            }
        }
        *self = SectionFactories { entries };
        proof {
            lemma_registry_entry(self.entries@, k);
            let target = old(self)@.insert(owner, factory);
            assert forall|o: SectionId| #[trigger] target.dom().contains(o) implies self@.dom().contains(
                o,
            ) && self@[o] == target[o] by {
                if o != owner {
                    let j = index_of(before, o);
                    assert(self.entries@[j] == before[j]);
                    lemma_registry_entry(before, j);
                    lemma_registry_entry(self.entries@, j);
                }
            }
            assert forall|o: SectionId| #[trigger] self@.dom().contains(o) implies target.dom().contains(
                o,
            ) by {
                if o != owner {
                    let j = index_of(self.entries@, o);
                    assert(self.entries@[j] == before[j]);
                    lemma_registry_entry(before, j);
                }
            }
            assert(self@ =~= target);
        }
    }

    /// Whether a factory is registered for `owner`.
    pub fn contains(&self, owner: SectionId) -> (r: bool)
        ensures
            r == self@.contains_key(owner),
    {
        self.position(owner).is_some()
    }

    /// The factory registered for `owner`, if there is one.
    pub fn get(&self, owner: SectionId) -> (r: Option<&F>)
        ensures
            self@.contains_key(owner) ==> r == Some(&self@[owner]),
            !self@.contains_key(owner) ==> r is None,
    {
        match self.position(owner) {
            Some(i) => Some(&self.entries[i].factory),
            None => None,
        }
    }

    /// Whether no factory is registered.
    pub fn is_empty(&self) -> (r: bool)
        ensures
            r == (self@ == Map::<SectionId, F>::empty()),
    {
        proof {
            use_type_invariant(self);
            if self.entries@.len() == 0 {
                assert(self@ =~= Map::<SectionId, F>::empty());
            } else {
                lemma_registry_entry(self.entries@, 0);
            }
        }
        self.entries.len() == 0
    }

    /// Hands the records of `owner` to the factory registered for it.
    ///
    /// Without such a factory nothing happens and the result is `None`.
    /// Otherwise the result is what the factory returned; that factory may
    /// have changed, the others have not.
    pub fn create<'a>(&mut self, owner: SectionId, raw_sections: Vec<BpfRawSection<'a>>) -> (r:
        Option<Result<Section, SectionError>>)
        requires
            forall|i: int| 0 <= i < raw_sections@.len() ==> (#[trigger] raw_sections@[i]).wf(),
        ensures
            final(self)@.dom() == old(self)@.dom(),
            forall|o: SectionId|
                o != owner && old(self)@.contains_key(o) ==> final(self)@[o] == old(self)@[o],
            match r {
                None => !old(self)@.contains_key(owner),
                Some(res) => old(self)@.contains_key(owner) && old(self)@[owner].creates(
                    records_of(raw_sections@),
                    res,
                ),
            },
    {
        match self.position(owner) {
            None => None,
            Some(i) => {
                let mut taken = SectionFactories::new();
                std::mem::swap(self, &mut taken);
                let SectionFactories { mut entries } = taken;
                let ghost before = entries@;
                let res = entries[i].factory.create(raw_sections);
                proof {
                    assert forall|j: int| 0 <= j < entries@.len() implies (
                    #[trigger] entries@[j]).id == before[j].id by {}
                    assert forall|j: int| 0 <= j < entries@.len() && j != i implies (
                    #[trigger] entries@[j]) == before[j] by {}
                }
                *self = SectionFactories { entries };
                proof {
                    assert forall|o: SectionId| #[trigger]
                        old(self)@.dom().contains(o) implies self@.dom().contains(o) && (o
                        != owner ==> self@[o] == old(self)@[o]) by {
                        let j = index_of(before, o);
                        assert(self.entries@[j].id == before[j].id);
                        lemma_registry_entry(before, j);
                        lemma_registry_entry(self.entries@, j);
                    }
                    assert forall|o: SectionId| #[trigger]
                        self@.dom().contains(o) implies old(self)@.dom().contains(o) by {
                        let j = index_of(self.entries@, o);
                        assert(self.entries@[j].id == before[j].id);
                        lemma_registry_entry(before, j);
                    }
                    assert(self@.dom() =~= old(self)@.dom());
                }
                Some(res)
            },
        }
    }
}

} // verus!
