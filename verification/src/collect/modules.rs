//! The registry of collectors, each with the factory of its section.

use vstd::prelude::*;
use crate::collect::collector::{CollectError, Collector, ModuleId};
use crate::factory::{RawEventSectionFactory, SectionFactories};
use crate::section_id::SectionId;

verus! {

/// No identifier occurs twice.
spec fn distinct_modules(ids: Seq<ModuleId>) -> bool {
    forall|i: int, j: int| 0 <= i < j < ids.len() ==> ids[i] != ids[j]
}

/// The position of `id` in `ids`, where it is there.
pub open spec fn place_of(ids: Seq<ModuleId>, id: ModuleId) -> int {
    choose|i: int| 0 <= i < ids.len() && ids[i] == id
}

/// The collectors that can be enabled, in the order they were registered,
/// and the section factories that decoding needs.
pub struct Modules<C: Collector, F: RawEventSectionFactory> {
    ids: Vec<ModuleId>,
    collectors: Vec<C>,
    section_factories: Option<SectionFactories<F>>,
}

impl<C: Collector, F: RawEventSectionFactory> Modules<C, F> {
    #[verifier::type_invariant]
    spec fn inv(self) -> bool {
        &&& distinct_modules(self.ids@)
        &&& self.ids@.len() == self.collectors@.len()
    }

    /// The identifiers of the registered collectors, in the order they were
    /// registered.
    pub closed spec fn ids(&self) -> Seq<ModuleId> {
        self.ids@
    }

    /// The collectors, each at the position of its identifier in `ids`.
    pub closed spec fn collectors(&self) -> Seq<C> {
        self.collectors@
    }

    /// The section factories, until they are handed out.
    pub closed spec fn factories(&self) -> Option<SectionFactories<F>> {
        self.section_factories
    }

    /// A registry without collectors, and without section factories yet.
    pub fn new() -> (r: Modules<C, F>)
        ensures
            r.ids() == Seq::<ModuleId>::empty(),
            r.collectors() == Seq::<C>::empty(),
            r.factories() matches Some(f) && f@ == Map::<SectionId, F>::empty(),
    {
        Modules {
            ids: Vec::new(),
            collectors: Vec::new(),
            section_factories: Some(SectionFactories::new()),
        }
    }

    /// Position of the collector registered as `id`, if there is one.
    fn position(&self, id: ModuleId) -> (r: Option<usize>)
        ensures
            match r {
                Some(i) => i < self.ids@.len() && self.ids@[i as int] == id,
                None => !self.ids@.contains(id),
            },
            self.ids@.len() == self.collectors@.len(),
            distinct_modules(self.ids@),
    {
        proof {
            use_type_invariant(self);
        }
        let mut i: usize = 0;
        let mut found: Option<usize> = None;
        while i < self.ids.len() && found.is_none()
            invariant
                i <= self.ids@.len(),
                found is None ==> forall|j: int| 0 <= j < i ==> self.ids@[j] != id,
                found matches Some(k) ==> k < self.ids@.len() && self.ids@[k as int] == id,
            decreases self.ids@.len() - i + if found is None { 1int } else { 0int },
        {
            if self.ids[i] == id {
                found = Some(i);
            } else {
                i += 1;
            }
        }
        found
    }

    /// Registers the factory of a section that no collector fills.
    ///
    /// Once the section factories were handed out nothing can be registered.
    pub fn register_factory(&mut self, id: SectionId, factory: F) -> (r: Result<(), CollectError>)
        ensures
            final(self).ids() == old(self).ids(),
            final(self).collectors() == old(self).collectors(),
            match old(self).factories() {
                None => r == Err::<(), CollectError>(CollectError::NoSectionFactory)
                    && final(self).factories() is None,
                Some(f) => r is Ok && (final(self).factories() matches Some(g) && g@ == f@.insert(
                    id,
                    factory,
                )),
            },
    {
        proof {
            use_type_invariant(&*self);
        }
        let mut taken = Modules::new();
        std::mem::swap(self, &mut taken);
        let Modules { ids, collectors, section_factories } = taken;
        match section_factories {
            None => {
                *self = Modules { ids, collectors, section_factories: None };
                Err(CollectError::NoSectionFactory)
            },
            Some(mut factories) => {
                factories.insert(id, factory);
                *self = Modules { ids, collectors, section_factories: Some(factories) };
                Ok(())
            },
        }
    }

    /// Registers a collector and the factory of its section, under `id`.
    ///
    /// An identifier names one collector: registering a second one under it
    /// is refused and changes nothing. Once the section factories were handed
    /// out nothing can be registered.
    pub fn register(&mut self, id: ModuleId, collector: C, section_factory: F) -> (r: Result<
        (),
        CollectError,
    >)
        ensures
            old(self).ids().contains(id) ==> r == Err::<(), CollectError>(
                CollectError::DuplicateModule(id),
            ),
            !old(self).ids().contains(id) && old(self).factories() is None ==> r == Err::<
                (),
                CollectError,
            >(CollectError::NoSectionFactory),
            !old(self).ids().contains(id) && old(self).factories() is Some ==> r is Ok,
            r is Err ==> final(self).ids() == old(self).ids() && final(self).collectors() == old(
                self,
            ).collectors() && final(self).factories() == old(self).factories(),
            r is Ok ==> final(self).ids() == old(self).ids().push(id) && final(self).collectors()
                == old(self).collectors().push(collector) && (final(self).factories() matches Some(
                g,
            ) && g@ == old(self).factories()->Some_0@.insert(id, section_factory)),
    {
        if self.position(id).is_some() {
            return Err(CollectError::DuplicateModule(id));
        }
        if self.section_factories.is_none() {
            return Err(CollectError::NoSectionFactory);
        }
        let mut taken = Modules::new();
        std::mem::swap(self, &mut taken);
        let Modules { mut ids, mut collectors, section_factories } = taken;
        let mut factories = section_factories.unwrap();
        factories.insert(id, section_factory);
        let ghost before = ids@;
        ids.push(id);
        collectors.push(collector);
        proof {
            assert forall|i: int, j: int| 0 <= i < j < ids@.len() implies ids@[i] != ids@[j] by {
                if j == before.len() {
                    assert(before.contains(before[i]));
                }
            }
        }
        *self = Modules { ids, collectors, section_factories: Some(factories) };
        Ok(())
    }

    /// Number of collectors registered.
    pub fn len(&self) -> (r: usize)
        ensures
            r == self.ids().len(),
            r == self.collectors().len(),
    {
        proof {
            use_type_invariant(self);
        }
        self.ids.len()
    }

    /// Whether a collector is registered as `id`.
    pub fn contains(&self, id: ModuleId) -> (r: bool)
        ensures
            r == self.ids().contains(id),
    {
        self.position(id).is_some()
    }

    /// Position of the collector registered as `id`, if there is one.
    pub fn index_of(&self, id: ModuleId) -> (r: Option<usize>)
        ensures
            match r {
                Some(i) => i < self.ids().len() && self.ids()[i as int] == id && i == place_of(
                    self.ids(),
                    id,
                ),
                None => !self.ids().contains(id),
            },
            self.ids().len() == self.collectors().len(),
    {
        let r = self.position(id);
        proof {
            if let Some(i) = r {
                let at = place_of(self.ids@, id);
                assert(0 <= at < self.ids@.len() && self.ids@[at] == id);
                if at < i {
                    assert(self.ids@[at] != self.ids@[i as int]);
                }
                if i < at {
                    assert(self.ids@[i as int] != self.ids@[at]);
                }
            }
        }
        r
    }

    /// The identifier of the collector at position `i`.
    pub fn id_at(&self, i: usize) -> (r: ModuleId)
        requires
            i < self.ids().len(),
        ensures
            r == self.ids()[i as int],
    {
        self.ids[i]
    }

    /// The collector registered as `id`, if there is one.
    pub fn get_collector(&self, id: ModuleId) -> (r: Option<&C>)
        ensures
            match r {
                Some(c) => exists|i: int|
                    0 <= i < self.ids().len() && #[trigger] self.ids()[i] == id && *c
                        == self.collectors()[i],
                None => !self.ids().contains(id),
            },
    {
        match self.position(id) {
            Some(i) => {
                assert(self.ids()[i as int] == id);
                Some(&self.collectors[i])
            },
            None => None,
        }
    }

    /// The collector at position `i`.
    pub fn collector_at(&self, i: usize) -> (r: &C)
        requires
            i < self.ids().len(),
        ensures
            *r == self.collectors()[i as int],
    {
        proof {
            use_type_invariant(self);
        }
        &self.collectors[i]
    }

    /// The collector at position `i`, to call it. Whatever the call does to
    /// the collector, the registry holds the same collectors at the same
    /// positions.
    pub fn collector_at_mut(&mut self, i: usize) -> (r: &mut C)
        requires
            i < old(self).ids().len(),
        ensures
            *r == old(self).collectors()[i as int],
            final(self).ids() == old(self).ids(),
            final(self).collectors() == old(self).collectors().update(i as int, *final(r)),
            final(self).factories() == old(self).factories(),
    {
        proof {
            use_type_invariant(&*self);
        }
        &mut self.collectors[i]
    }

    /// Hands out the section factories; they can be had once.
    pub fn take_section_factories(&mut self) -> (r: Option<SectionFactories<F>>)
        ensures
            r == old(self).factories(),
            final(self).factories() is None,
            final(self).ids() == old(self).ids(),
            final(self).collectors() == old(self).collectors(),
    {
        proof {
            use_type_invariant(&*self);
        }
        let mut taken = Modules::new();
        std::mem::swap(self, &mut taken);
        let Modules { ids, collectors, section_factories } = taken;
        *self = Modules { ids, collectors, section_factories: None };
        section_factories
    }
}

} // verus!
