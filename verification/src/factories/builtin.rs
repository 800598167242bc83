//! The factories that come with the library, as one type.

use vstd::prelude::*;
use crate::error::SectionError;
use crate::events::section::Section;
use crate::factories::common::CommonEventFactory;
use crate::factories::ovs::OvsEventFactory;
use crate::factories::skb::SkbEventFactory;
use crate::factories::skb_tracking::SkbTrackingEventFactory;
use crate::factory::{RawEventSectionFactory, SectionFactories};
use crate::raw::{BpfRawSection, RawRecord};
use crate::section_id::SectionId;

verus! {

/// One of the factories that come with the library.
#[derive(Clone, Copy, Debug)]
pub enum SectionFactory {
    Common(CommonEventFactory),
    SkbTracking(SkbTrackingEventFactory),
    Skb(SkbEventFactory),
    Ovs(OvsEventFactory),
}

impl SectionFactory {
    /// The section that the factory builds.
    pub open spec fn builds(&self) -> SectionId {
        match self {
            SectionFactory::Common(_) => SectionId::Common,
            SectionFactory::SkbTracking(_) => SectionId::SkbTracking,
            SectionFactory::Skb(_) => SectionId::Skb,
            SectionFactory::Ovs(_) => SectionId::Ovs,
        }
    }

    /// The section that the factory builds.
    pub fn section_id(&self) -> (r: SectionId)
        ensures
            r == self.builds(),
    {
        match self {
            SectionFactory::Common(_) => SectionId::Common,
            SectionFactory::SkbTracking(_) => SectionId::SkbTracking,
            SectionFactory::Skb(_) => SectionId::Skb,
            SectionFactory::Ovs(_) => SectionId::Ovs,
        }
    }
}

impl RawEventSectionFactory for SectionFactory {
    open spec fn creates(&self, records: Seq<RawRecord>, r: Result<Section, SectionError>) -> bool {
        match self {
            SectionFactory::Common(f) => f.creates(records, r),
            SectionFactory::SkbTracking(f) => f.creates(records, r),
            SectionFactory::Skb(f) => f.creates(records, r),
            SectionFactory::Ovs(f) => f.creates(records, r),
        }
    }

    fn create<'a>(&mut self, raw_sections: Vec<BpfRawSection<'a>>) -> (r: Result<
        Section,
        SectionError,
    >) {
        match self {
            SectionFactory::Common(f) => f.create(raw_sections),
            SectionFactory::SkbTracking(f) => f.create(raw_sections),
            SectionFactory::Skb(f) => f.create(raw_sections),
            SectionFactory::Ovs(f) => f.create(raw_sections),
        }
    }
}

/// The registry of the factories that come with the library, each under
/// the section it builds.
pub fn default_factories(report_eth: bool) -> (r: SectionFactories<SectionFactory>)
    ensures
        r@ == Map::<SectionId, SectionFactory>::empty().insert(
            SectionId::Common,
            SectionFactory::Common(CommonEventFactory {  }),
        ).insert(
            SectionId::SkbTracking,
            SectionFactory::SkbTracking(SkbTrackingEventFactory {  }),
        ).insert(SectionId::Skb, SectionFactory::Skb(SkbEventFactory { report_eth })).insert(
            SectionId::Ovs,
            SectionFactory::Ovs(OvsEventFactory {  }),
        ),
{
    let mut factories = SectionFactories::new();
    factories.insert(SectionId::Common, SectionFactory::Common(CommonEventFactory {  }));
    factories.insert(
        SectionId::SkbTracking,
        SectionFactory::SkbTracking(SkbTrackingEventFactory {  }),
    );
    factories.insert(SectionId::Skb, SectionFactory::Skb(SkbEventFactory { report_eth }));
    factories.insert(SectionId::Ovs, SectionFactory::Ovs(OvsEventFactory {  }));
    factories
}

} // verus!
