//! One typed fragment of an event.

use vstd::prelude::*;
use crate::events::common::CommonEvent;
use crate::events::ct::CtEvent;
use crate::events::kernel::KernelEvent;
use crate::events::nft::NftEvent;
use crate::events::ovs::OvsEvent;
use crate::events::skb::SkbEvent;
use crate::events::skb_drop::SkbDropEvent;
use crate::events::skb_tracking::{SkbTrackingEvent, TrackingInfo};
use crate::events::startup::StartupEvent;
use crate::events::user::UserEvent;
use crate::section_id::SectionId;

verus! {

/// A section of an event: one payload type per section identifier.
#[derive(Clone, Debug, PartialEq, Eq)]
pub enum Section {
    Common(CommonEvent),
    Kernel(KernelEvent),
    Userspace(UserEvent),
    Tracking(TrackingInfo),
    SkbTracking(SkbTrackingEvent),
    SkbDrop(SkbDropEvent),
    Skb(SkbEvent),
    Ovs(OvsEvent),
    Nft(NftEvent),
    Ct(CtEvent),
    Startup(StartupEvent),
}

impl Section {
    /// The identifier of the kind of section this is.
    pub open spec fn kind(&self) -> SectionId {
        match self {
            Section::Common(_) => SectionId::Common,
            Section::Kernel(_) => SectionId::Kernel,
            Section::Userspace(_) => SectionId::Userspace,
            Section::Tracking(_) => SectionId::Tracking,
            Section::SkbTracking(_) => SectionId::SkbTracking,
            Section::SkbDrop(_) => SectionId::SkbDrop,
            Section::Skb(_) => SectionId::Skb,
            Section::Ovs(_) => SectionId::Ovs,
            Section::Nft(_) => SectionId::Nft,
            Section::Ct(_) => SectionId::Ct,
            Section::Startup(_) => SectionId::Startup,
        }
    }

    /// The identifier of the kind of section this is.
    pub fn section_id(&self) -> (r: SectionId)
        ensures
            r == self.kind(),
    {
        match self {
            Section::Common(_) => SectionId::Common,
            Section::Kernel(_) => SectionId::Kernel,
            Section::Userspace(_) => SectionId::Userspace,
            Section::Tracking(_) => SectionId::Tracking,
            Section::SkbTracking(_) => SectionId::SkbTracking,
            Section::SkbDrop(_) => SectionId::SkbDrop,
            Section::Skb(_) => SectionId::Skb,
            Section::Ovs(_) => SectionId::Ovs,
            Section::Nft(_) => SectionId::Nft,
            Section::Ct(_) => SectionId::Ct,
            Section::Startup(_) => SectionId::Startup,
        }
    }
}

/// Per-module event section: the payload of one kind of section.
pub trait EventSection: Sized {
    /// The identifier of the kind of section this payload makes.
    spec fn spec_section_id(&self) -> SectionId;

    /// The identifier of the kind of section this payload makes.
    fn section_id(&self) -> (r: SectionId)
        ensures
            r == self.spec_section_id(),
    ;

    /// The section that holds this payload.
    fn into_section(self) -> (r: Section)
        ensures
            r.kind() == self.spec_section_id(),
    ;
}

impl EventSection for CommonEvent {
    open spec fn spec_section_id(&self) -> SectionId {
        SectionId::Common
    }

    fn section_id(&self) -> (r: SectionId) {
        SectionId::Common
    }

    fn into_section(self) -> (r: Section)
        ensures
            r == Section::Common(self),
    {
        Section::Common(self)
    }
}

impl EventSection for KernelEvent {
    open spec fn spec_section_id(&self) -> SectionId {
        SectionId::Kernel
    }

    fn section_id(&self) -> (r: SectionId) {
        SectionId::Kernel
    }

    fn into_section(self) -> (r: Section)
        ensures
            r == Section::Kernel(self),
    {
        Section::Kernel(self)
    }
}

impl EventSection for UserEvent {
    open spec fn spec_section_id(&self) -> SectionId {
        SectionId::Userspace
    }

    fn section_id(&self) -> (r: SectionId) {
        SectionId::Userspace
    }

    fn into_section(self) -> (r: Section)
        ensures
            r == Section::Userspace(self),
    {
        Section::Userspace(self)
    }
}

impl EventSection for TrackingInfo {
    open spec fn spec_section_id(&self) -> SectionId {
        SectionId::Tracking
    }

    fn section_id(&self) -> (r: SectionId) {
        SectionId::Tracking
    }

    fn into_section(self) -> (r: Section)
        ensures
            r == Section::Tracking(self),
    {
        Section::Tracking(self)
    }
}

impl EventSection for SkbTrackingEvent {
    open spec fn spec_section_id(&self) -> SectionId {
        SectionId::SkbTracking
    }

    fn section_id(&self) -> (r: SectionId) {
        SectionId::SkbTracking
    }

    fn into_section(self) -> (r: Section)
        ensures
            r == Section::SkbTracking(self),
    {
        Section::SkbTracking(self)
    }
}

impl EventSection for SkbDropEvent {
    open spec fn spec_section_id(&self) -> SectionId {
        SectionId::SkbDrop
    }

    fn section_id(&self) -> (r: SectionId) {
        SectionId::SkbDrop
    }

    fn into_section(self) -> (r: Section)
        ensures
            r == Section::SkbDrop(self),
    {
        Section::SkbDrop(self)
    }
}

impl EventSection for SkbEvent {
    open spec fn spec_section_id(&self) -> SectionId {
        SectionId::Skb
    }

    fn section_id(&self) -> (r: SectionId) {
        SectionId::Skb
    }

    fn into_section(self) -> (r: Section)
        ensures
            r == Section::Skb(self),
    {
        Section::Skb(self)
    }
}

impl EventSection for OvsEvent {
    open spec fn spec_section_id(&self) -> SectionId {
        SectionId::Ovs
    }

    fn section_id(&self) -> (r: SectionId) {
        SectionId::Ovs
    }

    fn into_section(self) -> (r: Section)
        ensures
            r == Section::Ovs(self),
    {
        Section::Ovs(self)
    }
}

impl EventSection for NftEvent {
    open spec fn spec_section_id(&self) -> SectionId {
        SectionId::Nft
    }

    fn section_id(&self) -> (r: SectionId) {
        SectionId::Nft
    }

    fn into_section(self) -> (r: Section)
        ensures
            r == Section::Nft(self),
    {
        Section::Nft(self)
    }
}

impl EventSection for CtEvent {
    open spec fn spec_section_id(&self) -> SectionId {
        SectionId::Ct
    }

    fn section_id(&self) -> (r: SectionId) {
        SectionId::Ct
    }

    fn into_section(self) -> (r: Section)
        ensures
            r == Section::Ct(self),
    {
        Section::Ct(self)
    }
}

impl EventSection for StartupEvent {
    open spec fn spec_section_id(&self) -> SectionId {
        SectionId::Startup
    }

    fn section_id(&self) -> (r: SectionId) {
        SectionId::Startup
    }

    fn into_section(self) -> (r: Section)
        ensures
            r == Section::Startup(self),
    {
        Section::Startup(self)
    }
}

} // verus!
