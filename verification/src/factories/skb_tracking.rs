//! Factory of the skb tracking section.

use vstd::prelude::*;
use crate::bytes::{le_u64, read_u64_le};
use crate::error::SectionError;
use crate::events::section::Section;
use crate::events::skb_tracking::SkbTrackingEvent;
use crate::factories::common::parse_single_raw_section;
use crate::factory::RawEventSectionFactory;
use crate::raw::{records_of, BpfRawSection, RawRecord};

verus! {

/// Size of the record holding the tracking fingerprint.
pub const RAW_SKB_TRACKING_EVENT_SIZE: usize = 24;

/// The tracking section that a list of records describes: there is one
/// record, and it holds the original head, the timestamp and the buffer
/// address, 64 bits each, in this order.
pub open spec fn skb_tracking_of(records: Seq<RawRecord>) -> Result<
    SkbTrackingEvent,
    SectionError,
> {
    if records.len() != 1 {
        Err(SectionError::NotSingleSection)
    } else if records[0].data.len() != RAW_SKB_TRACKING_EVENT_SIZE {
        Err(SectionError::BadSize)
    } else {
        Ok(
            SkbTrackingEvent {
                orig_head: le_u64(records[0].data, 0) as u64,
                timestamp: le_u64(records[0].data, 8) as u64,
                skb: le_u64(records[0].data, 16) as u64,
            },
        )
    }
}

/// Factory of the skb tracking section.
#[derive(Clone, Copy, Debug)]
pub struct SkbTrackingEventFactory {}

impl SkbTrackingEventFactory {
    /// Builds the tracking section that `raw_sections` describe.
    pub fn build<'a>(raw_sections: &Vec<BpfRawSection<'a>>) -> (r: Result<
        SkbTrackingEvent,
        SectionError,
    >)
        ensures
            r == skb_tracking_of(records_of(raw_sections@)),
    {
        match parse_single_raw_section(raw_sections, RAW_SKB_TRACKING_EVENT_SIZE) {
            Err(e) => Err(e),
            Ok(data) => Ok(
                SkbTrackingEvent {
                    orig_head: read_u64_le(data, 0),
                    timestamp: read_u64_le(data, 8),
                    skb: read_u64_le(data, 16),
                },
            ),
        }
    }
}

impl RawEventSectionFactory for SkbTrackingEventFactory {
    open spec fn creates(&self, records: Seq<RawRecord>, r: Result<Section, SectionError>) -> bool {
        match skb_tracking_of(records) {
            Ok(t) => r == Ok::<Section, SectionError>(Section::SkbTracking(t)),
            Err(e) => r == Err::<Section, SectionError>(e),
        }
    }

    fn create<'a>(&mut self, raw_sections: Vec<BpfRawSection<'a>>) -> (r: Result<
        Section,
        SectionError,
    >) {
        match SkbTrackingEventFactory::build(&raw_sections) {
            Ok(t) => Ok(Section::SkbTracking(t)),
            Err(e) => Err(e),
        }
    }
}

} // verus!
