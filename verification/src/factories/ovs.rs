//! Factory of the OVS section.

use vstd::prelude::*;
use crate::bytes::{le_u32, read_u32_le};
use crate::error::SectionError;
use crate::events::ovs::{OvsEvent, OvsEventType, UpcallEvent};
use crate::events::section::Section;
use crate::factories::common::parse_raw_section;
use crate::factory::RawEventSectionFactory;
use crate::raw::{records_of, BpfRawSection, RawRecord};

verus! {

/// Size of the record of the upcall tracepoint.
pub const RAW_UPCALL_EVENT_SIZE: usize = 5;

/// The type of event that a data type stands for.
pub open spec fn ovs_type_of(val: u8) -> Option<OvsEventType> {
    if val == 0 {
        Some(OvsEventType::Upcall)
    } else {
        None
    }
}

impl OvsEventType {
    /// Constructs the type of an OVS event from the data type of a record.
    pub fn from_u8(val: u8) -> (r: Result<OvsEventType, SectionError>)
        ensures
            match ovs_type_of(val) {
                Some(t) => r == Ok::<OvsEventType, SectionError>(t),
                None => r == Err::<OvsEventType, SectionError>(SectionError::UnknownDataType),
            },
    {
        match val {
            0 => Ok(OvsEventType::Upcall),
            _ => Err(SectionError::UnknownDataType),
        }
    }
}

/// The upcall that the data of an upcall record gives: the command in one
/// byte, then the port in four.
pub open spec fn upcall_of(data: Seq<u8>) -> Result<UpcallEvent, SectionError> {
    if data.len() != RAW_UPCALL_EVENT_SIZE {
        Err(SectionError::BadSize)
    } else {
        Ok(UpcallEvent { cmd: data[0], port: le_u32(data, 1) as u32 })
    }
}

/// Reads an upcall record into `event`.
pub fn unmarshall_upcall(raw: &BpfRawSection, event: &mut OvsEvent) -> (r: Result<
    (),
    SectionError,
>)
    ensures
        match upcall_of(raw.data@) {
            Ok(u) => r is Ok && *final(event) == (OvsEvent { upcall: Some(u) }),
            Err(e) => r == Err::<(), SectionError>(e) && *final(event) == *old(event),
        },
{
    match parse_raw_section(raw, RAW_UPCALL_EVENT_SIZE) {
        Ok(data) => {
            event.upcall = Some(UpcallEvent { cmd: data[0], port: read_u32_le(data, 1) });
            Ok(())
        },
        Err(e) => Err(e),
    }
}

/// The OVS section after `record` has been read into `event`.
pub open spec fn ovs_step(event: OvsEvent, record: RawRecord) -> Result<OvsEvent, SectionError> {
    match ovs_type_of(record.data_type) {
        None => Err(SectionError::UnknownDataType),
        Some(OvsEventType::Upcall) => match upcall_of(record.data) {
            Ok(u) => Ok(OvsEvent { upcall: Some(u) }),
            Err(e) => Err(e),
        },
    }
}

/// The OVS section after the records from `from` on have been read into
/// `event`, one after the other, up to the first that is an error.
pub open spec fn ovs_from(records: Seq<RawRecord>, from: int, event: OvsEvent) -> Result<
    OvsEvent,
    SectionError,
>
    decreases records.len() - from,
{
    if from < 0 || from >= records.len() {
        Ok(event)
    } else {
        match ovs_step(event, records[from]) {
            Err(e) => Err(e),
            Ok(next) => ovs_from(records, from + 1, next),
        }
    }
}

/// The OVS section that a list of records describes.
pub open spec fn ovs_of(records: Seq<RawRecord>) -> Result<OvsEvent, SectionError> {
    ovs_from(records, 0, OvsEvent { upcall: None })
}

/// Factory of the OVS section.
#[derive(Clone, Copy, Debug)]
pub struct OvsEventFactory {}

impl OvsEventFactory {
    /// Builds the OVS section that `raw_sections` describe.
    pub fn build<'a>(raw_sections: &Vec<BpfRawSection<'a>>) -> (r: Result<OvsEvent, SectionError>)
        ensures
            r == ovs_of(records_of(raw_sections@)),
    {
        let mut event = OvsEvent { upcall: None };
        let ghost records = records_of(raw_sections@);
        let mut i: usize = 0;
        while i < raw_sections.len()
            invariant
                i <= raw_sections@.len(),
                records == records_of(raw_sections@),
                ovs_from(records, i as int, event) == ovs_of(records),
            decreases raw_sections@.len() - i,
        {
            let section = &raw_sections[i];
            assert(records[i as int] == section@);
            match OvsEventType::from_u8(section.header.data_type) {
                Err(e) => {
                    return Err(e);
                },
                Ok(OvsEventType::Upcall) => match unmarshall_upcall(section, &mut event) {
                    Ok(()) => {},
                    Err(e) => {
                        return Err(e);
                    },
                },
            }
            i += 1;
        }
        Ok(event)
    }
}

impl RawEventSectionFactory for OvsEventFactory {
    open spec fn creates(&self, records: Seq<RawRecord>, r: Result<Section, SectionError>) -> bool {
        match ovs_of(records) {
            Ok(e) => r == Ok::<Section, SectionError>(Section::Ovs(e)),
            Err(e) => r == Err::<Section, SectionError>(e),
        }
    }

    fn create<'a>(&mut self, raw_sections: Vec<BpfRawSection<'a>>) -> (r: Result<
        Section,
        SectionError,
    >) {
        match OvsEventFactory::build(&raw_sections) {
            Ok(event) => Ok(Section::Ovs(event)),
            Err(e) => Err(e),
        }
    }
}

} // verus!
