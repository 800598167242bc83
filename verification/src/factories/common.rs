//! Factory of the common section.

use vstd::prelude::*;
use crate::bytes::{le_u32, le_u64, read_u32_le, read_u64_le};
use crate::error::SectionError;
use crate::events::common::{CommonEvent, CommonModel, TaskEvent, TaskModel};
use crate::events::section::Section;
use crate::factory::RawEventSectionFactory;
use crate::raw::{records_of, BpfRawSection, RawRecord};
use crate::text::{c_string_of, read_c_string};

verus! {

/// Data type of the record holding the timestamp and the processor id.
pub const COMMON_SECTION_CORE: u8 = 0;

/// Data type of the record holding the current task.
pub const COMMON_SECTION_TASK: u8 = 1;

/// Size of the record holding the timestamp and the processor id.
pub const RAW_COMMON_EVENT_SIZE: usize = 12;

/// Size of the record holding the current task.
pub const RAW_TASK_EVENT_SIZE: usize = 72;

/// The data of a raw section, if it has the expected size.
pub fn parse_raw_section<'a>(raw_section: &BpfRawSection<'a>, size: usize) -> (r: Result<
    &'a [u8],
    SectionError,
>)
    ensures
        raw_section.data@.len() == size ==> r == Ok::<&[u8], SectionError>(raw_section.data),
        raw_section.data@.len() != size ==> r == Err::<&[u8], SectionError>(
            SectionError::BadSize,
        ),
{
    if raw_section.data.len() != size {
        return Err(SectionError::BadSize);
    }
    Ok(raw_section.data)
}

/// The data of the only raw section of an owner that sends a single one, if
/// it has the expected size.
pub fn parse_single_raw_section<'a>(raw_sections: &Vec<BpfRawSection<'a>>, size: usize) -> (r:
    Result<&'a [u8], SectionError>)
    ensures
        raw_sections@.len() != 1 ==> r == Err::<&[u8], SectionError>(
            SectionError::NotSingleSection,
        ),
        raw_sections@.len() == 1 && raw_sections@[0].data@.len() != size ==> r == Err::<
            &[u8],
            SectionError,
        >(SectionError::BadSize),
        raw_sections@.len() == 1 && raw_sections@[0].data@.len() == size ==> r == Ok::<
            &[u8],
            SectionError,
        >(raw_sections@[0].data),
{
    if raw_sections.len() != 1 {
        return Err(SectionError::NotSingleSection);
    }
    parse_raw_section(&raw_sections[0], size)
}

/// The signed 32-bit integer with the same bits as the unsigned `x`.
pub open spec fn wrap_i32(x: int) -> i32 {
    if x >= 0x8000_0000 {
        (x - 0x1_0000_0000) as i32
    } else {
        x as i32
    }
}

/// Reinterprets the bits of an unsigned 32-bit integer as a signed one.
pub fn u32_to_i32(x: u32) -> (r: i32)
    ensures
        r == wrap_i32(x as int),
{
    if x >= 0x8000_0000 {
        let low: u32 = x - 0x8000_0000;
        low as i32 + i32::MIN
    } else {
        x as i32
    }
}

/// The task that the data of a task record describes.
///
/// The record holds the thread group id and the process id, 32 bits each, in
/// this order, then the task name in a NUL-terminated field of 64 bytes.
pub open spec fn task_of(data: Seq<u8>) -> Result<TaskModel, SectionError> {
    if data.len() != RAW_TASK_EVENT_SIZE {
        Err(SectionError::BadSize)
    } else {
        match c_string_of(data.subrange(8, 72)) {
            Err(e) => Err(e),
            Ok(comm) => Ok(
                TaskModel {
                    pid: wrap_i32(le_u32(data, 4)),
                    tgid: wrap_i32(le_u32(data, 0)),
                    comm,
                },
            ),
        }
    }
}

/// Reads the task information of a task record.
pub fn unmarshal_task(raw_section: &BpfRawSection) -> (r: Result<TaskEvent, SectionError>)
    ensures
        match task_of(raw_section.data@) {
            Ok(t) => r matches Ok(v) && v@ == t,
            Err(e) => r == Err::<TaskEvent, SectionError>(e),
        },
{
    let data = match parse_raw_section(raw_section, RAW_TASK_EVENT_SIZE) {
        Ok(data) => data,
        Err(e) => {
            return Err(e);
        },
    };
    let tgid = u32_to_i32(read_u32_le(data, 0));
    let pid = u32_to_i32(read_u32_le(data, 4));
    match read_c_string(data, 8, 64) {
        Ok(comm) => Ok(TaskEvent { pid, tgid, comm }),
        Err(e) => Err(e),
    }
}

/// The common section after `record` has been read into `acc`.
///
/// A core record sets the timestamp and the processor id. A task record sets
/// the task, or clears it where the task has no name. Any other record is an
/// error.
pub open spec fn common_step(acc: CommonModel, record: RawRecord) -> Result<
    CommonModel,
    SectionError,
> {
    if record.data_type == COMMON_SECTION_CORE {
        if record.data.len() != RAW_COMMON_EVENT_SIZE {
            Err(SectionError::BadSize)
        } else {
            Ok(
                CommonModel {
                    timestamp: le_u64(record.data, 0) as u64,
                    smp_id: le_u32(record.data, 8) as u32,
                    task: acc.task,
                },
            )
        }
    } else if record.data_type == COMMON_SECTION_TASK {
        match task_of(record.data) {
            Err(e) => Err(e),
            Ok(t) => Ok(
                CommonModel {
                    timestamp: acc.timestamp,
                    smp_id: acc.smp_id,
                    task: if t.comm.len() == 0 {
                        None
                    } else {
                        Some(t)
                    },
                },
            ),
        }
    } else {
        Err(SectionError::UnknownDataType)
    }
}

/// The common section after the records from `from` on have been read into
/// `acc`, one after the other, up to the first that is an error.
pub open spec fn common_from(records: Seq<RawRecord>, from: int, acc: CommonModel) -> Result<
    CommonModel,
    SectionError,
>
    decreases records.len() - from,
{
    if from < 0 || from >= records.len() {
        Ok(acc)
    } else {
        match common_step(acc, records[from]) {
            Err(e) => Err(e),
            Ok(next) => common_from(records, from + 1, next),
        }
    }
}

/// The common section that a list of records describes.
pub open spec fn common_of(records: Seq<RawRecord>) -> Result<CommonModel, SectionError> {
    common_from(records, 0, CommonModel { timestamp: 0, smp_id: 0, task: None })
}

/// Factory of the common section.
#[derive(Clone, Copy, Debug)]
pub struct CommonEventFactory {}

impl CommonEventFactory {
    /// Builds the common section that `raw_sections` describe.
    pub fn build<'a>(raw_sections: &Vec<BpfRawSection<'a>>) -> (r: Result<
        CommonEvent,
        SectionError,
    >)
        ensures
            match common_of(records_of(raw_sections@)) {
                Ok(m) => r matches Ok(c) && c@ == m,
                Err(e) => r == Err::<CommonEvent, SectionError>(e),
            },
    {
        let mut common = CommonEvent::new();
        let ghost records = records_of(raw_sections@);
        let mut i: usize = 0;
        while i < raw_sections.len()
            invariant
                i <= raw_sections@.len(),
                records == records_of(raw_sections@),
                common_from(records, i as int, common@) == common_of(records),
            decreases raw_sections@.len() - i,
        {
            let section = &raw_sections[i];
            assert(records[i as int] == section@);
            if section.header.data_type == COMMON_SECTION_CORE {
                match parse_raw_section(section, RAW_COMMON_EVENT_SIZE) {
                    Err(e) => {
                        return Err(e);
                    },
                    Ok(data) => {
                        common.timestamp = read_u64_le(data, 0);
                        common.smp_id = read_u32_le(data, 8);
                    },
                }
            } else if section.header.data_type == COMMON_SECTION_TASK {
                match unmarshal_task(section) {
                    Err(e) => {
                        return Err(e);
                    },
                    Ok(task) => {
                        if task.comm.as_str().is_empty() {
                            common.task = None;
                        } else {
                            common.task = Some(task);
                        }
                    },
                }
            } else {
                return Err(SectionError::UnknownDataType);
            }
            i += 1;
        }
        Ok(common)
    }
}

impl RawEventSectionFactory for CommonEventFactory {
    open spec fn creates(&self, records: Seq<RawRecord>, r: Result<Section, SectionError>) -> bool {
        match common_of(records) {
            Ok(m) => r matches Ok(Section::Common(c)) && c@ == m,
            Err(e) => r == Err::<Section, SectionError>(e),
        }
    }

    fn create<'a>(&mut self, raw_sections: Vec<BpfRawSection<'a>>) -> (r: Result<
        Section,
        SectionError,
    >) {
        match CommonEventFactory::build(&raw_sections) {
            Ok(common) => Ok(Section::Common(common)),
            Err(e) => Err(e),
        }
    }
}

} // verus!
