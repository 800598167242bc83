//! The wire format of raw events: a two-byte length prefix followed by
//! records, each made of a four-byte header and its data.

use vstd::prelude::*;
use vstd::slice::slice_subrange;
use crate::bytes::{le_u16, read_u16_le};
use crate::error::DecodeError;
use crate::section_id::{section_of_u8, SectionId};

verus! {

/// Size of the length prefix of a frame.
pub const FRAME_PREFIX_LEN: usize = 2;

/// Size of a record header.
pub const RECORD_HEADER_LEN: usize = 4;

/// Size of the data buffer of a raw event.
pub const BPF_RAW_EVENT_DATA_SIZE: usize = 1022;

/// Raw event section header, as found in front of each record.
#[derive(Clone, Copy, Debug, PartialEq, Eq, Structural)]
pub struct BpfRawSectionHeader {
    pub owner: u8,
    pub data_type: u8,
    pub size: u16,
}

/// One record of a raw event: its header and a borrow of its data.
#[derive(Clone, Copy, Debug)]
pub struct BpfRawSection<'a> {
    pub header: BpfRawSectionHeader,
    pub data: &'a [u8],
}

/// Mathematical image of a [`BpfRawSection`].
pub ghost struct RawRecord {
    pub owner: u8,
    pub data_type: u8,
    pub data: Seq<u8>,
}

impl<'a> View for BpfRawSection<'a> {
    type V = RawRecord;

    open spec fn view(&self) -> RawRecord {
        RawRecord { owner: self.header.owner, data_type: self.header.data_type, data: self.data@ }
    }
}

impl<'a> BpfRawSection<'a> {
    /// The header announces exactly the data that is there.
    pub open spec fn wf(&self) -> bool {
        self.header.size as int == self.data@.len()
    }
}

/// The images of a sequence of raw sections.
pub open spec fn records_of<'a>(sections: Seq<BpfRawSection<'a>>) -> Seq<RawRecord> {
    sections.map_values(|s: BpfRawSection<'a>| s@)
}

/// Why `frame` is rejected as a whole, if it is.
pub open spec fn frame_error(frame: Seq<u8>) -> Option<DecodeError> {
    if frame.len() < 2 {
        Some(DecodeError::FrameTooShort)
    } else if le_u16(frame, 0) == 0 {
        Some(DecodeError::EmptyFrame)
    } else if le_u16(frame, 0) + 2 > frame.len() {
        Some(DecodeError::LengthMismatch)
    } else {
        None
    }
}

/// One past the last payload byte of an accepted frame.
pub open spec fn frame_end(frame: Seq<u8>) -> int {
    le_u16(frame, 0) + 2
}

/// The records found by walking `frame` from `cursor` up to `end`.
///
/// A header that does not fit ends the walk, and so does a record whose data
/// would cross `end`. A record without data is stepped over, header only. A
/// record whose owner is unknown is stepped over whole.
pub open spec fn records_from(frame: Seq<u8>, end: int, cursor: int) -> Seq<RawRecord>
    decreases end - cursor,
{
    if cursor < 0 || cursor + 4 > end {
        Seq::empty()
    } else {
        let size = le_u16(frame, cursor + 2);
        if size == 0 {
            records_from(frame, end, cursor + 4)
        } else if cursor + 4 + size > end {
            Seq::empty()
        } else if section_of_u8(frame[cursor]) is None {
            records_from(frame, end, cursor + 4 + size)
        } else {
            seq![
                RawRecord {
                    owner: frame[cursor],
                    data_type: frame[cursor + 1],
                    data: frame.subrange(cursor + 4, cursor + 4 + size),
                },
            ] + records_from(frame, end, cursor + 4 + size)
        }
    }
}

/// The records of an accepted frame, in wire order.
pub open spec fn frame_records(frame: Seq<u8>) -> Seq<RawRecord> {
    records_from(frame, frame_end(frame), 2)
}

/// Splits a frame into its records.
///
/// The frame is rejected when it cannot hold its length prefix, when the
/// prefix is zero and when it exceeds what the frame holds. Otherwise the
/// records come out in wire order, those of unknown owners and those without
/// data left out, and the walk ends at the first record that does not fit.
pub fn parse_raw_sections<'a>(data: &'a [u8]) -> (r: Result<Vec<BpfRawSection<'a>>, DecodeError>)
    ensures
        match frame_error(data@) {
            Some(e) => r == Err::<Vec<BpfRawSection<'a>>, DecodeError>(e),
            None => r matches Ok(v) && records_of(v@) == frame_records(data@)
                && forall|i: int| 0 <= i < v@.len() ==> (#[trigger] v@[i]).wf(),
        },
{
    let data_size: usize = data.len();
    if data_size < 2 {
        return Err(DecodeError::FrameTooShort);
    }
    let payload: usize = read_u16_le(data, 0) as usize;
    if payload == 0 {
        return Err(DecodeError::EmptyFrame);
    }
    if payload > data_size - 2 {
        return Err(DecodeError::LengthMismatch);
    }
    let end: usize = payload + 2;
    let mut cursor: usize = 2;
    let mut out: Vec<BpfRawSection<'a>> = Vec::new();
    assert(records_of(out@) =~= Seq::<RawRecord>::empty());
    while cursor < end && end - cursor >= 4
        invariant
            2 <= cursor,
            end <= data.len(),
            end == frame_end(data@),
            records_of(out@) + records_from(data@, end as int, cursor as int) == frame_records(
                data@,
            ),
            forall|i: int| 0 <= i < out@.len() ==> (#[trigger] out@[i]).wf(),
        ensures
            records_of(out@) == frame_records(data@),
        decreases end - cursor,
    {
        let owner: u8 = data[cursor];
        let data_type: u8 = data[cursor + 1];
        let size: u16 = read_u16_le(data, cursor + 2);
        let start: usize = cursor + 4;
        if size == 0 {
            cursor = start;
        } else if size as usize > end - start {
            assert(records_from(data@, end as int, cursor as int) =~= Seq::<RawRecord>::empty());
            assert(records_of(out@) + Seq::<RawRecord>::empty() =~= records_of(out@));
            break;
        } else {
            let stop: usize = start + size as usize;
            match SectionId::from_u8(owner) {
                Err(_) => {},
                Ok(_) => {
                    let section = BpfRawSection {
                        header: BpfRawSectionHeader { owner, data_type, size },
                        data: slice_subrange(data, start, stop),
                    };
                    let ghost before = out@;
                    let ghost rest = records_from(data@, end as int, stop as int);
                    out.push(section);
                    assert(records_of(out@) =~= records_of(before).push(section@));
                    assert(records_of(out@) + rest =~= records_of(before) + (seq![section@]
                        + rest));
                },
            }
            cursor = stop;
        }
    }
    Ok(out)
}

} // verus!
