//! Errors raised while turning raw frames into events.

use vstd::prelude::*;
use crate::section_id::SectionId;

verus! {

/// Why a factory could not build its section from the raw records it got.
#[derive(Clone, Copy, Debug, PartialEq, Eq, Structural)]
pub enum SectionError {
    /// A record does not have the size of the structure it should hold.
    BadSize,
    /// A record carries a data type its owner does not know.
    UnknownDataType,
    /// The owner expects exactly one record and got another number.
    NotSingleSection,
    /// A fixed-size string field holds no terminating NUL byte.
    MissingNul,
    /// A string field is not valid UTF-8.
    InvalidUtf8,
    /// The captured packet is shorter than an Ethernet header.
    ShortPacket,
    /// The capture is said to be longer than the buffer that holds it.
    BadCaptureLength,
}

/// Why a frame could not be decoded into an event.
#[derive(Clone, Copy, Debug, PartialEq, Eq, Structural)]
pub enum DecodeError {
    /// The frame cannot even hold its length prefix.
    FrameTooShort,
    /// The length prefix announces an empty payload.
    EmptyFrame,
    /// The length prefix announces more bytes than the frame holds.
    LengthMismatch,
    /// Records are owned by a section no factory is registered for.
    MissingFactory(SectionId),
    /// The owner's factory rejected its records.
    SectionDecode(SectionId, SectionError),
    /// The event already holds a section for this owner.
    DuplicateSection(SectionId),
}

impl DecodeError {
    /// Whether the error shows that decoding is set up wrongly: records are
    /// owned by a section without factory, or a section came twice. The
    /// other errors are those of one frame, which is dropped.
    pub open spec fn spec_is_fatal(&self) -> bool {
        match self {
            DecodeError::MissingFactory(_) => true,
            DecodeError::DuplicateSection(_) => true,
            _ => false,
        }
    }

    /// Whether the error ends the stream, rather than the frame only.
    pub fn is_fatal(&self) -> (r: bool)
        ensures
            r == self.spec_is_fatal(),
    {
        match self {
            DecodeError::MissingFactory(_) => true,
            DecodeError::DuplicateSection(_) => true,
            _ => false,
        }
    }
}

} // verus!
