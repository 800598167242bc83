//! What the ring-buffer reader decides: what a callback answers to the
//! kernel for each record delivered, what becomes of the record, and what the
//! consumer gets when it asks for the next event.

use vstd::prelude::*;
use crate::decode::{decoded, has_records, parse_raw_event};
use crate::error::{DecodeError, SectionError};
use crate::events::event::Event;
use crate::factory::{RawEventSectionFactory, SectionFactories};
use crate::raw::{frame_error, frame_records};
use crate::section_id::SectionId;
use crate::text::{c_string_of, read_c_string};

verus! {

/// Timeout when polling for new events, in milliseconds.
pub const BPF_EVENTS_POLL_TIMEOUT_MS: u64 = 200;

/// Size of a raw event: the length prefix and the data buffer.
pub const RAW_EVENT_SIZE: u32 = 1024;

/// Max number of events that can be stored at once in the events buffer.
pub const BPF_EVENTS_MAX: u32 = 8192;

/// Size of the message of a single log event.
pub const BPF_LOG_MAX: usize = 127;

/// Size of a log event: the level and the message.
pub const LOG_EVENT_SIZE: usize = 128;

/// Max number of log events that can be stored at once in the log buffer.
pub const BPF_LOG_EVENTS_MAX: u32 = 32;

/// What a callback returns to have the delivery of records interrupted.
pub const CALLBACK_INTERRUPT: i32 = -4;

/// What a callback returns to have the next record delivered.
pub const CALLBACK_CONTINUE: i32 = 0;

/// Size in bytes of the ring buffer of events.
pub fn events_map_size() -> (r: u32)
    ensures
        r == 1024 * 8192,
{
    RAW_EVENT_SIZE * BPF_EVENTS_MAX
}

/// Size in bytes of the ring buffer of log events.
pub fn log_map_size() -> (r: u32)
    ensures
        r == 128 * 32,
{
    128 * BPF_LOG_EVENTS_MAX
}

/// Why the reader could not do what it was asked.
#[derive(Clone, Copy, Debug, PartialEq, Eq, Structural)]
pub enum ReaderError {
    /// There is no section factory to decode events with.
    NoSectionFactory,
    /// The reader was not started: there is no channel to get events from.
    NotStarted,
    /// The sending side of the channel is gone.
    Disconnected,
}

/// Whether the reader can start with these factories: it needs one at least.
pub fn check_start<F: RawEventSectionFactory>(factories: &SectionFactories<F>) -> (r: Result<
    (),
    ReaderError,
>)
    ensures
        factories@ == Map::<SectionId, F>::empty() ==> r == Err::<(), ReaderError>(
            ReaderError::NoSectionFactory,
        ),
        factories@ != Map::<SectionId, F>::empty() ==> r is Ok,
{
    if factories.is_empty() {
        return Err(ReaderError::NoSectionFactory);
    }
    Ok(())
}

/// What the events callback makes of a record.
pub enum EventOutcome {
    /// The collection is over: the record was not looked at.
    Interrupted,
    /// The record could not be decoded and is dropped.
    Dropped(DecodeError),
    /// The record shows that events cannot be decoded: the collection has to
    /// end.
    Failed(DecodeError),
    /// The record is this event, to be sent to the consumer.
    Decoded(Event),
}

impl EventOutcome {
    /// What the callback returns to the kernel: delivery is interrupted once
    /// the collection is over or has to end, and goes on otherwise, whether
    /// the record could be decoded or is dropped.
    pub open spec fn spec_code(&self) -> i32 {
        match self {
            EventOutcome::Interrupted => CALLBACK_INTERRUPT,
            EventOutcome::Failed(_) => CALLBACK_INTERRUPT,
            _ => CALLBACK_CONTINUE,
        }
    }

    /// What the callback returns to the kernel.
    pub fn code(&self) -> (r: i32)
        ensures
            r == self.spec_code(),
    {
        match self {
            EventOutcome::Interrupted => CALLBACK_INTERRUPT,
            EventOutcome::Failed(_) => CALLBACK_INTERRUPT,
            _ => CALLBACK_CONTINUE,
        }
    }
}

/// Handles a record of the events buffer.
///
/// Once the collection is over nothing is decoded. Otherwise the record is
/// decoded as a raw frame, and the outcome is the event, the error for
/// which the record is dropped, or the error for which the collection ends.
pub fn process_event<'a, F: RawEventSectionFactory>(
    running: bool,
    data: &'a [u8],
    factories: &mut SectionFactories<F>,
) -> (r: EventOutcome)
    ensures
        final(factories)@.dom() == old(factories)@.dom(),
        forall|o: SectionId|
            old(factories)@.contains_key(o) && !has_records(frame_records(data@), o)
                ==> #[trigger] final(factories)@[o] == old(factories)@[o],
        !running ==> r is Interrupted && final(factories)@ == old(factories)@,
        running ==> match frame_error(data@) {
            Some(e) => r matches EventOutcome::Dropped(x) && x == e,
            None => match r {
                EventOutcome::Interrupted => false,
                EventOutcome::Dropped(e) => !e.spec_is_fatal() && decoded(
                    old(factories)@,
                    frame_records(data@),
                    Err(e),
                ),
                EventOutcome::Failed(e) => e.spec_is_fatal() && decoded(
                    old(factories)@,
                    frame_records(data@),
                    Err(e),
                ),
                EventOutcome::Decoded(event) => decoded(
                    old(factories)@,
                    frame_records(data@),
                    Ok(event),
                ),
            },
        },
{
    if !running {
        return EventOutcome::Interrupted;
    }
    match parse_raw_event(data, factories) {
        Ok(event) => EventOutcome::Decoded(event),
        Err(e) => if e.is_fatal() {
            EventOutcome::Failed(e)
        } else {
            EventOutcome::Dropped(e)
        },
    }
}

/// Severity of a log message.
#[derive(Clone, Copy, Debug, PartialEq, Eq, Structural)]
pub enum LogLevel {
    Error,
    Warn,
    Info,
    Debug,
    Trace,
}

/// The severity that a level of the log buffer stands for, if it is one of
/// the levels in use.
pub open spec fn level_of(level: u8) -> Option<LogLevel> {
    if level == 1 {
        Some(LogLevel::Error)
    } else if level == 2 {
        Some(LogLevel::Warn)
    } else if level == 3 {
        Some(LogLevel::Info)
    } else if level == 4 {
        Some(LogLevel::Debug)
    } else if level == 5 {
        Some(LogLevel::Trace)
    } else {
        None
    }
}

/// The severity that a level of the log buffer stands for, if it is one of
/// the levels in use.
pub fn log_level(level: u8) -> (r: Option<LogLevel>)
    ensures
        r == level_of(level),
{
    match level {
        1 => Some(LogLevel::Error),
        2 => Some(LogLevel::Warn),
        3 => Some(LogLevel::Info),
        4 => Some(LogLevel::Debug),
        5 => Some(LogLevel::Trace),
        _ => None,
    }
}

/// What the log callback makes of a record.
#[derive(Debug, PartialEq, Eq)]
pub enum LogOutcome {
    /// The record does not have the size of a log event and is dropped.
    BadSize,
    /// The collection is over: the record was not looked at.
    Interrupted,
    /// The message of the record cannot be read and is dropped.
    BadMessage(SectionError),
    /// The record is this message, to be logged at this level. The level is
    /// the error level where the record gave an unknown one, which is then
    /// `unknown`.
    Message { level: LogLevel, unknown: Option<u8>, msg: String },
}

impl LogOutcome {
    /// What the callback returns to the kernel: delivery is interrupted once
    /// the collection is over and goes on otherwise.
    pub open spec fn spec_code(&self) -> i32 {
        match self {
            LogOutcome::Interrupted => CALLBACK_INTERRUPT,
            _ => CALLBACK_CONTINUE,
        }
    }

    /// What the callback returns to the kernel.
    pub fn code(&self) -> (r: i32)
        ensures
            r == self.spec_code(),
    {
        match self {
            LogOutcome::Interrupted => CALLBACK_INTERRUPT,
            _ => CALLBACK_CONTINUE,
        }
    }
}

/// Handles a record of the log buffer: one byte of level, then the message
/// in a NUL-terminated field of 127 bytes.
///
/// A record of another size is dropped, whether the collection is over or
/// not. Once the collection is over nothing else is looked at. An unknown
/// level is logged as an error.
pub fn process_log(running: bool, data: &[u8]) -> (r: LogOutcome)
    ensures
        data@.len() != LOG_EVENT_SIZE ==> r is BadSize,
        data@.len() == LOG_EVENT_SIZE && !running ==> r is Interrupted,
        data@.len() == LOG_EVENT_SIZE && running ==> match c_string_of(data@.subrange(1, 128)) {
            Err(e) => r matches LogOutcome::BadMessage(x) && x == e,
            Ok(text) => r matches LogOutcome::Message { level, unknown, msg } && msg@ == text
                && match level_of(data@[0]) {
                Some(l) => level == l && unknown is None,
                None => level == LogLevel::Error && unknown == Some(data@[0]),
            },
        },
{
    if data.len() != LOG_EVENT_SIZE {
        return LogOutcome::BadSize;
    }
    if !running {
        return LogOutcome::Interrupted;
    }
    let raw: u8 = data[0];
    let (level, unknown) = match log_level(raw) {
        Some(l) => (l, None),
        None => (LogLevel::Error, Some(raw)),
    };
    match read_c_string(data, 1, BPF_LOG_MAX) {
        Ok(msg) => LogOutcome::Message { level, unknown, msg },
        Err(e) => LogOutcome::BadMessage(e),
    }
}

/// The return value of the retrieval of the next event.
pub enum EventResult {
    /// A new event was retrieved.
    Event(Event),
    /// The source has been consumed.
    Eof,
    /// The timeout went off but a new attempt to retrieve an event might
    /// succeed.
    Timeout,
}

/// What waiting on the channel of events gave.
pub enum Received {
    /// An event came.
    Event(Event),
    /// Nothing came within the time given.
    TimedOut,
    /// The sending side is gone and nothing is left.
    Disconnected,
}

/// What the consumer gets from the live source for what the channel gave.
///
/// The live source never ends: an event is handed on, a timeout is reported
/// as such, and a channel whose sending side is gone is an error.
pub fn next_event(received: Received) -> (r: Result<EventResult, ReaderError>)
    ensures
        match received {
            Received::Event(e) => r matches Ok(EventResult::Event(x)) && x == e,
            Received::TimedOut => r matches Ok(EventResult::Timeout),
            Received::Disconnected => r matches Err(ReaderError::Disconnected),
        },
{
    match received {
        Received::Event(e) => Ok(EventResult::Event(e)),
        Received::TimedOut => Ok(EventResult::Timeout),
        Received::Disconnected => Err(ReaderError::Disconnected),
    }
}

} // verus!
