use retis::error::{DecodeError, SectionError};
use retis::events::event::Event;
use retis::factories::builtin::default_factories;
use retis::factories::common::CommonEventFactory;
use retis::factory::SectionFactories;
use retis::reader::{
    check_start, events_map_size, log_level, log_map_size, next_event, process_event,
    process_log, EventOutcome, EventResult, LogLevel, LogOutcome, ReaderError, Received,
    BPF_EVENTS_POLL_TIMEOUT_MS, CALLBACK_CONTINUE, CALLBACK_INTERRUPT,
};
use retis::section_id::SectionId;

fn log_frame(level: u8, msg: &[u8]) -> Vec<u8> {
    let mut data = vec![level];
    let mut field = [0u8; 127];
    field[..msg.len()].copy_from_slice(msg);
    data.extend_from_slice(&field);
    data
}

#[test]
fn buffers_have_their_sizes() {
    assert_eq!(events_map_size(), 1024 * 8192);
    assert_eq!(log_map_size(), 128 * 32);
    assert_eq!(BPF_EVENTS_POLL_TIMEOUT_MS, 200);
    assert_eq!(CALLBACK_INTERRUPT, -4);
    assert_eq!(CALLBACK_CONTINUE, 0);
}

#[test]
fn reader_needs_a_factory() {
    let empty: SectionFactories<CommonEventFactory> = SectionFactories::new();
    assert_eq!(check_start(&empty), Err(ReaderError::NoSectionFactory));
    assert_eq!(check_start(&default_factories(false)), Ok(()));
}

#[test]
fn callback_interrupts_once_stopped() {
    let mut factories = default_factories(false);
    let data = [12, 0, 1, 0, 8, 0, 42, 0, 0, 0, 0, 0, 0, 0];
    let outcome = process_event(false, &data, &mut factories);
    assert!(matches!(outcome, EventOutcome::Interrupted));
    assert_eq!(outcome.code(), -4);
}

#[test]
fn callback_decodes_or_drops() {
    let mut factories = default_factories(false);
    let mut data = vec![16u8, 0, 1, 0, 12, 0];
    data.extend_from_slice(&42u64.to_le_bytes());
    data.extend_from_slice(&3u32.to_le_bytes());
    let outcome = process_event(true, &data, &mut factories);
    assert_eq!(outcome.code(), 0);
    match outcome {
        EventOutcome::Decoded(event) => assert_eq!(event.sections(), vec![SectionId::Common]),
        _ => panic!("not decoded"),
    }
    let outcome = process_event(true, &[0, 0], &mut factories);
    assert_eq!(outcome.code(), 0);
    assert!(matches!(
        outcome,
        EventOutcome::Dropped(DecodeError::EmptyFrame)
    ));
    let outcome = process_event(true, &data[..13], &mut factories);
    assert!(matches!(
        outcome,
        EventOutcome::Dropped(DecodeError::LengthMismatch)
    ));
    // A record that its factory refuses is the fault of the frame.
    let outcome = process_event(true, &[5, 0, 1, 0, 1, 0, 42], &mut factories);
    assert_eq!(outcome.code(), 0);
    assert!(matches!(
        outcome,
        EventOutcome::Dropped(DecodeError::SectionDecode(
            SectionId::Common,
            SectionError::BadSize
        ))
    ));
}

#[test]
fn callback_ends_the_collection_without_a_factory() {
    let mut factories = default_factories(false);
    // A record of the kernel section, which has no factory here.
    let outcome = process_event(true, &[5, 0, 2, 0, 1, 0, 42], &mut factories);
    assert_eq!(outcome.code(), -4);
    assert!(matches!(
        outcome,
        EventOutcome::Failed(DecodeError::MissingFactory(SectionId::Kernel))
    ));
    assert!(DecodeError::MissingFactory(SectionId::Kernel).is_fatal());
    assert!(DecodeError::DuplicateSection(SectionId::Skb).is_fatal());
    assert!(!DecodeError::FrameTooShort.is_fatal());
    assert!(!DecodeError::EmptyFrame.is_fatal());
    assert!(!DecodeError::LengthMismatch.is_fatal());
    assert!(!DecodeError::SectionDecode(SectionId::Skb, SectionError::ShortPacket).is_fatal());
}

#[test]
fn log_levels() {
    assert_eq!(log_level(1), Some(LogLevel::Error));
    assert_eq!(log_level(2), Some(LogLevel::Warn));
    assert_eq!(log_level(3), Some(LogLevel::Info));
    assert_eq!(log_level(4), Some(LogLevel::Debug));
    assert_eq!(log_level(5), Some(LogLevel::Trace));
    assert_eq!(log_level(0), None);
    assert_eq!(log_level(6), None);
}

#[test]
fn log_records() {
    assert_eq!(
        process_log(true, &log_frame(3, b"hello")),
        LogOutcome::Message {
            level: LogLevel::Info,
            unknown: None,
            msg: "hello".to_string()
        }
    );
    assert_eq!(
        process_log(true, &log_frame(9, b"")),
        LogOutcome::Message {
            level: LogLevel::Error,
            unknown: Some(9),
            msg: String::new()
        }
    );
    assert_eq!(
        process_log(true, &log_frame(1, &[b'x'; 127])),
        LogOutcome::BadMessage(SectionError::MissingNul)
    );
    assert_eq!(
        process_log(true, &log_frame(1, &[0xff, 0xfe])),
        LogOutcome::BadMessage(SectionError::InvalidUtf8)
    );
    // The size is looked at first, then whether the collection runs.
    assert_eq!(process_log(false, &[1, 2, 3]), LogOutcome::BadSize);
    assert_eq!(process_log(true, &[0u8; 127]), LogOutcome::BadSize);
    let stopped = process_log(false, &log_frame(3, b"hello"));
    assert_eq!(stopped, LogOutcome::Interrupted);
    assert_eq!(stopped.code(), -4);
    assert_eq!(process_log(true, &log_frame(3, b"hello")).code(), 0);
    assert_eq!(LogOutcome::BadSize.code(), 0);
}

#[test]
fn next_event_outcomes() {
    assert!(matches!(
        next_event(Received::Event(Event::new())),
        Ok(EventResult::Event(_))
    ));
    assert!(matches!(
        next_event(Received::TimedOut),
        Ok(EventResult::Timeout)
    ));
    assert!(matches!(
        next_event(Received::Disconnected),
        Err(ReaderError::Disconnected)
    ));
}
