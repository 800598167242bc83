use retis::decode;
use retis::error::{DecodeError, SectionError};
use retis::events::common::CommonEvent;
use retis::events::section::Section;
use retis::factories::common::CommonEventFactory;
use retis::factory::{RawEventSectionFactory, SectionFactories};
use retis::raw::{parse_raw_sections, BpfRawSection};
use retis::section_id::SectionId;

const DATA_TYPE_U64: u8 = 1;
const DATA_TYPE_U128: u8 = 2;

#[derive(Default)]
struct TestEvent {
    field0: Option<u64>,
    field1: Option<u64>,
    field2: Option<u64>,
}

/// Factory that remembers the last section it built.
#[derive(Default)]
struct TestFactory {
    last: TestEvent,
}

fn u64_at(data: &[u8], at: usize) -> u64 {
    let mut bytes = [0u8; 8];
    bytes.copy_from_slice(&data[at..at + 8]);
    u64::from_le_bytes(bytes)
}

impl RawEventSectionFactory for TestFactory {
    fn create<'a>(&mut self, raw_sections: Vec<BpfRawSection<'a>>) -> Result<Section, SectionError> {
        let mut event = TestEvent::default();

        for raw in raw_sections.iter() {
            let len = raw.data.len();

            match raw.header.data_type {
                DATA_TYPE_U64 => {
                    if len != 8 {
                        return Err(SectionError::BadSize);
                    }

                    event.field0 = Some(u64_at(raw.data, 0));
                }
                DATA_TYPE_U128 => {
                    if len != 16 {
                        return Err(SectionError::BadSize);
                    }

                    event.field1 = Some(u64_at(raw.data, 0));
                    event.field2 = Some(u64_at(raw.data, 8));
                }
                _ => return Err(SectionError::UnknownDataType),
            }
        }

        let section = Section::Common(CommonEvent {
            timestamp: event.field0.unwrap_or(0),
            smp_id: 0,
            task: None,
        });
        self.last = event;
        Ok(section)
    }
}

fn test_factories() -> SectionFactories<TestFactory> {
    let mut factories = SectionFactories::new();
    factories.insert(SectionId::Common, TestFactory::default());
    factories
}

#[test]
fn parse_raw_event() {
    let mut factories = test_factories();
    let common = SectionId::Common.to_u8();

    // Empty event.
    let data = [];
    assert!(decode::parse_raw_event(&data, &mut factories).is_err());

    // Uncomplete event size.
    let data = [0];
    assert!(decode::parse_raw_event(&data, &mut factories).is_err());

    // Valid event size but empty event.
    let data = [0, 0];
    assert!(decode::parse_raw_event(&data, &mut factories).is_err());

    // Valid event size but incomplete event.
    let data = [42, 0];
    assert!(decode::parse_raw_event(&data, &mut factories).is_err());
    let data = [2, 0, 42];
    assert!(decode::parse_raw_event(&data, &mut factories).is_err());

    // Valid event with a single empty section. Section is ignored.
    let data = [4, 0, common, DATA_TYPE_U64, 0, 0];
    assert!(decode::parse_raw_event(&data, &mut factories).is_ok());

    // Valid event with a section too large. Section is ignored.
    let data = [4, 0, common, DATA_TYPE_U64, 4, 0, 42, 42];
    assert!(decode::parse_raw_event(&data, &mut factories).is_ok());
    let data = [6, 0, common, DATA_TYPE_U64, 4, 0, 42, 42];
    assert!(decode::parse_raw_event(&data, &mut factories).is_ok());

    // Valid event with a section having an invalid owner.
    let data = [4, 0, 0, DATA_TYPE_U64, 0, 0];
    assert!(decode::parse_raw_event(&data, &mut factories).is_ok());
    let data = [4, 0, 255, DATA_TYPE_U64, 0, 0];
    assert!(decode::parse_raw_event(&data, &mut factories).is_ok());

    // Valid event with an invalid data type.
    let data = [4, 0, common, 0, 1, 0, 42];
    assert!(decode::parse_raw_event(&data, &mut factories).is_ok());
    let data = [4, 0, common, 255, 1, 0, 42];
    assert!(decode::parse_raw_event(&data, &mut factories).is_ok());

    // Valid event but invalid section (too small).
    let data = [5, 0, common, DATA_TYPE_U64, 1, 0, 42];
    assert!(decode::parse_raw_event(&data, &mut factories).is_err());

    // Valid event, single section.
    let data = [
        12,
        0,
        common,
        DATA_TYPE_U64,
        8,
        0,
        42,
        0,
        0,
        0,
        0,
        0,
        0,
        0,
    ];
    let event = decode::parse_raw_event(&data, &mut factories).unwrap();
    assert!(event.get_section(SectionId::Common).is_some());
    let section = &factories.get(SectionId::Common).unwrap().last;
    assert!(section.field0 == Some(42));

    // Valid event, multiple sections.
    let data = [
        44,
        0,
        // Section 1
        common,
        DATA_TYPE_U64,
        8,
        0,
        42,
        0,
        0,
        0,
        0,
        0,
        0,
        0,
        // Section 2
        common,
        DATA_TYPE_U64,
        8,
        0,
        57,
        5,
        0,
        0,
        0,
        0,
        0,
        0,
        // Section 3
        common,
        DATA_TYPE_U128,
        16,
        0,
        42,
        0,
        0,
        0,
        0,
        0,
        0,
        0,
        57,
        5,
        0,
        0,
        0,
        0,
        0,
        0,
    ];
    let event = decode::parse_raw_event(&data, &mut factories).unwrap();
    assert!(event.get_section(SectionId::Common).is_some());
    let section = &factories.get(SectionId::Common).unwrap().last;
    assert!(section.field1 == Some(42));
    assert!(section.field2 == Some(1337));
}

#[test]
fn rejected_frames_name_their_error() {
    let mut factories = test_factories();
    assert_eq!(
        decode::parse_raw_event(&[], &mut factories).err(),
        Some(DecodeError::FrameTooShort)
    );
    assert_eq!(
        decode::parse_raw_event(&[7], &mut factories).err(),
        Some(DecodeError::FrameTooShort)
    );
    assert_eq!(
        decode::parse_raw_event(&[0, 0], &mut factories).err(),
        Some(DecodeError::EmptyFrame)
    );
    assert_eq!(
        decode::parse_raw_event(&[0, 0, 1, 1, 1, 0, 9], &mut factories).err(),
        Some(DecodeError::EmptyFrame)
    );
    assert_eq!(
        decode::parse_raw_event(&[42, 0], &mut factories).err(),
        Some(DecodeError::LengthMismatch)
    );
    assert_eq!(
        decode::parse_raw_event(&[0, 1, 0, 0], &mut factories).err(),
        Some(DecodeError::LengthMismatch)
    );
}

#[test]
fn single_section_event_holds_only_common() {
    let mut factories = test_factories();
    let data = [12, 0, 1, 1, 8, 0, 42, 0, 0, 0, 0, 0, 0, 0];
    let event = decode::parse_raw_event(&data, &mut factories).unwrap();
    assert_eq!(event.sections(), vec![SectionId::Common]);
    assert_eq!(event.len(), 1);
    match event.get_section(SectionId::Common) {
        Some(Section::Common(common)) => assert_eq!(common.timestamp, 42),
        _ => panic!("no common section"),
    }
}

#[test]
fn unknown_owner_gives_empty_event() {
    let mut factories = test_factories();
    let data = [5, 0, 255, 1, 1, 0, 42];
    let event = decode::parse_raw_event(&data, &mut factories).unwrap();
    assert_eq!(event.len(), 0);
    assert!(event.sections().is_empty());
}

#[test]
fn empty_record_is_stepped_over() {
    let sections = parse_raw_sections(&[9, 0, 1, 0, 0, 0, 7, 3, 1, 0, 0xaa]).unwrap();
    assert_eq!(sections.len(), 1);
    assert_eq!(sections[0].header.owner, 7);
    assert_eq!(sections[0].header.data_type, 3);
    assert_eq!(sections[0].header.size, 1);
    assert_eq!(sections[0].data, &[0xaa]);
}

#[test]
fn record_past_the_payload_ends_the_walk() {
    // The second record claims four bytes where the payload has two left.
    let data = [11, 0, 1, 0, 1, 0, 5, 7, 0, 4, 0, 1, 2, 3, 4];
    let sections = parse_raw_sections(&data).unwrap();
    assert_eq!(sections.len(), 1);
    assert_eq!(sections[0].header.owner, 1);
    assert_eq!(sections[0].data, &[5]);
}

#[test]
fn bytes_after_the_payload_are_ignored() {
    let data = [5, 0, 1, 0, 1, 0, 5, 7, 0, 1, 0, 9];
    let sections = parse_raw_sections(&data).unwrap();
    assert_eq!(sections.len(), 1);
}

#[test]
fn records_keep_wire_order() {
    let data = [15, 0, 7, 1, 1, 0, 1, 1, 0, 1, 0, 2, 7, 2, 1, 0, 3];
    let sections = parse_raw_sections(&data).unwrap();
    let seen: Vec<(u8, u8, u8)> = sections
        .iter()
        .map(|s| (s.header.owner, s.header.data_type, s.data[0]))
        .collect();
    assert_eq!(seen, vec![(7, 1, 1), (1, 0, 2), (7, 2, 3)]);
}

#[test]
fn missing_factory_is_an_error() {
    let mut factories = test_factories();
    let data = [5, 0, 7, 1, 1, 0, 42];
    assert_eq!(
        decode::parse_raw_event(&data, &mut factories).err(),
        Some(DecodeError::MissingFactory(SectionId::Skb))
    );
}

#[test]
fn failing_factory_is_an_error() {
    let mut factories = test_factories();
    let data = [5, 0, 1, 9, 1, 0, 42];
    assert_eq!(
        decode::parse_raw_event(&data, &mut factories).err(),
        Some(DecodeError::SectionDecode(
            SectionId::Common,
            SectionError::UnknownDataType
        ))
    );
}

#[test]
fn common_factory_reads_core_and_task() {
    let mut factories = SectionFactories::new();
    factories.insert(SectionId::Common, CommonEventFactory {});
    let mut data = vec![0u8, 0];
    data.extend_from_slice(&[1, 0, 12, 0]);
    data.extend_from_slice(&0x0102030405060708u64.to_le_bytes());
    data.extend_from_slice(&7u32.to_le_bytes());
    data.extend_from_slice(&[1, 1, 72, 0]);
    data.extend_from_slice(&1234u32.to_le_bytes());
    data.extend_from_slice(&0xffff_fffeu32.to_le_bytes());
    let mut comm = [0u8; 64];
    comm[..5].copy_from_slice(b"retis");
    data.extend_from_slice(&comm);
    let payload = (data.len() - 2) as u16;
    data[..2].copy_from_slice(&payload.to_le_bytes());

    let event = decode::parse_raw_event(&data, &mut factories).unwrap();
    match event.get_section(SectionId::Common) {
        Some(Section::Common(common)) => {
            assert_eq!(common.timestamp, 0x0102030405060708);
            assert_eq!(common.smp_id, 7);
            let task = common.task.as_ref().unwrap();
            assert_eq!(task.tgid, 1234);
            assert_eq!(task.pid, -2);
            assert_eq!(task.comm, "retis");
        }
        _ => panic!("no common section"),
    }
}

fn task_frame(comm: [u8; 64]) -> Vec<u8> {
    let mut data = vec![76u8, 0, 1, 1, 72, 0];
    data.extend_from_slice(&[0u8; 8]);
    data.extend_from_slice(&comm);
    data
}

#[test]
fn comm_without_nul_is_an_error() {
    let mut factories = SectionFactories::new();
    factories.insert(SectionId::Common, CommonEventFactory {});
    assert_eq!(
        decode::parse_raw_event(&task_frame([b'a'; 64]), &mut factories).err(),
        Some(DecodeError::SectionDecode(
            SectionId::Common,
            SectionError::MissingNul
        ))
    );
}

#[test]
fn empty_comm_is_no_task() {
    let mut factories = SectionFactories::new();
    factories.insert(SectionId::Common, CommonEventFactory {});
    let event = decode::parse_raw_event(&task_frame([0u8; 64]), &mut factories).unwrap();
    match event.get_section(SectionId::Common) {
        Some(Section::Common(common)) => assert!(common.task.is_none()),
        _ => panic!("no common section"),
    }
}
