//! Building of raw frames, the way the kernel side lays them out.

use vstd::prelude::*;
use crate::bytes::{le_u16, le_u32, le_u64};
use crate::decode::{built, decoded, has_records, owned_by};
use crate::error::DecodeError;
use crate::events::common::{CommonEvent, CommonModel};
use crate::events::event::Event;
use crate::events::section::Section;
use crate::events::skb::{SkbModel, SkbNsEvent, SkbPacketModel};
use crate::events::skb_tracking::SkbTrackingEvent;
use crate::factories::builtin::SectionFactory;
use crate::factories::common::{
    common_from, common_of, common_step, COMMON_SECTION_CORE, COMMON_SECTION_TASK,
};
use crate::factories::skb::{
    dissected, ns_of, with_packet, RAW_PACKET_MAX, SECTION_DEV, SECTION_NS, SECTION_PACKET,
};
use crate::factories::skb_tracking::skb_tracking_of;
use crate::packet::ETH_MIN_SIZE;
use crate::raw::{frame_error, frame_records, records_from, RawRecord, BPF_RAW_EVENT_DATA_SIZE};
use crate::section_id::{section_of_u8, SectionId};

verus! {

/// Why a frame could not be built.
#[derive(Clone, Copy, Debug, PartialEq, Eq, Structural)]
pub enum EncodeError {
    /// The record has no data: it would not be read back.
    EmptyRecord,
    /// The records do not fit in the data buffer of a raw event.
    TooLong,
}

/// The bytes of a record: the owner, the data type, the size of the data in
/// two little-endian bytes, then the data.
pub open spec fn record_bytes(record: RawRecord) -> Seq<u8> {
    seq![
        record.owner,
        record.data_type,
        (record.data.len() % 256) as u8,
        (record.data.len() / 256) as u8,
    ] + record.data
}

/// The bytes of a list of records, one after the other.
pub open spec fn records_bytes(records: Seq<RawRecord>) -> Seq<u8>
    decreases records.len(),
{
    if records.len() == 0 {
        Seq::empty()
    } else {
        record_bytes(records[0]) + records_bytes(records.skip(1))
    }
}

/// The frame that holds `records`: the size of what follows in two
/// little-endian bytes, then the records.
pub open spec fn frame_of(records: Seq<RawRecord>) -> Seq<u8> {
    seq![
        (records_bytes(records).len() % 256) as u8,
        (records_bytes(records).len() / 256) as u8,
    ] + records_bytes(records)
}

/// What makes a record one that is read back as it was written: its owner is
/// known and it has data, no more than its size can tell.
pub open spec fn encodable(record: RawRecord) -> bool {
    &&& section_of_u8(record.owner) is Some
    &&& 0 < record.data.len() <= 65535
}

/// Adds a record to a frame under construction.
pub fn build_raw_section(out: &mut Vec<u8>, owner: u8, data_type: u8, data: &[u8])
    requires
        data@.len() <= 65535,
    ensures
        final(out)@ == old(out)@ + record_bytes(RawRecord { owner, data_type, data: data@ }),
{
    out.push(owner);
    out.push(data_type);
    let size: usize = data.len();
    out.push((size % 256) as u8);
    out.push((size / 256) as u8);
    let ghost head = out@;
    let mut i: usize = 0;
    assert(out@ =~= head + data@.take(0));
    while i < data.len()
        invariant
            i <= data@.len(),
            out@ == head + data@.take(i as int),
        decreases data@.len() - i,
    {
        out.push(data[i]);
        assert(out@ =~= head + data@.take(i + 1));
        i += 1;
    }
    assert(data@.take(data@.len() as int) =~= data@);
    assert(out@ =~= old(out)@ + record_bytes(RawRecord { owner, data_type, data: data@ }));
}

/// Puts the length prefix in front of the records of a frame.
///
/// The records have to fit in the data buffer of a raw event, and there has
/// to be one at least.
pub fn build_raw_event(payload: &Vec<u8>) -> (r: Result<Vec<u8>, EncodeError>)
    ensures
        payload@.len() == 0 ==> r == Err::<Vec<u8>, EncodeError>(EncodeError::EmptyRecord),
        payload@.len() > BPF_RAW_EVENT_DATA_SIZE ==> r == Err::<Vec<u8>, EncodeError>(
            EncodeError::TooLong,
        ),
        0 < payload@.len() <= BPF_RAW_EVENT_DATA_SIZE ==> (r matches Ok(frame) && frame@ == seq![
            (payload@.len() % 256) as u8,
            (payload@.len() / 256) as u8,
        ] + payload@),
{
    if payload.len() == 0 {
        return Err(EncodeError::EmptyRecord);
    }
    if payload.len() > BPF_RAW_EVENT_DATA_SIZE {
        return Err(EncodeError::TooLong);
    }
    let mut frame: Vec<u8> = Vec::new();
    let size: usize = payload.len();
    frame.push((size % 256) as u8);
    frame.push((size / 256) as u8);
    let ghost head = frame@;
    let mut i: usize = 0;
    assert(frame@ =~= head + payload@.take(0));
    while i < payload.len()
        invariant
            i <= payload@.len(),
            frame@ == head + payload@.take(i as int),
        decreases payload@.len() - i,
    {
        frame.push(payload[i]);
        assert(frame@ =~= head + payload@.take(i + 1));
        i += 1;
    }
    assert(payload@.take(payload@.len() as int) =~= payload@);
    Ok(frame)
}

proof fn lemma_records_bytes_len(records: Seq<RawRecord>)
    ensures
        records_bytes(records).len() >= 4 * records.len(),
        records.len() > 0 ==> records_bytes(records).len() == 4 + records[0].data.len()
            + records_bytes(records.skip(1)).len(),
    decreases records.len(),
{
    if records.len() > 0 {
        lemma_records_bytes_len(records.skip(1));
    }
}

/// Walking the bytes of records from where the first one starts gives these
/// records.
proof fn lemma_walk(frame: Seq<u8>, end: int, cursor: int, records: Seq<RawRecord>)
    requires
        0 <= cursor,
        end == cursor + records_bytes(records).len(),
        end <= frame.len(),
        frame.subrange(cursor, end) == records_bytes(records),
        forall|i: int| 0 <= i < records.len() ==> encodable(#[trigger] records[i]),
    ensures
        records_from(frame, end, cursor) == records,
    decreases records.len(),
{
    lemma_records_bytes_len(records);
    if records.len() == 0 {
        assert(records_from(frame, end, cursor) =~= records);
    } else {
        let first = records[0];
        let rest = records.skip(1);
        let bytes = records_bytes(records);
        let size = first.data.len() as int;
        assert(encodable(first));
        assert(bytes == record_bytes(first) + records_bytes(rest));
        assert forall|k: int| 0 <= k < bytes.len() implies frame[cursor + k] == bytes[k] by {
            assert(frame.subrange(cursor, end)[k] == frame[cursor + k]);
        }
        assert(frame[cursor] == bytes[0]);
        assert(frame[cursor + 1] == bytes[1]);
        assert(frame[cursor + 2] == bytes[2]);
        assert(frame[cursor + 3] == bytes[3]);
        assert(le_u16(frame, cursor + 2) == size);
        assert(frame.subrange(cursor + 4, cursor + 4 + size) =~= first.data) by {
            assert forall|k: int| 0 <= k < size implies frame[cursor + 4 + k] == first.data[k] by {
                assert(bytes[4 + k] == first.data[k]);
            }
        }
        assert(frame.subrange(cursor + 4 + size, end) =~= records_bytes(rest)) by {
            assert forall|k: int| 0 <= k < records_bytes(rest).len() implies frame[cursor + 4
                + size + k] == records_bytes(rest)[k] by {
                assert(bytes[4 + size + k] == records_bytes(rest)[k]);
            }
        }
        assert forall|i: int| 0 <= i < rest.len() implies encodable(#[trigger] rest[i]) by {
            assert(rest[i] == records[i + 1]);
        }
        lemma_walk(frame, end, cursor + 4 + size, rest);
        assert(records_from(frame, end, cursor) =~= seq![first] + rest);
        assert(seq![first] + rest =~= records);
    }
}

/// A frame is read back as it was written: the frame that holds records
/// which each have a known owner and data, and which fit together in what a
/// length prefix can tell, is accepted and holds exactly these records, in
/// the same order.
pub proof fn lemma_frame_round_trip(records: Seq<RawRecord>)
    requires
        records.len() > 0,
        records_bytes(records).len() <= 65535,
        forall|i: int| 0 <= i < records.len() ==> encodable(#[trigger] records[i]),
    ensures
        frame_error(frame_of(records)) is None,
        frame_records(frame_of(records)) == records,
{
    let frame = frame_of(records);
    let payload = records_bytes(records);
    lemma_records_bytes_len(records);
    assert(le_u16(frame, 0) == payload.len());
    let end = 2 + payload.len() as int;
    assert(frame.subrange(2, end) =~= payload);
    lemma_walk(frame, end, 2, records);
}

/// The records of the common section: the record of the timestamp and of
/// the processor id.
pub open spec fn common_records(timestamp: u64, smp_id: u32) -> Seq<RawRecord> {
    seq![
        RawRecord {
            owner: 1,
            data_type: COMMON_SECTION_CORE,
            data: u64_bytes(timestamp) + u32_bytes(smp_id),
        },
    ]
}

/// The four little-endian bytes of a number.
pub open spec fn u32_bytes(n: u32) -> Seq<u8> {
    seq![
        (n % 256) as u8,
        (n / 256 % 256) as u8,
        (n / 65536 % 256) as u8,
        (n / 16777216) as u8,
    ]
}

/// The eight little-endian bytes of a number.
pub open spec fn u64_bytes(n: u64) -> Seq<u8> {
    u32_bytes((n % 4294967296) as u32) + u32_bytes((n / 4294967296) as u32)
}

/// Four little-endian bytes are read back as the number they were written
/// from.
pub proof fn lemma_le_u32_at(b: Seq<u8>, at: int, n: u32)
    requires
        0 <= at,
        at + 4 <= b.len(),
        b.subrange(at, at + 4) == u32_bytes(n),
    ensures
        le_u32(b, at) == n,
{
    assert forall|k: int| 0 <= k < 4 implies b[at + k] == u32_bytes(n)[k] by {
        assert(b.subrange(at, at + 4)[k] == b[at + k]);
    }
}

/// Eight little-endian bytes are read back as the number they were written
/// from.
pub proof fn lemma_le_u64_at(b: Seq<u8>, at: int, n: u64)
    requires
        0 <= at,
        at + 8 <= b.len(),
        b.subrange(at, at + 8) == u64_bytes(n),
    ensures
        le_u64(b, at) == n,
{
    let lo = (n % 4294967296) as u32;
    let hi = (n / 4294967296) as u32;
    assert(b.subrange(at, at + 4) =~= u32_bytes(lo)) by {
        assert forall|k: int| 0 <= k < 4 implies b[at + k] == u32_bytes(lo)[k] by {
            assert(b.subrange(at, at + 8)[k] == b[at + k]);
            assert(u64_bytes(n)[k] == u32_bytes(lo)[k]);
        }
    }
    assert(b.subrange(at + 4, at + 8) =~= u32_bytes(hi)) by {
        assert forall|k: int| 0 <= k < 4 implies b[at + 4 + k] == u32_bytes(hi)[k] by {
            assert(b.subrange(at, at + 8)[4 + k] == b[at + 4 + k]);
            assert(u64_bytes(n)[4 + k] == u32_bytes(hi)[k]);
        }
    }
    lemma_le_u32_at(b, at, lo);
    lemma_le_u32_at(b, at + 4, hi);
}

/// Adds the little-endian bytes of a number to `out`.
pub fn push_u32_le(out: &mut Vec<u8>, n: u32)
    ensures
        final(out)@ == old(out)@ + u32_bytes(n),
{
    out.push((n % 256) as u8);
    out.push((n / 256 % 256) as u8);
    out.push((n / 65536 % 256) as u8);
    out.push((n / 16777216) as u8);
    assert(out@ =~= old(out)@ + u32_bytes(n));
}

/// Adds the little-endian bytes of a number to `out`.
pub fn push_u64_le(out: &mut Vec<u8>, n: u64)
    ensures
        final(out)@ == old(out)@ + u64_bytes(n),
{
    push_u32_le(out, (n % 4294967296) as u32);
    push_u32_le(out, (n / 4294967296) as u32);
    assert(out@ =~= old(out)@ + u64_bytes(n));
}

/// The data of the record of the tracking section: the original head, the
/// timestamp and the address of the buffer, eight bytes each.
pub open spec fn tracking_data(t: SkbTrackingEvent) -> Seq<u8> {
    u64_bytes(t.orig_head) + u64_bytes(t.timestamp) + u64_bytes(t.skb)
}

/// Builds the record of the tracking section.
pub fn build_skb_tracking(out: &mut Vec<u8>, t: &SkbTrackingEvent)
    ensures
        final(out)@ == old(out)@ + record_bytes(
            RawRecord { owner: 5, data_type: 0, data: tracking_data(*t) },
        ),
{
    let mut data: Vec<u8> = Vec::new();
    push_u64_le(&mut data, t.orig_head);
    push_u64_le(&mut data, t.timestamp);
    push_u64_le(&mut data, t.skb);
    assert(data@ =~= tracking_data(*t));
    build_raw_section(out, SectionId::SkbTracking.to_u8(), 0, data.as_slice());
}

/// Builds the record of the timestamp and of the processor id of the common
/// section.
pub fn build_common(out: &mut Vec<u8>, timestamp: u64, smp_id: u32)
    ensures
        final(out)@ == old(out)@ + record_bytes(common_records(timestamp, smp_id)[0]),
{
    let mut data: Vec<u8> = Vec::new();
    push_u64_le(&mut data, timestamp);
    push_u32_le(&mut data, smp_id);
    assert(data@ =~= u64_bytes(timestamp) + u32_bytes(smp_id));
    build_raw_section(out, SectionId::Common.to_u8(), COMMON_SECTION_CORE, data.as_slice());
}

/// The tracking section is read back as it was written.
pub proof fn lemma_skb_tracking_round_trip(t: SkbTrackingEvent)
    ensures
        skb_tracking_of(seq![RawRecord { owner: 5, data_type: 0, data: tracking_data(t) }]) == Ok::<
            SkbTrackingEvent,
            crate::error::SectionError,
        >(t),
{
    let data = tracking_data(t);
    assert(data.len() == 24);
    assert(data.subrange(0, 8) =~= u64_bytes(t.orig_head));
    assert(data.subrange(8, 16) =~= u64_bytes(t.timestamp));
    assert(data.subrange(16, 24) =~= u64_bytes(t.skb));
    lemma_le_u64_at(data, 0, t.orig_head);
    lemma_le_u64_at(data, 8, t.timestamp);
    lemma_le_u64_at(data, 16, t.skb);
}

/// The timestamp and the processor id of the common section are read back
/// as they were written.
pub proof fn lemma_common_round_trip(timestamp: u64, smp_id: u32)
    ensures
        common_of(common_records(timestamp, smp_id)) == Ok::<
            CommonModel,
            crate::error::SectionError,
        >(CommonModel { timestamp, smp_id, task: None }),
{
    let records = common_records(timestamp, smp_id);
    let data = records[0].data;
    assert(data.len() == 12);
    assert(data.subrange(0, 8) =~= u64_bytes(timestamp));
    assert(data.subrange(8, 12) =~= u32_bytes(smp_id));
    lemma_le_u64_at(data, 0, timestamp);
    lemma_le_u32_at(data, 8, smp_id);
    reveal_with_fuel(common_from, 3);
    let start = CommonModel { timestamp: 0, smp_id: 0, task: None };
    assert(common_step(start, records[0]) == Ok::<CommonModel, crate::error::SectionError>(
        CommonModel { timestamp, smp_id, task: None },
    ));
}

/// `bytes` followed by as many NUL bytes as it takes to fill a field of
/// `width` bytes.
pub open spec fn padded(bytes: Seq<u8>, width: int) -> Seq<u8> {
    bytes + Seq::new((width - bytes.len()) as nat, |i: int| 0u8)
}

/// Adds `bytes` to `out`, filled up with NUL bytes to `width` bytes.
pub fn push_padded(out: &mut Vec<u8>, bytes: &[u8], width: usize)
    requires
        bytes@.len() <= width,
    ensures
        final(out)@ == old(out)@ + padded(bytes@, width as int),
{
    let ghost head = out@;
    let ghost want = padded(bytes@, width as int);
    let mut i: usize = 0;
    assert(out@ =~= head + want.take(0));
    while i < width
        invariant
            i <= width,
            bytes@.len() <= width,
            want == padded(bytes@, width as int),
            out@ == head + want.take(i as int),
        decreases width - i,
    {
        let b: u8 = if i < bytes.len() {
            bytes[i]
        } else {
            0
        };
        out.push(b);
        assert(out@ =~= head + want.take(i + 1));
        i += 1;
    }
    assert(want.take(width as int) =~= want);
}

/// The data of a task record: the thread group id and the process id, then
/// the name in a field of 64 bytes.
pub open spec fn task_data(pid: i32, tgid: i32, comm: Seq<u8>) -> Seq<u8> {
    u32_bytes(tgid as u32) + u32_bytes(pid as u32) + padded(comm, 64)
}

/// Builds the task record of the common section.
pub fn build_task(out: &mut Vec<u8>, pid: i32, tgid: i32, comm: &[u8])
    requires
        comm@.len() <= 64,
    ensures
        final(out)@ == old(out)@ + record_bytes(
            RawRecord {
                owner: 1,
                data_type: COMMON_SECTION_TASK,
                data: task_data(pid, tgid, comm@),
            },
        ),
{
    let mut data: Vec<u8> = Vec::new();
    push_u32_le(&mut data, tgid as u32);
    push_u32_le(&mut data, pid as u32);
    push_padded(&mut data, comm, 64);
    assert(data@ =~= task_data(pid, tgid, comm@));
    build_raw_section(out, SectionId::Common.to_u8(), COMMON_SECTION_TASK, data.as_slice());
}

/// The data of a device record: the name in a field of 16 bytes, the index
/// of the device and the index of the device the packet arrived on.
pub open spec fn dev_data(name: Seq<u8>, ifindex: u32, rx_ifindex: u32) -> Seq<u8> {
    padded(name, 16) + u32_bytes(ifindex) + u32_bytes(rx_ifindex)
}

/// Builds the device record of the packet section.
pub fn build_dev(out: &mut Vec<u8>, name: &[u8], ifindex: u32, rx_ifindex: u32)
    requires
        name@.len() <= 16,
    ensures
        final(out)@ == old(out)@ + record_bytes(
            RawRecord {
                owner: 7,
                data_type: SECTION_DEV,
                data: dev_data(name@, ifindex, rx_ifindex),
            },
        ),
{
    let mut data: Vec<u8> = Vec::new();
    push_padded(&mut data, name, 16);
    push_u32_le(&mut data, ifindex);
    push_u32_le(&mut data, rx_ifindex);
    assert(data@ =~= dev_data(name@, ifindex, rx_ifindex));
    build_raw_section(out, SectionId::Skb.to_u8(), SECTION_DEV, data.as_slice());
}

/// Builds the namespace record of the packet section.
pub fn build_ns(out: &mut Vec<u8>, netns: u32)
    ensures
        final(out)@ == old(out)@ + record_bytes(
            RawRecord { owner: 7, data_type: SECTION_NS, data: u32_bytes(netns) },
        ),
{
    let mut data: Vec<u8> = Vec::new();
    push_u32_le(&mut data, netns);
    assert(data@ =~= u32_bytes(netns));
    build_raw_section(out, SectionId::Skb.to_u8(), SECTION_NS, data.as_slice());
}

/// The data of a packet record: the length of the packet, the length of the
/// capture, the capture in a field of 255 bytes and whether its Ethernet
/// header is a fake one.
pub open spec fn packet_data(len: u32, capture: Seq<u8>, fake_eth: bool) -> Seq<u8> {
    u32_bytes(len) + u32_bytes(capture.len() as u32) + padded(capture, 255) + seq![
        if fake_eth {
            1u8
        } else {
            0u8
        },
    ]
}

/// Builds the packet record of the packet section.
pub fn build_packet(out: &mut Vec<u8>, len: u32, capture: &[u8], fake_eth: bool)
    requires
        capture@.len() <= RAW_PACKET_MAX,
    ensures
        final(out)@ == old(out)@ + record_bytes(
            RawRecord {
                owner: 7,
                data_type: SECTION_PACKET,
                data: packet_data(len, capture@, fake_eth),
            },
        ),
{
    let mut data: Vec<u8> = Vec::new();
    push_u32_le(&mut data, len);
    push_u32_le(&mut data, capture.len() as u32);
    push_padded(&mut data, capture, RAW_PACKET_MAX);
    data.push(if fake_eth {
        1
    } else {
        0
    });
    assert(data@ =~= packet_data(len, capture@, fake_eth));
    build_raw_section(out, SectionId::Skb.to_u8(), SECTION_PACKET, data.as_slice());
}

/// The namespace record is read back as it was written.
pub proof fn lemma_ns_round_trip(netns: u32)
    ensures
        ns_of(u32_bytes(netns)) == Ok::<SkbNsEvent, crate::error::SectionError>(
            SkbNsEvent { netns },
        ),
{
    let data = u32_bytes(netns);
    assert(data.subrange(0, 4) =~= data);
    lemma_le_u32_at(data, 0, netns);
}

/// The capture of a packet record is read back as it was written: the
/// record is accepted where the capture holds an Ethernet header at least,
/// and the section then keeps the length of the packet and the capture.
pub proof fn lemma_packet_round_trip(
    event: SkbModel,
    len: u32,
    capture: Seq<u8>,
    fake_eth: bool,
    report_eth: bool,
)
    requires
        ETH_MIN_SIZE <= capture.len() <= RAW_PACKET_MAX,
    ensures
        with_packet(event, packet_data(len, capture, fake_eth), report_eth) == Ok::<
            SkbModel,
            crate::error::SectionError,
        >(
            dissected(
                SkbModel {
                    packet: Some(
                        SkbPacketModel { len, capture_len: capture.len() as u32, packet: capture },
                    ),
                    ..event
                },
                capture,
                report_eth,
                fake_eth,
            ),
        ),
{
    let data = packet_data(len, capture, fake_eth);
    let n = capture.len() as u32;
    assert(data.len() == 264);
    assert(data.subrange(0, 4) =~= u32_bytes(len));
    assert(data.subrange(4, 8) =~= u32_bytes(n));
    lemma_le_u32_at(data, 0, len);
    lemma_le_u32_at(data, 4, n);
    assert(data.subrange(8, 8 + n) =~= capture);
}

/// The records of an event made of the common section and of the tracking
/// section.
pub open spec fn tracked_records(timestamp: u64, smp_id: u32, t: SkbTrackingEvent) -> Seq<
    RawRecord,
> {
    common_records(timestamp, smp_id).push(
        RawRecord { owner: 5, data_type: 0, data: tracking_data(t) },
    )
}

/// An event is read back as it was written: whatever decoding the frame of
/// a common section and of a tracking section gives, with the factories of
/// these two sections registered, it is the event that holds these two
/// sections with the values that were written.
pub proof fn lemma_event_round_trip(
    timestamp: u64,
    smp_id: u32,
    t: SkbTrackingEvent,
    factories: Map<SectionId, SectionFactory>,
    r: Result<Event, DecodeError>,
)
    requires
        factories.contains_key(SectionId::Common),
        factories[SectionId::Common] is Common,
        factories.contains_key(SectionId::SkbTracking),
        factories[SectionId::SkbTracking] is SkbTracking,
        decoded(factories, frame_records(frame_of(tracked_records(timestamp, smp_id, t))), r),
    ensures
        frame_error(frame_of(tracked_records(timestamp, smp_id, t))) is None,
        r matches Ok(event) && event@ == Map::<SectionId, Section>::empty().insert(
            SectionId::Common,
            Section::Common(CommonEvent { timestamp, smp_id, task: None }),
        ).insert(SectionId::SkbTracking, Section::SkbTracking(t)),
{
    let records = tracked_records(timestamp, smp_id, t);
    let core = common_records(timestamp, smp_id);
    let tracking = RawRecord { owner: 5, data_type: 0, data: tracking_data(t) };
    assert(records.len() == 2);
    assert(records.drop_last() =~= core);
    assert(core.drop_last() =~= Seq::<RawRecord>::empty());
    assert(records.skip(1) =~= seq![tracking]);
    assert(records.skip(1).skip(1) =~= Seq::<RawRecord>::empty());
    assert(records_bytes(records).len() == 44) by {
        reveal_with_fuel(records_bytes, 3);
    }
    assert(section_of_u8(1) is Some && section_of_u8(5) is Some);
    lemma_frame_round_trip(records);
    assert forall|owner: u8| #[trigger]
        owned_by(records, owner) == if owner == 1 {
            core
        } else if owner == 5 {
            seq![tracking]
        } else {
            Seq::<RawRecord>::empty()
        } by {
        reveal_with_fuel(owned_by, 3);
        assert(owned_by(records, owner) =~= if owner == 1 {
            core
        } else if owner == 5 {
            seq![tracking]
        } else {
            Seq::<RawRecord>::empty()
        });
    }
    lemma_common_round_trip(timestamp, smp_id);
    lemma_skb_tracking_round_trip(t);
    assert forall|o: SectionId| #[trigger]
        has_records(records, o) <==> o == SectionId::Common || o == SectionId::SkbTracking by {
        assert(owned_by(records, o.wire_id()) == if o.wire_id() == 1 {
            core
        } else if o.wire_id() == 5 {
            seq![tracking]
        } else {
            Seq::<RawRecord>::empty()
        });
    }
    assert(owned_by(records, SectionId::Common.wire_id()) == core);
    assert(owned_by(records, SectionId::SkbTracking.wire_id()) == seq![tracking]);
    match r {
        Ok(event) => {
            let want = Map::<SectionId, Section>::empty().insert(
                SectionId::Common,
                Section::Common(CommonEvent { timestamp, smp_id, task: None }),
            ).insert(SectionId::SkbTracking, Section::SkbTracking(t));
            assert(event@.contains_key(SectionId::Common));
            assert(event@.contains_key(SectionId::SkbTracking));
            assert(built(factories, records, SectionId::Common, event@[SectionId::Common]));
            assert(built(
                factories,
                records,
                SectionId::SkbTracking,
                event@[SectionId::SkbTracking],
            ));
            assert forall|o: SectionId| event@.contains_key(o) == want.contains_key(o) by {
                assert(event@.contains_key(o) <==> has_records(records, o));
            }
            assert(event@ =~= want);
        },
        Err(DecodeError::MissingFactory(o)) => {
            assert(has_records(records, o));
        },
        Err(DecodeError::SectionDecode(o, e)) => {
            assert(has_records(records, o));
        },
        Err(_) => {},
    }
}

} // verus!
