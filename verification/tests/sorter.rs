use retis::error::DecodeError;
use retis::events::common::CommonEvent;
use retis::events::event::Event;
use retis::events::section::Section;
use retis::events::skb_tracking::{SkbTrackingEvent, TrackingInfo};
use retis::section_id::SectionId;
use retis::sort::{sort_events, DEFAULT_BUFFER};
use retis::sorter::{tracking_id, EventSorter};
use retis::tracking::AddTracking;

/// An event of the packet `id`, or of no packet, stamped `stamp`.
fn event(id: Option<u64>, stamp: u64) -> Event {
    let mut e = Event::new();
    e.insert_section(
        SectionId::Common,
        Section::Common(CommonEvent {
            timestamp: stamp,
            smp_id: 0,
            task: None,
        }),
    )
    .unwrap();
    if let Some(id) = id {
        e.insert_section(
            SectionId::Tracking,
            Section::Tracking(TrackingInfo {
                skb: SkbTrackingEvent {
                    orig_head: id,
                    timestamp: 1000 + id,
                    skb: 0,
                },
                idx: 0,
            }),
        )
        .unwrap();
    }
    e
}

fn stamp(e: &Event) -> u64 {
    match e.get_section(SectionId::Common) {
        Some(Section::Common(c)) => c.timestamp,
        _ => panic!("no common section"),
    }
}

fn stamps(series: &[retis::sorter::EventSeries]) -> Vec<Vec<u64>> {
    series
        .iter()
        .map(|s| s.events.iter().map(stamp).collect())
        .collect()
}

const A: u64 = 1;
const B: u64 = 2;
const C: u64 = 3;

fn interleaved() -> Vec<Event> {
    [A, B, A, C, B, A]
        .iter()
        .enumerate()
        .map(|(i, id)| event(Some(*id), i as u64))
        .collect()
}

#[test]
fn sort_preserves_per_packet_order() {
    let series = sort_events(interleaved(), 0);
    assert_eq!(stamps(&series), vec![vec![0, 2, 5], vec![1, 4], vec![3]]);
    for (s, id) in series.iter().zip([A, B, C]) {
        for e in &s.events {
            assert_eq!(tracking_id(e), Some((1000 + id, id)));
        }
    }
}

#[test]
fn sort_is_a_permutation() {
    for max_buffer in [0, 1, 2, 3, 4, 6, 100] {
        let series = sort_events(interleaved(), max_buffer);
        let mut seen: Vec<u64> = series.iter().flat_map(|s| s.events.iter().map(stamp)).collect();
        seen.sort();
        assert_eq!(seen, vec![0, 1, 2, 3, 4, 5]);
        for s in &series {
            assert!(!s.events.is_empty());
            let id = tracking_id(&s.events[0]);
            assert!(s.events.iter().all(|e| tracking_id(e) == id));
            let mut order: Vec<u64> = s.events.iter().map(stamp).collect();
            let sorted = order.clone();
            order.sort();
            assert_eq!(order, sorted);
        }
    }
}

#[test]
fn bounded_buffer_emits_oldest_series_first() {
    // With room for two events the series of A leaves when B comes.
    let series = sort_events(interleaved(), 2);
    assert_eq!(
        stamps(&series),
        vec![vec![0], vec![1], vec![2], vec![3], vec![4], vec![5]]
    );
    // With room for three the series of A leaves with two events, and that
    // of B when its second event comes.
    let series = sort_events(interleaved(), 3);
    assert_eq!(stamps(&series), vec![vec![0, 2], vec![1, 4], vec![3], vec![5]]);
    let series = sort_events(interleaved(), 4);
    assert_eq!(stamps(&series), vec![vec![0, 2], vec![1, 4], vec![3], vec![5]]);
    let series = sort_events(interleaved(), 6);
    assert_eq!(stamps(&series), vec![vec![0, 2, 5], vec![1, 4], vec![3]]);
    assert_eq!(DEFAULT_BUFFER, 1000);
}

#[test]
fn untracked_events_are_singleton_series() {
    let events = vec![
        event(None, 0),
        event(Some(A), 1),
        event(None, 2),
        event(Some(A), 3),
    ];
    let series = sort_events(events, 0);
    assert_eq!(stamps(&series), vec![vec![0], vec![1, 3], vec![2]]);
}

#[test]
fn empty_stream_gives_no_series() {
    assert!(sort_events(Vec::new(), 0).is_empty());
    assert!(sort_events(Vec::new(), 10).is_empty());
}

#[test]
fn sorter_adds_pops_and_drains() {
    let mut sorter = EventSorter::new();
    assert_eq!(sorter.len(), 0);
    assert!(sorter.pop_oldest().is_none());
    for e in interleaved() {
        sorter.add(e);
    }
    assert_eq!(sorter.len(), 6);
    assert_eq!(sorter.n_series(), 3);
    let oldest = sorter.pop_oldest().unwrap();
    assert_eq!(oldest.events.iter().map(stamp).collect::<Vec<_>>(), vec![0, 2, 5]);
    assert_eq!(sorter.len(), 3);
    assert!(sorter.flush(4).is_empty());
    assert_eq!(stamps(&sorter.flush(3)), vec![vec![1, 4]]);
    assert_eq!(stamps(&sorter.process(event(Some(C), 9), 0)), Vec::<Vec<u64>>::new());
    assert_eq!(stamps(&sorter.drain()), vec![vec![3, 9]]);
    assert_eq!(sorter.len(), 0);
}

fn collected(skb: SkbTrackingEvent) -> Event {
    let mut e = Event::new();
    e.insert_section(SectionId::SkbTracking, Section::SkbTracking(skb))
        .unwrap();
    e
}

#[test]
fn tracking_stage_numbers_events_of_a_packet() {
    let first = SkbTrackingEvent {
        orig_head: 10,
        timestamp: 20,
        skb: 1,
    };
    let clone = SkbTrackingEvent {
        orig_head: 10,
        timestamp: 20,
        skb: 2,
    };
    let other = SkbTrackingEvent {
        orig_head: 11,
        timestamp: 20,
        skb: 3,
    };
    let mut tracker = AddTracking::new();
    let mut indexes = Vec::new();
    for skb in [first, other, clone, first] {
        let mut e = collected(skb);
        tracker.process_one(&mut e).unwrap();
        match e.get_section(SectionId::Tracking) {
            Some(Section::Tracking(info)) => {
                assert_eq!(info.skb, skb);
                indexes.push(info.idx);
            }
            _ => panic!("no tracking section"),
        }
        assert_eq!(tracking_id(&e), Some(skb.tracking_id()));
    }
    assert_eq!(indexes, vec![0, 0, 1, 2]);
}

#[test]
fn tracking_stage_leaves_other_events_alone() {
    let mut tracker = AddTracking::new();
    let mut e = event(None, 7);
    tracker.process_one(&mut e).unwrap();
    assert_eq!(e.sections(), vec![SectionId::Common]);
    assert_eq!(tracking_id(&e), None);

    let skb = SkbTrackingEvent {
        orig_head: 1,
        timestamp: 2,
        skb: 3,
    };
    let mut e = collected(skb);
    tracker.process_one(&mut e).unwrap();
    assert_eq!(
        tracker.process_one(&mut e),
        Err(DecodeError::DuplicateSection(SectionId::Tracking))
    );
}
