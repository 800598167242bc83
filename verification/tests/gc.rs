use retis::gc::{
    extract_timestamp, is_stale, monotonic_ns, GcStep, MapEntry, TrackingGC, NSEC_PER_SEC,
    TRACKING_GC_INTERVAL, TRACKING_OLD_LIMIT,
};

fn entry(key: u8, inserted: Option<u64>) -> MapEntry {
    MapEntry {
        key: vec![key],
        value: match inserted {
            Some(t) => {
                let mut v = t.to_le_bytes().to_vec();
                v.extend_from_slice(&[0xaa, 0xbb]);
                v
            }
            None => vec![1, 2, 3],
        },
    }
}

#[test]
fn defaults_and_builders() {
    let gc = TrackingGC::new();
    assert_eq!(gc.interval, 5);
    assert_eq!(gc.limit, 60);
    assert_eq!((TRACKING_GC_INTERVAL, TRACKING_OLD_LIMIT), (5, 60));
    let gc = gc.interval(1).limit(2);
    assert_eq!((gc.interval, gc.limit), (1, 2));
}

#[test]
fn timestamp_is_the_first_eight_bytes() {
    assert_eq!(extract_timestamp(&[1, 0, 0, 0, 0, 0, 0, 0]), Some(1));
    assert_eq!(
        extract_timestamp(&[0xef, 0xcd, 0xab, 0x89, 0x67, 0x45, 0x23, 0x01, 9]),
        Some(0x0123456789abcdef)
    );
    assert_eq!(extract_timestamp(&[1, 2, 3, 4, 5, 6, 7]), None);
    assert_eq!(extract_timestamp(&[]), None);
}

#[test]
fn stale_is_strictly_older_than_the_limit() {
    let limit = 60;
    let t0 = 5 * NSEC_PER_SEC;
    assert!(!is_stale(t0, t0, limit));
    assert!(!is_stale(t0 + 60 * NSEC_PER_SEC, t0, limit));
    assert!(is_stale(t0 + 60 * NSEC_PER_SEC + 1, t0, limit));
    // What was inserted after now is not old.
    assert!(!is_stale(t0, t0 + 1, limit));
    assert!(!is_stale(0, u64::MAX, 0));
    assert!(is_stale(1, 0, 0));
    // A limit that does not fit in nanoseconds is never reached.
    assert!(!is_stale(u64::MAX, 0, u64::MAX));
}

#[test]
fn sweep_names_the_old_entries() {
    let now = 100 * NSEC_PER_SEC;
    let entries = vec![
        entry(0, Some(now - 61 * NSEC_PER_SEC)),
        entry(1, Some(now - 60 * NSEC_PER_SEC)),
        entry(2, None),
        entry(3, Some(0)),
        entry(4, Some(now + 1)),
    ];
    assert_eq!(TrackingGC::new().sweep(&entries, now), vec![0, 3]);
    assert_eq!(TrackingGC::new().limit(1000).sweep(&entries, now), Vec::<usize>::new());
    assert_eq!(TrackingGC::new().sweep(&Vec::new(), now), Vec::<usize>::new());
}

#[test]
fn entry_is_gone_after_limit_and_interval() {
    let gc = TrackingGC::new();
    let t0 = 7 * NSEC_PER_SEC;
    let entries = vec![entry(0, Some(t0))];
    // Sweeps come every interval: the first one past the limit takes the entry.
    let mut now = 3 * NSEC_PER_SEC;
    let mut gone_at = None;
    while gone_at.is_none() {
        if !gc.sweep(&entries, now).is_empty() {
            gone_at = Some(now);
        }
        now += gc.interval * NSEC_PER_SEC;
    }
    let gone_at = gone_at.unwrap();
    assert!(gone_at > t0 + gc.limit * NSEC_PER_SEC);
    assert!(gone_at <= t0 + (gc.limit + gc.interval) * NSEC_PER_SEC);
}

#[test]
fn sweeper_sleeps_until_the_interval_has_passed() {
    let gc = TrackingGC::new().interval(3);
    // What the thread does, second after second, until the collection ends.
    let mut steps = Vec::new();
    let mut waited = 0;
    for second in 0..9 {
        let step = gc.next_step(second < 8, waited);
        match step {
            GcStep::Sleep => waited += 1,
            GcStep::Sweep => waited = 0,
            GcStep::Stop => (),
        }
        steps.push(step);
    }
    let (sleep, sweep, stop) = (GcStep::Sleep, GcStep::Sweep, GcStep::Stop);
    assert_eq!(
        steps,
        vec![sleep, sleep, sleep, sweep, sleep, sleep, sleep, sweep, stop]
    );
    assert_eq!(gc.next_step(false, 3), stop);
    assert_eq!(TrackingGC::new().interval(0).next_step(true, 0), sweep);
}

#[test]
fn clock_is_told_in_nanoseconds() {
    assert_eq!(monotonic_ns(0, 0), 0);
    assert_eq!(monotonic_ns(12, 345), 12_000_000_345);
    assert_eq!(monotonic_ns(18_446_744_073, 709_551_615), u64::MAX);
    assert_eq!(monotonic_ns(18_446_744_073, 709_551_616), u64::MAX);
    assert_eq!(monotonic_ns(18_446_744_074, 0), u64::MAX);
    assert_eq!(monotonic_ns(u64::MAX, u64::MAX), u64::MAX);
    assert_eq!(monotonic_ns(1, u64::MAX - NSEC_PER_SEC), u64::MAX);
    assert_eq!(monotonic_ns(1, u64::MAX - NSEC_PER_SEC - 1), u64::MAX - 1);
}
