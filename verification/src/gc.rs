//! Sweeping of the tracking maps: which entries are old enough to go.
//!
//! The value of an entry starts with the time the entry was inserted, as
//! nanoseconds of a monotonic clock in 8 little-endian bytes. An entry is
//! stale once it is older than the limit of the sweeper.

use vstd::prelude::*;
use crate::bytes::{le_u64, read_u64_le};

verus! {

/// Seconds between two sweeps, unless told otherwise.
pub const TRACKING_GC_INTERVAL: u64 = 5;

/// Seconds after which an entry is stale, unless told otherwise.
pub const TRACKING_OLD_LIMIT: u64 = 60;

/// Nanoseconds in a second.
pub const NSEC_PER_SEC: u64 = 1_000_000_000;

/// Size of the timestamp at the start of a value.
pub const TIMESTAMP_LEN: usize = 8;

/// An entry of a tracking map, as raw bytes.
#[derive(Clone, Debug, PartialEq, Eq)]
pub struct MapEntry {
    pub key: Vec<u8>,
    pub value: Vec<u8>,
}

/// The time a value was inserted at, if the value is long enough to say.
pub open spec fn inserted_at(value: Seq<u8>) -> Option<u64> {
    if value.len() < TIMESTAMP_LEN {
        None
    } else {
        Some(le_u64(value, 0) as u64)
    }
}

/// Whether something inserted at `inserted` is, at `now`, older than `limit`
/// seconds. Times are nanoseconds of the same monotonic clock; what was
/// inserted after `now` is not old.
pub open spec fn stale(now: u64, inserted: u64, limit: u64) -> bool {
    now - inserted > limit * NSEC_PER_SEC
}

/// Whether the entry whose value is `value` has to go at `now`: its value
/// says when it was inserted, and that is more than `limit` seconds ago.
pub open spec fn expired(value: Seq<u8>, now: u64, limit: u64) -> bool {
    match inserted_at(value) {
        Some(t) => stale(now, t, limit),
        None => false,
    }
}

/// The positions, among the first `n` entries, of those that have to go at
/// `now`, in increasing order.
pub open spec fn expired_before(entries: Seq<MapEntry>, n: int, now: u64, limit: u64) -> Seq<
    usize,
>
    decreases n,
{
    if n <= 0 {
        Seq::empty()
    } else if expired(entries[n - 1].value@, now, limit) {
        expired_before(entries, n - 1, now, limit).push((n - 1) as usize)
    } else {
        expired_before(entries, n - 1, now, limit)
    }
}

/// Reads the time a value was inserted at.
pub fn extract_timestamp(value: &[u8]) -> (r: Option<u64>)
    ensures
        r == inserted_at(value@),
{
    if value.len() < TIMESTAMP_LEN {
        return None;
    }
    Some(read_u64_le(value, 0))
}

/// Whether something inserted at `inserted` is, at `now`, older than `limit`
/// seconds.
pub fn is_stale(now: u64, inserted: u64, limit: u64) -> (r: bool)
    ensures
        r == stale(now, inserted, limit),
{
    if now <= inserted {
        return false;
    }
    let age: u64 = now - inserted;
    if limit > u64::MAX / NSEC_PER_SEC {
        assert(limit * NSEC_PER_SEC > u64::MAX) by (nonlinear_arith)
            requires
                limit > u64::MAX / NSEC_PER_SEC,
                NSEC_PER_SEC == 1_000_000_000,
        ;
        return false;
    }
    assert(limit * NSEC_PER_SEC <= u64::MAX) by (nonlinear_arith)
        requires
            limit <= u64::MAX / NSEC_PER_SEC,
            NSEC_PER_SEC == 1_000_000_000,
    ;
    age > limit * NSEC_PER_SEC
}

/// Periodic sweeper of tracking maps: how often it sweeps and how old an
/// entry may get.
#[derive(Clone, Copy, Debug, PartialEq, Eq, Structural)]
pub struct TrackingGC {
    /// Seconds between two sweeps.
    pub interval: u64,
    /// Seconds after which an entry is stale.
    pub limit: u64,
}

impl TrackingGC {
    /// A sweeper with the default interval and limit.
    pub fn new() -> (r: TrackingGC)
        ensures
            r == (TrackingGC { interval: TRACKING_GC_INTERVAL, limit: TRACKING_OLD_LIMIT }),
    {
        TrackingGC { interval: TRACKING_GC_INTERVAL, limit: TRACKING_OLD_LIMIT }
    }

    /// The same sweeper, sweeping every `interval` seconds.
    pub fn interval(self, interval: u64) -> (r: TrackingGC)
        ensures
            r == (TrackingGC { interval, limit: self.limit }),
    {
        TrackingGC { interval, limit: self.limit }
    }

    /// The same sweeper, letting entries get `limit` seconds old.
    pub fn limit(self, limit: u64) -> (r: TrackingGC)
        ensures
            r == (TrackingGC { interval: self.interval, limit }),
    {
        TrackingGC { interval: self.interval, limit }
    }

    /// The positions of the entries to delete at `now`, in increasing order:
    /// those whose value says when it was inserted, more than the limit ago.
    /// An entry whose value is too short to say is kept.
    pub fn sweep(&self, entries: &Vec<MapEntry>, now: u64) -> (r: Vec<usize>)
        ensures
            r@ == expired_before(entries@, entries@.len() as int, now, self.limit),
    {
        let mut out: Vec<usize> = Vec::new();
        let mut i: usize = 0;
        while i < entries.len()
            invariant
                i <= entries@.len(),
                out@ == expired_before(entries@, i as int, now, self.limit),
            decreases entries@.len() - i,
        {
            match extract_timestamp(entries[i].value.as_slice()) {
                Some(t) => {
                    if is_stale(now, t, self.limit) {
                        out.push(i);
                    }
                },
                None => {},
            }
            i += 1;
        }
        out
    }
}

/// What the sweeping thread does next.
#[derive(Clone, Copy, Debug, PartialEq, Eq, Structural)]
pub enum GcStep {
    /// The collection is over: the thread ends.
    Stop,
    /// The interval has not passed yet: sleep for a second.
    Sleep,
    /// The interval has passed: sweep every map, then wait anew.
    Sweep,
}

impl TrackingGC {
    /// What the sweeping thread does when it has slept `waited` seconds
    /// since it started or last swept. It sleeps a second at a time, to end
    /// with the collection rather than with the interval.
    pub fn next_step(&self, running: bool, waited: u64) -> (r: GcStep)
        ensures
            r == if !running {
                GcStep::Stop
            } else if waited < self.interval {
                GcStep::Sleep
            } else {
                GcStep::Sweep
            },
    {
        if !running {
            GcStep::Stop
        } else if waited < self.interval {
            GcStep::Sleep
        } else {
            GcStep::Sweep
        }
    }
}

/// The nanoseconds that `sec` seconds and `nsec` nanoseconds are, or the
/// greatest number of them that can be told.
pub open spec fn nanoseconds(sec: u64, nsec: u64) -> u64 {
    if sec * NSEC_PER_SEC + nsec > u64::MAX {
        u64::MAX
    } else {
        (sec * NSEC_PER_SEC + nsec) as u64
    }
}

/// The time of a clock that gives seconds and nanoseconds, in nanoseconds.
pub fn monotonic_ns(sec: u64, nsec: u64) -> (r: u64)
    ensures
        r == nanoseconds(sec, nsec),
{
    if sec > u64::MAX / NSEC_PER_SEC {
        assert(sec * NSEC_PER_SEC > u64::MAX) by (nonlinear_arith)
            requires
                sec > u64::MAX / NSEC_PER_SEC,
                NSEC_PER_SEC == 1_000_000_000,
        ;
        return u64::MAX;
    }
    assert(sec * NSEC_PER_SEC <= u64::MAX) by (nonlinear_arith)
        requires
            sec <= u64::MAX / NSEC_PER_SEC,
            NSEC_PER_SEC == 1_000_000_000,
    ;
    let whole: u64 = sec * NSEC_PER_SEC;
    if nsec > u64::MAX - whole {
        u64::MAX
    } else {
        whole + nsec
    }
}

/// A sweep names exactly the entries that have to go: every position it
/// gives is that of an entry inserted more than the limit ago, and every such
/// entry has its position given.
pub proof fn lemma_sweep_exact(entries: Seq<MapEntry>, n: int, now: u64, limit: u64)
    requires
        0 <= n <= entries.len() <= usize::MAX,
    ensures
        forall|i: int|
            0 <= i < n && expired(entries[i].value@, now, limit) ==> expired_before(
                entries,
                n,
                now,
                limit,
            ).contains(i as usize),
        forall|k: int|
            0 <= k < expired_before(entries, n, now, limit).len() ==> 0 <= (
            #[trigger] expired_before(entries, n, now, limit)[k]) < n && expired(
                entries[expired_before(entries, n, now, limit)[k] as int].value@,
                now,
                limit,
            ),
    decreases n,
{
    if n > 0 {
        lemma_sweep_exact(entries, n - 1, now, limit);
        let before = expired_before(entries, n - 1, now, limit);
        let after = expired_before(entries, n, now, limit);
        assert forall|i: int|
            0 <= i < n && expired(entries[i].value@, now, limit) implies after.contains(
            i as usize,
        ) by {
            if i < n - 1 {
                let k = choose|k: int| 0 <= k < before.len() && before[k] == i as usize;
                assert(after[k] == i as usize);
            } else {
                assert(after[after.len() - 1] == i as usize);
            }
        }
        assert forall|k: int| 0 <= k < after.len() implies 0 <= (#[trigger] after[k]) < n
            && expired(entries[after[k] as int].value@, now, limit) by {
            if k < before.len() {
                assert(after[k] == before[k]);
            }
        }
    }
}

/// An entry that was inserted at `inserted` is named by every sweep made
/// later than `limit` seconds after that, and by no sweep made before.
pub proof fn lemma_entry_goes_after_limit(
    entries: Seq<MapEntry>,
    i: int,
    inserted: u64,
    now: u64,
    limit: u64,
)
    requires
        0 <= i < entries.len() <= usize::MAX,
        inserted_at(entries[i].value@) == Some(inserted),
    ensures
        now > inserted + limit * NSEC_PER_SEC ==> expired_before(
            entries,
            entries.len() as int,
            now,
            limit,
        ).contains(i as usize),
        now <= inserted + limit * NSEC_PER_SEC ==> !expired_before(
            entries,
            entries.len() as int,
            now,
            limit,
        ).contains(i as usize),
{
    lemma_sweep_exact(entries, entries.len() as int, now, limit);
    let swept = expired_before(entries, entries.len() as int, now, limit);
    if swept.contains(i as usize) {
        let k = choose|k: int| 0 <= k < swept.len() && swept[k] == i as usize;
        assert(expired(entries[swept[k] as int].value@, now, limit));
    }
}

} // verus!
