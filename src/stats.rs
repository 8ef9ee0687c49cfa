use std::sync::atomic::{AtomicU64, Ordering};
use std::time::{Duration, Instant};
use vstd::prelude::*;

verus! {

#[verifier::external_type_specification]
#[verifier::external_body]
pub struct ExInstant(Instant);

/// Relies on `Instant::now`: the current monotonic time. Nothing is known of it.
#[verifier::external_body]
fn instant_now() -> (r: Instant) {
    Instant::now()
}

/// Relies on `Instant::elapsed`: the wall time since `t`. Nothing is known of it.
#[verifier::external_body]
fn elapsed_since(t: &Instant) -> (r: Duration) {
    t.elapsed()
}

/// Relies on `Instant::duration_since`: the time from `earlier` to `later`,
/// zero where `later` is not later. Nothing is known of it.
#[verifier::external_body]
fn duration_between(earlier: &Instant, later: &Instant) -> (r: Duration) {
    later.duration_since(*earlier)
}

/// Relies on `Duration::as_millis`: the whole milliseconds of `d`. Nothing
/// is known of it.
#[verifier::external_body]
fn duration_millis(d: &Duration) -> (r: u128) {
    d.as_millis()
}

/// Minimum time between two flushes of a worker's buffered counts.
pub const FLUSH_INTERVAL_MS: u128 = 100;

/// A point-in-time copy of the shared counters.
#[derive(Debug, Clone, Copy)]
pub struct StatsSnapshot {
    pub entries_total: u64,
    pub entries_done: u64,
    pub bytes_total: u64,
    pub bytes_done: u64,
    pub elapsed: Duration,
}

/// Process-wide progress counters, incremented concurrently by the workers.
/// The counters only grow; readers see each one consistently but not all of
/// them at one instant.
#[derive(Debug)]
pub struct SharedStats {
    pub entries_total: AtomicU64,
    pub entries_done: AtomicU64,
    pub bytes_total: AtomicU64,
    pub bytes_done: AtomicU64,
    pub start_time: Instant,
}

/// Counts a worker has gathered and not yet published.
#[derive(Debug, Clone, Copy, PartialEq, Eq, Structural)]
pub struct PendingCounts {
    pub entries_discovered: u64,
    pub entries_completed: u64,
    pub bytes_discovered: u64,
    pub bytes_completed: u64,
}

impl StatsSnapshot {
    /// Whether every entry found so far has been digested.
    pub fn is_complete(&self) -> (r: bool)
        ensures
            r == (self.entries_done >= self.entries_total),
    {
        self.entries_done >= self.entries_total
    }
}

impl PendingCounts {
    pub open spec fn zero() -> PendingCounts {
        PendingCounts {
            entries_discovered: 0,
            entries_completed: 0,
            bytes_discovered: 0,
            bytes_completed: 0,
        }
    }
}

impl SharedStats {
    /// Fresh counters; the entry total starts at 1 so that a progress
    /// display never shows an empty bar before the root is listed.
    pub fn new() -> (r: Self) {
        SharedStats {
            entries_total: AtomicU64::new(1),
            entries_done: AtomicU64::new(0),
            bytes_total: AtomicU64::new(0),
            bytes_done: AtomicU64::new(0),
            start_time: instant_now(),
        }
    }

    pub fn snapshot(&self) -> (r: StatsSnapshot) {
        StatsSnapshot {
            entries_total: self.entries_total.load(Ordering::Relaxed),
            entries_done: self.entries_done.load(Ordering::Relaxed),
            bytes_total: self.bytes_total.load(Ordering::Relaxed),
            bytes_done: self.bytes_done.load(Ordering::Relaxed),
            elapsed: elapsed_since(&self.start_time),
        }
    }

    fn _add_entries(&self, count: u64) {
        self.entries_total.fetch_add(count, Ordering::Relaxed);
    }

    fn _complete_entries(&self, count: u64) {
        self.entries_done.fetch_add(count, Ordering::Relaxed);
    }

    fn _add_bytes(&self, count: u64) {
        self.bytes_total.fetch_add(count, Ordering::Relaxed);
    }

    fn _complete_bytes(&self, count: u64) {
        self.bytes_done.fetch_add(count, Ordering::Relaxed);
    }

    /// Adds each non-zero pending count to its shared counter.
    pub fn publish(&self, p: PendingCounts) {
        if p.entries_discovered > 0 {
            self._add_entries(p.entries_discovered);
        }
        if p.entries_completed > 0 {
            self._complete_entries(p.entries_completed);
        }
        if p.bytes_discovered > 0 {
            self._add_bytes(p.bytes_discovered);
        }
        if p.bytes_completed > 0 {
            self._complete_bytes(p.bytes_completed);
        }
    }

    /// Records `count` newly discovered entries in the worker's buffer `local`.
    pub fn add_entries(&self, local: &mut LocalStats, count: u64)
        ensures
            (final(local).pending == (PendingCounts {
                entries_discovered: old(local).pending.entries_discovered.wrapping_add(count),
                ..old(local).pending
            }) && final(local).last_flush == old(local).last_flush) || final(local).pending
                == PendingCounts::zero(),
    {
        local.pending.entries_discovered = local.pending.entries_discovered.wrapping_add(count);
        local.maybe_flush(self);
    }

    /// Records `count` completed entries in the worker's buffer `local`.
    pub fn done_entries(&self, local: &mut LocalStats, count: u64)
        ensures
            (final(local).pending == (PendingCounts {
                entries_completed: old(local).pending.entries_completed.wrapping_add(count),
                ..old(local).pending
            }) && final(local).last_flush == old(local).last_flush) || final(local).pending
                == PendingCounts::zero(),
    {
        local.pending.entries_completed = local.pending.entries_completed.wrapping_add(count);
        local.maybe_flush(self);
    }

    /// Records `count` newly discovered bytes in the worker's buffer `local`.
    pub fn add_bytes(&self, local: &mut LocalStats, count: u64)
        ensures
            (final(local).pending == (PendingCounts {
                bytes_discovered: old(local).pending.bytes_discovered.wrapping_add(count),
                ..old(local).pending
            }) && final(local).last_flush == old(local).last_flush) || final(local).pending
                == PendingCounts::zero(),
    {
        local.pending.bytes_discovered = local.pending.bytes_discovered.wrapping_add(count);
        local.maybe_flush(self);
    }

    /// Records `count` hashed bytes in the worker's buffer `local`.
    pub fn done_bytes(&self, local: &mut LocalStats, count: u64)
        ensures
            (final(local).pending == (PendingCounts {
                bytes_completed: old(local).pending.bytes_completed.wrapping_add(count),
                ..old(local).pending
            }) && final(local).last_flush == old(local).last_flush) || final(local).pending
                == PendingCounts::zero(),
    {
        local.pending.bytes_completed = local.pending.bytes_completed.wrapping_add(count);
        local.maybe_flush(self);
    }
}

/// One worker's buffer of counts, published to the shared counters at most
/// once per flush interval.
#[derive(Debug)]
pub struct LocalStats {
    pub pending: PendingCounts,
    pub last_flush: Instant,
}

impl LocalStats {
    pub fn new() -> (r: Self)
        ensures
            r.pending == PendingCounts::zero(),
    {
        LocalStats {
            pending: PendingCounts {
                entries_discovered: 0,
                entries_completed: 0,
                bytes_discovered: 0,
                bytes_completed: 0,
            },
            last_flush: instant_now(),
        }
    }

    /// Hands out the buffered counts, empties the buffer and takes `now` as
    /// the time of the last flush when at least the flush interval has passed
    /// since the last flush (`elapsed_ms`); otherwise keeps everything.
    pub fn take_if_due(&mut self, elapsed_ms: u128, now: Instant) -> (r: Option<PendingCounts>)
        ensures
            elapsed_ms >= FLUSH_INTERVAL_MS ==> r == Some(old(self).pending)
                && final(self).pending == PendingCounts::zero() && final(self).last_flush == now,
            elapsed_ms < FLUSH_INTERVAL_MS ==> r == None::<PendingCounts>
                && final(self).pending == old(self).pending && final(self).last_flush
                == old(self).last_flush,
    {
        if elapsed_ms >= FLUSH_INTERVAL_MS {
            self.last_flush = now;
            let p = self.pending;
            self.pending = PendingCounts {
                entries_discovered: 0,
                entries_completed: 0,
                bytes_discovered: 0,
                bytes_completed: 0,
            };
            Some(p)
        } else {
            None
        }
    }

    /// Publishes all buffered counts to `stats` now, whatever the time.
    pub fn flush(&mut self, stats: &SharedStats)
        ensures
            final(self).pending == PendingCounts::zero(),
    {
        let now = instant_now();
        match self.take_if_due(FLUSH_INTERVAL_MS, now) {
            Some(p) => {
                stats.publish(p);
            },
            None => {},
        }
    }

    /// Publishes the buffered counts to `stats` when the flush interval has
    /// passed since the last flush, and then restarts the interval.
    pub fn maybe_flush(&mut self, stats: &SharedStats)
        ensures
            (final(self).pending == old(self).pending && final(self).last_flush
                == old(self).last_flush) || final(self).pending == PendingCounts::zero(),
    {
        let now = instant_now();
        let elapsed = duration_millis(&duration_between(&self.last_flush, &now));
        match self.take_if_due(elapsed, now) {
            Some(p) => {
                stats.publish(p);
            },
            None => {},
        }
    }
}

} // verus!
