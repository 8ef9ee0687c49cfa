use fdsum::stats::{LocalStats, PendingCounts, SharedStats};
use std::time::Duration;

#[test]
fn fresh_counters() {
    let s = SharedStats::new();
    let snap = s.snapshot();
    assert_eq!(snap.entries_total, 1);
    assert_eq!(snap.entries_done, 0);
    assert_eq!(snap.bytes_total, 0);
    assert_eq!(snap.bytes_done, 0);
}

#[test]
fn publish_adds_to_shared_counters() {
    let s = SharedStats::new();
    s.publish(PendingCounts { entries_discovered: 4, entries_completed: 2, bytes_discovered: 10, bytes_completed: 0 });
    s.publish(PendingCounts { entries_discovered: 0, entries_completed: 3, bytes_discovered: 0, bytes_completed: 7 });
    let snap = s.snapshot();
    assert_eq!(snap.entries_total, 5);
    assert_eq!(snap.entries_done, 5);
    assert_eq!(snap.bytes_total, 10);
    assert_eq!(snap.bytes_done, 7);
}

#[test]
fn buffer_kept_until_interval() {
    let mut l = LocalStats::new();
    l.pending.entries_discovered = 3;
    let before = l.last_flush;
    let later = before + Duration::from_millis(500);
    assert_eq!(l.take_if_due(99, later), None);
    assert_eq!(l.pending.entries_discovered, 3);
    assert_eq!(l.last_flush, before);
    let p = l.take_if_due(100, later).unwrap();
    assert_eq!(l.last_flush, later);
    assert_eq!(p.entries_discovered, 3);
    assert_eq!(l.pending, PendingCounts { entries_discovered: 0, entries_completed: 0, bytes_discovered: 0, bytes_completed: 0 });
}

#[test]
fn recording_buffers_or_flushes() {
    let s = SharedStats::new();
    let mut l = LocalStats::new();
    s.add_entries(&mut l, 2);
    s.done_entries(&mut l, 1);
    s.add_bytes(&mut l, 5);
    s.done_bytes(&mut l, 5);
    l.maybe_flush(&s);
    let snap = s.snapshot();
    let published = snap.entries_total - 1 + snap.entries_done + snap.bytes_total + snap.bytes_done;
    let buffered = l.pending.entries_discovered + l.pending.entries_completed + l.pending.bytes_discovered + l.pending.bytes_completed;
    assert_eq!(published + buffered, 13);
}

#[test]
fn flush_publishes_everything() {
    let s = SharedStats::new();
    let mut l = LocalStats::new();
    l.pending = PendingCounts { entries_discovered: 2, entries_completed: 3, bytes_discovered: 4, bytes_completed: 5 };
    l.flush(&s);
    assert_eq!(l.pending, PendingCounts { entries_discovered: 0, entries_completed: 0, bytes_discovered: 0, bytes_completed: 0 });
    let snap = s.snapshot();
    assert_eq!(snap.entries_total, 3);
    assert_eq!(snap.entries_done, 3);
    assert_eq!(snap.bytes_total, 4);
    assert_eq!(snap.bytes_done, 5);
}

#[test]
fn completion_detected() {
    let s = SharedStats::new();
    assert!(!s.snapshot().is_complete());
    s.publish(PendingCounts { entries_discovered: 0, entries_completed: 1, bytes_discovered: 0, bytes_completed: 0 });
    assert!(s.snapshot().is_complete());
}
