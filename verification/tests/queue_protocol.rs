//! The queue engines: occupancy accounting, bounded pushes, snapshot
//! iteration, and synchronization.
use io_ring::opcode::Nop;
use io_ring::IoRing;

fn nop_with(user_data: u64) -> io_ring::squeue::Entry {
    Nop::new().build().user_data(user_data)
}

#[test]
fn fresh_ring_is_empty() {
    let mut ring = IoRing::new(8).unwrap();
    let sq = ring.submission();
    assert_eq!(sq.capacity(), 8);
    assert_eq!(sq.len(), 0);
    assert!(sq.is_empty());
    assert!(!sq.is_full());
    let cq = ring.completion();
    assert_eq!(cq.capacity(), 16);
    assert_eq!(cq.len(), 0);
    assert!(cq.is_empty());
    assert!(!cq.is_full());
}

#[test]
fn len_counts_pushes_after_sync() {
    // Any run of n pushes, then a synchronization: the queue counts n, and
    // is full exactly when n reaches the capacity.
    for n in 0..5u64 {
        let mut ring = IoRing::new(4).unwrap();
        let sq = ring.submission();
        for i in 0..n {
            sq.push(&nop_with(i)).unwrap();
        }
        sq.sync();
        assert_eq!(sq.len(), n as usize);
        assert_eq!(sq.is_full(), n == 4);
        assert_eq!(sq.is_empty(), n == 0);
    }
}

#[test]
fn push_on_full_queue_changes_nothing() {
    let mut ring = IoRing::new(4).unwrap();
    let sq = ring.submission();
    for i in 0..4u64 {
        sq.push(&nop_with(i)).unwrap();
    }
    assert!(sq.is_full());
    let before = sq.entries();
    assert!(sq.push(&nop_with(99)).is_err());
    assert_eq!(sq.len(), 4);
    assert_eq!(sq.entries(), before);
    // the rejected entry is nowhere in the ring
    for e in sq.entries() {
        assert_ne!(e.user_data, 99);
    }
}

#[test]
fn push_multiple_is_all_or_nothing() {
    let mut ring = IoRing::new(4).unwrap();
    let sq = ring.submission();
    sq.push(&nop_with(1)).unwrap();
    sq.push(&nop_with(2)).unwrap();
    sq.push(&nop_with(3)).unwrap();
    let len_before = sq.len();
    let batch = vec![nop_with(4), nop_with(5)];
    assert!(sq.push_multiple(&batch).is_err());
    assert_eq!(sq.len(), len_before);
    let fitting = vec![nop_with(4)];
    sq.push_multiple(&fitting).unwrap();
    assert_eq!(sq.len(), 4);
    let entries = sq.entries();
    let data: Vec<u64> = entries.iter().map(|e| e.user_data).collect();
    assert_eq!(data, vec![1, 2, 3, 4]);
}

#[test]
fn push_multiple_preserves_order() {
    let mut ring = IoRing::new(8).unwrap();
    let sq = ring.submission();
    let batch = vec![nop_with(10), nop_with(11), nop_with(12)];
    sq.push_multiple(&batch).unwrap();
    let data: Vec<u64> = sq.entries().iter().map(|e| e.user_data).collect();
    assert_eq!(data, vec![10, 11, 12]);
}

#[test]
fn unsynced_pushes_are_not_published() {
    let mut ring = IoRing::new(4).unwrap();
    ring.submission().push(&nop_with(7)).unwrap();
    // no sync: the completer sees nothing
    assert!(!ring.complete_next(0, 0));
    ring.submission().sync();
    assert!(ring.complete_next(0, 0));
}

#[test]
fn cq_snapshot_iteration_is_idempotent() {
    let mut ring = IoRing::new(4).unwrap();
    ring.submission().push(&nop_with(1)).unwrap();
    ring.submission().sync();
    ring.submit_and_wait(1).unwrap();
    let cq = ring.completion();
    cq.sync();
    assert_eq!(cq.len(), 1);
    assert!(cq.next().is_some());
    assert!(cq.next().is_none());
    // nothing new was posted: another sync offers nothing more
    cq.sync();
    assert_eq!(cq.len(), 0);
    assert!(cq.next().is_none());
}

#[test]
fn cq_iteration_stops_at_snapshot() {
    let mut ring = IoRing::new(4).unwrap();
    ring.submission().push(&nop_with(1)).unwrap();
    ring.submission().sync();
    ring.submit_and_wait(1).unwrap();
    ring.completion().sync();
    // a completion posted after the snapshot stays invisible until the
    // next sync
    ring.submission().push(&nop_with(2)).unwrap();
    ring.submission().sync();
    ring.submit_and_wait(1).unwrap();
    let cq = ring.completion();
    assert_eq!(cq.len(), 1);
    assert_eq!(cq.next().unwrap().user_data(), 1);
    assert!(cq.next().is_none());
    cq.sync();
    assert_eq!(cq.next().unwrap().user_data(), 2);
}

#[test]
fn fill_drains_in_fifo_order_up_to_max() {
    let mut ring = IoRing::new(8).unwrap();
    for i in 0..5u64 {
        ring.submission().push(&nop_with(i)).unwrap();
    }
    ring.submission().sync();
    ring.submit_and_wait(5).unwrap();
    let cq = ring.completion();
    cq.sync();
    let mut out = Vec::new();
    let n = cq.fill(&mut out, 3);
    assert_eq!(n, 3);
    let data: Vec<u64> = out.iter().map(|e| e.user_data()).collect();
    assert_eq!(data, vec![0, 1, 2]);
    let mut rest = Vec::new();
    let m = cq.fill(&mut rest, 100);
    assert_eq!(m, 2);
    let data: Vec<u64> = rest.iter().map(|e| e.user_data()).collect();
    assert_eq!(data, vec![3, 4]);
}

#[test]
fn clear_cqes_drains_and_acknowledges() {
    let mut ring = IoRing::new(4).unwrap();
    for i in 0..3u64 {
        ring.submission().push(&nop_with(i)).unwrap();
    }
    ring.submission().sync();
    ring.submit_and_wait(3).unwrap();
    let drained = ring.completion().clear_cqes();
    assert_eq!(drained.len(), 3);
    assert_eq!(drained[0].user_data(), 0);
    assert_eq!(drained[2].user_data(), 2);
    let cq = ring.completion();
    assert_eq!(cq.len(), 0);
    assert!(cq.next().is_none());
}

#[test]
fn sync_observes_consumed_entries() {
    let mut ring = IoRing::new(4).unwrap();
    for i in 0..4u64 {
        ring.submission().push(&nop_with(i)).unwrap();
    }
    ring.submission().sync();
    ring.submit_and_wait(4).unwrap();
    // the stale snapshot still counts the consumed entries
    assert_eq!(ring.submission().len(), 4);
    ring.submission().sync();
    assert_eq!(ring.submission().len(), 0);
    assert!(!ring.submission().is_full());
}
