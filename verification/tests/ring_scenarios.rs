//! Whole-ring rounds: submission, execution by a scripted environment,
//! and completion delivery.
use io_ring::opcode::{Cancel, Nop, Read};
use io_ring::IoRing;

#[test]
fn nop_round_trip() {
    // One no-op through a 32-entry ring: exactly one completion, the user
    // data echoed, a non-negative result.
    let mut ring = IoRing::new(32).unwrap();
    let entry = Nop::new().build().user_data(0x42);
    ring.submission().push(&entry).unwrap();
    ring.submission().sync();
    ring.submit_and_wait(1).unwrap();
    let cq = ring.completion();
    cq.sync();
    let done = cq.next().expect("one completion");
    assert_eq!(done.user_data(), 0x42);
    assert!(done.result() >= 0);
    assert!(cq.next().is_none());
}

#[test]
fn full_ring_recovers_after_drain_and_sync() {
    // Capacity 4: four pushes fill the ring, the fifth fails; after the
    // ring runs and the queue is synchronized, pushing works again.
    let mut ring = IoRing::new(4).unwrap();
    for i in 0..4u64 {
        ring.submission()
            .push(&Nop::new().build().user_data(i))
            .unwrap();
    }
    assert!(ring
        .submission()
        .push(&Nop::new().build().user_data(4))
        .is_err());
    ring.submission().sync();
    ring.submit_and_wait(1).unwrap();
    let drained = ring.completion().clear_cqes();
    assert!(drained.len() >= 1);
    ring.submission().sync();
    ring.submission()
        .push(&Nop::new().build().user_data(4))
        .unwrap();
    assert_eq!(ring.submission().len(), 1);
}

#[test]
fn user_data_round_trip_for_every_entry() {
    let mut ring = IoRing::new(8).unwrap();
    let payload = [7u64, 1, 0xdead_beef, u64::MAX, 3];
    for &ud in payload.iter() {
        ring.submission()
            .push(&Nop::new().build().user_data(ud))
            .unwrap();
    }
    ring.submission().sync();
    ring.submit_and_wait(payload.len() as u32).unwrap();
    let drained = ring.completion().clear_cqes();
    assert_eq!(drained.len(), payload.len());
    for (i, done) in drained.iter().enumerate() {
        assert_eq!(done.user_data(), payload[i]);
    }
}

#[test]
fn read_round_trip_with_scripted_environment() {
    // A read of length 5 at offset 0 from a file of known content into a
    // big-enough buffer: the environment (this test) copies the bytes and
    // reports the count; the completion carries length and user data.
    let file: Vec<u8> = b"ring read contents".to_vec();
    let mut buffer = vec![0u8; 64];
    let length: u32 = 5;

    let mut ring = IoRing::new(4).unwrap();
    let entry = Read::new(7, 9, length, 0, 0).build().user_data(0x11);
    ring.submission().push(&entry).unwrap();
    ring.submission().sync();

    // the environment takes the submission and executes it
    let sqe = ring.submission().consume().expect("one submission");
    assert_eq!(sqe.op_code, io_ring::opcode::OP_READ);
    assert_eq!(sqe.handle, 7);
    assert_eq!(sqe.buffer, 9);
    let wanted = sqe.length as usize;
    let at = sqe.offset as usize;
    let available = file.len().saturating_sub(at);
    let moved = wanted.min(available);
    buffer[..moved].copy_from_slice(&file[at..at + moved]);
    let posted = ring.completion().post(io_ring::cqueue::Entry {
        result: moved as i32,
        information: 0,
        user_data: sqe.user_data,
    });
    assert!(posted);

    let cq = ring.completion();
    cq.sync();
    let done = cq.next().expect("read completion");
    assert_eq!(done.user_data(), 0x11);
    assert_eq!(done.result(), length as i32);
    assert_eq!(&buffer[..length as usize], &file[..length as usize]);
}

#[test]
fn cancel_yields_two_completions() {
    // A pending read and a cancel that targets its handle: the read
    // completes with a cancellation code, the cancel itself with success.
    let mut ring = IoRing::new(4).unwrap();
    let read = Read::new(5, 9, 100, 0, 0).build().user_data(1);
    let cancel = Cancel::new(5, 0).build().user_data(2);
    ring.submission().push(&read).unwrap();
    ring.submission().push(&cancel).unwrap();
    ring.submission().sync();

    // the environment: the read is cancelled before any byte moves, the
    // cancel request itself succeeds
    let read_sqe = ring.submission().consume().unwrap();
    assert_eq!(read_sqe.op_code, io_ring::opcode::OP_READ);
    let cancel_sqe = ring.submission().consume().unwrap();
    assert_eq!(cancel_sqe.op_code, io_ring::opcode::OP_CANCEL);
    assert_eq!(cancel_sqe.handle, read_sqe.handle);
    assert!(ring.completion().post(io_ring::cqueue::Entry {
        result: -125,
        information: 0,
        user_data: read_sqe.user_data,
    }));
    assert!(ring.completion().post(io_ring::cqueue::Entry {
        result: 0,
        information: 0,
        user_data: cancel_sqe.user_data,
    }));

    let drained = ring.completion().clear_cqes();
    assert_eq!(drained.len(), 2);
    let read_done = drained.iter().find(|e| e.user_data() == 1).unwrap();
    let cancel_done = drained.iter().find(|e| e.user_data() == 2).unwrap();
    assert!(read_done.result() < 0);
    assert!(cancel_done.result() >= 0);
}

#[test]
fn completions_drop_when_cq_is_full() {
    // Capacity 2, so the completion ring holds 4: a fifth unacknowledged
    // completion is dropped rather than overwriting.
    let mut ring = IoRing::new(2).unwrap();
    for round in 0..2u64 {
        for i in 0..2u64 {
            ring.submission()
                .push(&Nop::new().build().user_data(round * 2 + i))
                .unwrap();
        }
        ring.submission().sync();
        ring.submit_and_wait(0).unwrap();
        ring.submission().sync();
    }
    // four unacknowledged completions fill the completion ring
    ring.submission()
        .push(&Nop::new().build().user_data(99))
        .unwrap();
    ring.submission().sync();
    ring.submit_and_wait(0).unwrap();
    let drained = ring.completion().clear_cqes();
    assert_eq!(drained.len(), 4);
    assert!(drained.iter().all(|e| e.user_data() != 99));
}

#[test]
fn split_gives_all_three_parts() {
    let mut ring = IoRing::new(4).unwrap();
    let (submitter, sq, cq) = ring.split();
    sq.push(&Nop::new().build().user_data(3)).unwrap();
    sq.sync();
    let pending = submitter.submit_and_wait(sq, cq, 1, usize::MAX).unwrap();
    assert_eq!(pending, 0);
    cq.sync();
    assert_eq!(cq.next().unwrap().user_data(), 3);
}

#[test]
fn submitter_reports_shared_occupancy() {
    let mut ring = IoRing::new(4).unwrap();
    let (submitter, sq, _cq) = ring.split();
    assert_eq!(submitter.sq_space_left(sq), 4);
    sq.push(&Nop::new().build()).unwrap();
    // not yet published
    assert_eq!(submitter.sq_space_left(sq), 4);
    sq.sync();
    assert_eq!(submitter.sq_space_left(sq), 3);
}

#[test]
fn info_records_the_geometry() {
    let ring = IoRing::new(32).unwrap();
    let info = ring.info();
    assert_eq!(info.submission_queue_size, 32);
    assert_eq!(info.completion_queue_size, 64);
    assert_eq!(info.submission_ring_mask, 31);
    assert_eq!(info.completion_ring_mask, 63);
}

#[test]
fn wraparound_keeps_the_protocol_going() {
    // Many rounds on a tiny ring: the cursors wrap within 32 bits and the
    // accounting stays exact.
    let mut ring = IoRing::new(2).unwrap();
    for round in 0..50u64 {
        ring.submission()
            .push(&Nop::new().build().user_data(round))
            .unwrap();
        ring.submission().sync();
        ring.submit_and_wait(1).unwrap();
        let drained = ring.completion().clear_cqes();
        assert_eq!(drained.len(), 1);
        assert_eq!(drained[0].user_data(), round);
        ring.submission().sync();
        assert_eq!(ring.submission().len(), 0);
    }
}
