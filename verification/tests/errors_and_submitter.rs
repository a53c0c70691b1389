//! The error taxonomy, the direct-slot path, and the registration and
//! copy drivers.
use io_ring::opcode::Nop;
use io_ring::{IoRing, RingError};

#[test]
fn creation_rejects_bad_entry_counts() {
    assert_eq!(IoRing::new(0).err(), Some(RingError::InvalidEntries));
    assert_eq!(IoRing::new(3).err(), Some(RingError::InvalidEntries));
    assert_eq!(IoRing::new(6).err(), Some(RingError::InvalidEntries));
    assert_eq!(IoRing::new(u32::MAX).err(), Some(RingError::InvalidEntries));
    // a power of two, but past what the ring can be built with
    assert_eq!(
        IoRing::new(0x8000_0000).err(),
        Some(RingError::InvalidEntries)
    );
    assert!(IoRing::new(1).is_ok());
    assert!(IoRing::new(1024).is_ok());
}

#[test]
fn os_error_carries_its_code() {
    let e = RingError::Os(-22);
    assert_eq!(e, RingError::Os(-22));
    assert_ne!(e, RingError::Os(5));
    assert_ne!(e, RingError::NoSpaceLeft);
}

#[test]
fn get_sqe_hands_out_slots_until_none_is_left() {
    let mut ring = IoRing::new(2).unwrap();
    let (submitter, sq, _cq) = ring.split();
    let first = submitter.get_sqe(sq).unwrap();
    let second = submitter.get_sqe(sq).unwrap();
    assert_ne!(first, second);
    assert_eq!(submitter.sq_space_left(sq), 0);
    assert_eq!(submitter.get_sqe(sq).err(), Some(RingError::NoSpaceLeft));
}

#[test]
fn direct_slot_path_round_trip() {
    // Acquire a raw slot, fill it in place, run the ring: the filled
    // entry is what completes.
    let mut ring = IoRing::new(4).unwrap();
    let (submitter, sq, cq) = ring.split();
    let slot = submitter.get_sqe(sq).unwrap();
    sq.write_slot(slot, &Nop::new().build().user_data(0x77));
    submitter.submit_and_wait(sq, cq, 1, usize::MAX).unwrap();
    cq.sync();
    let done = cq.next().unwrap();
    assert_eq!(done.user_data(), 0x77);
}

#[test]
fn register_files_bufs_runs_a_full_cycle() {
    let mut ring = IoRing::new(4).unwrap();
    let (submitter, sq, cq) = ring.split();
    let done = submitter.register_files_bufs(sq, cq, 0xa000, 0xb000).unwrap();
    // both registration requests were answered
    assert_eq!(done.len(), 2);
    assert!(done.iter().all(|e| e.result() >= 0));
    assert_eq!(sq.len(), 0);
    assert_eq!(cq.len(), 0);
    // the two entries were encoded into the ring slots
    let slots = sq.entries();
    assert_eq!(slots.len(), 0); // nothing counts as occupied any more
    // and again: the cycle left room for the next one
    let again = submitter.register_read_write(sq, cq, 0xa000, 0xb000).unwrap();
    assert_eq!(again.len(), 2);
}

#[test]
fn register_files_bufs_needs_two_slots() {
    let mut ring = IoRing::new(1).unwrap();
    let (submitter, sq, cq) = ring.split();
    assert_eq!(
        submitter.register_files_bufs(sq, cq, 1, 2).err(),
        Some(RingError::NoSpaceLeft)
    );
}

#[test]
fn queue_read_write_pair_queues_both_halves() {
    let mut ring = IoRing::new(4).unwrap();
    let (submitter, sq, _cq) = ring.split();
    submitter.queue_read_write_pair(sq, 0x8000, 512).unwrap();
    let entries = sq.entries();
    assert_eq!(entries.len(), 2);
    assert_eq!(entries[0].op_code, io_ring::opcode::OP_READ);
    assert_eq!(entries[0].handle, 0); // registered in-file
    assert_eq!(entries[0].length, 512);
    assert_eq!(entries[0].offset, 0x8000);
    assert_eq!(entries[1].op_code, io_ring::opcode::OP_WRITE);
    assert_eq!(entries[1].handle, 1); // registered out-file
    assert_eq!(entries[1].length, 512);
    assert_eq!(entries[1].offset, 0x8000);
}

#[test]
fn queue_read_write_pair_is_all_or_nothing() {
    let mut ring = IoRing::new(2).unwrap();
    let (submitter, sq, _cq) = ring.split();
    sq.push(&Nop::new().build()).unwrap();
    let before = sq.len();
    assert_eq!(
        submitter.queue_read_write_pair(sq, 0, 16).err(),
        Some(RingError::NoSpaceLeft)
    );
    assert_eq!(sq.len(), before);
}

#[test]
fn copy_file_covers_blocks_and_remainder() {
    let mut ring = IoRing::new(4).unwrap();
    let (submitter, sq, cq) = ring.split();
    // more than two blocks plus a remainder, on a small ring
    let bs = io_ring::submit::BLOCK_SIZE as u64;
    let size = bs * 3 + 100;
    let log = submitter.copy_file(sq, cq, size).unwrap();
    assert_eq!(sq.len(), 0);
    assert_eq!(cq.len(), 0);
    // the submission log: one read/write pair per block, offsets tiling
    // the file, the remainder last
    assert_eq!(log.len(), 8);
    let mut covered: u64 = 0;
    for (i, e) in log.iter().enumerate() {
        let j = (i / 2) as u64;
        if i % 2 == 0 {
            assert_eq!(e.op_code, io_ring::opcode::OP_READ);
            assert_eq!(e.handle, 0);
            covered += e.length as u64;
        } else {
            assert_eq!(e.op_code, io_ring::opcode::OP_WRITE);
            assert_eq!(e.handle, 1);
        }
        assert_eq!(e.offset, j * bs);
        let expected_len = if j < 3 { bs } else { 100 };
        assert_eq!(e.length as u64, expected_len);
    }
    assert_eq!(covered, size);
}

#[test]
fn copy_file_of_nothing_is_a_no_op() {
    let mut ring = IoRing::new(4).unwrap();
    let (submitter, sq, cq) = ring.split();
    let log = submitter.copy_file(sq, cq, 0).unwrap();
    assert!(log.is_empty());
    assert_eq!(sq.len(), 0);
}

#[test]
fn copy_file_needs_room_for_a_pair() {
    let mut ring = IoRing::new(1).unwrap();
    let (submitter, sq, cq) = ring.split();
    assert_eq!(
        submitter.copy_file(sq, cq, 10).err(),
        Some(RingError::NoSpaceLeft)
    );
}

#[test]
fn submit_returns_the_pending_count() {
    let mut ring = IoRing::new(4).unwrap();
    ring.submission().push(&Nop::new().build()).unwrap();
    ring.submission().sync();
    // the synchronous completer leaves nothing pending
    assert_eq!(ring.submit().unwrap(), 0);
    assert_eq!(ring.submit_and_wait(0).unwrap(), 0);
}

#[test]
fn submitter_holds_the_wait_handle() {
    let ring = IoRing::new(4).unwrap();
    let submitter = ring.submitter();
    assert_eq!(submitter.handle, ring.info().handle);
}
