//! The wire form of ring records: exact bytes, exact offsets, both ways.
use io_ring::abi::{decode_cqe, decode_sqe, encode_cqe, encode_sqe, CQE_SIZE, SQE_SIZE};
use io_ring::opcode::{Cancel, Nop, Poll, Read, RegisterBuffers, RegisterFiles, Write};

#[test]
fn nop_encodes_to_zeroed_record_with_its_code() {
    let e = Nop::new().build();
    let bytes = encode_sqe(&e);
    assert_eq!(bytes.len(), SQE_SIZE);
    assert_eq!(bytes[0], 0); // operation code 0
    for b in bytes.iter() {
        assert_eq!(*b, 0);
    }
}

#[test]
fn read_encodes_every_field_at_its_offset() {
    let e = Read::new(0x1122334455667788, 0x99aabbccddeeff00, 0x01020304, 0x1020304050607080, 5)
        .build()
        .user_data(0x4142434445464748)
        .flags(0x0a0b0c0d);
    let bytes = encode_sqe(&e);
    assert_eq!(bytes.len(), 0x40);
    // operation code, little endian, at 0
    assert_eq!(&bytes[0..4], &[1, 0, 0, 0]);
    // flags at 4
    assert_eq!(&bytes[4..8], &[0x0d, 0x0c, 0x0b, 0x0a]);
    // user data at 8
    assert_eq!(
        &bytes[8..16],
        &[0x48, 0x47, 0x46, 0x45, 0x44, 0x43, 0x42, 0x41]
    );
    // handle reference at 0x10
    assert_eq!(
        &bytes[16..24],
        &[0x88, 0x77, 0x66, 0x55, 0x44, 0x33, 0x22, 0x11]
    );
    // buffer reference at 0x18
    assert_eq!(
        &bytes[24..32],
        &[0x00, 0xff, 0xee, 0xdd, 0xcc, 0xbb, 0xaa, 0x99]
    );
    // file offset at 0x20
    assert_eq!(
        &bytes[32..40],
        &[0x80, 0x70, 0x60, 0x50, 0x40, 0x30, 0x20, 0x10]
    );
    // length at 0x28
    assert_eq!(&bytes[40..44], &[0x04, 0x03, 0x02, 0x01]);
    // operation flags at 0x2c
    assert_eq!(&bytes[44..48], &[5, 0, 0, 0]);
    // reserved tail zeroed
    for b in bytes[50..].iter() {
        assert_eq!(*b, 0);
    }
}

#[test]
fn personality_sits_at_its_offset() {
    let e = Nop::new().build().personality(0x0102);
    let bytes = encode_sqe(&e);
    assert_eq!(&bytes[48..50], &[0x02, 0x01]);
}

#[test]
fn negative_op_code_survives_the_wire() {
    let mut e = Nop::new().build();
    e.op_code = -3;
    let bytes = encode_sqe(&e);
    let back = decode_sqe(&bytes).unwrap();
    assert_eq!(back.op_code, -3);
}

#[test]
fn sqe_decode_inverts_encode() {
    let e = Write::new(3, 4, 5, 6, 7)
        .build()
        .user_data(8)
        .flags(9)
        .personality(10);
    let bytes = encode_sqe(&e);
    assert_eq!(decode_sqe(&bytes), Some(e));
}

#[test]
fn sqe_decode_rejects_wrong_length() {
    let e = Nop::new().build();
    let mut bytes = encode_sqe(&e);
    bytes.pop();
    assert_eq!(decode_sqe(&bytes), None);
    assert_eq!(decode_sqe(&Vec::new()), None);
}

#[test]
fn cqe_encodes_every_field_at_its_offset() {
    let e = io_ring::cqueue::Entry {
        result: -2,
        information: 0x0102030405060708,
        user_data: 0x1112131415161718,
    };
    let bytes = encode_cqe(&e);
    assert_eq!(bytes.len(), CQE_SIZE);
    // result code, signed, little endian, at 0
    assert_eq!(&bytes[0..4], &[0xfe, 0xff, 0xff, 0xff]);
    // reserved at 4
    assert_eq!(&bytes[4..8], &[0, 0, 0, 0]);
    // information at 8
    assert_eq!(
        &bytes[8..16],
        &[0x08, 0x07, 0x06, 0x05, 0x04, 0x03, 0x02, 0x01]
    );
    // user data at 0x10
    assert_eq!(
        &bytes[16..24],
        &[0x18, 0x17, 0x16, 0x15, 0x14, 0x13, 0x12, 0x11]
    );
}

#[test]
fn cqe_decode_inverts_encode() {
    let e = io_ring::cqueue::Entry {
        result: 77,
        information: 3,
        user_data: u64::MAX,
    };
    let bytes = encode_cqe(&e);
    assert_eq!(decode_cqe(&bytes), Some(e));
    let mut short = bytes.clone();
    short.pop();
    assert_eq!(decode_cqe(&short), None);
}

#[test]
fn builders_set_their_opcodes() {
    assert_eq!(Nop::new().build().op_code, io_ring::opcode::OP_NOP);
    assert_eq!(Read::new(1, 2, 3, 4, 0).build().op_code, io_ring::opcode::OP_READ);
    assert_eq!(Write::new(1, 2, 3, 4, 0).build().op_code, io_ring::opcode::OP_WRITE);
    assert_eq!(
        RegisterFiles::new(1, 2, 0, 0, 0).build().op_code,
        io_ring::opcode::OP_REGISTER_FILES
    );
    assert_eq!(
        RegisterBuffers::new(1, 1, 0, 0, 0).build().op_code,
        io_ring::opcode::OP_REGISTER_BUFFERS
    );
    assert_eq!(Cancel::new(1, 0).build().op_code, io_ring::opcode::OP_CANCEL);
    assert_eq!(Poll::new(1, 2, 0).build().op_code, io_ring::opcode::OP_POLL);
}

#[test]
fn register_files_packs_its_flag_words() {
    let e = RegisterFiles::new(0x1000, 2, 0x0000_0003, 0x0000_0004, 0).build();
    assert_eq!(e.handle, 0x1000);
    assert_eq!(e.length, 2);
    // required word low, advisory word high
    assert_eq!(e.offset, 0x0000_0004_0000_0003);
    let bytes = encode_sqe(&e);
    assert_eq!(&bytes[32..40], &[3, 0, 0, 0, 4, 0, 0, 0]);
}

#[test]
fn register_buffers_uses_the_buffer_reference() {
    let e = RegisterBuffers::new(0x2000, 1, 0, 0, 6).build();
    assert_eq!(e.buffer, 0x2000);
    assert_eq!(e.handle, 0);
    assert_eq!(e.length, 1);
    assert_eq!(e.op_flags, 6);
}

#[test]
fn poll_carries_its_event_mask() {
    let e = Poll::new(12, 0x55, 0).build();
    assert_eq!(e.handle, 12);
    assert_eq!(e.length, 0x55);
}

#[test]
fn entry_setters_touch_only_their_field() {
    let base = Read::new(1, 2, 3, 4, 5).build();
    let with_ud = base.user_data(0xfeed);
    assert_eq!(with_ud.user_data, 0xfeed);
    assert_eq!(with_ud.handle, 1);
    assert_eq!(with_ud.buffer, 2);
    assert_eq!(with_ud.length, 3);
    assert_eq!(with_ud.offset, 4);
    assert_eq!(with_ud.op_flags, 5);
    let with_flags = with_ud.flags(7);
    assert_eq!(with_flags.flags, 7);
    assert_eq!(with_flags.user_data, 0xfeed);
}
