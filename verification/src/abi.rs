//! The wire form of ring records: the bit-exact, little-endian layout in
//! which entries occupy their ring slots.
//!
//! A submission entry is 0x40 bytes: operation code (4 bytes), flags (4),
//! user data (8), then the 0x30-byte operation-specific payload - handle
//! reference (8), buffer reference (8), offset (8), length (4), operation
//! flags (4), personality (2), reserved zeros (14).
//!
//! A completion entry is 0x18 bytes: result code (4 bytes, signed),
//! reserved (4), information (8, pointer-width widened), user data (8).
use crate::{cqueue, squeue};
use vstd::prelude::*;

verus! {

/// Size in bytes of one submission entry on the wire.
pub const SQE_SIZE: usize = 0x40;

/// Size in bytes of one completion entry on the wire.
pub const CQE_SIZE: usize = 0x18;

/// Byte `i` of the little-endian form of `x`.
pub open spec fn le_byte(x: u64, i: int) -> u8
    recommends
        0 <= i < 8,
{
    ((x >> ((8 * i) as u64)) & 0xff) as u8
}

/// The 8 bytes of `x`, least significant first.
pub open spec fn le64(x: u64) -> Seq<u8> {
    Seq::new(8, |i: int| le_byte(x, i))
}

/// The 4 bytes of `x`, least significant first.
pub open spec fn le32(x: u32) -> Seq<u8> {
    Seq::new(4, |i: int| le_byte(x as u64, i))
}

/// The 2 bytes of `x`, least significant first.
pub open spec fn le16(x: u16) -> Seq<u8> {
    Seq::new(2, |i: int| le_byte(x as u64, i))
}

/// The value whose little-endian form the first 8 of the bytes `s` are.
pub open spec fn u64_of_bytes(s: Seq<u8>) -> u64
    recommends
        s.len() >= 8,
{
    (s[0] as u64) | ((s[1] as u64) << 8u64) | ((s[2] as u64) << 16u64) | ((s[3] as u64) << 24u64)
        | ((s[4] as u64) << 32u64) | ((s[5] as u64) << 40u64) | ((s[6] as u64) << 48u64) | ((
    s[7] as u64) << 56u64)
}

/// The value whose little-endian form the first 4 of the bytes `s` are.
pub open spec fn u32_of_bytes(s: Seq<u8>) -> u32
    recommends
        s.len() >= 4,
{
    (s[0] as u32) | ((s[1] as u32) << 8u32) | ((s[2] as u32) << 16u32) | ((s[3] as u32) << 24u32)
}

/// The value whose little-endian form the first 2 of the bytes `s` are.
pub open spec fn u16_of_bytes(s: Seq<u8>) -> u16
    recommends
        s.len() >= 2,
{
    (s[0] as u16) | ((s[1] as u16) << 8u16)
}

/// Recomposing the little-endian bytes of a 64-bit value gives the value
/// back.
pub proof fn lemma_le64_round_trip(x: u64)
    ensures
        u64_of_bytes(le64(x)) == x,
{
    let b0 = (x >> 0u64) & 0xff;
    let b1 = (x >> 8u64) & 0xff;
    let b2 = (x >> 16u64) & 0xff;
    let b3 = (x >> 24u64) & 0xff;
    let b4 = (x >> 32u64) & 0xff;
    let b5 = (x >> 40u64) & 0xff;
    let b6 = (x >> 48u64) & 0xff;
    let b7 = (x >> 56u64) & 0xff;
    assert(b0 < 256 && b1 < 256 && b2 < 256 && b3 < 256 && b4 < 256 && b5 < 256 && b6 < 256 && b7
        < 256) by (bit_vector)
        requires
            b0 == (x >> 0u64) & 0xff && b1 == (x >> 8u64) & 0xff && b2 == (x >> 16u64) & 0xff && b3
                == (x >> 24u64) & 0xff && b4 == (x >> 32u64) & 0xff && b5 == (x >> 40u64) & 0xff
                && b6 == (x >> 48u64) & 0xff && b7 == (x >> 56u64) & 0xff,
    ;
    assert(le64(x)[0] == b0 as u8 && le64(x)[1] == b1 as u8 && le64(x)[2] == b2 as u8 && le64(
        x,
    )[3] == b3 as u8 && le64(x)[4] == b4 as u8 && le64(x)[5] == b5 as u8 && le64(x)[6] == b6 as u8
        && le64(x)[7] == b7 as u8);
    assert(b0 | (b1 << 8u64) | (b2 << 16u64) | (b3 << 24u64) | (b4 << 32u64) | (b5 << 40u64) | (b6
        << 48u64) | (b7 << 56u64) == x) by (bit_vector)
        requires
            b0 == (x >> 0u64) & 0xff && b1 == (x >> 8u64) & 0xff && b2 == (x >> 16u64) & 0xff && b3
                == (x >> 24u64) & 0xff && b4 == (x >> 32u64) & 0xff && b5 == (x >> 40u64) & 0xff
                && b6 == (x >> 48u64) & 0xff && b7 == (x >> 56u64) & 0xff,
    ;
}

/// Recomposing the little-endian bytes of a 32-bit value gives the value
/// back.
pub proof fn lemma_le32_round_trip(x: u32)
    ensures
        u32_of_bytes(le32(x)) == x,
{
    let w = x as u64;
    let b0 = (w >> 0u64) & 0xff;
    let b1 = (w >> 8u64) & 0xff;
    let b2 = (w >> 16u64) & 0xff;
    let b3 = (w >> 24u64) & 0xff;
    assert(b0 < 256 && b1 < 256 && b2 < 256 && b3 < 256) by (bit_vector)
        requires
            b0 == (w >> 0u64) & 0xff && b1 == (w >> 8u64) & 0xff && b2 == (w >> 16u64) & 0xff && b3
                == (w >> 24u64) & 0xff,
    ;
    assert(le32(x)[0] == b0 as u8 && le32(x)[1] == b1 as u8 && le32(x)[2] == b2 as u8 && le32(
        x,
    )[3] == b3 as u8);
    assert((b0 as u32) | ((b1 as u32) << 8u32) | ((b2 as u32) << 16u32) | ((b3 as u32) << 24u32)
        == x) by (bit_vector)
        requires
            w == x as u64 && b0 == (w >> 0u64) & 0xff && b1 == (w >> 8u64) & 0xff && b2 == (w
                >> 16u64) & 0xff && b3 == (w >> 24u64) & 0xff,
    ;
}

/// Recomposing the little-endian bytes of a 16-bit value gives the value
/// back.
pub proof fn lemma_le16_round_trip(x: u16)
    ensures
        u16_of_bytes(le16(x)) == x,
{
    let w = x as u64;
    let b0 = (w >> 0u64) & 0xff;
    let b1 = (w >> 8u64) & 0xff;
    assert(b0 < 256 && b1 < 256) by (bit_vector)
        requires
            b0 == (w >> 0u64) & 0xff && b1 == (w >> 8u64) & 0xff,
    ;
    assert(le16(x)[0] == b0 as u8 && le16(x)[1] == b1 as u8);
    assert((b0 as u16) | ((b1 as u16) << 8u16) == x) by (bit_vector)
        requires
            w == x as u64 && b0 == (w >> 0u64) & 0xff && b1 == (w >> 8u64) & 0xff,
    ;
}

/// Casting a 32-bit operation code through its unsigned form and back
/// gives the code back.
pub proof fn lemma_op_code_round_trip(x: i32)
    ensures
        ((x as u32) as i32) == x,
{
    assert(((x as u32) as i32) == x) by (bit_vector);
}

/// Append the 8 little-endian bytes of `x`.
fn push_le64(out: &mut Vec<u8>, x: u64)
    ensures
        final(out)@ == old(out)@ + le64(x),
{
    out.push(((x >> 0u64) & 0xff) as u8);
    out.push(((x >> 8u64) & 0xff) as u8);
    out.push(((x >> 16u64) & 0xff) as u8);
    out.push(((x >> 24u64) & 0xff) as u8);
    out.push(((x >> 32u64) & 0xff) as u8);
    out.push(((x >> 40u64) & 0xff) as u8);
    out.push(((x >> 48u64) & 0xff) as u8);
    out.push(((x >> 56u64) & 0xff) as u8);
    proof {
        assert(out@ =~= old(out)@ + le64(x));
    }
}

/// Append the 4 little-endian bytes of `x`.
fn push_le32(out: &mut Vec<u8>, x: u32)
    ensures
        final(out)@ == old(out)@ + le32(x),
{
    let w = x as u64;
    out.push(((w >> 0u64) & 0xff) as u8);
    out.push(((w >> 8u64) & 0xff) as u8);
    out.push(((w >> 16u64) & 0xff) as u8);
    out.push(((w >> 24u64) & 0xff) as u8);
    proof {
        assert(out@ =~= old(out)@ + le32(x));
    }
}

/// Append the 2 little-endian bytes of `x`.
fn push_le16(out: &mut Vec<u8>, x: u16)
    ensures
        final(out)@ == old(out)@ + le16(x),
{
    let w = x as u64;
    out.push(((w >> 0u64) & 0xff) as u8);
    out.push(((w >> 8u64) & 0xff) as u8);
    proof {
        assert(out@ =~= old(out)@ + le16(x));
    }
}

/// The exact wire form of a submission entry.
pub open spec fn sqe_bytes(e: squeue::Entry) -> Seq<u8> {
    le32(e.op_code as u32) + le32(e.flags) + le64(e.user_data) + le64(e.handle) + le64(e.buffer)
        + le64(e.offset) + le32(e.length) + le32(e.op_flags) + le16(e.personality) + Seq::new(
        14,
        |i: int| 0u8,
    )
}

/// The exact wire form of a completion entry.
pub open spec fn cqe_bytes(e: cqueue::Entry) -> Seq<u8> {
    le32(e.result as u32) + Seq::new(4, |i: int| 0u8) + le64(e.information as u64) + le64(
        e.user_data,
    )
}

/// Encode a submission entry into its 0x40-byte wire form.
pub fn encode_sqe(e: &squeue::Entry) -> (out: Vec<u8>)
    ensures
        out@ == sqe_bytes(*e),
        out@.len() == SQE_SIZE,
{
    let mut out: Vec<u8> = Vec::new();
    push_le32(&mut out, e.op_code as u32);
    push_le32(&mut out, e.flags);
    push_le64(&mut out, e.user_data);
    push_le64(&mut out, e.handle);
    push_le64(&mut out, e.buffer);
    push_le64(&mut out, e.offset);
    push_le32(&mut out, e.length);
    push_le32(&mut out, e.op_flags);
    push_le16(&mut out, e.personality);
    let mut i: usize = 0;
    while i < 14
        invariant
            out@.len() == 50 + i,
            i <= 14,
            out@ == sqe_bytes(*e).take(50 + i as int),
        decreases 14 - i,
    {
        out.push(0u8);
        proof {
            assert(out@ =~= sqe_bytes(*e).take(50 + i + 1));
        }
        i = i + 1;
    }
    proof {
        assert(sqe_bytes(*e).take(64) =~= sqe_bytes(*e));
    }
    out
}

/// Encode a completion entry into its 0x18-byte wire form.
pub fn encode_cqe(e: &cqueue::Entry) -> (out: Vec<u8>)
    ensures
        out@ == cqe_bytes(*e),
        out@.len() == CQE_SIZE,
{
    let mut out: Vec<u8> = Vec::new();
    push_le32(&mut out, e.result as u32);
    out.push(0u8);
    out.push(0u8);
    out.push(0u8);
    out.push(0u8);
    push_le64(&mut out, e.information as u64);
    push_le64(&mut out, e.user_data);
    proof {
        assert(out@ =~= cqe_bytes(*e));
    }
    out
}

/// Read the 8 little-endian bytes at `at`.
fn read_le64(b: &Vec<u8>, at: usize) -> (r: u64)
    requires
        at + 8 <= b@.len(),
    ensures
        r == u64_of_bytes(b@.skip(at as int)),
{
    let total = b.len();
    proof {
        assert(at + 8 <= total);
    }
    let r = (b[at] as u64) | ((b[at + 1] as u64) << 8u64) | ((b[at + 2] as u64) << 16u64) | ((b[at
        + 3] as u64) << 24u64) | ((b[at + 4] as u64) << 32u64) | ((b[at + 5] as u64) << 40u64) | ((
    b[at + 6] as u64) << 48u64) | ((b[at + 7] as u64) << 56u64);
    proof {
        assert(b@.skip(at as int)[0] == b@[at as int]);
    }
    r
}

/// Read the 4 little-endian bytes at `at`.
fn read_le32(b: &Vec<u8>, at: usize) -> (r: u32)
    requires
        at + 4 <= b@.len(),
    ensures
        r == u32_of_bytes(b@.skip(at as int)),
{
    let total = b.len();
    proof {
        assert(at + 4 <= total);
    }
    let r = (b[at] as u32) | ((b[at + 1] as u32) << 8u32) | ((b[at + 2] as u32) << 16u32) | ((b[at
        + 3] as u32) << 24u32);
    proof {
        assert(b@.skip(at as int)[0] == b@[at as int]);
    }
    r
}

/// Read the 2 little-endian bytes at `at`.
fn read_le16(b: &Vec<u8>, at: usize) -> (r: u16)
    requires
        at + 2 <= b@.len(),
    ensures
        r == u16_of_bytes(b@.skip(at as int)),
{
    let total = b.len();
    proof {
        assert(at + 2 <= total);
    }
    let r = (b[at] as u16) | ((b[at + 1] as u16) << 8u16);
    proof {
        assert(b@.skip(at as int)[0] == b@[at as int]);
    }
    r
}

/// The submission entry whose wire form the 0x40 bytes `s` are; the
/// reserved tail bytes carry nothing.
pub open spec fn sqe_of_bytes(s: Seq<u8>) -> squeue::Entry
    recommends
        s.len() == SQE_SIZE,
{
    squeue::Entry {
        op_code: u32_of_bytes(s.skip(0)) as i32,
        flags: u32_of_bytes(s.skip(4)),
        user_data: u64_of_bytes(s.skip(8)),
        handle: u64_of_bytes(s.skip(16)),
        buffer: u64_of_bytes(s.skip(24)),
        offset: u64_of_bytes(s.skip(32)),
        length: u32_of_bytes(s.skip(40)),
        op_flags: u32_of_bytes(s.skip(44)),
        personality: u16_of_bytes(s.skip(48)),
    }
}

/// Decode a submission entry from its wire form; anything but 0x40 bytes
/// is rejected.
pub fn decode_sqe(b: &Vec<u8>) -> (r: Option<squeue::Entry>)
    ensures
        r is Some <==> b@.len() == SQE_SIZE,
        b@.len() == SQE_SIZE ==> r == Some(sqe_of_bytes(b@)),
{
    if b.len() != SQE_SIZE {
        return None;
    }
    Some(
        squeue::Entry {
            op_code: read_le32(b, 0) as i32,
            flags: read_le32(b, 4),
            user_data: read_le64(b, 8),
            handle: read_le64(b, 16),
            buffer: read_le64(b, 24),
            offset: read_le64(b, 32),
            length: read_le32(b, 40),
            op_flags: read_le32(b, 44),
            personality: read_le16(b, 48),
        },
    )
}

/// The completion entry whose wire form the 0x18 bytes `s` are, as long
/// as its information field fits the pointer width.
pub open spec fn cqe_of_bytes(s: Seq<u8>) -> cqueue::Entry
    recommends
        s.len() == CQE_SIZE,
        u64_of_bytes(s.skip(8)) <= usize::MAX,
{
    cqueue::Entry {
        result: u32_of_bytes(s.skip(0)) as i32,
        information: u64_of_bytes(s.skip(8)) as usize,
        user_data: u64_of_bytes(s.skip(16)),
    }
}

/// Decode a completion entry from its wire form; anything but 0x18 bytes,
/// or an information field beyond the pointer width, is rejected.
pub fn decode_cqe(b: &Vec<u8>) -> (r: Option<cqueue::Entry>)
    ensures
        r is Some <==> (b@.len() == CQE_SIZE && u64_of_bytes(b@.skip(8)) <= usize::MAX),
        r is Some ==> r == Some(cqe_of_bytes(b@)),
{
    if b.len() != CQE_SIZE {
        return None;
    }
    let information = read_le64(b, 8);
    if information > usize::MAX as u64 {
        return None;
    }
    Some(
        cqueue::Entry {
            result: read_le32(b, 0) as i32,
            information: information as usize,
            user_data: read_le64(b, 16),
        },
    )
}

/// Encoding a submission entry and decoding the bytes gives the entry
/// back: the wire form carries every field exactly.
pub proof fn lemma_sqe_round_trip(e: squeue::Entry)
    ensures
        sqe_bytes(e).len() == SQE_SIZE,
        sqe_of_bytes(sqe_bytes(e)) == e,
{
    let s = sqe_bytes(e);
    assert(s.skip(0) =~= le32(e.op_code as u32) + (s.skip(4)));
    assert forall|i: int| 0 <= i < 4 implies s.skip(0)[i] == le32(e.op_code as u32)[i] by {}
    lemma_le32_round_trip(e.op_code as u32);
    assert(u32_of_bytes(s.skip(0)) == e.op_code as u32);
    lemma_op_code_round_trip(e.op_code);
    assert forall|i: int| 0 <= i < 4 implies s.skip(4)[i] == le32(e.flags)[i] by {}
    lemma_le32_round_trip(e.flags);
    assert(u32_of_bytes(s.skip(4)) == e.flags);
    assert forall|i: int| 0 <= i < 8 implies s.skip(8)[i] == le64(e.user_data)[i] by {}
    lemma_le64_round_trip(e.user_data);
    assert(u64_of_bytes(s.skip(8)) == e.user_data);
    assert forall|i: int| 0 <= i < 8 implies s.skip(16)[i] == le64(e.handle)[i] by {}
    lemma_le64_round_trip(e.handle);
    assert(u64_of_bytes(s.skip(16)) == e.handle);
    assert forall|i: int| 0 <= i < 8 implies s.skip(24)[i] == le64(e.buffer)[i] by {}
    lemma_le64_round_trip(e.buffer);
    assert(u64_of_bytes(s.skip(24)) == e.buffer);
    assert forall|i: int| 0 <= i < 8 implies s.skip(32)[i] == le64(e.offset)[i] by {}
    lemma_le64_round_trip(e.offset);
    assert(u64_of_bytes(s.skip(32)) == e.offset);
    assert forall|i: int| 0 <= i < 4 implies s.skip(40)[i] == le32(e.length)[i] by {}
    lemma_le32_round_trip(e.length);
    assert(u32_of_bytes(s.skip(40)) == e.length);
    assert forall|i: int| 0 <= i < 4 implies s.skip(44)[i] == le32(e.op_flags)[i] by {}
    lemma_le32_round_trip(e.op_flags);
    assert(u32_of_bytes(s.skip(44)) == e.op_flags);
    assert forall|i: int| 0 <= i < 2 implies s.skip(48)[i] == le16(e.personality)[i] by {}
    lemma_le16_round_trip(e.personality);
    assert(u16_of_bytes(s.skip(48)) == e.personality);
}

/// Encoding a completion entry and decoding the bytes gives the entry
/// back: the wire form carries every field exactly.
pub proof fn lemma_cqe_round_trip(e: cqueue::Entry)
    ensures
        cqe_bytes(e).len() == CQE_SIZE,
        cqe_of_bytes(cqe_bytes(e)) == e,
{
    let s = cqe_bytes(e);
    assert forall|i: int| 0 <= i < 4 implies s.skip(0)[i] == le32(e.result as u32)[i] by {}
    lemma_le32_round_trip(e.result as u32);
    assert(u32_of_bytes(s.skip(0)) == e.result as u32);
    lemma_op_code_round_trip(e.result);
    assert forall|i: int| 0 <= i < 8 implies s.skip(8)[i] == le64(e.information as u64)[i] by {}
    lemma_le64_round_trip(e.information as u64);
    assert(u64_of_bytes(s.skip(8)) == e.information as u64);
    assert forall|i: int| 0 <= i < 8 implies s.skip(16)[i] == le64(e.user_data)[i] by {}
    lemma_le64_round_trip(e.user_data);
    assert(u64_of_bytes(s.skip(16)) == e.user_data);
}

} // verus!
