//! Cursor arithmetic for power-of-two rings.
//!
//! A ring is a fixed array of `size` slots addressed by two free-running
//! 32-bit cursors, `head` and `tail`.  Cursors advance without bound and wrap
//! modulo 2^32; a cursor `c` addresses slot `c & (size - 1)`, which equals
//! `c % size` because `size` is a power of two.  The wrapping distance
//! `tail - head` is the number of occupied slots and never exceeds `size`.
use vstd::arithmetic::div_mod::{
    lemma_fundamental_div_mod_converse, lemma_mod_division_less_than_divisor,
    lemma_mod_equivalence, lemma_mod_mod, lemma_mod_multiples_basic, lemma_mod_self_0,
    lemma_small_mod,
};
use vstd::arithmetic::power::pow;
use vstd::arithmetic::power2::{
    is_pow2, is_pow2_equiv, lemma2_to64, lemma_pow2, lemma_pow2_adds,
    lemma_pow2_pos, lemma_pow2_strictly_increases, pow2,
};
use vstd::bits::lemma_u32_low_bits_mask_is_mod;
use vstd::prelude::*;

verus! {

/// Number of distinct values a 32-bit ring cursor can take; cursors wrap at
/// this span.
pub const CURSOR_SPAN: u64 = 0x1_0000_0000;

/// A valid ring size: a power of two, so that slot addressing by the low
/// bits agrees with addressing modulo the size and the cursor span is a
/// multiple of the size.
pub open spec fn size_ok(size: u32) -> bool {
    is_pow2(size as int)
}

/// The wrapping distance from cursor `head` forward to cursor `tail`: how
/// many slots lie in the half-open cursor window `[head, tail)`.
pub open spec fn occupancy(head: u32, tail: u32) -> int {
    if tail >= head {
        tail - head
    } else {
        tail - head + CURSOR_SPAN
    }
}

/// Cursor `c` advanced by `i` steps, wrapping at the cursor span.
pub open spec fn cursor_add(c: u32, i: int) -> u32
    recommends
        0 <= i,
{
    ((c + i) % (CURSOR_SPAN as int)) as u32
}

/// The slot a cursor addresses in a ring of `size` slots.
pub open spec fn slot_index(c: u32, size: u32) -> int
    recommends
        1 <= size,
{
    (c % size) as int
}

/// The `count` records that begin at cursor `head`, oldest first.
pub open spec fn stretch<T>(slots: Seq<T>, head: u32, count: int, size: u32) -> Seq<T>
    recommends
        0 <= count,
        slots.len() == size,
        size_ok(size),
{
    Seq::new(count as nat, |i: int| slots[slot_index(cursor_add(head, i), size)])
}

/// A valid ring size is at least 1.
pub proof fn lemma_size_pos(size: u32)
    requires
        size_ok(size),
    ensures
        1 <= size,
{
    is_pow2_equiv(size as int);
    let k = choose|i: nat| pow(2, i) == size as int;
    vstd::arithmetic::power::lemma_pow_positive(2, k);
}

/// The exponent of a valid ring size: the `k` with `2^k == size`.
proof fn size_exponent(size: u32) -> (k: nat)
    requires
        size_ok(size),
    ensures
        pow2(k) == size,
        k < 32,
{
    is_pow2_equiv(size as int);
    let k = choose|i: nat| pow(2, i) == size as int;
    lemma_pow2(k);
    if k >= 32 {
        lemma2_to64();
        if k > 32 {
            lemma_pow2_strictly_increases(32, k);
        }
        assert(pow2(k) >= 0x1_0000_0000);
    }
    k
}

/// The double of a valid ring size that still fits a 32-bit count is a
/// valid ring size.
pub proof fn lemma_size_double(size: u32)
    requires
        size_ok(size),
        size <= 0x4000_0000,
    ensures
        size_ok((2 * size) as u32),
{
    lemma_size_pos(size);
    reveal(is_pow2);
    assert((2 * size) % 2 == 0);
    assert((2 * size) / 2 == size as int);
}

/// A valid ring size leaves room for at least two sizes in the cursor span:
/// the largest power of two a 32-bit count can hold is 2^31.
pub proof fn lemma_size_bound(size: u32)
    requires
        size_ok(size),
    ensures
        1 <= size <= 0x8000_0000,
{
    lemma_size_pos(size);
    let k = size_exponent(size);
    if k < 31 {
        lemma_pow2_strictly_increases(k, 31);
    }
    lemma2_to64();
}

/// Addressing a cursor's slot by masking with `size - 1` is the same as
/// reducing the cursor modulo `size`, because `size` is a power of two.
pub proof fn lemma_mask_is_mod(c: u32, size: u32)
    requires
        size_ok(size),
    ensures
        (c & (size - 1) as u32) == slot_index(c, size),
{
    let k = size_exponent(size);
    lemma_pow2_pos(k);
    lemma_u32_low_bits_mask_is_mod(c, k);
}

/// A power-of-two ring size divides the cursor span evenly.
pub proof fn lemma_size_divides_span(size: u32)
    requires
        size_ok(size),
    ensures
        (CURSOR_SPAN as int) % (size as int) == 0,
{
    let k = size_exponent(size);
    lemma_pow2_pos(k);
    lemma_pow2_adds(k, (32 - k) as nat);
    lemma_pow2_pos((32 - k) as nat);
    lemma2_to64();
    let a = pow2((32 - k) as nat) as int;
    assert(k + ((32 - k) as nat) == 32);
    assert(pow2(32) == pow2(k) * pow2((32 - k) as nat));
    vstd::arithmetic::mul::lemma_mul_is_commutative(size as int, a);
    assert(CURSOR_SPAN as int == a * (size as int));
    lemma_mod_multiples_basic(a, size as int);
}

/// Advancing a cursor and then taking its slot is the same as advancing the
/// slot number modulo the size: the wrap at the cursor span is invisible to
/// slot addressing.
pub proof fn lemma_slot_of_advanced(base: u32, i: int, size: u32)
    requires
        size_ok(size),
        0 <= i,
    ensures
        slot_index(cursor_add(base, i), size) == (base + i) % (size as int),
        0 <= slot_index(cursor_add(base, i), size) < size,
{
    let span = CURSOR_SPAN as int;
    let s = size as int;
    lemma_size_pos(size);
    lemma_size_divides_span(size);
    let k = span / s;
    vstd::arithmetic::div_mod::lemma_fundamental_div_mod(span, s);
    assert(span == k * s);
    vstd::arithmetic::div_mod::lemma_div_non_zero(span, s);
    lemma_mod_division_less_than_divisor(base + i, span);
    assert(cursor_add(base, i) as int == (base + i) % span);
    lemma_mod_mod(base + i, s, k);
    assert(((base + i) % (s * k)) % s == (base + i) % s);
    assert(s * k == span);
    lemma_mod_division_less_than_divisor(base + i, s);
}

/// Two cursors less than one ring revolution apart address distinct slots.
pub proof fn lemma_distinct_slots(base: u32, i: int, j: int, size: u32)
    requires
        size_ok(size),
        0 <= i < j,
        j - i < size,
    ensures
        slot_index(cursor_add(base, i), size) != slot_index(cursor_add(base, j), size),
{
    let s = size as int;
    lemma_size_pos(size);
    lemma_slot_of_advanced(base, i, size);
    lemma_slot_of_advanced(base, j, size);
    if (base + i) % s == (base + j) % s {
        lemma_mod_equivalence(base + j, base + i, s);
        assert((base + j - (base + i)) % s == 0);
        lemma_small_mod((j - i) as nat, s as nat);
        assert((j - i) % s == j - i);
    }
}

/// Advancing the tail cursor by one extends the window by one slot.
pub proof fn lemma_occupancy_grow(head: u32, tail: u32)
    requires
        occupancy(head, tail) < CURSOR_SPAN - 1,
    ensures
        occupancy(head, cursor_add(tail, 1)) == occupancy(head, tail) + 1,
{
    let span = CURSOR_SPAN as int;
    if tail + 1 < span {
        lemma_small_mod((tail + 1) as nat, span as nat);
    } else {
        lemma_mod_self_0(span);
    }
}

/// Advancing the head cursor by one shrinks a non-empty window by one slot.
pub proof fn lemma_occupancy_shrink(head: u32, tail: u32)
    requires
        1 <= occupancy(head, tail),
    ensures
        occupancy(cursor_add(head, 1), tail) == occupancy(head, tail) - 1,
{
    let span = CURSOR_SPAN as int;
    if head + 1 < span {
        lemma_small_mod((head + 1) as nat, span as nat);
    } else {
        lemma_mod_self_0(span);
    }
}

/// Wrapping distances over a chain of cursors add up, as long as the total
/// stays under one cursor revolution.
pub proof fn lemma_occupancy_sum(x: u32, y: u32, z: u32)
    requires
        occupancy(x, y) + occupancy(y, z) < CURSOR_SPAN,
    ensures
        occupancy(x, z) == occupancy(x, y) + occupancy(y, z),
{
}

/// A cursor advanced by zero steps is itself.
pub proof fn lemma_cursor_add_zero(c: u32)
    ensures
        cursor_add(c, 0) == c,
{
    lemma_small_mod(c as nat, CURSOR_SPAN as nat);
}

/// Advancing a cursor twice is advancing it by the sum of the steps.
pub proof fn lemma_cursor_add_assoc(c: u32, a: int, b: int)
    requires
        0 <= a,
        0 <= b,
    ensures
        cursor_add(cursor_add(c, a), b) == cursor_add(c, a + b),
{
    let span = CURSOR_SPAN as int;
    lemma_mod_division_less_than_divisor(c + a, span);
    vstd::arithmetic::div_mod::lemma_add_mod_noop_right(b, c + a, span);
    assert(cursor_add(c, a) as int == (c + a) % span);
    assert((b + ((c + a) % span)) % span == (b + (c + a)) % span);
}

/// A cursor advanced by the window's occupancy is the window's other end.
pub proof fn lemma_advance_to_tail(head: u32, tail: u32)
    ensures
        cursor_add(head, occupancy(head, tail)) == tail,
{
    let span = CURSOR_SPAN as int;
    let n = occupancy(head, tail);
    if head + n < span {
        lemma_small_mod((head + n) as nat, span as nat);
    } else {
        lemma_fundamental_div_mod_converse(head + n, span, 1, tail as int);
    }
}

/// The wrapping distance from `head` forward to `tail`, computed without
/// overflow.
pub fn cursor_distance(head: u32, tail: u32) -> (r: u32)
    ensures
        r as int == occupancy(head, tail),
{
    if tail >= head {
        tail - head
    } else {
        tail + (u32::MAX - head) + 1
    }
}

/// The cursor one step past `c`, wrapping at the cursor span.
pub fn cursor_bump(c: u32) -> (r: u32)
    ensures
        r == cursor_add(c, 1),
{
    proof {
        if c < u32::MAX {
            lemma_small_mod((c + 1) as nat, CURSOR_SPAN as nat);
        } else {
            lemma_mod_self_0(CURSOR_SPAN as int);
        }
    }
    if c == u32::MAX {
        0
    } else {
        c + 1
    }
}

/// Between one power of two and its double lies no other power of two.
proof fn lemma_pow2_gap(p: int, x: int)
    requires
        is_pow2(p),
        is_pow2(x),
        p < x,
    ensures
        x >= 2 * p,
{
    is_pow2_equiv(p);
    is_pow2_equiv(x);
    let b = choose|i: nat| pow(2, i) == p;
    let a = choose|i: nat| pow(2, i) == x;
    lemma_pow2(b);
    lemma_pow2(a);
    if a <= b {
        if a < b {
            lemma_pow2_strictly_increases(a, b);
        }
        assert(x <= p);
    }
    lemma_pow2_adds(b, 1);
    lemma2_to64();
    if b + 1 < a {
        lemma_pow2_strictly_increases(b + 1, a);
    }
    assert(pow2(b + 1) == 2 * p);
}

/// Whether `x` is a valid ring size: a power of two.
pub fn is_valid_size(x: u32) -> (b: bool)
    ensures
        b == size_ok(x),
{
    if x == 0 {
        proof {
            reveal(is_pow2);
        }
        return false;
    }
    let mut p: u32 = 1;
    proof {
        reveal(is_pow2);
    }
    loop
        invariant
            is_pow2(p as int),
            1 <= p <= x,
        decreases x - p,
    {
        if p == x {
            return true;
        }
        if p > x / 2 {
            proof {
                if size_ok(x) {
                    lemma_pow2_gap(p as int, x as int);
                }
            }
            return false;
        }
        p = p * 2;
        proof {
            reveal(is_pow2);
        }
    }
}

/// Writing at the slot `d` steps past `base` leaves any window of at most
/// `d` records starting at `base` unchanged, as long as the write stays
/// within one revolution.
pub proof fn lemma_stretch_write_preserved<T>(
    slots: Seq<T>,
    base: u32,
    count: int,
    d: int,
    e: T,
    size: u32,
)
    requires
        size_ok(size),
        slots.len() == size,
        0 <= count <= d < size,
    ensures
        stretch(slots.update(slot_index(cursor_add(base, d), size), e), base, count, size)
            == stretch(slots, base, count, size),
{
    lemma_size_pos(size);
    lemma_slot_of_advanced(base, d, size);
    let written = slots.update(slot_index(cursor_add(base, d), size), e);
    assert forall|i: int| 0 <= i < count implies stretch(written, base, count, size)[i] == stretch(
        slots,
        base,
        count,
        size,
    )[i] by {
        lemma_slot_of_advanced(base, i, size);
        lemma_distinct_slots(base, i, d, size);
    }
    assert(stretch(written, base, count, size) =~= stretch(slots, base, count, size));
}

/// Writing at the slot `d` steps past `base` extends the `d`-record window
/// at `base` by that record.
pub proof fn lemma_stretch_extend<T>(slots: Seq<T>, base: u32, d: int, e: T, size: u32)
    requires
        size_ok(size),
        slots.len() == size,
        0 <= d < size,
    ensures
        stretch(slots.update(slot_index(cursor_add(base, d), size), e), base, d + 1, size)
            == stretch(slots, base, d, size).push(e),
{
    lemma_size_pos(size);
    lemma_slot_of_advanced(base, d, size);
    let written = slots.update(slot_index(cursor_add(base, d), size), e);
    assert forall|i: int| 0 <= i < d + 1 implies stretch(written, base, d + 1, size)[i] == stretch(
        slots,
        base,
        d,
        size,
    ).push(e)[i] by {
        lemma_slot_of_advanced(base, i, size);
        if i < d {
            lemma_distinct_slots(base, i, d, size);
        }
    }
    assert(stretch(written, base, d + 1, size) =~= stretch(slots, base, d, size).push(e));
}

/// A window that starts `a` steps into a larger window is the matching
/// piece of the larger window.
pub proof fn lemma_stretch_shift<T>(slots: Seq<T>, base: u32, a: int, count: int, size: u32)
    requires
        size_ok(size),
        slots.len() == size,
        0 <= a,
        0 <= count,
    ensures
        stretch(slots, cursor_add(base, a), count, size) == stretch(
            slots,
            base,
            a + count,
            size,
        ).subrange(a, a + count),
{
    lemma_size_pos(size);
    assert forall|i: int| 0 <= i < count implies stretch(slots, cursor_add(base, a), count, size)[i]
        == stretch(slots, base, a + count, size).subrange(a, a + count)[i] by {
        lemma_cursor_add_assoc(base, a, i);
    }
    assert(stretch(slots, cursor_add(base, a), count, size) =~= stretch(
        slots,
        base,
        a + count,
        size,
    ).subrange(a, a + count));
}

/// The slot array after the records `es` are written, in order, into the
/// consecutive slots that begin at cursor `base`.
pub open spec fn write_window<T>(slots: Seq<T>, base: u32, es: Seq<T>, size: u32) -> Seq<T>
    recommends
        slots.len() == size,
        size_ok(size),
    decreases es.len(),
{
    if es.len() == 0 {
        slots
    } else {
        write_window(slots, base, es.drop_last(), size).update(
            slot_index(cursor_add(base, es.len() - 1), size),
            es.last(),
        )
    }
}

/// Writing a window never changes how many slots there are.
pub proof fn lemma_write_window_len<T>(slots: Seq<T>, base: u32, es: Seq<T>, size: u32)
    requires
        size_ok(size),
        slots.len() == size,
    ensures
        write_window(slots, base, es, size).len() == slots.len(),
    decreases es.len(),
{
    if es.len() > 0 {
        lemma_write_window_len(slots, base, es.drop_last(), size);
        lemma_slot_of_advanced(base, es.len() - 1, size);
    }
}

/// Writing one more record extends the written window by one update.
pub proof fn lemma_write_window_step<T>(slots: Seq<T>, base: u32, es: Seq<T>, i: int, size: u32)
    requires
        0 <= i < es.len(),
    ensures
        write_window(slots, base, es.take(i + 1), size) == write_window(
            slots,
            base,
            es.take(i),
            size,
        ).update(slot_index(cursor_add(base, i), size), es[i]),
{
    assert(es.take(i + 1).drop_last() =~= es.take(i));
    assert(es.take(i + 1).last() == es[i]);
}

/// A window splits at any interior point into the window up to it and the
/// window from it on.
pub proof fn lemma_stretch_concat<T>(slots: Seq<T>, base: u32, a: int, b: int, size: u32)
    requires
        size_ok(size),
        slots.len() == size,
        0 <= a,
        0 <= b,
    ensures
        stretch(slots, base, a + b, size) == stretch(slots, base, a, size) + stretch(
            slots,
            cursor_add(base, a),
            b,
            size,
        ),
{
    lemma_size_pos(size);
    assert forall|i: int| 0 <= i < a + b implies stretch(slots, base, a + b, size)[i] == (stretch(
        slots,
        base,
        a,
        size,
    ) + stretch(slots, cursor_add(base, a), b, size))[i] by {
        if i >= a {
            lemma_cursor_add_assoc(base, a, i - a);
        }
    }
    assert(stretch(slots, base, a + b, size) =~= stretch(slots, base, a, size) + stretch(
        slots,
        cursor_add(base, a),
        b,
        size,
    ));
}


} // verus!
