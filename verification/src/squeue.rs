//! The submission queue: the ring the caller writes I/O requests into.
//!
//! The caller is the producer.  It works on a local snapshot of the two ring
//! cursors: `push` writes a record at the snapshot tail and advances it
//! locally, and only `sync` publishes the new tail to the shared ring (making
//! the records visible to the consumer) and refreshes the cached head (making
//! the consumer's progress visible to the caller).
use crate::ring::{
    cursor_add, cursor_bump, cursor_distance, lemma_advance_to_tail, lemma_cursor_add_zero,
    lemma_mask_is_mod, lemma_occupancy_grow, lemma_occupancy_shrink, lemma_occupancy_sum,
    lemma_size_bound, lemma_size_pos, lemma_stretch_extend, lemma_stretch_shift,
    lemma_stretch_write_preserved, lemma_write_window_step, occupancy, size_ok,
    slot_index, stretch, write_window,
};
use vstd::prelude::*;

verus! {

/// An entry in the submission queue: one I/O request in its fixed-size ring
/// slot form.
///
/// The first three fields are common to every operation; the remaining
/// fields are the operation-specific payload, interpreted according to
/// `op_code`.  Entries are created by the builders in
/// [`opcode`](crate::opcode).
#[derive(Clone, Copy, Debug, PartialEq, Eq, Structural)]
pub struct Entry {
    pub op_code: i32,
    pub flags: u32,
    pub user_data: u64,
    pub handle: u64,
    pub buffer: u64,
    pub length: u32,
    pub offset: u64,
    pub op_flags: u32,
    pub personality: u16,
}

impl Entry {
    /// The all-zero entry: what an unused ring slot holds.
    pub(crate) fn zeroed() -> (e: Entry)
        ensures
            e == (Entry {
                op_code: 0,
                flags: 0,
                user_data: 0,
                handle: 0,
                buffer: 0,
                length: 0,
                offset: 0,
                op_flags: 0,
                personality: 0,
            }),
    {
        Entry {
            op_code: 0,
            flags: 0,
            user_data: 0,
            handle: 0,
            buffer: 0,
            length: 0,
            offset: 0,
            op_flags: 0,
            personality: 0,
        }
    }

    /// Set the entry's flags, common to every operation.
    pub fn flags(self, flags: u32) -> (e: Entry)
        ensures
            e == (Entry { flags, ..self }),
    {
        Entry { flags, ..self }
    }

    /// Set the user data: an opaque value echoed unchanged on the completion
    /// entry of this request, used to correlate requests and results.
    pub fn user_data(self, user_data: u64) -> (e: Entry)
        ensures
            e == (Entry { user_data, ..self }),
    {
        Entry { user_data, ..self }
    }

    /// Set the personality under which the operation runs.
    pub fn personality(self, personality: u16) -> (e: Entry)
        ensures
            e == (Entry { personality, ..self }),
    {
        Entry { personality, ..self }
    }
}

/// The error returned by a push onto a full submission queue.  Recoverable:
/// drain completions, synchronize, and retry.
#[derive(Debug, Clone, PartialEq, Eq, Structural)]
#[non_exhaustive]
pub struct PushError;

/// The shared submission ring memory: the slot array and the two shared
/// cursors.  The consumer advances `head` as it takes records; the producer
/// publishes `tail` to make records visible.
pub struct Inner {
    pub head: u32,
    pub tail: u32,
    pub slots: Vec<Entry>,
    pub ring_mask: u32,
    pub size: u32,
}

impl Inner {
    /// Well-formed ring memory: a power-of-two slot count, the matching
    /// mask, and cursors at most one revolution apart.
    pub open spec fn wf(&self) -> bool {
        &&& size_ok(self.size)
        &&& self.ring_mask == self.size - 1
        &&& self.slots.len() == self.size
        &&& occupancy(self.head, self.tail) <= self.size
    }

    /// The records published to the consumer and not yet taken by it,
    /// oldest first.
    pub open spec fn pending(&self) -> Seq<Entry> {
        stretch(self.slots@, self.head, occupancy(self.head, self.tail), self.size)
    }

    /// Fresh ring memory for `size` slots, all zeroed, with both cursors at
    /// the start.
    pub fn new(size: u32) -> (r: Inner)
        requires
            size_ok(size),
        ensures
            r.wf(),
            r.head == 0,
            r.tail == 0,
            r.size == size,
            r.pending() == Seq::<Entry>::empty(),
    {
        proof {
            lemma_size_pos(size);
        }
        let mut slots: Vec<Entry> = Vec::new();
        let mut i: u32 = 0;
        while i < size
            invariant
                i <= size,
                slots.len() == i,
            decreases size - i,
        {
            slots.push(Entry::zeroed());
            i = i + 1;
        }
        let r = Inner { head: 0, tail: 0, slots, ring_mask: size - 1, size };
        proof {
            assert(r.pending() =~= Seq::<Entry>::empty());
        }
        r
    }
}

/// The caller's working view of the submission queue: the shared ring
/// memory together with a local snapshot of the cursors.
///
/// `head` caches the shared head as of the last synchronization; `tail`
/// counts local pushes that `sync` has not yet published.
pub struct SubmissionQueue {
    pub head: u32,
    pub tail: u32,
    pub queue: Inner,
}

impl SubmissionQueue {
    /// Well-formed view: the ring memory is well-formed and the four
    /// cursors stand in producer order - cached head, then shared head,
    /// then shared tail, then local tail - within one ring's worth.
    pub open spec fn wf(&self) -> bool {
        &&& self.queue.wf()
        &&& occupancy(self.head, self.queue.head) + occupancy(self.queue.head, self.queue.tail)
            + occupancy(self.queue.tail, self.tail) <= self.queue.size
        &&& occupancy(self.head, self.tail) == occupancy(self.head, self.queue.head) + occupancy(
            self.queue.head,
            self.queue.tail,
        ) + occupancy(self.queue.tail, self.tail)
    }

    /// The configured number of ring slots; constant for the ring's
    /// lifetime.
    pub open spec fn spec_capacity(&self) -> int {
        self.queue.size as int
    }

    /// The number of records the view counts as occupying the ring: all
    /// records between the cached head and the local tail.
    pub open spec fn spec_len(&self) -> int {
        occupancy(self.head, self.tail)
    }

    /// The records between the cached head and the local tail, oldest
    /// first: what `len` counts.
    pub open spec fn pending(&self) -> Seq<Entry> {
        stretch(self.queue.slots@, self.head, self.spec_len(), self.queue.size)
    }

    /// A fresh view of fresh ring memory with `size` slots.
    pub(crate) fn with_size(size: u32) -> (r: SubmissionQueue)
        requires
            size_ok(size),
        ensures
            r.wf(),
            r.spec_capacity() == size,
            r.spec_len() == 0,
            r.pending() == Seq::<Entry>::empty(),
            r.queue.pending() == Seq::<Entry>::empty(),
            r.queue.size == size,
    {
        let queue = Inner::new(size);
        let r = SubmissionQueue { head: 0, tail: 0, queue };
        proof {
            assert(r.pending() =~= Seq::<Entry>::empty());
        }
        r
    }

    /// Get the total number of entries in the submission queue ring buffer.
    pub fn capacity(&self) -> (r: usize)
        ensures
            r == self.spec_capacity(),
    {
        self.queue.size as usize
    }

    /// Get the number of submission queue entries in the ring buffer: the
    /// distance from the cached head to the local tail.
    pub fn len(&self) -> (r: usize)
        ensures
            r == self.spec_len(),
    {
        cursor_distance(self.head, self.tail) as usize
    }

    /// Returns `true` if the submission queue ring buffer is empty.
    pub fn is_empty(&self) -> (r: bool)
        ensures
            r == (self.spec_len() == 0),
    {
        self.len() == 0
    }

    /// Returns `true` if the submission queue ring buffer has reached
    /// capacity, and no more entries can be pushed before the consumer
    /// takes some and the view is re-synchronized.
    pub fn is_full(&self) -> (r: bool)
        ensures
            r == (self.spec_len() == self.spec_capacity()),
    {
        self.len() == self.capacity()
    }

    /// Synchronize this view with the shared ring: publish the local tail,
    /// making pushed entries visible to the consumer, and refresh the
    /// cached head, observing the records the consumer has taken since the
    /// last synchronization.
    pub fn sync(&mut self)
        requires
            old(self).wf(),
        ensures
            final(self).wf(),
            final(self).head == old(self).queue.head,
            final(self).tail == old(self).tail,
            final(self).queue.head == old(self).queue.head,
            final(self).queue.tail == old(self).tail,
            final(self).queue.size == old(self).queue.size,
            final(self).queue.slots == old(self).queue.slots,
            final(self).spec_len() == old(self).spec_len() - occupancy(
                old(self).head,
                old(self).queue.head,
            ),
            final(self).pending() == old(self).pending().skip(
                occupancy(old(self).head, old(self).queue.head),
            ),
            final(self).queue.pending() == final(self).pending(),
    {
        proof {
            let a = occupancy(old(self).head, old(self).queue.head);
            let rest = old(self).spec_len() - a;
            lemma_advance_to_tail(old(self).head, old(self).queue.head);
            lemma_stretch_shift(
                old(self).queue.slots@,
                old(self).head,
                a,
                rest,
                old(self).queue.size,
            );
            assert(old(self).pending().skip(a) =~= stretch(
                old(self).queue.slots@,
                old(self).head,
                old(self).spec_len(),
                old(self).queue.size,
            ).subrange(a, a + rest));
        }
        self.head = self.queue.head;
        self.queue.tail = self.tail;
    }

    /// Attempt to push an entry into the queue: copy it into the slot at
    /// the local tail and advance the local tail by one - nothing else
    /// moves, and no other slot changes.  The entry becomes visible to the
    /// consumer only after the next `sync`.
    ///
    /// Fails with [`PushError`] when the queue is full, in which case
    /// nothing - neither ring memory nor any cursor - changes.
    ///
    /// The queue does not check the entry itself: resources an entry refers
    /// to (buffers, handles) must stay valid until its completion is
    /// observed, which only the caller can ensure.
    pub fn push(&mut self, entry: &Entry) -> (r: Result<(), PushError>)
        requires
            old(self).wf(),
        ensures
            final(self).wf(),
            final(self).spec_capacity() == old(self).spec_capacity(),
            final(self).head == old(self).head,
            final(self).queue.head == old(self).queue.head,
            final(self).queue.tail == old(self).queue.tail,
            old(self).spec_len() == old(self).spec_capacity() ==> r == Err::<(), PushError>(
                PushError,
            ) && *final(self) == *old(self),
            old(self).spec_len() < old(self).spec_capacity() ==> {
                &&& r == Ok::<(), PushError>(())
                &&& final(self).spec_len() == old(self).spec_len() + 1
                &&& final(self).tail == cursor_add(old(self).tail, 1)
                &&& final(self).queue.slots@ == old(self).queue.slots@.update(
                    slot_index(old(self).tail, old(self).queue.size),
                    *entry,
                )
                &&& final(self).pending() == old(self).pending().push(*entry)
                &&& final(self).queue.pending() == old(self).queue.pending()
            },
    {
        if self.is_full() {
            return Err(PushError);
        }
        proof {
            lemma_size_pos(self.queue.size);
            lemma_mask_is_mod(self.tail, self.queue.size);
            vstd::arithmetic::div_mod::lemma_mod_division_less_than_divisor(
                self.tail as int,
                self.queue.size as int,
            );
        }
        let idx = (self.tail & self.queue.ring_mask) as usize;
        self.queue.slots[idx] = *entry;
        proof {
            let n = old(self).spec_len();
            let a = occupancy(old(self).head, old(self).queue.head);
            let m = occupancy(old(self).queue.head, old(self).queue.tail);
            let size = old(self).queue.size;
            let slots = old(self).queue.slots@;
            lemma_size_bound(size);
            lemma_advance_to_tail(old(self).head, old(self).tail);
            lemma_stretch_extend(slots, old(self).head, n, *entry, size);
            lemma_occupancy_sum(old(self).queue.head, old(self).queue.tail, old(self).tail);
            lemma_advance_to_tail(old(self).queue.head, old(self).tail);
            lemma_stretch_write_preserved(
                slots,
                old(self).queue.head,
                m,
                occupancy(old(self).queue.head, old(self).tail),
                *entry,
                size,
            );
            lemma_occupancy_grow(old(self).head, old(self).tail);
            lemma_occupancy_grow(old(self).queue.tail, old(self).tail);
            lemma_occupancy_grow(old(self).queue.head, old(self).tail);
        }
        self.tail = cursor_bump(self.tail);
        Ok(())
    }

    /// Attempt to push several entries, in order, all or nothing: if the
    /// remaining capacity is smaller than the batch, no entry is written,
    /// no cursor moves, and [`PushError`] is returned.  Relative order is
    /// preserved.
    pub fn push_multiple(&mut self, entries: &Vec<Entry>) -> (r: Result<(), PushError>)
        requires
            old(self).wf(),
        ensures
            final(self).wf(),
            final(self).spec_capacity() == old(self).spec_capacity(),
            final(self).head == old(self).head,
            final(self).queue.head == old(self).queue.head,
            final(self).queue.tail == old(self).queue.tail,
            old(self).spec_capacity() - old(self).spec_len() < entries@.len() ==> {
                &&& r == Err::<(), PushError>(PushError)
                &&& *final(self) == *old(self)
            },
            entries@.len() <= old(self).spec_capacity() - old(self).spec_len() ==> {
                &&& r == Ok::<(), PushError>(())
                &&& final(self).spec_len() == old(self).spec_len() + entries@.len()
                &&& final(self).tail == cursor_add(old(self).tail, entries@.len() as int)
                &&& final(self).queue.slots@ == write_window(
                    old(self).queue.slots@,
                    old(self).tail,
                    entries@,
                    old(self).queue.size,
                )
                &&& final(self).pending() == old(self).pending() + entries@
                &&& final(self).queue.pending() == old(self).queue.pending()
            },
    {
        let cap = self.capacity();
        let len = self.len();
        if entries.len() > cap - len {
            return Err(PushError);
        }
        proof {
            lemma_cursor_add_zero(self.tail);
            assert(entries@.take(0) =~= Seq::<Entry>::empty());
        }
        let mut i: usize = 0;
        while i < entries.len()
            invariant
                self.wf(),
                i <= entries@.len(),
                entries@.len() as int - i + self.spec_len() <= self.spec_capacity(),
                self.spec_capacity() == old(self).spec_capacity(),
                self.head == old(self).head,
                self.queue.head == old(self).queue.head,
                self.queue.tail == old(self).queue.tail,
                self.spec_len() == old(self).spec_len() + i,
                self.tail == cursor_add(old(self).tail, i as int),
                self.queue.slots@ == write_window(
                    old(self).queue.slots@,
                    old(self).tail,
                    entries@.take(i as int),
                    old(self).queue.size,
                ),
                self.pending() == old(self).pending() + entries@.take(i as int),
                self.queue.pending() == old(self).queue.pending(),
            decreases entries@.len() - i,
        {
            let ghost before_tail = self.tail;
            match self.push(&entries[i]) {
                Ok(_) => {},
                Err(e) => {
                    // unreachable: the whole batch was checked to fit
                    return Err(e);
                },
            }
            proof {
                assert(old(self).pending() + entries@.take(i as int + 1) =~= (old(self).pending()
                    + entries@.take(i as int)).push(entries@[i as int]));
                crate::ring::lemma_cursor_add_assoc(old(self).tail, i as int, 1);
                lemma_write_window_step(
                    old(self).queue.slots@,
                    old(self).tail,
                    entries@,
                    i as int,
                    old(self).queue.size,
                );
                assert(before_tail == cursor_add(old(self).tail, i as int));
            }
            i = i + 1;
        }
        proof {
            assert(entries@.take(entries@.len() as int) =~= entries@);
        }
        Ok(())
    }

    /// Take the oldest published record and advance the shared head: the
    /// consumer half of the protocol, performed by whatever executes
    /// submissions on the ring.  Returns `None` when nothing is published.
    ///
    /// The view's own snapshot does not move: the caller observes the
    /// consumption only at its next `sync`.
    pub fn consume(&mut self) -> (r: Option<Entry>)
        requires
            old(self).wf(),
        ensures
            final(self).wf(),
            final(self).spec_capacity() == old(self).spec_capacity(),
            final(self).head == old(self).head,
            final(self).tail == old(self).tail,
            final(self).queue.tail == old(self).queue.tail,
            final(self).queue.slots == old(self).queue.slots,
            final(self).spec_len() == old(self).spec_len(),
            final(self).pending() == old(self).pending(),
            old(self).queue.pending().len() == 0 ==> r == Option::<Entry>::None && *final(self)
                == *old(self),
            old(self).queue.pending().len() > 0 ==> r == Some(old(self).queue.pending()[0])
                && final(self).queue.pending() == old(self).queue.pending().skip(1),
    {
        let avail = cursor_distance(self.queue.head, self.queue.tail);
        if avail == 0 {
            return None;
        }
        proof {
            lemma_size_pos(self.queue.size);
            lemma_mask_is_mod(self.queue.head, self.queue.size);
            vstd::arithmetic::div_mod::lemma_mod_division_less_than_divisor(
                self.queue.head as int,
                self.queue.size as int,
            );
        }
        let idx = (self.queue.head & self.queue.ring_mask) as usize;
        let e = self.queue.slots[idx];
        proof {
            let sh = old(self).queue.head;
            let m = occupancy(sh, old(self).queue.tail);
            let size = old(self).queue.size;
            lemma_size_bound(size);
            lemma_cursor_add_zero(sh);
            assert(e == old(self).queue.pending()[0]);
            lemma_stretch_shift(old(self).queue.slots@, sh, 1, m - 1, size);
            assert(old(self).queue.pending().skip(1) =~= old(self).queue.pending().subrange(1, m));
            lemma_occupancy_shrink(sh, old(self).queue.tail);
            lemma_occupancy_grow(old(self).head, sh);
        }
        self.queue.head = cursor_bump(self.queue.head);
        Some(e)
    }

    /// Overwrite one ring slot in place, by slot number: the second half of
    /// the direct-slot path, which fills a slot already acquired and
    /// published through [`Submitter::get_sqe`](crate::submit::Submitter::get_sqe).
    /// No cursor moves.
    ///
    /// This bypasses the value-based push discipline: writing a slot the
    /// consumer's window still covers changes a record already handed over.
    pub fn write_slot(&mut self, index: usize, entry: &Entry)
        requires
            old(self).wf(),
            index < old(self).queue.slots.len(),
        ensures
            final(self).wf(),
            final(self).head == old(self).head,
            final(self).tail == old(self).tail,
            final(self).queue.head == old(self).queue.head,
            final(self).queue.tail == old(self).queue.tail,
            final(self).queue.size == old(self).queue.size,
            final(self).queue.slots@ == old(self).queue.slots@.update(index as int, *entry),
            final(self).spec_len() == old(self).spec_len(),
    {
        self.queue.slots[index] = *entry;
    }

    /// The entries the view counts as occupying the ring, oldest first:
    /// everything from the cached head to the local tail.
    pub fn entries(&self) -> (v: Vec<Entry>)
        requires
            self.wf(),
        ensures
            v@ == self.pending(),
    {
        let count = cursor_distance(self.head, self.tail);
        let mut v: Vec<Entry> = Vec::new();
        let mut pos = self.head;
        let mut i: u32 = 0;
        proof {
            lemma_cursor_add_zero(self.head);
        }
        while i < count
            invariant
                self.wf(),
                i <= count,
                count as int == self.spec_len(),
                pos == cursor_add(self.head, i as int),
                v@ == self.pending().take(i as int),
            decreases count - i,
        {
            proof {
                lemma_size_pos(self.queue.size);
                lemma_mask_is_mod(pos, self.queue.size);
                crate::ring::lemma_slot_of_advanced(self.head, i as int, self.queue.size);
            }
            let idx = (pos & self.queue.ring_mask) as usize;
            v.push(self.queue.slots[idx]);
            proof {
                assert(v@ =~= self.pending().take(i as int + 1));
                crate::ring::lemma_cursor_add_assoc(self.head, i as int, 1);
            }
            pos = cursor_bump(pos);
            i = i + 1;
        }
        proof {
            assert(self.pending().take(count as int) =~= self.pending());
        }
        v
    }
}

/// For every sequence of `n` pushes on a freshly synchronized, empty
/// queue - at most the capacity of them - followed by one
/// synchronization, the queue counts exactly `n` records, and is full
/// exactly when `n` is the capacity.
///
/// `fresh` is the starting state; `filled` is any state that `n`
/// successful pushes reach from it, described by what `push` and
/// `push_multiple` ensure; `synced` is the state `sync` then reaches,
/// described by what `sync` ensures.
pub proof fn lemma_fill_then_sync(
    fresh: SubmissionQueue,
    filled: SubmissionQueue,
    synced: SubmissionQueue,
    n: int,
)
    requires
        fresh.wf(),
        fresh.spec_len() == 0,
        fresh.head == fresh.queue.head,
        0 <= n <= fresh.spec_capacity(),
        filled.spec_capacity() == fresh.spec_capacity(),
        filled.head == fresh.head,
        filled.queue.head == fresh.queue.head,
        filled.spec_len() == fresh.spec_len() + n,
        synced.spec_capacity() == filled.spec_capacity(),
        synced.spec_len() == filled.spec_len() - occupancy(filled.head, filled.queue.head),
    ensures
        synced.spec_len() == n,
        (synced.spec_len() == synced.spec_capacity()) <==> (n == fresh.spec_capacity()),
{
}

} // verus!
