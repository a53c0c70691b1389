//! The completion queue: the ring the environment writes I/O results into.
//!
//! Here the caller is the consumer.  A view iterates over a snapshot taken
//! at the last synchronization: each step reads the record at the local head
//! and advances it locally.  `sync` publishes the local head (acknowledging
//! the records taken, so their slots can be reused) and refreshes the cached
//! tail (observing completions that arrived in the meantime).
use crate::ring::{
    cursor_bump, cursor_distance, lemma_advance_to_tail, lemma_cursor_add_zero, lemma_mask_is_mod,
    lemma_occupancy_grow, lemma_occupancy_shrink, lemma_occupancy_sum, lemma_size_bound,
    lemma_size_pos, lemma_stretch_concat, lemma_stretch_extend, lemma_stretch_shift,
    lemma_stretch_write_preserved, occupancy, size_ok, stretch,
};
use crate::squeue;
use vstd::prelude::*;

verus! {

/// An entry in the completion queue: the result of one completed I/O
/// operation.
#[derive(Clone, Copy, Debug, PartialEq, Eq, Structural)]
pub struct Entry {
    pub result: i32,
    pub information: usize,
    pub user_data: u64,
}

impl Entry {
    /// The operation-specific result code: negative for an operating-system
    /// error code, non-negative for a result such as a count of bytes
    /// transferred.  The queue never interprets it.
    pub fn result(&self) -> (r: i32)
        ensures
            r == self.result,
    {
        self.result
    }

    /// The user data of the request, exactly as set on the submission entry
    /// this completion answers.
    pub fn user_data(&self) -> (r: u64)
        ensures
            r == self.user_data,
    {
        self.user_data
    }

    /// Auxiliary metadata of the operation, such as a selected buffer index.
    pub fn information(&self) -> (r: usize)
        ensures
            r == self.information,
    {
        self.information
    }
}

/// The completion entry that answers submission entry `e` with the given
/// result code and metadata: the user data is echoed unchanged.
pub open spec fn completion_of(e: squeue::Entry, result: i32, information: usize) -> Entry {
    Entry { result, information, user_data: e.user_data }
}

/// The all-zero completion entry: what an unused ring slot holds.
pub(crate) fn zeroed_entry() -> (e: Entry)
    ensures
        e == (Entry { result: 0, information: 0, user_data: 0 }),
{
    Entry { result: 0, information: 0, user_data: 0 }
}

/// The shared completion ring memory: the slot array and the two shared
/// cursors.  The environment advances `tail` as it posts results; the
/// caller publishes `head` to acknowledge the results it has taken.
pub struct Inner {
    pub head: u32,
    pub tail: u32,
    pub slots: Vec<Entry>,
    pub ring_mask: u32,
    pub size: u32,
}

impl Inner {
    /// Well-formed ring memory: a power-of-two slot count, the matching
    /// mask, and cursors at most one revolution apart.
    pub open spec fn wf(&self) -> bool {
        &&& size_ok(self.size)
        &&& self.ring_mask == self.size - 1
        &&& self.slots.len() == self.size
        &&& occupancy(self.head, self.tail) <= self.size
    }

    /// The completions posted and not yet acknowledged by the caller,
    /// oldest first.  When their number reaches the ring size, further
    /// completions are dropped.
    pub open spec fn pending(&self) -> Seq<Entry> {
        stretch(self.slots@, self.head, occupancy(self.head, self.tail), self.size)
    }

    /// Fresh ring memory for `size` slots, all zeroed, with both cursors at
    /// the start.
    pub(crate) fn new(size: u32) -> (r: Inner)
        requires
            size_ok(size),
        ensures
            r.wf(),
            r.head == 0,
            r.tail == 0,
            r.size == size,
            r.pending() == Seq::<Entry>::empty(),
    {
        proof {
            lemma_size_pos(size);
        }
        let mut slots: Vec<Entry> = Vec::new();
        let mut i: u32 = 0;
        while i < size
            invariant
                i <= size,
                slots.len() == i,
            decreases size - i,
        {
            slots.push(zeroed_entry());
            i = i + 1;
        }
        let r = Inner { head: 0, tail: 0, slots, ring_mask: size - 1, size };
        proof {
            assert(r.pending() =~= Seq::<Entry>::empty());
        }
        r
    }
}

/// The caller's working view of the completion queue: the shared ring
/// memory together with a local snapshot of the cursors.
///
/// `head` counts records taken locally that `sync` has not yet
/// acknowledged; `tail` caches the shared tail as of the last
/// synchronization.
pub struct CompletionQueue {
    pub head: u32,
    pub tail: u32,
    pub queue: Inner,
}

impl CompletionQueue {
    /// Well-formed view: the ring memory is well-formed and the four
    /// cursors stand in consumer order - published head, then local head,
    /// then cached tail, then shared tail - within one ring's worth.
    pub open spec fn wf(&self) -> bool {
        &&& self.queue.wf()
        &&& occupancy(self.queue.head, self.head) + occupancy(self.head, self.tail) + occupancy(
            self.tail,
            self.queue.tail,
        ) <= self.queue.size
        &&& occupancy(self.queue.head, self.queue.tail) == occupancy(self.queue.head, self.head)
            + occupancy(self.head, self.tail) + occupancy(self.tail, self.queue.tail)
    }

    /// The configured number of ring slots; constant for the ring's
    /// lifetime.
    pub open spec fn spec_capacity(&self) -> int {
        self.queue.size as int
    }

    /// The number of completions the snapshot still has to offer: the
    /// distance from the local head to the cached tail.
    pub open spec fn spec_len(&self) -> int {
        occupancy(self.head, self.tail)
    }

    /// The completions the snapshot still has to offer, oldest first.
    pub open spec fn ready(&self) -> Seq<Entry> {
        stretch(self.queue.slots@, self.head, self.spec_len(), self.queue.size)
    }

    /// The completions the environment has posted past this snapshot: they
    /// become visible at the next `sync`.
    pub open spec fn incoming(&self) -> Seq<Entry> {
        stretch(
            self.queue.slots@,
            self.tail,
            occupancy(self.tail, self.queue.tail),
            self.queue.size,
        )
    }

    /// A fresh view of fresh ring memory with `size` slots.
    pub(crate) fn with_size(size: u32) -> (r: CompletionQueue)
        requires
            size_ok(size),
        ensures
            r.wf(),
            r.spec_capacity() == size,
            r.spec_len() == 0,
            r.ready() == Seq::<Entry>::empty(),
            r.incoming() == Seq::<Entry>::empty(),
            r.queue.pending() == Seq::<Entry>::empty(),
            r.queue.size == size,
    {
        let queue = Inner::new(size);
        let r = CompletionQueue { head: 0, tail: 0, queue };
        proof {
            assert(r.ready() =~= Seq::<Entry>::empty());
            assert(r.incoming() =~= Seq::<Entry>::empty());
        }
        r
    }

    /// Get the total number of entries in the completion queue ring buffer.
    pub fn capacity(&self) -> (r: usize)
        ensures
            r == self.spec_capacity(),
    {
        self.queue.size as usize
    }

    /// Get the number of completion queue entries left in this snapshot.
    pub fn len(&self) -> (r: usize)
        ensures
            r == self.spec_len(),
    {
        cursor_distance(self.head, self.tail) as usize
    }

    /// Returns `true` if there are no completion queue entries left to be
    /// processed in this snapshot.
    pub fn is_empty(&self) -> (r: bool)
        ensures
            r == (self.spec_len() == 0),
    {
        self.len() == 0
    }

    /// Returns `true` if the snapshot spans the whole ring.  When the
    /// unacknowledged completions reach capacity, the environment drops any
    /// further completion instead of overwriting.
    pub fn is_full(&self) -> (r: bool)
        ensures
            r == (self.spec_len() == self.spec_capacity()),
    {
        self.len() == self.capacity()
    }

    /// Synchronize this view with the shared ring: publish the local head,
    /// acknowledging every record this snapshot has taken, and refresh the
    /// cached tail, making newly posted completions available.
    pub fn sync(&mut self)
        requires
            old(self).wf(),
        ensures
            final(self).wf(),
            final(self).head == old(self).head,
            final(self).tail == old(self).queue.tail,
            final(self).queue.head == old(self).head,
            final(self).queue.tail == old(self).queue.tail,
            final(self).queue.size == old(self).queue.size,
            final(self).queue.slots == old(self).queue.slots,
            final(self).spec_len() == old(self).spec_len() + occupancy(
                old(self).tail,
                old(self).queue.tail,
            ),
            final(self).ready() == old(self).ready() + old(self).incoming(),
            final(self).queue.pending() == final(self).ready(),
    {
        proof {
            let b = occupancy(old(self).head, old(self).tail);
            let c = occupancy(old(self).tail, old(self).queue.tail);
            lemma_occupancy_sum(old(self).head, old(self).tail, old(self).queue.tail);
            lemma_advance_to_tail(old(self).head, old(self).tail);
            lemma_stretch_concat(old(self).queue.slots@, old(self).head, b, c, old(self).queue.size);
        }
        self.queue.head = self.head;
        self.tail = self.queue.tail;
    }

    /// Take the next completion of this snapshot, if any: read the record
    /// at the local head and advance the local head.  The iteration is
    /// finite: it stops when the snapshot is exhausted, however many new
    /// completions arrive meanwhile; they wait for the next `sync`.
    pub fn next(&mut self) -> (r: Option<Entry>)
        requires
            old(self).wf(),
        ensures
            final(self).wf(),
            final(self).spec_capacity() == old(self).spec_capacity(),
            final(self).tail == old(self).tail,
            final(self).queue.head == old(self).queue.head,
            final(self).queue.tail == old(self).queue.tail,
            final(self).queue.slots == old(self).queue.slots,
            final(self).queue.pending() == old(self).queue.pending(),
            final(self).incoming() == old(self).incoming(),
            old(self).spec_len() == 0 ==> r == Option::<Entry>::None && *final(self) == *old(self),
            old(self).spec_len() > 0 ==> {
                &&& r == Some(old(self).ready()[0])
                &&& final(self).ready() == old(self).ready().skip(1)
                &&& final(self).spec_len() == old(self).spec_len() - 1
            },
    {
        let avail = cursor_distance(self.head, self.tail);
        if avail == 0 {
            return None;
        }
        proof {
            lemma_size_pos(self.queue.size);
            lemma_mask_is_mod(self.head, self.queue.size);
            vstd::arithmetic::div_mod::lemma_mod_division_less_than_divisor(
                self.head as int,
                self.queue.size as int,
            );
        }
        let idx = (self.head & self.queue.ring_mask) as usize;
        let e = self.queue.slots[idx];
        proof {
            let lh = old(self).head;
            let n = old(self).spec_len();
            let size = old(self).queue.size;
            lemma_size_bound(size);
            lemma_cursor_add_zero(lh);
            assert(e == old(self).ready()[0]);
            lemma_stretch_shift(old(self).queue.slots@, lh, 1, n - 1, size);
            assert(old(self).ready().skip(1) =~= old(self).ready().subrange(1, n));
            lemma_occupancy_shrink(lh, old(self).tail);
            lemma_occupancy_grow(old(self).queue.head, lh);
        }
        self.head = cursor_bump(self.head);
        Some(e)
    }

    /// Post a completion at the shared tail: the producer half of the
    /// protocol, performed by whatever executes submissions on the ring.
    ///
    /// When the completions not yet acknowledged by the caller already fill
    /// the ring, the record is dropped - nothing changes and `false` is
    /// returned - rather than overwriting results the caller has not seen.
    pub fn post(&mut self, e: Entry) -> (r: bool)
        requires
            old(self).wf(),
        ensures
            final(self).wf(),
            final(self).spec_capacity() == old(self).spec_capacity(),
            final(self).head == old(self).head,
            final(self).tail == old(self).tail,
            final(self).queue.head == old(self).queue.head,
            final(self).spec_len() == old(self).spec_len(),
            final(self).ready() == old(self).ready(),
            old(self).queue.pending().len() == old(self).spec_capacity() ==> {
                &&& r == false
                &&& *final(self) == *old(self)
            },
            old(self).queue.pending().len() < old(self).spec_capacity() ==> {
                &&& r == true
                &&& final(self).queue.pending() == old(self).queue.pending().push(e)
                &&& final(self).incoming() == old(self).incoming().push(e)
            },
    {
        let produced = cursor_distance(self.queue.head, self.queue.tail);
        if produced as usize == self.capacity() {
            return false;
        }
        proof {
            lemma_size_pos(self.queue.size);
            lemma_mask_is_mod(self.queue.tail, self.queue.size);
            vstd::arithmetic::div_mod::lemma_mod_division_less_than_divisor(
                self.queue.tail as int,
                self.queue.size as int,
            );
        }
        let idx = (self.queue.tail & self.queue.ring_mask) as usize;
        self.queue.slots[idx] = e;
        proof {
            let ch = old(self).queue.head;
            let lh = old(self).head;
            let lt = old(self).tail;
            let ct = old(self).queue.tail;
            let size = old(self).queue.size;
            let slots = old(self).queue.slots@;
            let d = occupancy(ch, ct);
            lemma_size_bound(size);
            lemma_advance_to_tail(ch, ct);
            lemma_stretch_extend(slots, ch, d, e, size);
            lemma_occupancy_sum(lh, lt, ct);
            lemma_advance_to_tail(lh, ct);
            lemma_stretch_write_preserved(slots, lh, occupancy(lh, lt), occupancy(lh, ct), e, size);
            lemma_advance_to_tail(lt, ct);
            lemma_stretch_extend(slots, lt, occupancy(lt, ct), e, size);
            lemma_occupancy_grow(ch, ct);
            lemma_occupancy_grow(lt, ct);
            lemma_occupancy_grow(lh, ct);
        }
        self.queue.tail = cursor_bump(self.queue.tail);
        true
    }

    /// Drain up to `max` completions of this snapshot into caller-provided
    /// storage, in first-in first-out order, advancing the local head
    /// accordingly; returns how many were actually copied.
    pub fn fill(&mut self, out: &mut Vec<Entry>, max: usize) -> (n: usize)
        requires
            old(self).wf(),
        ensures
            final(self).wf(),
            final(self).spec_capacity() == old(self).spec_capacity(),
            final(self).tail == old(self).tail,
            final(self).queue.head == old(self).queue.head,
            final(self).queue.tail == old(self).queue.tail,
            final(self).queue.slots == old(self).queue.slots,
            final(self).queue.pending() == old(self).queue.pending(),
            final(self).incoming() == old(self).incoming(),
            n == vstd::math::min(old(self).spec_len(), max as int),
            final(out)@ == old(out)@ + old(self).ready().take(n as int),
            final(self).ready() == old(self).ready().skip(n as int),
            final(self).spec_len() == old(self).spec_len() - n,
    {
        let mut n: usize = 0;
        proof {
            assert(old(self).ready().take(0) =~= Seq::<Entry>::empty());
            assert(old(out)@ + Seq::<Entry>::empty() =~= old(out)@);
            assert(old(self).ready().skip(0) =~= old(self).ready());
        }
        while n < max && !self.is_empty()
            invariant
                self.wf(),
                max as int - n >= 0,
                n <= max,
                n <= old(self).spec_len(),
                self.spec_capacity() == old(self).spec_capacity(),
                self.tail == old(self).tail,
                self.queue.head == old(self).queue.head,
                self.queue.tail == old(self).queue.tail,
                self.queue.slots == old(self).queue.slots,
                self.queue.pending() == old(self).queue.pending(),
                self.incoming() == old(self).incoming(),
                out@ == old(out)@ + old(self).ready().take(n as int),
                self.ready() == old(self).ready().skip(n as int),
                self.spec_len() == old(self).spec_len() - n,
            decreases old(self).spec_len() - n,
        {
            match self.next() {
                Some(e) => {
                    out.push(e);
                },
                None => {
                    // unreachable: the snapshot was not exhausted
                },
            }
            proof {
                assert(old(self).ready().take(n as int + 1) =~= old(self).ready().take(
                    n as int,
                ).push(old(self).ready()[n as int]));
                assert(out@ =~= old(out)@ + old(self).ready().take(n as int + 1));
                assert(old(self).ready().skip(n as int).skip(1) =~= old(self).ready().skip(
                    n as int + 1,
                ));
            }
            n = n + 1;
        }
        n
    }

    /// Drain the queue completely: synchronize to see every posted
    /// completion, take them all, and synchronize again so the consumed
    /// slots are acknowledged and can be reused.  Returns the drained
    /// completions, oldest first.
    ///
    /// Without the final acknowledgment the environment would re-deliver
    /// the same records at the next synchronization.
    pub fn clear_cqes(&mut self) -> (v: Vec<Entry>)
        requires
            old(self).wf(),
        ensures
            final(self).wf(),
            final(self).spec_capacity() == old(self).spec_capacity(),
            v@ == old(self).ready() + old(self).incoming(),
            final(self).spec_len() == 0,
            final(self).ready() == Seq::<Entry>::empty(),
            final(self).incoming() == Seq::<Entry>::empty(),
            final(self).queue.pending() == Seq::<Entry>::empty(),
    {
        self.sync();
        let count = self.len();
        let mut v: Vec<Entry> = Vec::new();
        let n = self.fill(&mut v, count);
        proof {
            let all = old(self).ready() + old(self).incoming();
            assert(Seq::<Entry>::empty() + all.take(n as int) =~= all.take(n as int));
            assert(all.take(n as int) =~= all);
            assert(all.skip(n as int) =~= Seq::<Entry>::empty());
        }
        self.sync();
        proof {
            assert(self.ready() =~= Seq::<Entry>::empty());
            assert(self.incoming() =~= Seq::<Entry>::empty());
        }
        v
    }
}

/// Iterating the completion queue is idempotent per snapshot: once a
/// snapshot is drained, synchronizing while the environment has posted no
/// new completion - nothing is incoming - yields a queue with no further
/// completions to offer.
///
/// `drained` is the drained state; `synced` is the state `sync` then
/// reaches, described by what `sync` ensures.
pub proof fn lemma_snapshot_idempotent(drained: CompletionQueue, synced: CompletionQueue)
    requires
        drained.wf(),
        drained.spec_len() == 0,
        drained.incoming().len() == 0,
        synced.spec_len() == drained.spec_len() + occupancy(drained.tail, drained.queue.tail),
    ensures
        synced.spec_len() == 0,
{
}

} // verus!