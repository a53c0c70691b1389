//! The submit-and-wait state machine.
//!
//! `submit_and_wait` hands every published submission over to the attached
//! completer and makes the results available in the completion ring.  With
//! no operating system underneath, the completer built in here is the
//! synchronous model of the environment: it takes each published entry in
//! order and answers it through [`complete_next`], the one verified
//! transition the environment's half of the protocol consists of.  An
//! environment with a real executor drives [`complete_next`] itself, with
//! whatever result codes its operations produced, before it lets a waiting
//! caller continue.
use crate::cqueue::{completion_of, CompletionQueue};
use crate::opcode::{Read, RegisterBuffers, RegisterFiles, Write};
use crate::ring::{cursor_add, cursor_distance, occupancy, slot_index};
use crate::squeue::SubmissionQueue;
use crate::RingError;
use vstd::prelude::*;

verus! {

/// One block of a file copy: how many bytes each read/write pair moves.
pub const BLOCK_SIZE: usize = 32 * 1024;

/// The completions that answer the submissions `es`, in order, when every
/// operation reports success with result code zero and no metadata.
pub open spec fn success_completions(es: Seq<crate::squeue::Entry>) -> Seq<crate::cqueue::Entry> {
    es.map(|i: int, e: crate::squeue::Entry| completion_of(e, 0, 0))
}

/// Apply one step of the environment's half of the protocol: take the
/// oldest published submission, and post the completion that answers it -
/// the given result code and metadata, and the submission's own user data
/// echoed unchanged.  Returns whether a submission was pending; a
/// completion that would overfill the completion ring is dropped, while
/// the submission still counts as taken.
pub fn complete_next(
    sq: &mut SubmissionQueue,
    cq: &mut CompletionQueue,
    result: i32,
    information: usize,
) -> (r: bool)
    requires
        old(sq).wf(),
        old(cq).wf(),
    ensures
        final(sq).wf(),
        final(cq).wf(),
        final(sq).spec_capacity() == old(sq).spec_capacity(),
        final(cq).spec_capacity() == old(cq).spec_capacity(),
        final(sq).head == old(sq).head,
        final(sq).tail == old(sq).tail,
        final(sq).queue.tail == old(sq).queue.tail,
        final(sq).queue.slots == old(sq).queue.slots,
        final(sq).spec_len() == old(sq).spec_len(),
        final(sq).pending() == old(sq).pending(),
        final(cq).head == old(cq).head,
        final(cq).tail == old(cq).tail,
        final(cq).queue.head == old(cq).queue.head,
        final(cq).spec_len() == old(cq).spec_len(),
        final(cq).ready() == old(cq).ready(),
        r == (old(sq).queue.pending().len() > 0),
        old(sq).queue.pending().len() == 0 ==> {
            &&& *final(sq) == *old(sq)
            &&& *final(cq) == *old(cq)
        },
        old(sq).queue.pending().len() > 0 ==> {
            &&& final(sq).queue.pending() == old(sq).queue.pending().skip(1)
            &&& (old(cq).queue.pending().len() < old(cq).spec_capacity() ==> {
                &&& final(cq).queue.pending() == old(cq).queue.pending().push(
                    completion_of(old(sq).queue.pending()[0], result, information),
                )
                &&& final(cq).incoming() == old(cq).incoming().push(
                    completion_of(old(sq).queue.pending()[0], result, information),
                )
            })
            &&& (old(cq).queue.pending().len() == old(cq).spec_capacity() ==> *final(cq) == *old(
                cq,
            ))
        },
{
    match sq.consume() {
        None => false,
        Some(sqe) => {
            let cqe = crate::cqueue::Entry { result, information, user_data: sqe.user_data };
            cq.post(cqe);
            true
        },
    }
}

/// Drives submission for a ring: the owner of the wait handle the
/// submit-and-wait call blocks on.
#[derive(Clone, Copy, Debug, PartialEq, Eq, Structural)]
pub struct Submitter {
    pub handle: u64,
}

impl Submitter {
    /// A submitter over the given wait handle.
    pub fn new(handle: u64) -> (r: Submitter)
        ensures
            r == (Submitter { handle }),
    {
        Submitter { handle }
    }

    /// The number of entries the shared cursors show as published and not
    /// yet taken.
    fn sq_len(&self, sq: &SubmissionQueue) -> (r: usize)
        requires
            sq.wf(),
        ensures
            r == sq.queue.pending().len(),
    {
        cursor_distance(sq.queue.head, sq.queue.tail) as usize
    }

    /// Submit all published submission queue entries and wait for at least
    /// one completion.  Equivalent to `submit_and_wait` with a minimum of
    /// one and no time limit.
    pub fn submit(&self, sq: &mut SubmissionQueue, cq: &mut CompletionQueue) -> (r: Result<
        usize,
        RingError,
    >)
        requires
            old(sq).wf(),
            old(cq).wf(),
        ensures
            final(sq).wf(),
            final(cq).wf(),
            r == Ok::<usize, RingError>(0usize),
            final(sq).spec_capacity() == old(sq).spec_capacity(),
            final(cq).spec_capacity() == old(cq).spec_capacity(),
            final(sq).head == old(sq).head,
            final(sq).tail == old(sq).tail,
            final(sq).queue.tail == old(sq).queue.tail,
            final(sq).spec_len() == old(sq).spec_len(),
            final(sq).pending() == old(sq).pending(),
            final(sq).queue.slots == old(sq).queue.slots,
            final(sq).queue.pending() == Seq::<crate::squeue::Entry>::empty(),
            final(cq).head == old(cq).head,
            final(cq).tail == old(cq).tail,
            final(cq).queue.head == old(cq).queue.head,
            final(cq).spec_len() == old(cq).spec_len(),
            final(cq).ready() == old(cq).ready(),
            final(cq).queue.pending() == old(cq).queue.pending() + success_completions(
                old(sq).queue.pending(),
            ).take(
                vstd::math::min(
                    old(sq).queue.pending().len() as int,
                    old(cq).spec_capacity() - old(cq).queue.pending().len(),
                ),
            ),
            final(cq).incoming() == old(cq).incoming() + success_completions(
                old(sq).queue.pending(),
            ).take(
                vstd::math::min(
                    old(sq).queue.pending().len() as int,
                    old(cq).spec_capacity() - old(cq).queue.pending().len(),
                ),
            ),
    {
        self.submit_and_wait(sq, cq, 1, u32::MAX as usize)
    }

    /// Submit all published submission queue entries and wait until at
    /// least `want` completions are available, or until `timeout` (where
    /// the all-ones sentinel means no time limit) runs out.
    ///
    /// The completer built in here is synchronous: it answers every
    /// published entry, in order, with a successful completion - result
    /// code zero - before returning, so every satisfiable wait is
    /// satisfied at once, whatever `want` and `timeout` say, and the
    /// returned count of entries still pending is zero.  A completion that
    /// would overfill the completion ring is dropped.  A minimum of zero
    /// never blocks.
    #[allow(unused_variables)]
    pub fn submit_and_wait(
        &self,
        sq: &mut SubmissionQueue,
        cq: &mut CompletionQueue,
        want: u32,
        timeout: usize,
    ) -> (r: Result<usize, RingError>)
        requires
            old(sq).wf(),
            old(cq).wf(),
        ensures
            final(sq).wf(),
            final(cq).wf(),
            r == Ok::<usize, RingError>(0usize),
            final(sq).spec_capacity() == old(sq).spec_capacity(),
            final(cq).spec_capacity() == old(cq).spec_capacity(),
            final(sq).head == old(sq).head,
            final(sq).tail == old(sq).tail,
            final(sq).queue.tail == old(sq).queue.tail,
            final(sq).spec_len() == old(sq).spec_len(),
            final(sq).pending() == old(sq).pending(),
            final(sq).queue.slots == old(sq).queue.slots,
            final(sq).queue.pending() == Seq::<crate::squeue::Entry>::empty(),
            final(cq).head == old(cq).head,
            final(cq).tail == old(cq).tail,
            final(cq).queue.head == old(cq).queue.head,
            final(cq).spec_len() == old(cq).spec_len(),
            final(cq).ready() == old(cq).ready(),
            final(cq).queue.pending() == old(cq).queue.pending() + success_completions(
                old(sq).queue.pending(),
            ).take(
                vstd::math::min(
                    old(sq).queue.pending().len() as int,
                    old(cq).spec_capacity() - old(cq).queue.pending().len(),
                ),
            ),
            final(cq).incoming() == old(cq).incoming() + success_completions(
                old(sq).queue.pending(),
            ).take(
                vstd::math::min(
                    old(sq).queue.pending().len() as int,
                    old(cq).spec_capacity() - old(cq).queue.pending().len(),
                ),
            ),
    {
        let ghost subs = old(sq).queue.pending();
        let ghost free = old(cq).spec_capacity() - old(cq).queue.pending().len();
        let ghost mut k: int = 0;
        proof {
            assert(subs.skip(0) =~= subs);
            assert(success_completions(subs).take(vstd::math::min(0, free)) =~= Seq::<
                crate::cqueue::Entry,
            >::empty());
            assert(old(cq).queue.pending() + Seq::<crate::cqueue::Entry>::empty() =~= old(
                cq,
            ).queue.pending());
            assert(old(cq).incoming() + Seq::<crate::cqueue::Entry>::empty() =~= old(
                cq,
            ).incoming());
        }
        while cursor_distance(sq.queue.head, sq.queue.tail) > 0
            invariant
                sq.wf(),
                cq.wf(),
                0 <= k <= subs.len(),
                sq.queue.pending() == subs.skip(k),
                sq.spec_capacity() == old(sq).spec_capacity(),
                cq.spec_capacity() == old(cq).spec_capacity(),
                sq.head == old(sq).head,
                sq.tail == old(sq).tail,
                sq.queue.tail == old(sq).queue.tail,
                sq.spec_len() == old(sq).spec_len(),
                sq.pending() == old(sq).pending(),
                sq.queue.slots == old(sq).queue.slots,
                cq.head == old(cq).head,
                cq.tail == old(cq).tail,
                cq.queue.head == old(cq).queue.head,
                cq.spec_len() == old(cq).spec_len(),
                cq.ready() == old(cq).ready(),
                free == cq.spec_capacity() - old(cq).queue.pending().len(),
                cq.queue.pending() == old(cq).queue.pending() + success_completions(subs).take(
                    vstd::math::min(k, free),
                ),
                cq.incoming() == old(cq).incoming() + success_completions(subs).take(
                    vstd::math::min(k, free),
                ),
            decreases subs.len() - k,
        {
            complete_next(sq, cq, 0, 0);
            proof {
                assert(subs.skip(k).len() > 0);
                assert(subs.skip(k)[0] == subs[k]);
                assert(subs.skip(k).skip(1) =~= subs.skip(k + 1));
                let taken = vstd::math::min(k, free);
                if old(cq).queue.pending().len() + taken < cq.spec_capacity() {
                    assert(success_completions(subs).take(taken + 1) =~= success_completions(
                        subs,
                    ).take(taken).push(completion_of(subs[k], 0, 0)));
                    assert(taken + 1 == vstd::math::min(k + 1, free));
                } else {
                    assert(vstd::math::min(k + 1, free) == taken);
                }
                k = k + 1;
            }
        }
        proof {
            assert(subs.skip(k).len() == 0);
            assert(k == subs.len());
            assert(vstd::math::min(k, free) == vstd::math::min(subs.len() as int, free));
        }
        let remaining = self.sq_len(sq);
        Ok(remaining)
    }

    /// The number of free slots in the submission ring, going by the
    /// shared cursors: the capacity minus the published, untaken entries.
    /// Pushes not yet synchronized are not counted.
    pub fn sq_space_left(&self, sq: &SubmissionQueue) -> (r: u32)
        requires
            sq.wf(),
        ensures
            r == sq.spec_capacity() - sq.queue.pending().len(),
    {
        sq.queue.size - cursor_distance(sq.queue.head, sq.queue.tail)
    }

    /// Acquire a raw submission slot directly from the ring, bypassing the
    /// value-based push path: the queue is synchronized, one zeroed slot is
    /// reserved and published at the tail, and its slot number is returned
    /// for the caller to fill through
    /// [`SubmissionQueue::write_slot`](crate::squeue::SubmissionQueue::write_slot).
    /// Fails with [`RingError::NoSpaceLeft`] when no slot is free.
    pub fn get_sqe(&self, sq: &mut SubmissionQueue) -> (r: Result<usize, RingError>)
        requires
            old(sq).wf(),
        ensures
            final(sq).wf(),
            final(sq).spec_capacity() == old(sq).spec_capacity(),
            final(sq).head == old(sq).queue.head,
            final(sq).queue.head == old(sq).queue.head,
            final(sq).queue.size == old(sq).queue.size,
            r is Ok <==> occupancy(old(sq).queue.head, old(sq).tail) < old(sq).spec_capacity(),
            r is Err ==> {
                &&& r == Err::<usize, RingError>(RingError::NoSpaceLeft)
                &&& final(sq).tail == old(sq).tail
                &&& final(sq).queue.tail == old(sq).tail
                &&& final(sq).queue.slots == old(sq).queue.slots
            },
            r is Ok ==> {
                &&& r->Ok_0 == crate::ring::slot_index(old(sq).tail, old(sq).queue.size)
                &&& r->Ok_0 < final(sq).queue.slots.len()
                &&& final(sq).pending() == old(sq).pending().skip(
                    occupancy(old(sq).head, old(sq).queue.head),
                ).push(zero_entry())
                &&& final(sq).queue.pending() == final(sq).pending()
                &&& final(sq).spec_len() == occupancy(old(sq).queue.head, old(sq).tail) + 1
            },
    {
        sq.sync();
        if sq.is_full() {
            return Err(RingError::NoSpaceLeft);
        }
        proof {
            crate::ring::lemma_size_pos(sq.queue.size);
            crate::ring::lemma_mask_is_mod(sq.tail, sq.queue.size);
            vstd::arithmetic::div_mod::lemma_mod_division_less_than_divisor(
                sq.tail as int,
                sq.queue.size as int,
            );
        }
        let index = (sq.tail & sq.queue.ring_mask) as usize;
        let blank = crate::squeue::Entry {
            op_code: 0,
            flags: 0,
            user_data: 0,
            handle: 0,
            buffer: 0,
            length: 0,
            offset: 0,
            op_flags: 0,
            personality: 0,
        };
        match sq.push(&blank) {
            Ok(_) => {},
            Err(_) => {
                // unreachable: fullness was checked on the fresh snapshot
                return Err(RingError::NoSpaceLeft);
            },
        }
        sq.sync();
        Ok(index)
    }

    /// Publish everything, hand it to the completer, drain and acknowledge
    /// all completions, and take note of the reclaimed space: one full
    /// round of the ring.  Returns the drained completions, oldest first:
    /// whatever the completion ring already held, then the success
    /// completions of everything this round published, as far as the
    /// completion ring had room.
    fn flush(&self, sq: &mut SubmissionQueue, cq: &mut CompletionQueue) -> (v: Vec<
        crate::cqueue::Entry,
    >)
        requires
            old(sq).wf(),
            old(cq).wf(),
        ensures
            final(sq).wf(),
            final(cq).wf(),
            final(sq).spec_capacity() == old(sq).spec_capacity(),
            final(cq).spec_capacity() == old(cq).spec_capacity(),
            final(sq).queue.size == old(sq).queue.size,
            final(sq).queue.slots == old(sq).queue.slots,
            final(sq).spec_len() == 0,
            final(sq).pending() == Seq::<crate::squeue::Entry>::empty(),
            final(sq).queue.pending() == Seq::<crate::squeue::Entry>::empty(),
            final(cq).spec_len() == 0,
            final(cq).ready() == Seq::<crate::cqueue::Entry>::empty(),
            final(cq).incoming() == Seq::<crate::cqueue::Entry>::empty(),
            final(cq).queue.pending() == Seq::<crate::cqueue::Entry>::empty(),
            v@ == old(cq).ready() + old(cq).incoming() + success_completions(
                old(sq).pending().skip(occupancy(old(sq).head, old(sq).queue.head)),
            ).take(
                vstd::math::min(
                    old(sq).spec_len() - occupancy(old(sq).head, old(sq).queue.head),
                    old(cq).spec_capacity() - old(cq).queue.pending().len(),
                ),
            ),
    {
        sq.sync();
        let ghost published = sq.queue.pending();
        let _pending = self.submit_and_wait(sq, cq, 0, 0);
        let v = cq.clear_cqes();
        sq.sync();
        proof {
            assert(sq.pending() =~= Seq::<crate::squeue::Entry>::empty());
            assert(sq.queue.pending() =~= Seq::<crate::squeue::Entry>::empty());
            let free = old(cq).spec_capacity() - old(cq).queue.pending().len();
            assert(v@ =~= old(cq).ready() + old(cq).incoming() + success_completions(
                published,
            ).take(vstd::math::min(published.len() as int, free)));
        }
        v
    }

    /// Register a two-handle file table and one block-sized transfer
    /// buffer with the environment, and run the registration to completion.
    ///
    /// This is a synchronous round trip, not a setter: the file-table and
    /// buffer-table registration entries are encoded into the two slots at
    /// the tail, published, handed to the completer, and every completion
    /// is drained and returned - the round's own last - so the call
    /// consumes one submission/completion cycle and leaves both queues
    /// empty.  `handles` and `buffer` are opaque references - to a
    /// two-entry handle array and a buffer descriptor - that only the
    /// environment resolves.
    pub fn register_files_bufs(
        &self,
        sq: &mut SubmissionQueue,
        cq: &mut CompletionQueue,
        handles: u64,
        buffer: u64,
    ) -> (r: Result<Vec<crate::cqueue::Entry>, RingError>)
        requires
            old(sq).wf(),
            old(cq).wf(),
        ensures
            final(sq).wf(),
            final(cq).wf(),
            final(sq).spec_capacity() == old(sq).spec_capacity(),
            final(cq).spec_capacity() == old(cq).spec_capacity(),
            r is Ok <==> 2 <= old(sq).spec_capacity() - old(sq).spec_len(),
            r is Err ==> {
                &&& r == Err::<Vec<crate::cqueue::Entry>, RingError>(RingError::NoSpaceLeft)
                &&& *final(sq) == *old(sq)
                &&& *final(cq) == *old(cq)
            },
            r is Ok ==> {
                &&& final(sq).queue.slots@ == old(sq).queue.slots@.update(
                    slot_index(old(sq).tail, old(sq).queue.size),
                    register_files_entry(handles),
                ).update(
                    slot_index(cursor_add(old(sq).tail, 1), old(sq).queue.size),
                    register_buffers_entry(buffer),
                )
                &&& final(sq).spec_len() == 0
                &&& final(sq).queue.pending() == Seq::<crate::squeue::Entry>::empty()
                &&& final(cq).spec_len() == 0
                &&& final(cq).ready() == Seq::<crate::cqueue::Entry>::empty()
                &&& final(cq).incoming() == Seq::<crate::cqueue::Entry>::empty()
                &&& final(cq).queue.pending() == Seq::<crate::cqueue::Entry>::empty()
                &&& r->Ok_0@ == old(cq).ready() + old(cq).incoming() + success_completions(
                    (old(sq).pending() + seq![
                        register_files_entry(handles),
                        register_buffers_entry(buffer),
                    ]).skip(occupancy(old(sq).head, old(sq).queue.head)),
                ).take(
                    vstd::math::min(
                        old(sq).spec_len() + 2 - occupancy(old(sq).head, old(sq).queue.head),
                        old(cq).spec_capacity() - old(cq).queue.pending().len(),
                    ),
                )
            },
    {
        let cap = sq.capacity();
        let len = sq.len();
        if cap - len < 2 {
            return Err(RingError::NoSpaceLeft);
        }
        let table = RegisterFiles::new(handles, 2, 0, 0, 0).build();
        let storage = RegisterBuffers::new(buffer, 1, 0, 0, 0).build();
        match sq.push(&table) {
            Ok(_) => {},
            Err(_) => {
                // unreachable: two slots were checked free
                return Err(RingError::NoSpaceLeft);
            },
        }
        match sq.push(&storage) {
            Ok(_) => {},
            Err(_) => {
                // unreachable: two slots were checked free
                return Err(RingError::NoSpaceLeft);
            },
        }
        proof {
            assert(sq.pending() =~= old(sq).pending() + seq![
                register_files_entry(handles),
                register_buffers_entry(buffer),
            ]);
        }
        let drained = self.flush(sq, cq);
        Ok(drained)
    }

    /// The registration round the read/write copy path performs before any
    /// block moves: the in and out handles as the file table, one
    /// block-sized buffer for the data.  A synchronous round trip, exactly
    /// as [`Self::register_files_bufs`], whose contract it repeats.
    pub fn register_read_write(
        &self,
        sq: &mut SubmissionQueue,
        cq: &mut CompletionQueue,
        handles: u64,
        buffer: u64,
    ) -> (r: Result<Vec<crate::cqueue::Entry>, RingError>)
        requires
            old(sq).wf(),
            old(cq).wf(),
        ensures
            final(sq).wf(),
            final(cq).wf(),
            final(sq).spec_capacity() == old(sq).spec_capacity(),
            final(cq).spec_capacity() == old(cq).spec_capacity(),
            r is Ok <==> 2 <= old(sq).spec_capacity() - old(sq).spec_len(),
            r is Err ==> {
                &&& r == Err::<Vec<crate::cqueue::Entry>, RingError>(RingError::NoSpaceLeft)
                &&& *final(sq) == *old(sq)
                &&& *final(cq) == *old(cq)
            },
            r is Ok ==> {
                &&& final(sq).queue.slots@ == old(sq).queue.slots@.update(
                    slot_index(old(sq).tail, old(sq).queue.size),
                    register_files_entry(handles),
                ).update(
                    slot_index(cursor_add(old(sq).tail, 1), old(sq).queue.size),
                    register_buffers_entry(buffer),
                )
                &&& final(sq).spec_len() == 0
                &&& final(sq).queue.pending() == Seq::<crate::squeue::Entry>::empty()
                &&& final(cq).spec_len() == 0
                &&& final(cq).ready() == Seq::<crate::cqueue::Entry>::empty()
                &&& final(cq).incoming() == Seq::<crate::cqueue::Entry>::empty()
                &&& final(cq).queue.pending() == Seq::<crate::cqueue::Entry>::empty()
                &&& r->Ok_0@ == old(cq).ready() + old(cq).incoming() + success_completions(
                    (old(sq).pending() + seq![
                        register_files_entry(handles),
                        register_buffers_entry(buffer),
                    ]).skip(occupancy(old(sq).head, old(sq).queue.head)),
                ).take(
                    vstd::math::min(
                        old(sq).spec_len() + 2 - occupancy(old(sq).head, old(sq).queue.head),
                        old(cq).spec_capacity() - old(cq).queue.pending().len(),
                    ),
                )
            },
    {
        self.register_files_bufs(sq, cq, handles, buffer)
    }

    /// Queue one read/write pair: read `size` bytes at `offset` from
    /// registered file 0 into registered buffer 0, and write them from
    /// that buffer to registered file 1 at the same offset.  All or
    /// nothing: with fewer than two free slots, nothing is queued and
    /// [`RingError::NoSpaceLeft`] is returned.
    pub fn queue_read_write_pair(&self, sq: &mut SubmissionQueue, offset: u64, size: usize) -> (r:
        Result<(), RingError>)
        requires
            old(sq).wf(),
            size <= u32::MAX,
        ensures
            final(sq).wf(),
            final(sq).spec_capacity() == old(sq).spec_capacity(),
            final(sq).head == old(sq).head,
            final(sq).queue.head == old(sq).queue.head,
            final(sq).queue.tail == old(sq).queue.tail,
            r is Ok <==> 2 <= old(sq).spec_capacity() - old(sq).spec_len(),
            r is Err ==> {
                &&& r == Err::<(), RingError>(RingError::NoSpaceLeft)
                &&& *final(sq) == *old(sq)
            },
            r is Ok ==> {
                &&& final(sq).spec_len() == old(sq).spec_len() + 2
                &&& final(sq).tail == cursor_add(old(sq).tail, 2)
                &&& final(sq).queue.slots@ == old(sq).queue.slots@.update(
                    slot_index(old(sq).tail, old(sq).queue.size),
                    pair_read_entry(offset, size as u32),
                ).update(
                    slot_index(cursor_add(old(sq).tail, 1), old(sq).queue.size),
                    pair_write_entry(offset, size as u32),
                )
                &&& final(sq).pending() == old(sq).pending().push(
                    pair_read_entry(offset, size as u32),
                ).push(pair_write_entry(offset, size as u32))
                &&& final(sq).queue.pending() == old(sq).queue.pending()
            },
    {
        let read_half = Read::new(0, 0, size as u32, offset, 0).build();
        let write_half = Write::new(1, 0, size as u32, offset, 0).build();
        let cap = sq.capacity();
        let len = sq.len();
        if cap - len < 2 {
            return Err(RingError::NoSpaceLeft);
        }
        match sq.push(&read_half) {
            Ok(_) => {},
            Err(_) => {
                // unreachable: two slots were checked free
                return Err(RingError::NoSpaceLeft);
            },
        }
        match sq.push(&write_half) {
            Ok(_) => {},
            Err(_) => {
                // unreachable: two slots were checked free
                return Err(RingError::NoSpaceLeft);
            },
        }
        proof {
            crate::ring::lemma_cursor_add_assoc(old(sq).tail, 1, 1);
        }
        Ok(())
    }

    /// Copy the first `size` bytes between the registered file pair: queue
    /// a read/write pair for every [`BLOCK_SIZE`] block and one for the
    /// remainder, running the ring whenever fewer than two slots are left,
    /// and drain everything at the end.  Returns the submission log: every
    /// queued entry, in order, which is exactly [`copy_entries`]`(size)` -
    /// block-by-block pairs that tile the first `size` bytes (see
    /// [`lemma_copy_pairs_cover`]).
    ///
    /// Fails with [`RingError::NoSpaceLeft`], touching nothing, when a
    /// block is to copy but the ring cannot hold a pair; otherwise both
    /// queues end empty.
    pub fn copy_file(&self, sq: &mut SubmissionQueue, cq: &mut CompletionQueue, size: u64) -> (r:
        Result<Vec<crate::squeue::Entry>, RingError>)
        requires
            old(sq).wf(),
            old(cq).wf(),
        ensures
            final(sq).wf(),
            final(cq).wf(),
            final(sq).spec_capacity() == old(sq).spec_capacity(),
            final(cq).spec_capacity() == old(cq).spec_capacity(),
            r is Ok <==> (size == 0 || old(sq).spec_capacity() >= 2),
            size == 0 ==> *final(sq) == *old(sq) && *final(cq) == *old(cq),
            r is Err ==> {
                &&& r == Err::<Vec<crate::squeue::Entry>, RingError>(RingError::NoSpaceLeft)
                &&& *final(sq) == *old(sq)
                &&& *final(cq) == *old(cq)
            },
            r is Ok ==> r->Ok_0@ == copy_entries(size),
            (r is Ok && size > 0) ==> {
                &&& final(sq).spec_len() == 0
                &&& final(sq).queue.pending() == Seq::<crate::squeue::Entry>::empty()
                &&& final(cq).spec_len() == 0
                &&& final(cq).ready() == Seq::<crate::cqueue::Entry>::empty()
                &&& final(cq).queue.pending() == Seq::<crate::cqueue::Entry>::empty()
            },
    {
        let block = BLOCK_SIZE as u64;
        let mut log: Vec<crate::squeue::Entry> = Vec::new();
        if size == 0 {
            proof {
                assert(log@ =~= copy_entries(size));
            }
            return Ok(log);
        }
        if sq.capacity() < 2 {
            return Err(RingError::NoSpaceLeft);
        }
        let _cleared = self.flush(sq, cq);
        let mut offset: u64 = 0;
        let ghost mut j: int = 0;
        proof {
            assert(log@ =~= copy_entries(size).take(0));
        }
        while size - offset >= block
            invariant
                sq.wf(),
                cq.wf(),
                sq.spec_capacity() == old(sq).spec_capacity(),
                cq.spec_capacity() == old(cq).spec_capacity(),
                2 <= sq.spec_capacity(),
                sq.spec_len() + 2 <= sq.spec_capacity(),
                offset <= size,
                block == BLOCK_SIZE,
                1 <= block <= u32::MAX,
                0 <= j,
                offset as int == copy_offset(j),
                log@ == copy_entries(size).take(2 * j),
            decreases size - offset,
        {
            proof {
                lemma_copy_pair_in_range(size, j);
            }
            match self.queue_read_write_pair(sq, offset, BLOCK_SIZE) {
                Ok(_) => {},
                Err(e) => {
                    // unreachable: the loop keeps two slots free
                    return Err(e);
                },
            }
            log.push(Read::new(0, 0, BLOCK_SIZE as u32, offset, 0).build());
            log.push(Write::new(1, 0, BLOCK_SIZE as u32, offset, 0).build());
            proof {
                assert(copy_entries(size)[2 * j] == pair_read_entry(offset, BLOCK_SIZE as u32));
                assert(copy_entries(size)[2 * j + 1] == pair_write_entry(
                    offset,
                    BLOCK_SIZE as u32,
                ));
                assert(log@ =~= copy_entries(size).take(2 * j + 2));
            }
            sq.sync();
            if self.sq_space_left(sq) < 2 {
                let _drained = self.flush(sq, cq);
            }
            offset = offset + block;
            proof {
                j = j + 1;
            }
        }
        if offset < size {
            proof {
                lemma_copy_last_pair(size, j);
            }
            match self.queue_read_write_pair(sq, offset, (size - offset) as usize) {
                Ok(_) => {},
                Err(e) => {
                    // unreachable: the loop keeps two slots free
                    return Err(e);
                },
            }
            log.push(Read::new(0, 0, (size - offset) as u32, offset, 0).build());
            log.push(Write::new(1, 0, (size - offset) as u32, offset, 0).build());
            proof {
                assert(log@ =~= copy_entries(size).take(2 * j + 2));
                assert(log@ =~= copy_entries(size));
            }
        } else {
            proof {
                lemma_copy_done(size, j);
                assert(log@ =~= copy_entries(size));
            }
        }
        let _rest = self.flush(sq, cq);
        Ok(log)
    }
}

/// The read half of a copy pair: read `size` bytes at `offset` from
/// registered file 0 into registered buffer 0.
pub open spec fn pair_read_entry(offset: u64, size: u32) -> crate::squeue::Entry {
    crate::squeue::Entry {
        op_code: crate::opcode::OP_READ,
        flags: 0,
        user_data: 0,
        handle: 0,
        buffer: 0,
        length: size,
        offset,
        op_flags: 0,
        personality: 0,
    }
}

/// The write half of a copy pair: write `size` bytes from registered
/// buffer 0 to registered file 1 at `offset`.
pub open spec fn pair_write_entry(offset: u64, size: u32) -> crate::squeue::Entry {
    crate::squeue::Entry {
        op_code: crate::opcode::OP_WRITE,
        flags: 0,
        user_data: 0,
        handle: 1,
        buffer: 0,
        length: size,
        offset,
        op_flags: 0,
        personality: 0,
    }
}

/// Every completion answers its submission: for any run of submitted
/// entries, the completion at each position echoes the user data of the
/// submission at the same position, unchanged.
pub proof fn lemma_user_data_round_trip(es: Seq<crate::squeue::Entry>)
    ensures
        success_completions(es).len() == es.len(),
        forall|i: int|
            0 <= i < es.len() ==> #[trigger] success_completions(es)[i].user_data
                == es[i].user_data,
{
}

/// When the completion ring has room for a whole batch, no completion is
/// dropped: the batch is answered one for one.
pub proof fn lemma_no_drop_when_room(es: Seq<crate::squeue::Entry>, free: int)
    requires
        es.len() <= free,
    ensures
        success_completions(es).take(vstd::math::min(es.len() as int, free))
            == success_completions(es),
{
    assert(success_completions(es).take(es.len() as int) =~= success_completions(es));
}

/// The file-table registration entry the registration round pushes: a
/// two-handle table, no flag words.
pub open spec fn register_files_entry(handles: u64) -> crate::squeue::Entry {
    crate::squeue::Entry {
        op_code: crate::opcode::OP_REGISTER_FILES,
        flags: 0,
        user_data: 0,
        handle: handles,
        buffer: 0,
        length: 2,
        offset: 0,
        op_flags: 0,
        personality: 0,
    }
}

/// The buffer-table registration entry the registration round pushes: one
/// transfer buffer, no flag words.
pub open spec fn register_buffers_entry(buffer: u64) -> crate::squeue::Entry {
    crate::squeue::Entry {
        op_code: crate::opcode::OP_REGISTER_BUFFERS,
        flags: 0,
        user_data: 0,
        handle: 0,
        buffer,
        length: 1,
        offset: 0,
        op_flags: 0,
        personality: 0,
    }
}

/// How many read/write pairs a copy of `size` bytes queues: one per full
/// block, and one for a trailing remainder.
pub open spec fn copy_pair_count(size: u64) -> int {
    (size + BLOCK_SIZE - 1) / (BLOCK_SIZE as int)
}

/// The byte offset of the `j`-th copy block.
pub open spec fn copy_offset(j: int) -> int {
    j * (BLOCK_SIZE as int)
}

/// How many bytes the `j`-th block of a `size`-byte copy moves: a full
/// block, or whatever of the file remains.
pub open spec fn copy_len(size: u64, j: int) -> int {
    if size - copy_offset(j) < BLOCK_SIZE {
        size - copy_offset(j)
    } else {
        BLOCK_SIZE as int
    }
}

/// The full submission log of a `size`-byte copy: for every block, in
/// offset order, its read and then its write.
pub open spec fn copy_entries(size: u64) -> Seq<crate::squeue::Entry> {
    Seq::new(
        (2 * copy_pair_count(size)) as nat,
        |i: int|
            if i % 2 == 0 {
                pair_read_entry(copy_offset(i / 2) as u64, copy_len(size, i / 2) as u32)
            } else {
                pair_write_entry(copy_offset(i / 2) as u64, copy_len(size, i / 2) as u32)
            },
    )
}

/// While a whole block remains past offset `j` blocks in, block `j` is a
/// full block and not the last one the plan holds.
proof fn lemma_copy_pair_in_range(size: u64, j: int)
    requires
        0 <= j,
        copy_offset(j) + BLOCK_SIZE <= size,
    ensures
        j < copy_pair_count(size),
        copy_len(size, j) == BLOCK_SIZE,
{
    let b = BLOCK_SIZE as int;
    assert(j + 1 <= copy_pair_count(size)) by (nonlinear_arith)
        requires
            0 <= j && b == BLOCK_SIZE && j * b + b <= size && copy_pair_count(size) == (size + b
                - 1) / b,
    ;
}

/// When less than a block but something remains, that remainder is the
/// plan's last block.
proof fn lemma_copy_last_pair(size: u64, j: int)
    requires
        0 <= j,
        copy_offset(j) < size,
        size - copy_offset(j) < BLOCK_SIZE,
    ensures
        j + 1 == copy_pair_count(size),
        copy_len(size, j) == size - copy_offset(j),
        1 <= copy_len(size, j) < BLOCK_SIZE,
{
    let b = BLOCK_SIZE as int;
    assert(j + 1 == copy_pair_count(size)) by (nonlinear_arith)
        requires
            0 <= j && b == BLOCK_SIZE && j * b < size && size - j * b < b && copy_pair_count(size)
                == (size + b - 1) / b,
    ;
}

/// When the blocks end exactly at the file's end, the plan holds exactly
/// the blocks already queued.
proof fn lemma_copy_done(size: u64, j: int)
    requires
        0 <= j,
        copy_offset(j) == size,
        1 <= size,
    ensures
        j == copy_pair_count(size),
{
    let b = BLOCK_SIZE as int;
    assert(j == copy_pair_count(size)) by (nonlinear_arith)
        requires
            0 <= j && b == BLOCK_SIZE && j * b == size && 1 <= size && copy_pair_count(size) == (
            size + b - 1) / b,
    ;
}

/// Every byte of a `size`-byte copy lies in exactly one block of the plan:
/// the block of its offset.  The blocks tile the first `size` bytes.
pub proof fn lemma_copy_pairs_cover(size: u64, x: int)
    requires
        0 <= x < size,
    ensures
        0 <= x / (BLOCK_SIZE as int) < copy_pair_count(size),
        forall|j: int|
            0 <= j < copy_pair_count(size) ==> ((#[trigger] copy_offset(j) <= x < copy_offset(j)
                + copy_len(size, j)) <==> j == x / (BLOCK_SIZE as int)),
{
    let b = BLOCK_SIZE as int;
    let q = x / b;
    vstd::arithmetic::div_mod::lemma_fundamental_div_mod(x, b);
    vstd::arithmetic::div_mod::lemma_mod_division_less_than_divisor(x, b);
    assert(x == q * b + x % b);
    assert(0 <= q) by (nonlinear_arith)
        requires
            0 <= x && 1 <= b && x == q * b + x % b && 0 <= x % b < b,
    ;
    assert(q + 1 <= copy_pair_count(size)) by (nonlinear_arith)
        requires
            0 <= q && b == BLOCK_SIZE && q * b <= x < size && copy_pair_count(size) == (size + b
                - 1) / b,
    ;
    assert forall|j: int| 0 <= j < copy_pair_count(size) implies ((#[trigger] copy_offset(j) <= x
        < copy_offset(j) + copy_len(size, j)) <==> j == q) by {
        if j == q {
            assert(copy_offset(q) <= x < copy_offset(q) + copy_len(size, q));
        } else if j < q {
            assert(copy_offset(j) + copy_len(size, j) <= j * b + b);
            assert(j * b + b <= q * b) by (nonlinear_arith)
                requires
                    j < q && 1 <= b,
            ;
        } else {
            assert(q * b + b <= j * b) by (nonlinear_arith)
                requires
                    q < j && 1 <= b,
            ;
        }
    }
}

/// A pending request and the cancellation that targets it, published
/// together where the completion ring has room for both, are answered by
/// exactly two completions: each echoes its own request's user data, and
/// each reports a non-negative result - on this completer the request
/// completes normally rather than losing the race, and the cancellation
/// itself succeeds.
pub proof fn lemma_cancel_pair_round_trip(
    request: crate::squeue::Entry,
    cancel: crate::squeue::Entry,
    free: int,
)
    requires
        2 <= free,
    ensures
        success_completions(seq![request, cancel]).take(vstd::math::min(2, free))
            == success_completions(seq![request, cancel]),
        success_completions(seq![request, cancel]).len() == 2,
        success_completions(seq![request, cancel])[0].user_data == request.user_data,
        success_completions(seq![request, cancel])[1].user_data == cancel.user_data,
        success_completions(seq![request, cancel])[0].result >= 0,
        success_completions(seq![request, cancel])[1].result >= 0,
{
    lemma_no_drop_when_room(seq![request, cancel], free);
}

/// The all-zero submission entry a freshly acquired raw slot holds.
pub open spec fn zero_entry() -> crate::squeue::Entry {
    crate::squeue::Entry {
        op_code: 0,
        flags: 0,
        user_data: 0,
        handle: 0,
        buffer: 0,
        length: 0,
        offset: 0,
        op_flags: 0,
        personality: 0,
    }
}

} // verus!
