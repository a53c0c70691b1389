//! A user-space submission/completion ring: a pair of fixed-capacity
//! circular queues of fixed-size records shared between a caller, which
//! submits I/O requests, and an environment - normally the operating
//! system - which executes them and reports results.
//!
//! The crate holds the ring memory as owned storage and verifies the whole
//! protocol: the cursor discipline of both queues, bounded pushes, snapshot
//! iteration, operation encoding, and the submit-and-drain state machine.
//! The environment's half of the protocol - taking a submission, posting a
//! completion - is itself a pair of verified transition functions, driven
//! by whatever executes the operations: an operating-system shim or a test
//! harness.
use vstd::prelude::*;

pub mod abi;
pub mod cqueue;
pub mod opcode;
pub mod ring;
pub mod squeue;
pub mod submit;

use cqueue::CompletionQueue;
use ring::{is_valid_size, size_ok};
use squeue::SubmissionQueue;

verus! {

/// Errors of ring construction and slot acquisition, and the native error
/// code of a failed submission call.
#[derive(Clone, Copy, Debug, PartialEq, Eq, Structural)]
pub enum RingError {
    /// The requested entry count is not a power of two the ring can hold.
    InvalidEntries,
    /// No free slot is left in the submission ring: drain completions,
    /// synchronize, and retry.
    NoSpaceLeft,
    /// The native error code of a failed submit or wait call, passed on
    /// unchanged.  Raised by environments that drive a ring over a real
    /// operating-system primitive.
    Os(i32),
}

/// The parameters an [`IoRing`] was constructed with, as the ring
/// descriptor records them: the two queue sizes and ring masks, the
/// creation flags, and the wait handle of the underlying primitive.
#[derive(Clone, Copy, Debug, PartialEq, Eq, Structural)]
pub struct Info {
    pub submission_queue_size: u32,
    pub completion_queue_size: u32,
    pub submission_ring_mask: u32,
    pub completion_ring_mask: u32,
    pub flags: u32,
    pub handle: u64,
}

/// The largest submission queue size a ring can be built with; the
/// completion queue is twice as large and must still be a 32-bit power of
/// two.
pub const MAX_ENTRIES: u32 = 0x4000_0000;

/// A valid entry count for ring construction: a power of two no larger
/// than [`MAX_ENTRIES`].
pub open spec fn entries_ok(entries: u32) -> bool {
    size_ok(entries) && entries <= MAX_ENTRIES
}

/// An io_uring-style ring instance: the descriptor and both queue engines,
/// under one owner.
///
/// The submission queue is the ring the caller writes requests into; the
/// completion queue is the ring the environment writes results into.
/// `submission` and `completion` hand out exclusive borrows of one engine
/// at a time, so no two writers can ever hold the same queue.
pub struct IoRing {
    pub sq: SubmissionQueue,
    pub cq: CompletionQueue,
    pub info: Info,
}

impl IoRing {
    /// A well-formed ring: both queue engines are well-formed and the
    /// descriptor records their actual geometry.
    pub open spec fn wf(&self) -> bool {
        &&& self.sq.wf()
        &&& self.cq.wf()
        &&& self.info.submission_queue_size == self.sq.queue.size
        &&& self.info.completion_queue_size == self.cq.queue.size
        &&& self.info.submission_ring_mask == self.sq.queue.ring_mask
        &&& self.info.completion_ring_mask == self.cq.queue.ring_mask
    }

    /// Create a new ring whose submission queue holds `entries` records.
    ///
    /// `entries` must be a power of two no larger than [`MAX_ENTRIES`];
    /// any other count is rejected with [`RingError::InvalidEntries`].
    /// The completion queue is created twice as large, as the default ring
    /// configuration has it.
    pub fn new(entries: u32) -> (r: Result<IoRing, RingError>)
        ensures
            r is Ok <==> entries_ok(entries),
            !entries_ok(entries) ==> r == Err::<IoRing, RingError>(RingError::InvalidEntries),
            r is Ok ==> {
                &&& r->Ok_0.wf()
                &&& r->Ok_0.sq.spec_capacity() == entries
                &&& r->Ok_0.cq.spec_capacity() == 2 * entries
                &&& r->Ok_0.sq.spec_len() == 0
                &&& r->Ok_0.cq.spec_len() == 0
                &&& r->Ok_0.sq.pending() == Seq::<squeue::Entry>::empty()
                &&& r->Ok_0.sq.queue.pending() == Seq::<squeue::Entry>::empty()
                &&& r->Ok_0.cq.ready() == Seq::<cqueue::Entry>::empty()
                &&& r->Ok_0.cq.incoming() == Seq::<cqueue::Entry>::empty()
                &&& r->Ok_0.cq.queue.pending() == Seq::<cqueue::Entry>::empty()
                &&& r->Ok_0.info == (Info {
                    submission_queue_size: entries,
                    completion_queue_size: (2 * entries) as u32,
                    submission_ring_mask: (entries - 1) as u32,
                    completion_ring_mask: (2 * entries - 1) as u32,
                    flags: 0,
                    handle: 0,
                })
            },
    {
        if !is_valid_size(entries) || entries > MAX_ENTRIES {
            return Err(RingError::InvalidEntries);
        }
        proof {
            ring::lemma_size_double(entries);
        }
        let cq_entries = 2 * entries;
        let sq = SubmissionQueue::with_size(entries);
        let cq = CompletionQueue::with_size(cq_entries);
        let info = Info {
            submission_queue_size: entries,
            completion_queue_size: cq_entries,
            submission_ring_mask: entries - 1,
            completion_ring_mask: cq_entries - 1,
            flags: 0,
            handle: 0,
        };
        Ok(IoRing { sq, cq, info })
    }

    /// Initiate asynchronous I/O: hand all published submission queue
    /// entries to the completer and wait for at least one completion.  See
    /// [`Submitter::submit`] for the details.
    pub fn submit(&mut self) -> (r: Result<usize, RingError>)
        requires
            old(self).wf(),
        ensures
            final(self).wf(),
            final(self).info == old(self).info,
            r == Ok::<usize, RingError>(0usize),
            final(self).sq.pending() == old(self).sq.pending(),
            final(self).sq.spec_len() == old(self).sq.spec_len(),
            final(self).sq.queue.pending() == Seq::<squeue::Entry>::empty(),
            final(self).cq.ready() == old(self).cq.ready(),
            final(self).cq.queue.pending() == old(self).cq.queue.pending()
                + submit::success_completions(old(self).sq.queue.pending()).take(
                vstd::math::min(
                    old(self).sq.queue.pending().len() as int,
                    old(self).cq.spec_capacity() - old(self).cq.queue.pending().len(),
                ),
            ),
    {
        self.submit_and_wait(1)
    }

    /// Initiate and complete asynchronous I/O: hand all published
    /// submission queue entries to the completer and wait until at least
    /// `want` completions are available.  See [`Submitter::submit_and_wait`]
    /// for the completer's contract.
    pub fn submit_and_wait(&mut self, want: u32) -> (r: Result<usize, RingError>)
        requires
            old(self).wf(),
        ensures
            final(self).wf(),
            final(self).info == old(self).info,
            r == Ok::<usize, RingError>(0usize),
            final(self).sq.pending() == old(self).sq.pending(),
            final(self).sq.spec_len() == old(self).sq.spec_len(),
            final(self).sq.queue.pending() == Seq::<squeue::Entry>::empty(),
            final(self).cq.ready() == old(self).cq.ready(),
            final(self).cq.spec_len() == old(self).cq.spec_len(),
            final(self).cq.queue.pending() == old(self).cq.queue.pending()
                + submit::success_completions(old(self).sq.queue.pending()).take(
                vstd::math::min(
                    old(self).sq.queue.pending().len() as int,
                    old(self).cq.spec_capacity() - old(self).cq.queue.pending().len(),
                ),
            ),
            final(self).cq.incoming() == old(self).cq.incoming() + submit::success_completions(
                old(self).sq.queue.pending(),
            ).take(
                vstd::math::min(
                    old(self).sq.queue.pending().len() as int,
                    old(self).cq.spec_capacity() - old(self).cq.queue.pending().len(),
                ),
            ),
    {
        let s = submit::Submitter::new(self.info.handle);
        s.submit_and_wait(&mut self.sq, &mut self.cq, want, u32::MAX as usize)
    }

    /// Apply one step of the environment's half of the protocol on this
    /// ring: take the oldest published submission and post the completion
    /// that answers it, with the given result code and metadata and the
    /// submission's own user data echoed unchanged.  See
    /// [`submit::complete_next`].
    ///
    /// An executor drives this - with the results its operations actually
    /// produced - in place of an operating system writing the shared
    /// memory itself.
    pub fn complete_next(&mut self, result: i32, information: usize) -> (r: bool)
        requires
            old(self).wf(),
        ensures
            final(self).wf(),
            final(self).info == old(self).info,
            final(self).sq.pending() == old(self).sq.pending(),
            final(self).sq.spec_len() == old(self).sq.spec_len(),
            final(self).cq.ready() == old(self).cq.ready(),
            r == (old(self).sq.queue.pending().len() > 0),
            old(self).sq.queue.pending().len() == 0 ==> *final(self) == *old(self),
            old(self).sq.queue.pending().len() > 0 ==> {
                &&& final(self).sq.queue.pending() == old(self).sq.queue.pending().skip(1)
                &&& (old(self).cq.queue.pending().len() < old(self).cq.spec_capacity() ==> {
                    &&& final(self).cq.queue.pending() == old(self).cq.queue.pending().push(
                        cqueue::completion_of(old(self).sq.queue.pending()[0], result, information),
                    )
                    &&& final(self).cq.incoming() == old(self).cq.incoming().push(
                        cqueue::completion_of(old(self).sq.queue.pending()[0], result, information),
                    )
                })
                &&& (old(self).cq.queue.pending().len() == old(self).cq.spec_capacity()
                    ==> final(self).cq == old(self).cq)
            },
    {
        submit::complete_next(&mut self.sq, &mut self.cq, result, information)
    }

    /// Get a submitter for this ring: the owner of its wait handle.
    pub fn submitter(&self) -> (r: submit::Submitter)
        ensures
            r == (submit::Submitter { handle: self.info.handle }),
    {
        submit::Submitter::new(self.info.handle)
    }

    /// Get the submitter, submission queue and completion queue of the
    /// ring instance, to operate on the parts independently.  The two
    /// queue borrows are exclusive and disjoint, and each view keeps the
    /// snapshot of its last `sync`, as with [`Self::submission`];
    /// synchronize each queue around a submission, or its snapshot goes
    /// stale.
    pub fn split(&mut self) -> (r: (submit::Submitter, &mut SubmissionQueue, &mut CompletionQueue))
        ensures
            r.0 == (submit::Submitter { handle: old(self).info.handle }),
            *r.1 == old(self).sq,
            *r.2 == old(self).cq,
            *final(self) == (IoRing { sq: *final(r.1), cq: *final(r.2), ..*old(self) }),
    {
        let s = submit::Submitter::new(self.info.handle);
        (s, &mut self.sq, &mut self.cq)
    }

    /// Get the parameters this instance was constructed with.
    pub fn info(&self) -> (r: &Info)
        ensures
            r == self.info,
    {
        &self.info
    }

    /// Get the submission queue of the ring instance.  This is used to
    /// send I/O requests to the environment.
    ///
    /// The ring keeps one long-lived view per queue, and borrowing hands
    /// that view out as it stands: its cursor snapshot dates from its last
    /// `sync`, deliberately not from the moment of the borrow.  Pushes not
    /// yet published therefore survive across borrows, and the borrow
    /// rules already keep any second writer out; call `sync` on the view
    /// to take a fresh snapshot of the shared cursors.
    pub fn submission(&mut self) -> (sq: &mut SubmissionQueue)
        ensures
            *sq == old(self).sq,
            *final(self) == (IoRing { sq: *final(sq), ..*old(self) }),
    {
        &mut self.sq
    }

    /// Get the submission queue from a shared borrow: enough for the
    /// occupancy queries, while the borrow rules still keep every writer
    /// out as long as it lives.  As with [`Self::submission`], the view's
    /// snapshot dates from its last `sync`, not from the borrow.
    pub fn submission_shared(&self) -> (sq: &SubmissionQueue)
        ensures
            *sq == self.sq,
    {
        &self.sq
    }

    /// Get the completion queue of the ring instance.  This is used to
    /// receive I/O results from the environment.
    ///
    /// As with [`Self::submission`], the view handed out keeps the cursor
    /// snapshot of its last `sync` - deliberately so: completions taken
    /// but not yet acknowledged survive across borrows.  Call `sync` on
    /// the view to observe newly posted completions.
    pub fn completion(&mut self) -> (cq: &mut CompletionQueue)
        ensures
            *cq == old(self).cq,
            *final(self) == (IoRing { cq: *final(cq), ..*old(self) }),
    {
        &mut self.cq
    }

    /// Get the completion queue from a shared borrow: enough for the
    /// occupancy queries, while the borrow rules still keep every writer
    /// out as long as it lives.  As with [`Self::completion`], the view's
    /// snapshot dates from its last `sync`, not from the borrow.
    pub fn completion_shared(&self) -> (cq: &CompletionQueue)
        ensures
            *cq == self.cq,
    {
        &self.cq
    }
}

} // verus!
