//! Operation builders: one per operation the ring can carry.
//!
//! Every builder is constructed from the parameters its operation requires
//! and finalized by `build()` into one free-standing submission
//! [`Entry`](crate::squeue::Entry), which the caller then pushes; no builder
//! touches ring state.  Common fields the builder does not set - flags, user
//! data, personality - default to zero and can be added afterwards through
//! the entry's own setters.
//!
//! The operation-specific parameters are laid into the entry's payload
//! fields: handle and buffer references in `handle` and `buffer`, counts,
//! lengths and event masks in `length`, file offsets in `offset`, and a pair
//! of 32-bit registration flag words packed low-word-first into `offset`
//! where an operation carries no file offset.
use crate::squeue::Entry;
use vstd::prelude::*;

verus! {

/// Operation code of a no-op request.
pub const OP_NOP: i32 = 0;

/// Operation code of a read request.
pub const OP_READ: i32 = 1;

/// Operation code of a file-table registration request.
pub const OP_REGISTER_FILES: i32 = 2;

/// Operation code of a buffer-table registration request.
pub const OP_REGISTER_BUFFERS: i32 = 3;

/// Operation code of a cancellation request.
pub const OP_CANCEL: i32 = 4;

/// Operation code of a write request.
pub const OP_WRITE: i32 = 5;

/// Operation code of a poll request.
pub const OP_POLL: i32 = 6;

/// The two 32-bit words of a registration flag pair, packed low-word-first
/// into one 64-bit payload field.
pub open spec fn packed_flags(required: u32, advisory: u32) -> u64 {
    (advisory * 0x1_0000_0000 + required) as u64
}

/// Pack a registration flag pair into one 64-bit payload field,
/// low word first.
fn pack_flags(required: u32, advisory: u32) -> (r: u64)
    ensures
        r == packed_flags(required, advisory),
{
    (advisory as u64) * 0x1_0000_0000 + (required as u64)
}

/// Do not perform any I/O.  Useful to exercise the ring itself.
pub struct Nop;

impl Nop {
    /// A new no-op request.
    pub fn new() -> (r: Nop) {
        Nop
    }

    /// Encode the request as one submission entry.
    pub fn build(self) -> (e: Entry)
        ensures
            e == (Entry {
                op_code: OP_NOP,
                flags: 0,
                user_data: 0,
                handle: 0,
                buffer: 0,
                length: 0,
                offset: 0,
                op_flags: 0,
                personality: 0,
            }),
    {
        Entry {
            op_code: OP_NOP,
            flags: 0,
            user_data: 0,
            handle: 0,
            buffer: 0,
            length: 0,
            offset: 0,
            op_flags: 0,
            personality: 0,
        }
    }
}

/// Read `size_to_read` bytes from `file` at `file_offset` into `buffer`.
pub struct Read {
    pub file: u64,
    pub buffer: u64,
    pub size_to_read: u32,
    pub file_offset: u64,
    pub common_op_flags: u32,
}

impl Read {
    /// A new read request from the given handle reference into the given
    /// buffer reference.
    pub fn new(file: u64, buffer: u64, size_to_read: u32, file_offset: u64, common_op_flags: u32)
        -> (r: Read)
        ensures
            r == (Read { file, buffer, size_to_read, file_offset, common_op_flags }),
    {
        Read { file, buffer, size_to_read, file_offset, common_op_flags }
    }

    /// Encode the request as one submission entry.
    pub fn build(self) -> (e: Entry)
        ensures
            e == (Entry {
                op_code: OP_READ,
                flags: 0,
                user_data: 0,
                handle: self.file,
                buffer: self.buffer,
                length: self.size_to_read,
                offset: self.file_offset,
                op_flags: self.common_op_flags,
                personality: 0,
            }),
    {
        Entry {
            op_code: OP_READ,
            flags: 0,
            user_data: 0,
            handle: self.file,
            buffer: self.buffer,
            length: self.size_to_read,
            offset: self.file_offset,
            op_flags: self.common_op_flags,
            personality: 0,
        }
    }
}

/// Write `size_to_write` bytes from `buffer` to `file` at `file_offset`.
pub struct Write {
    pub file: u64,
    pub buffer: u64,
    pub size_to_write: u32,
    pub file_offset: u64,
    pub common_op_flags: u32,
}

impl Write {
    /// A new write request from the given buffer reference to the given
    /// handle reference.
    pub fn new(file: u64, buffer: u64, size_to_write: u32, file_offset: u64, common_op_flags: u32)
        -> (r: Write)
        ensures
            r == (Write { file, buffer, size_to_write, file_offset, common_op_flags }),
    {
        Write { file, buffer, size_to_write, file_offset, common_op_flags }
    }

    /// Encode the request as one submission entry.
    pub fn build(self) -> (e: Entry)
        ensures
            e == (Entry {
                op_code: OP_WRITE,
                flags: 0,
                user_data: 0,
                handle: self.file,
                buffer: self.buffer,
                length: self.size_to_write,
                offset: self.file_offset,
                op_flags: self.common_op_flags,
                personality: 0,
            }),
    {
        Entry {
            op_code: OP_WRITE,
            flags: 0,
            user_data: 0,
            handle: self.file,
            buffer: self.buffer,
            length: self.size_to_write,
            offset: self.file_offset,
            op_flags: self.common_op_flags,
            personality: 0,
        }
    }
}

/// Register `count` file handles, handed over as a reference to a handle
/// array, so later operations can name them by index.
pub struct RegisterFiles {
    pub handles: u64,
    pub count: u32,
    pub flags_required: u32,
    pub flags_advisory: u32,
    pub common_op_flags: u32,
}

impl RegisterFiles {
    /// A new file-table registration request.
    pub fn new(handles: u64, count: u32, flags_required: u32, flags_advisory: u32,
        common_op_flags: u32) -> (r: RegisterFiles)
        ensures
            r == (RegisterFiles { handles, count, flags_required, flags_advisory, common_op_flags }),
    {
        RegisterFiles { handles, count, flags_required, flags_advisory, common_op_flags }
    }

    /// Encode the request as one submission entry.
    pub fn build(self) -> (e: Entry)
        ensures
            e == (Entry {
                op_code: OP_REGISTER_FILES,
                flags: 0,
                user_data: 0,
                handle: self.handles,
                buffer: 0,
                length: self.count,
                offset: packed_flags(self.flags_required, self.flags_advisory),
                op_flags: self.common_op_flags,
                personality: 0,
            }),
    {
        Entry {
            op_code: OP_REGISTER_FILES,
            flags: 0,
            user_data: 0,
            handle: self.handles,
            buffer: 0,
            length: self.count,
            offset: pack_flags(self.flags_required, self.flags_advisory),
            op_flags: self.common_op_flags,
            personality: 0,
        }
    }
}

/// Register `count` in-memory buffers, handed over as a reference to a
/// buffer-descriptor array, so later operations can name them by index.
pub struct RegisterBuffers {
    pub buffers: u64,
    pub count: u32,
    pub flags_required: u32,
    pub flags_advisory: u32,
    pub common_op_flags: u32,
}

impl RegisterBuffers {
    /// A new buffer-table registration request.
    pub fn new(buffers: u64, count: u32, flags_required: u32, flags_advisory: u32,
        common_op_flags: u32) -> (r: RegisterBuffers)
        ensures
            r == (RegisterBuffers { buffers, count, flags_required, flags_advisory, common_op_flags }),
    {
        RegisterBuffers { buffers, count, flags_required, flags_advisory, common_op_flags }
    }

    /// Encode the request as one submission entry.
    pub fn build(self) -> (e: Entry)
        ensures
            e == (Entry {
                op_code: OP_REGISTER_BUFFERS,
                flags: 0,
                user_data: 0,
                handle: 0,
                buffer: self.buffers,
                length: self.count,
                offset: packed_flags(self.flags_required, self.flags_advisory),
                op_flags: self.common_op_flags,
                personality: 0,
            }),
    {
        Entry {
            op_code: OP_REGISTER_BUFFERS,
            flags: 0,
            user_data: 0,
            handle: 0,
            buffer: self.buffers,
            length: self.count,
            offset: pack_flags(self.flags_required, self.flags_advisory),
            op_flags: self.common_op_flags,
            personality: 0,
        }
    }
}

/// Cancel the pending operations that target the given handle reference.
/// Cancellation is asynchronous: the cancel request gets a completion of
/// its own, and each affected operation completes with a negative result.
pub struct Cancel {
    pub file: u64,
    pub common_op_flags: u32,
}

impl Cancel {
    /// A new cancellation request for the operations on a handle.
    pub fn new(file: u64, common_op_flags: u32) -> (r: Cancel)
        ensures
            r == (Cancel { file, common_op_flags }),
    {
        Cancel { file, common_op_flags }
    }

    /// Encode the request as one submission entry.
    pub fn build(self) -> (e: Entry)
        ensures
            e == (Entry {
                op_code: OP_CANCEL,
                flags: 0,
                user_data: 0,
                handle: self.file,
                buffer: 0,
                length: 0,
                offset: 0,
                op_flags: self.common_op_flags,
                personality: 0,
            }),
    {
        Entry {
            op_code: OP_CANCEL,
            flags: 0,
            user_data: 0,
            handle: self.file,
            buffer: 0,
            length: 0,
            offset: 0,
            op_flags: self.common_op_flags,
            personality: 0,
        }
    }
}

/// Wait for the given readiness events on a handle reference.
pub struct Poll {
    pub file: u64,
    pub events: u32,
    pub common_op_flags: u32,
}

impl Poll {
    /// A new poll request for the given event mask.
    pub fn new(file: u64, events: u32, common_op_flags: u32) -> (r: Poll)
        ensures
            r == (Poll { file, events, common_op_flags }),
    {
        Poll { file, events, common_op_flags }
    }

    /// Encode the request as one submission entry.
    pub fn build(self) -> (e: Entry)
        ensures
            e == (Entry {
                op_code: OP_POLL,
                flags: 0,
                user_data: 0,
                handle: self.file,
                buffer: 0,
                length: self.events,
                offset: 0,
                op_flags: self.common_op_flags,
                personality: 0,
            }),
    {
        Entry {
            op_code: OP_POLL,
            flags: 0,
            user_data: 0,
            handle: self.file,
            buffer: 0,
            length: self.events,
            offset: 0,
            op_flags: self.common_op_flags,
            personality: 0,
        }
    }
}

} // verus!
