//! The submission slot record and the helpers that prepare it.
//!
//! A slot is claimed from the submission ring zeroed, then prepared by one of
//! the `prep_*` helpers, which fill in the operation fields and keep the
//! slot's flags, tag and personality. Addresses of buffers, iovec arrays and
//! other kernel-read memory are passed as plain integers: the caller must keep
//! that memory valid and unmoved until the matching completion arrives.
use vstd::prelude::*;
use crate::cqe::TIMEOUT_USER_DATA;
use crate::registrar::{Personality, RegisteredFd};

verus! {

pub const OP_NOP: u8 = 0;
pub const OP_READV: u8 = 1;
pub const OP_WRITEV: u8 = 2;
pub const OP_FSYNC: u8 = 3;
pub const OP_READ_FIXED: u8 = 4;
pub const OP_WRITE_FIXED: u8 = 5;
pub const OP_POLL_ADD: u8 = 6;
pub const OP_POLL_REMOVE: u8 = 7;
pub const OP_TIMEOUT: u8 = 11;
pub const OP_TIMEOUT_REMOVE: u8 = 12;
pub const OP_ACCEPT: u8 = 13;
pub const OP_ASYNC_CANCEL: u8 = 14;
pub const OP_LINK_TIMEOUT: u8 = 15;
pub const OP_CONNECT: u8 = 16;
pub const OP_FALLOCATE: u8 = 17;
pub const OP_OPENAT: u8 = 18;
pub const OP_CLOSE: u8 = 19;
pub const OP_FILES_UPDATE: u8 = 20;
pub const OP_STATX: u8 = 21;
pub const OP_READ: u8 = 22;
pub const OP_WRITE: u8 = 23;
pub const OP_FADVISE: u8 = 24;
pub const OP_MADVISE: u8 = 25;
pub const OP_SEND: u8 = 26;
pub const OP_RECV: u8 = 27;
pub const OP_EPOLL_CTL: u8 = 29;
pub const OP_SPLICE: u8 = 30;
pub const OP_PROVIDE_BUFFERS: u8 = 31;
pub const OP_REMOVE_BUFFERS: u8 = 32;

/// This event's descriptor is an index into the registered file table.
pub const FIXED_FILE: u8 = 1;
/// Start this event only after all earlier events have completed.
pub const IO_DRAIN: u8 = 2;
/// The next event starts only after this one completed successfully.
pub const IO_LINK: u8 = 4;
/// The next event starts only after this one completed, whatever its result.
pub const IO_HARDLINK: u8 = 8;
/// Always issue this event asynchronously.
pub const ASYNC: u8 = 16;
/// Pick the buffer from the event's buffer group.
pub const BUFFER_SELECT: u8 = 32;

/// A tag that a caller may give an operation: every value but the one that
/// marks injected timeouts.
pub open spec fn user_tag(t: u64) -> bool {
    t != TIMEOUT_USER_DATA
}

/// A set of slot flags.
#[derive(Clone, Copy, Debug, PartialEq, Eq, Structural)]
pub struct SubmissionFlags {
    pub bits: u8,
}

impl SubmissionFlags {
    /// The set with no flag.
    pub fn empty() -> (r: SubmissionFlags)
        ensures
            r.bits == 0,
    {
        SubmissionFlags { bits: 0 }
    }

    /// The set whose bits are `bits`.
    pub fn from_bits(bits: u8) -> (r: SubmissionFlags)
        ensures
            r.bits == bits,
    {
        SubmissionFlags { bits }
    }

    /// Whether every flag of `other` is in this set.
    pub fn contains(self, other: SubmissionFlags) -> (r: bool)
        ensures
            r == (self.bits & other.bits == other.bits),
    {
        self.bits & other.bits == other.bits
    }

    /// The flags in either set.
    pub fn union(self, other: SubmissionFlags) -> (r: SubmissionFlags)
        ensures
            r.bits == self.bits | other.bits,
    {
        SubmissionFlags { bits: self.bits | other.bits }
    }
}

/// Flags of a file sync.
#[derive(Clone, Copy, Debug, PartialEq, Eq, Structural)]
pub struct FsyncFlags {
    pub bits: u32,
}

/// Flags of a timeout.
#[derive(Clone, Copy, Debug, PartialEq, Eq, Structural)]
pub struct TimeoutFlags {
    pub bits: u32,
}

/// A group of provided buffers.
#[derive(Clone, Copy, Debug, PartialEq, Eq, Structural, Hash, PartialOrd, Ord)]
pub struct BufferGroupId {
    pub id: u32,
}

/// The target descriptor of an operation: a raw descriptor, or an entry of
/// the registered file table.
#[derive(Clone, Copy, Debug, PartialEq, Eq, Structural)]
pub enum RingFd {
    Raw(i32),
    Registered(RegisteredFd),
}

impl RingFd {
    /// A registered placeholder, which no operation may target.
    pub open spec fn is_placeholder_spec(self) -> bool {
        self matches RingFd::Registered(r) && r.is_placeholder_spec()
    }

    /// The value for the slot's descriptor field.
    pub open spec fn raw_spec(self) -> i32 {
        match self {
            RingFd::Raw(fd) => fd,
            RingFd::Registered(r) => r.raw_index(),
        }
    }

    /// The flag bits that using this descriptor adds to a slot.
    pub open spec fn flag_bits(self) -> u8 {
        if self is Registered { FIXED_FILE } else { 0 }
    }

    /// The value for the slot's descriptor field. A placeholder is refused by
    /// the precondition.
    pub fn raw(&self) -> (r: i32)
        requires
            !self.is_placeholder_spec(),
        ensures
            r == self.raw_spec(),
    {
        match self {
            RingFd::Raw(fd) => *fd,
            RingFd::Registered(r) => r.as_raw_fd(),
        }
    }
}

/// One submission slot: an operation, its target and arguments, its flags and
/// the tag that comes back on its completion.
#[derive(Clone, Copy, Debug, PartialEq, Eq, Structural)]
pub struct SQE {
    opcode: u8,
    flags: u8,
    ioprio: u16,
    fd: i32,
    off: u64,
    addr: u64,
    len: u32,
    op_flags: u32,
    user_data: u64,
    buf_index: u16,
    personality: u16,
    splice_fd_in: i32,
}

impl SQE {
    pub closed spec fn opcode_spec(self) -> u8 {
        self.opcode
    }

    pub closed spec fn flag_bits(self) -> u8 {
        self.flags
    }

    pub closed spec fn fd_spec(self) -> i32 {
        self.fd
    }

    pub closed spec fn off_spec(self) -> u64 {
        self.off
    }

    pub closed spec fn addr_spec(self) -> u64 {
        self.addr
    }

    pub closed spec fn len_spec(self) -> u32 {
        self.len
    }

    pub closed spec fn op_flags_spec(self) -> u32 {
        self.op_flags
    }

    pub closed spec fn tag(self) -> u64 {
        self.user_data
    }

    pub closed spec fn buf_index_spec(self) -> u16 {
        self.buf_index
    }

    pub closed spec fn personality_spec(self) -> u16 {
        self.personality
    }

    pub closed spec fn splice_fd_in_spec(self) -> i32 {
        self.splice_fd_in
    }

    pub closed spec fn ioprio_spec(self) -> u16 {
        self.ioprio
    }

    /// The all-zero slot, which is a no-op with tag 0 and no flags.
    pub closed spec fn zeroed_spec() -> SQE {
        SQE {
            opcode: 0,
            flags: 0,
            ioprio: 0,
            fd: 0,
            off: 0,
            addr: 0,
            len: 0,
            op_flags: 0,
            user_data: 0,
            buf_index: 0,
            personality: 0,
            splice_fd_in: 0,
        }
    }

    /// This slot prepared for operation `op`: the operation fields are set,
    /// the operation-specific fields cleared, and flags, tag and personality
    /// kept.
    pub closed spec fn prepared(self, op: u8, fd: i32, addr: u64, len: u32, off: u64) -> SQE {
        SQE {
            opcode: op,
            ioprio: 0,
            fd,
            off,
            addr,
            len,
            op_flags: 0,
            buf_index: 0,
            splice_fd_in: 0,
            ..self
        }
    }

    pub closed spec fn with_op_flags(self, v: u32) -> SQE {
        SQE { op_flags: v, ..self }
    }

    pub closed spec fn with_buf_index(self, v: u16) -> SQE {
        SQE { buf_index: v, ..self }
    }

    pub closed spec fn with_splice_fd_in(self, v: i32) -> SQE {
        SQE { splice_fd_in: v, ..self }
    }

    pub closed spec fn with_flag_bits(self, v: u8) -> SQE {
        SQE { flags: v, ..self }
    }

    pub closed spec fn with_tag(self, v: u64) -> SQE {
        SQE { user_data: v, ..self }
    }

    pub closed spec fn with_personality(self, v: u16) -> SQE {
        SQE { personality: v, ..self }
    }

    /// This slot prepared for `op` on the descriptor `fd`, with the fixed-file
    /// flag added when `fd` is registered.
    pub open spec fn prepared_on(self, op: u8, fd: RingFd, addr: u64, len: u32, off: u64) -> SQE {
        let p = self.prepared(op, fd.raw_spec(), addr, len, off);
        p.with_flag_bits(p.flag_bits() | fd.flag_bits())
    }

    /// A zeroed slot.
    pub fn zeroed() -> (r: SQE)
        ensures
            r == SQE::zeroed_spec(),
    {
        SQE {
            opcode: 0,
            flags: 0,
            ioprio: 0,
            fd: 0,
            off: 0,
            addr: 0,
            len: 0,
            op_flags: 0,
            user_data: 0,
            buf_index: 0,
            personality: 0,
            splice_fd_in: 0,
        }
    }

    /// This event's tag.
    pub fn user_data(&self) -> (r: u64)
        ensures
            r == self.tag(),
    {
        self.user_data
    }

    /// Sets this event's tag, which comes back on its completion. The value
    /// reserved for injected timeouts is refused by the precondition.
    pub fn set_user_data(&mut self, user_data: u64)
        requires
            user_tag(user_data),
        ensures
            *final(self) == old(self).with_tag(user_data),
    {
        self.user_data = user_data;
    }

    /// Sets the tag of an injected timeout.
    pub(crate) fn set_timeout_tag(&mut self)
        ensures
            *final(self) == old(self).with_tag(TIMEOUT_USER_DATA),
    {
        self.user_data = TIMEOUT_USER_DATA;
    }

    /// This event's flags.
    pub fn flags(&self) -> (r: SubmissionFlags)
        ensures
            r.bits == self.flag_bits(),
    {
        SubmissionFlags { bits: self.flags }
    }

    /// Replaces this event's flags.
    pub fn overwrite_flags(&mut self, flags: SubmissionFlags)
        ensures
            *final(self) == old(self).with_flag_bits(flags.bits),
    {
        self.flags = flags.bits;
    }

    /// Adds `flags` to this event's flags; flags already set stay set.
    pub fn set_flags(&mut self, flags: SubmissionFlags)
        ensures
            *final(self) == old(self).with_flag_bits(old(self).flag_bits() | flags.bits),
    {
        self.flags = self.flags | flags.bits;
    }

    /// Sets the credentials the operation runs with.
    pub fn set_personality(&mut self, personality: Personality)
        ensures
            *final(self) == old(self).with_personality(personality.id_spec()),
    {
        self.personality = personality.id();
    }

    /// Zeroes the whole slot: tag, flags and operation.
    pub fn clear(&mut self)
        ensures
            *final(self) == SQE::zeroed_spec(),
    {
        *self = SQE::zeroed();
    }

    /// The operation code.
    pub fn opcode(&self) -> (r: u8)
        ensures
            r == self.opcode_spec(),
    {
        self.opcode
    }

    /// The target descriptor field.
    pub fn fd(&self) -> (r: i32)
        ensures
            r == self.fd_spec(),
    {
        self.fd
    }

    /// The offset field.
    pub fn off(&self) -> (r: u64)
        ensures
            r == self.off_spec(),
    {
        self.off
    }

    /// The address field.
    pub fn addr(&self) -> (r: u64)
        ensures
            r == self.addr_spec(),
    {
        self.addr
    }

    /// The length field.
    pub fn len(&self) -> (r: u32)
        ensures
            r == self.len_spec(),
    {
        self.len
    }

    /// The operation-specific flags field.
    pub fn op_flags(&self) -> (r: u32)
        ensures
            r == self.op_flags_spec(),
    {
        self.op_flags
    }

    /// The fixed buffer index or buffer group field.
    pub fn buf_index(&self) -> (r: u16)
        ensures
            r == self.buf_index_spec(),
    {
        self.buf_index
    }

    /// The personality field.
    pub fn personality(&self) -> (r: u16)
        ensures
            r == self.personality_spec(),
    {
        self.personality
    }

    /// The splice input descriptor field.
    pub fn splice_fd_in(&self) -> (r: i32)
        ensures
            r == self.splice_fd_in_spec(),
    {
        self.splice_fd_in
    }

    /// The IO priority field.
    pub fn ioprio(&self) -> (r: u16)
        ensures
            r == self.ioprio_spec(),
    {
        self.ioprio
    }
    /// Prepares a no-op.
    pub fn prep_nop(&mut self)
        ensures
            *final(self) == old(self).prepared(OP_NOP, -1i32, 0, 0, 0),
    {
        self.set_rw(OP_NOP, -1, 0, 0, 0);
    }

    /// Prepares a read of `len` bytes at `offset` into the buffer at `buf_addr`.
    pub fn prep_read(&mut self, fd: i32, buf_addr: u64, len: u32, offset: u64)
        ensures
            *final(self) == old(self).prepared(OP_READ, fd, buf_addr, len, offset),
    {
        self.set_rw(OP_READ, fd, buf_addr, len, offset);
    }

    /// Prepares a write of `len` bytes at `offset` from the buffer at `buf_addr`.
    pub fn prep_write(&mut self, fd: i32, buf_addr: u64, len: u32, offset: u64)
        ensures
            *final(self) == old(self).prepared(OP_WRITE, fd, buf_addr, len, offset),
    {
        self.set_rw(OP_WRITE, fd, buf_addr, len, offset);
    }

    /// Prepares a vectored read into the `nr_vecs` iovecs at `iovecs_addr`.
    pub fn prep_read_vectored(&mut self, fd: RingFd, iovecs_addr: u64, nr_vecs: u32, offset: u64)
        requires
            !fd.is_placeholder_spec(),
        ensures
            *final(self) == old(self).prepared_on(OP_READV, fd, iovecs_addr, nr_vecs, offset),
    {
        self.set_rw_on(OP_READV, fd, iovecs_addr, nr_vecs, offset);
    }

    /// Prepares a vectored write from the `nr_vecs` iovecs at `iovecs_addr`.
    pub fn prep_write_vectored(&mut self, fd: RingFd, iovecs_addr: u64, nr_vecs: u32, offset: u64)
        requires
            !fd.is_placeholder_spec(),
        ensures
            *final(self) == old(self).prepared_on(OP_WRITEV, fd, iovecs_addr, nr_vecs, offset),
    {
        self.set_rw_on(OP_WRITEV, fd, iovecs_addr, nr_vecs, offset);
    }

    /// Prepares a read into the registered buffer `buf_index`.
    pub fn prep_read_fixed(&mut self, fd: RingFd, buf_addr: u64, len: u32, offset: u64, buf_index: u16)
        requires
            !fd.is_placeholder_spec(),
        ensures
            *final(self) == old(self).prepared_on(OP_READ_FIXED, fd, buf_addr, len, offset).with_buf_index(buf_index),
    {
        self.set_rw_on(OP_READ_FIXED, fd, buf_addr, len, offset);
        self.buf_index = buf_index;
    }

    /// Prepares a write from the registered buffer `buf_index`.
    pub fn prep_write_fixed(&mut self, fd: RingFd, buf_addr: u64, len: u32, offset: u64, buf_index: u16)
        requires
            !fd.is_placeholder_spec(),
        ensures
            *final(self) == old(self).prepared_on(OP_WRITE_FIXED, fd, buf_addr, len, offset).with_buf_index(buf_index),
    {
        self.set_rw_on(OP_WRITE_FIXED, fd, buf_addr, len, offset);
        self.buf_index = buf_index;
    }

    /// Prepares a file sync.
    pub fn prep_fsync(&mut self, fd: RingFd, flags: FsyncFlags)
        requires
            !fd.is_placeholder_spec(),
        ensures
            *final(self) == old(self).prepared_on(OP_FSYNC, fd, 0, 0, 0).with_op_flags(flags.bits),
    {
        self.set_rw_on(OP_FSYNC, fd, 0, 0, 0);
        self.op_flags = flags.bits;
    }

    /// Prepares a splice of `count` bytes from `fd_in` to `fd_out`.
    pub fn prep_splice(&mut self, fd_in: i32, off_in: i64, fd_out: i32, off_out: i64, count: u32, flags: u32)
        ensures
            *final(self) == old(self).prepared(OP_SPLICE, fd_out, off_in as u64, count, off_out as u64).with_splice_fd_in(fd_in).with_op_flags(flags),
    {
        self.set_rw(OP_SPLICE, fd_out, off_in as u64, count, off_out as u64);
        self.splice_fd_in = fd_in;
        self.op_flags = flags;
    }

    /// Prepares a receive into the buffer at `buf_addr`.
    pub fn prep_recv(&mut self, fd: i32, buf_addr: u64, len: u32, msg_flags: u32)
        ensures
            *final(self) == old(self).prepared(OP_RECV, fd, buf_addr, len, 0).with_op_flags(msg_flags),
    {
        self.set_rw(OP_RECV, fd, buf_addr, len, 0);
        self.op_flags = msg_flags;
    }

    /// Prepares a send from the buffer at `buf_addr`.
    pub fn prep_send(&mut self, fd: i32, buf_addr: u64, len: u32, msg_flags: u32)
        ensures
            *final(self) == old(self).prepared(OP_SEND, fd, buf_addr, len, 0).with_op_flags(msg_flags),
    {
        self.set_rw(OP_SEND, fd, buf_addr, len, 0);
        self.op_flags = msg_flags;
    }

    /// Prepares an allocation of `size` bytes at `offset`.
    pub fn prep_fallocate(&mut self, fd: i32, offset: u64, size: u64, mode: i32)
        ensures
            *final(self) == old(self).prepared(OP_FALLOCATE, fd, size, mode as u32, offset),
    {
        self.set_rw(OP_FALLOCATE, fd, size, mode as u32, offset);
    }

    /// Prepares a statx of the path at `path_addr` into the buffer at `statx_addr`.
    pub fn prep_statx(&mut self, dirfd: i32, path_addr: u64, flags: i32, mask: u32, statx_addr: u64)
        ensures
            *final(self) == old(self).prepared(OP_STATX, dirfd, path_addr, mask, statx_addr).with_op_flags(flags as u32),
    {
        self.set_rw(OP_STATX, dirfd, path_addr, mask, statx_addr);
        self.op_flags = flags as u32;
    }

    /// Prepares an open of the path at `path_addr`.
    pub fn prep_openat(&mut self, dirfd: i32, path_addr: u64, flags: i32, mode: u32)
        ensures
            *final(self) == old(self).prepared(OP_OPENAT, dirfd, path_addr, mode, 0).with_op_flags(flags as u32),
    {
        self.set_rw(OP_OPENAT, dirfd, path_addr, mode, 0);
        self.op_flags = flags as u32;
    }

    /// Prepares a close of `fd`.
    pub fn prep_close(&mut self, fd: i32)
        ensures
            *final(self) == old(self).prepared(OP_CLOSE, fd, 0, 0, 0),
    {
        self.set_rw(OP_CLOSE, fd, 0, 0, 0);
    }

    /// Prepares a timeout on the timespec at `ts_addr`, which also fires after `events` completions when `events` is not zero.
    pub fn prep_timeout(&mut self, ts_addr: u64, events: u32)
        ensures
            *final(self) == old(self).prepared(OP_TIMEOUT, -1i32, ts_addr, 1, events as u64).with_op_flags(0),
    {
        self.prep_timeout_with_flags(ts_addr, events, TimeoutFlags { bits: 0 });
    }

    /// Prepares a timeout with flags.
    pub fn prep_timeout_with_flags(&mut self, ts_addr: u64, count: u32, flags: TimeoutFlags)
        ensures
            *final(self) == old(self).prepared(OP_TIMEOUT, -1i32, ts_addr, 1, count as u64).with_op_flags(flags.bits),
    {
        self.set_rw(OP_TIMEOUT, -1, ts_addr, 1, count as u64);
        self.op_flags = flags.bits;
    }

    /// Prepares the removal of the timeout tagged `user_data`.
    pub fn prep_timeout_remove(&mut self, user_data: u64)
        ensures
            *final(self) == old(self).prepared(OP_TIMEOUT_REMOVE, -1i32, user_data, 0, 0),
    {
        self.set_rw(OP_TIMEOUT_REMOVE, -1, user_data, 0, 0);
    }

    /// Prepares a timeout for the event linked before this one.
    pub fn prep_link_timeout(&mut self, ts_addr: u64)
        ensures
            *final(self) == old(self).prepared(OP_LINK_TIMEOUT, -1i32, ts_addr, 1, 0),
    {
        self.set_rw(OP_LINK_TIMEOUT, -1, ts_addr, 1, 0);
    }

    /// Prepares a poll of `fd` for the events in `poll_mask`.
    pub fn prep_poll_add(&mut self, fd: i32, poll_mask: u16)
        ensures
            *final(self) == old(self).prepared(OP_POLL_ADD, fd, 0, 0, 0).with_op_flags(poll_mask as u32),
    {
        self.set_rw(OP_POLL_ADD, fd, 0, 0, 0);
        self.op_flags = poll_mask as u32;
    }

    /// Prepares the removal of the poll tagged `user_data`.
    pub fn prep_poll_remove(&mut self, user_data: u64)
        ensures
            *final(self) == old(self).prepared(OP_POLL_REMOVE, -1i32, user_data, 0, 0),
    {
        self.set_rw(OP_POLL_REMOVE, -1, user_data, 0, 0);
    }

    /// Prepares a connect to the socket address at `sockaddr_addr`.
    pub fn prep_connect(&mut self, fd: i32, sockaddr_addr: u64, sockaddr_len: u32)
        ensures
            *final(self) == old(self).prepared(OP_CONNECT, fd, sockaddr_addr, 0, sockaddr_len as u64),
    {
        self.set_rw(OP_CONNECT, fd, sockaddr_addr, 0, sockaddr_len as u64);
    }

    /// Prepares an accept; the peer address goes to `sockaddr_addr` when it is not zero.
    pub fn prep_accept(&mut self, fd: i32, sockaddr_addr: u64, sockaddr_len_addr: u64, flags: i32)
        ensures
            *final(self) == old(self).prepared(OP_ACCEPT, fd, sockaddr_addr, 0, sockaddr_len_addr).with_op_flags(flags as u32),
    {
        self.set_rw(OP_ACCEPT, fd, sockaddr_addr, 0, sockaddr_len_addr);
        self.op_flags = flags as u32;
    }

    /// Prepares file access advice.
    pub fn prep_fadvise(&mut self, fd: i32, offset: u64, len: u32, advice: i32)
        ensures
            *final(self) == old(self).prepared(OP_FADVISE, fd, 0, len, offset).with_op_flags(advice as u32),
    {
        self.set_rw(OP_FADVISE, fd, 0, len, offset);
        self.op_flags = advice as u32;
    }

    /// Prepares memory access advice.
    pub fn prep_madvise(&mut self, addr: u64, len: u32, advice: i32)
        ensures
            *final(self) == old(self).prepared(OP_MADVISE, -1i32, addr, len, 0).with_op_flags(advice as u32),
    {
        self.set_rw(OP_MADVISE, -1, addr, len, 0);
        self.op_flags = advice as u32;
    }

    /// Prepares an epoll control operation on `fd`.
    pub fn prep_epoll_ctl(&mut self, epoll_fd: i32, op: i32, fd: i32, event_addr: u64)
        ensures
            *final(self) == old(self).prepared(OP_EPOLL_CTL, epoll_fd, event_addr, op as u32, fd as u64),
    {
        self.set_rw(OP_EPOLL_CTL, epoll_fd, event_addr, op as u32, fd as u64);
    }

    /// Prepares an update of the registered file table from `offset`.
    pub fn prep_files_update(&mut self, fds_addr: u64, nr_fds: u32, offset: i32)
        ensures
            *final(self) == old(self).prepared(OP_FILES_UPDATE, -1i32, fds_addr, nr_fds, offset as u64),
    {
        self.set_rw(OP_FILES_UPDATE, -1, fds_addr, nr_fds, offset as u64);
    }

    /// Prepares handing `count` equal buffers, cut from `total_len` bytes at `buffers_addr`, to buffer group `group`, numbered from `index`.
    pub fn prep_provide_buffers(&mut self, buffers_addr: u64, total_len: u32, count: u32, group: BufferGroupId, index: u32)
        requires
            count > 0,
        ensures
            *final(self) == old(self).prepared(OP_PROVIDE_BUFFERS, count as i32, buffers_addr, total_len / count, index as u64).with_buf_index(group.id as u16),
    {
        self.set_rw(OP_PROVIDE_BUFFERS, count as i32, buffers_addr, total_len / count, index as u64);
        self.buf_index = group.id as u16;
    }

    /// Prepares the removal of `count` buffers from buffer group `group`.
    pub fn prep_remove_buffers(&mut self, count: u32, group: BufferGroupId)
        ensures
            *final(self) == old(self).prepared(OP_REMOVE_BUFFERS, count as i32, 0, 0, 0).with_buf_index(group.id as u16),
    {
        self.set_rw(OP_REMOVE_BUFFERS, count as i32, 0, 0, 0);
        self.buf_index = group.id as u16;
    }

    /// Prepares the cancellation of the event tagged `user_data`.
    pub fn prep_cancel(&mut self, user_data: u64, flags: i32)
        ensures
            *final(self) == old(self).prepared(OP_ASYNC_CANCEL, -1i32, user_data, 0, 0).with_op_flags(flags as u32),
    {
        self.set_rw(OP_ASYNC_CANCEL, -1, user_data, 0, 0);
        self.op_flags = flags as u32;
    }

    fn set_rw(&mut self, op: u8, fd: i32, addr: u64, len: u32, off: u64)
        ensures
            *final(self) == old(self).prepared(op, fd, addr, len, off),
    {
        self.opcode = op;
        self.ioprio = 0;
        self.fd = fd;
        self.off = off;
        self.addr = addr;
        self.len = len;
        self.op_flags = 0;
        self.buf_index = 0;
        self.splice_fd_in = 0;
    }

    fn set_rw_on(&mut self, op: u8, fd: RingFd, addr: u64, len: u32, off: u64)
        requires
            !fd.is_placeholder_spec(),
        ensures
            *final(self) == old(self).prepared_on(op, fd, addr, len, off),
    {
        let raw = fd.raw();
        self.set_rw(op, raw, addr, len, off);
        let extra: u8 = match fd {
            RingFd::Registered(_) => FIXED_FILE,
            RingFd::Raw(_) => 0,
        };
        self.flags = self.flags | extra;
    }
}

/// Every field of a slot, as plain values.
pub struct SlotFields {
    pub opcode: u8,
    pub flags: u8,
    pub ioprio: u16,
    pub fd: i32,
    pub off: u64,
    pub addr: u64,
    pub len: u32,
    pub op_flags: u32,
    pub user_data: u64,
    pub buf_index: u16,
    pub personality: u16,
    pub splice_fd_in: i32,
}

impl SQE {
    /// The slot's fields.
    pub open spec fn fields(self) -> SlotFields {
        SlotFields {
            opcode: self.opcode_spec(),
            flags: self.flag_bits(),
            ioprio: self.ioprio_spec(),
            fd: self.fd_spec(),
            off: self.off_spec(),
            addr: self.addr_spec(),
            len: self.len_spec(),
            op_flags: self.op_flags_spec(),
            user_data: self.tag(),
            buf_index: self.buf_index_spec(),
            personality: self.personality_spec(),
            splice_fd_in: self.splice_fd_in_spec(),
        }
    }
}

/// Two slots with the same fields are the same slot.
pub proof fn lemma_fields_determine(a: SQE, b: SQE)
    ensures
        a.fields() == b.fields() ==> a == b,
{
}

/// Every field of the zeroed slot is zero.
pub proof fn lemma_zeroed_fields()
    ensures
        SQE::zeroed_spec().fields() == (SlotFields {
            opcode: 0,
            flags: 0,
            ioprio: 0,
            fd: 0,
            off: 0,
            addr: 0,
            len: 0,
            op_flags: 0,
            user_data: 0,
            buf_index: 0,
            personality: 0,
            splice_fd_in: 0,
        }),
{
}

/// Preparing a slot sets the operation, target, address, length and offset,
/// clears the priority and the operation-specific fields, and keeps the
/// flags, tag and personality.
pub proof fn lemma_prepared_fields(x: SQE, op: u8, fd: i32, addr: u64, len: u32, off: u64)
    ensures
        x.prepared(op, fd, addr, len, off).fields() == (SlotFields {
            opcode: op,
            ioprio: 0,
            fd,
            off,
            addr,
            len,
            op_flags: 0,
            buf_index: 0,
            splice_fd_in: 0,
            ..x.fields()
        }),
{
}

/// Each field setter changes its own field and nothing else.
pub proof fn lemma_setter_fields(x: SQE, flags: u8, tag: u64, op_flags: u32, buf_index: u16, personality: u16, splice_fd_in: i32)
    ensures
        x.with_flag_bits(flags).fields() == (SlotFields { flags, ..x.fields() }),
        x.with_tag(tag).fields() == (SlotFields { user_data: tag, ..x.fields() }),
        x.with_op_flags(op_flags).fields() == (SlotFields { op_flags, ..x.fields() }),
        x.with_buf_index(buf_index).fields() == (SlotFields { buf_index, ..x.fields() }),
        x.with_personality(personality).fields() == (SlotFields { personality, ..x.fields() }),
        x.with_splice_fd_in(splice_fd_in).fields() == (SlotFields { splice_fd_in, ..x.fields() }),
{
}

} // verus!
