use iou::registrar::Personality;
use iou::sqe::{
    BufferGroupId, FsyncFlags, RingFd, SubmissionFlags, TimeoutFlags, IO_DRAIN, IO_LINK, OP_FSYNC,
    OP_PROVIDE_BUFFERS, OP_READ, OP_SPLICE, OP_TIMEOUT,
};
use iou::SQE;

#[test]
fn clear_resets_tag_and_flags() {
    let mut sqe = SQE::zeroed();
    sqe.set_user_data(0x1010);
    sqe.set_flags(SubmissionFlags::from_bits(IO_DRAIN));
    sqe.clear();
    assert_eq!(sqe.user_data(), 0x0);
    assert_eq!(sqe.flags(), SubmissionFlags::empty());
}

#[test]
fn set_flags_keeps_earlier_flags() {
    let mut sqe = SQE::zeroed();
    sqe.set_flags(SubmissionFlags::from_bits(IO_DRAIN));
    sqe.set_flags(SubmissionFlags::from_bits(IO_LINK));
    assert_eq!(sqe.flags().bits, IO_DRAIN | IO_LINK);
    sqe.overwrite_flags(SubmissionFlags::from_bits(IO_LINK));
    assert_eq!(sqe.flags().bits, IO_LINK);
}

#[test]
fn prep_keeps_tag_and_flags() {
    let mut sqe = SQE::zeroed();
    sqe.set_user_data(77);
    sqe.set_flags(SubmissionFlags::from_bits(IO_LINK));
    sqe.prep_read(3, 0x1000, 64, 8);
    assert_eq!(sqe.opcode(), OP_READ);
    assert_eq!(sqe.fd(), 3);
    assert_eq!(sqe.addr(), 0x1000);
    assert_eq!(sqe.len(), 64);
    assert_eq!(sqe.off(), 8);
    assert_eq!(sqe.user_data(), 77);
    assert_eq!(sqe.flags().bits, IO_LINK);
}

#[test]
fn nop_len_is_zero() {
    let mut sqe = SQE::zeroed();
    sqe.prep_read(3, 0x1000, 64, 8);
    sqe.prep_nop();
    assert_eq!(sqe.len(), 0);
    assert_eq!(sqe.fd(), -1);
    assert_eq!(sqe.addr(), 0);
}

#[test]
fn raw_fd_target_sets_no_fixed_flag() {
    let mut sqe = SQE::zeroed();
    sqe.prep_fsync(RingFd::Raw(5), FsyncFlags { bits: 1 });
    assert_eq!(sqe.opcode(), OP_FSYNC);
    assert_eq!(sqe.fd(), 5);
    assert_eq!(sqe.op_flags(), 1);
    assert_eq!(sqe.flags().bits, 0);
}

#[test]
fn timeout_and_splice_fields() {
    let mut sqe = SQE::zeroed();
    sqe.prep_timeout_with_flags(0x40, 2, TimeoutFlags { bits: 1 });
    assert_eq!(sqe.opcode(), OP_TIMEOUT);
    assert_eq!((sqe.addr(), sqe.len(), sqe.off(), sqe.op_flags()), (0x40, 1, 2, 1));
    sqe.prep_splice(4, -1, 5, 16, 100, 0);
    assert_eq!(sqe.opcode(), OP_SPLICE);
    assert_eq!((sqe.fd(), sqe.splice_fd_in(), sqe.addr(), sqe.off(), sqe.len()), (5, 4, u64::MAX, 16, 100));
}

#[test]
fn provide_buffers_splits_length() {
    let mut sqe = SQE::zeroed();
    sqe.prep_provide_buffers(0x9000, 4096, 4, BufferGroupId { id: 7 }, 2);
    assert_eq!(sqe.opcode(), OP_PROVIDE_BUFFERS);
    assert_eq!((sqe.fd(), sqe.len(), sqe.off(), sqe.buf_index()), (4, 1024, 2, 7));
}

#[test]
fn personality_is_kept() {
    let mut sqe = SQE::zeroed();
    assert_eq!(Personality::from(12u16), Personality::from_id(12));
    sqe.set_personality(Personality::from(12u16));
    sqe.prep_nop();
    assert_eq!(sqe.personality(), 12);
}
