use iou::registrar::{EBUSY, EINVAL, ENXIO, ERANGE, PLACEHOLDER_FD};
use iou::sqe::{RingFd, FIXED_FILE, OP_WRITE_FIXED};
use iou::{CompletionQueueEvent, IoUring, RegisteredFd, Registrar};

#[test]
fn register_empty_slice_is_invalid() {
    let mut reg = Registrar::new();
    assert_eq!(reg.register_files(&[], -22).unwrap_err().raw_os_error(), Some(EINVAL));
}

#[test]
fn register_bad_fd_reports_kernel_error() {
    let mut reg = Registrar::new();
    assert_eq!(reg.register_files(&[-100], -9).unwrap_err().raw_os_error(), Some(9));
    assert!(reg.register_files(&[1], 0).is_ok());
}

#[test]
fn double_register_is_busy() {
    let mut reg = Registrar::new();
    assert!(reg.register_files(&[1], 0).is_ok());
    assert_eq!(reg.register_files(&[1], 0).unwrap_err().raw_os_error(), Some(EBUSY));
}

#[test]
fn empty_unregister_is_nxio() {
    let mut reg = Registrar::new();
    assert_eq!(reg.unregister_files(0).unwrap_err().raw_os_error(), Some(ENXIO));
}

#[test]
fn update_without_table_is_nxio() {
    let mut reg = Registrar::new();
    assert_eq!(reg.update_registered_files(0, &[1], 0).unwrap_err().raw_os_error(), Some(ENXIO));
}

#[test]
fn update_out_of_bounds_is_invalid() {
    let mut reg = Registrar::new();
    reg.register_files(&[1, 2], 0).unwrap();
    assert_eq!(reg.update_registered_files(2, &[1, 2], 0).unwrap_err().raw_os_error(), Some(EINVAL));
    assert_eq!(reg.update_registered_files(0, &[1, 1, 1], 0).unwrap_err().raw_os_error(), Some(EINVAL));
    assert_eq!(reg.update_registered_files(usize::MAX, &[1], 0).unwrap_err().raw_os_error(), Some(EINVAL));
    assert_eq!(reg.update_registered_files(0, &[], 0).unwrap_err().raw_os_error(), Some(EINVAL));
}

#[test]
fn placeholders_and_update() {
    let mut reg = Registrar::new();
    let fds = reg.register_files(&[-1, 5, -1], 0).unwrap();
    assert!(fds[0].is_placeholder());
    assert_eq!(fds[0].index(), None);
    assert_eq!(fds[1].index(), Some(1));
    assert!(fds[2].is_placeholder());
    let updated = reg.update_registered_files(2, &[7], 1).unwrap();
    assert_eq!(updated.len(), 1);
    assert_eq!(updated[0].index(), Some(2));
    assert!(reg.unregister_files(0).is_ok());
    assert!(reg.register_files(&[0, 1, 2], 0).is_ok());
}

#[test]
fn placeholder_constant() {
    let ph = RegisteredFd::placeholder();
    assert!(ph.is_placeholder());
    assert_eq!(ph.index(), None);
    assert!(RegisteredFd::new(3, PLACEHOLDER_FD).is_placeholder());
    assert_eq!(RegisteredFd::new(3, 10).index(), Some(3));
    assert_eq!(RegisteredFd::new(3, 10).as_raw_fd(), 3);
}

#[test]
fn fixed_file_write_uses_index() {
    let mut ring = IoUring::new(2).unwrap();
    let fds = ring.registrar().register_files(&[10], 0).unwrap();
    assert_eq!(fds[0].index(), Some(0));
    let sqe = ring.prepare_sqe().unwrap();
    sqe.prep_write_fixed(RingFd::Registered(fds[0]), 0x5000, 12, 0, 0);
    sqe.set_user_data(0x77);
    assert_eq!(sqe.fd(), 0);
    assert_eq!(sqe.flags().bits & FIXED_FILE, FIXED_FILE);
    assert_eq!(sqe.opcode(), OP_WRITE_FIXED);
    assert_eq!(sqe.len(), 12);
    ring.submit_sqes(0);
    let (_, sent) = ring.sq().in_flight_slot(0);
    assert_eq!(sent.fd(), 0);
    assert!(ring.sq().sync_head(1));
    assert!(ring.cq().push(CompletionQueueEvent::new(sent.user_data(), sent.len() as i32, 0)));
    let cqe = ring.peek_for_cqe().unwrap();
    assert_eq!(cqe.user_data(), 0x77);
    assert_eq!(cqe.result(), Ok(12));
}

#[test]
fn buffers_and_eventfd_tables() {
    let mut reg = Registrar::new();
    assert_eq!(reg.unregister_buffers(0).unwrap_err().raw_os_error(), Some(ENXIO));
    assert_eq!(reg.register_buffers(0, 0).unwrap_err().raw_os_error(), Some(EINVAL));
    assert_eq!(reg.register_buffers(1025, 0).unwrap_err().raw_os_error(), Some(EINVAL));
    assert_eq!(reg.register_buffers(3, -12).unwrap_err().raw_os_error(), Some(12));
    assert_eq!(reg.register_buffers(3, 0).unwrap(), vec![0, 1, 2]);
    assert_eq!(reg.register_buffers(3, 0).unwrap_err().raw_os_error(), Some(EBUSY));
    assert!(reg.unregister_buffers(0).is_ok());
    assert_eq!(reg.unregister_eventfd(0).unwrap_err().raw_os_error(), Some(ENXIO));
    assert!(reg.register_eventfd(4, 0).is_ok());
    assert_eq!(reg.register_eventfd_async(4, 0).unwrap_err().raw_os_error(), Some(EBUSY));
    assert!(reg.unregister_eventfd(0).is_ok());
    assert_eq!(reg.register_eventfd_async(4, -13).unwrap_err().raw_os_error(), Some(13));
}

#[test]
fn personalities() {
    let reg = Registrar::new();
    let p = reg.register_personality(3).unwrap();
    assert_eq!(p.id(), 3);
    assert_eq!(reg.register_personality(70000).unwrap_err().raw_os_error(), Some(ERANGE));
    assert_eq!(reg.register_personality(-1).unwrap_err().raw_os_error(), Some(1));
    assert!(reg.unregister_personality(p, 0).is_ok());
    assert_eq!(reg.unregister_personality(p, -22).unwrap_err().raw_os_error(), Some(22));
}

#[test]
fn register_buffers_by_val() {
    let buf1 = vec![0u8; 1024].into_boxed_slice();
    let buf2 = vec![0u8; 1024].into_boxed_slice();
    let mut ring = IoUring::new(8).unwrap();
    let bufs = ring.registrar().register_buffers(vec![buf1, buf2].len(), 0).unwrap();
    assert_eq!(bufs.len(), 2);
    assert_eq!(bufs[0], 0);
    assert_eq!(bufs[1], 1);
}

#[test]
fn register_buffers_by_ref() {
    let buf1 = vec![0u8; 1024];
    let buf2 = vec![0u8; 1024];
    let mut ring = IoUring::new(8).unwrap();
    let bufs = &[&buf1[..], &buf2[..]];
    let bufs = ring.registrar().register_buffers(bufs.len(), 0).unwrap();
    assert_eq!(bufs.len(), 2);
    assert_eq!(bufs[0], 0);
    assert_eq!(bufs[1], 1);
}

#[test]
fn register_buffers_by_mut() {
    let mut buf1 = vec![0u8; 1024];
    let mut buf2 = vec![0u8; 1024];
    let mut ring = IoUring::new(8).unwrap();
    let bufs = &mut [&mut buf1[..], &mut buf2[..]];
    let bufs = ring.registrar().register_buffers(bufs.len(), 0).unwrap();
    assert_eq!(bufs.len(), 2);
    assert_eq!(bufs[0], 0);
    assert_eq!(bufs[1], 1);
}
