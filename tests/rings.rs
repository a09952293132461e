use iou::completion_queue::{CqWait, CqesWait};
use iou::sqe::{SubmissionFlags, IO_HARDLINK, OP_NOP, OP_TIMEOUT};
use iou::submission_queue::{EnterArgs, ENTER_GETEVENTS, ENTER_SQ_WAKEUP, SETUP_SQPOLL, SQ_NEED_WAKEUP};
use iou::{CompletionQueue, CompletionQueueEvent, IoUring, SubmissionQueue, TimeoutSubmit, TIMEOUT_USER_DATA};

/// Plays the kernel: consumes every published slot and writes a completion
/// with the slot's tag and the result `res` for each.
fn kernel_runs_all(ring: &mut IoUring, res: i32) {
    let n = ring.sq().in_flight();
    let mut done = Vec::new();
    for k in 0..n {
        let (_, sqe) = ring.sq().in_flight_slot(k);
        done.push(CompletionQueueEvent::new(sqe.user_data(), res, 0));
    }
    let head = ring.sq().head().wrapping_add(n);
    assert!(ring.sq().sync_head(head));
    for ev in done {
        assert!(ring.cq().push(ev));
    }
}

#[test]
fn noop_round_trip() {
    let mut ring = IoUring::new(8).unwrap();
    let sqe = ring.prepare_sqe().unwrap();
    sqe.prep_nop();
    sqe.set_user_data(0xDEADBEEF);
    let args = ring.submit_sqes_and_wait(1, 0);
    assert_eq!(args, EnterArgs { enter: true, to_submit: 1, min_complete: 1, flags: ENTER_GETEVENTS });
    kernel_runs_all(&mut ring, 0);
    match ring.wait_for_cqe() {
        CqWait::Ready(cqe) => {
            assert_eq!(cqe.user_data(), 0xDEADBEEF);
            assert!(cqe.result().is_ok());
            assert!(!cqe.is_timeout());
        }
        CqWait::Enter(_) => panic!("a completion was written"),
    }
    assert!(ring.peek_for_cqe().is_none());
}

#[test]
fn hard_linked_chain_in_order() {
    let mut ring = IoUring::new(8).unwrap();
    let mut sqes = ring.prepare_sqes(4).unwrap();
    assert_eq!(sqes.remaining(), 4);
    let mut chain = sqes.hard_linked();
    assert_eq!(sqes.remaining(), 0);
    let mut tag = 1u64;
    while let Some(sqe) = chain.next(ring.sq()) {
        let linked = sqe.flags().contains(SubmissionFlags::from_bits(IO_HARDLINK));
        assert_eq!(linked, tag < 4);
        assert_eq!(sqe.opcode(), OP_NOP);
        sqe.set_user_data(tag);
        tag += 1;
    }
    assert_eq!(tag, 5);
    ring.submit_sqes(0);
    kernel_runs_all(&mut ring, 0);
    let tags: Vec<u64> = ring.cq().cqes().iter().map(|c| c.user_data()).collect();
    assert_eq!(tags, vec![1, 2, 3, 4]);
}

#[test]
fn capacity_returns_after_completions() {
    let mut ring = IoUring::new(4).unwrap();
    assert_eq!(ring.sq_space_left(), 4);
    let mut n = 0;
    while let Some(sqe) = ring.prepare_sqe() {
        sqe.prep_nop();
        n += 1;
    }
    assert_eq!(n, 4);
    assert_eq!(ring.sq_space_left(), 0);
    assert_eq!(ring.sq_ready(), 4);
    ring.submit_sqes(0);
    assert_eq!(ring.sq_space_left(), 0);
    kernel_runs_all(&mut ring, 0);
    assert_eq!(ring.sq_space_left(), 4);
    assert_eq!(ring.cq_ready(), 4);
    assert_eq!(ring.cq().cqes().len(), 4);
    assert_eq!(ring.cq_ready(), 0);
}

#[test]
fn exhaust_queue_with_prepare_sqe() {
    let mut io_uring = IoUring::new(8).unwrap();

    for counter in 0..64 {
        let sqe = io_uring.prepare_sqe().unwrap();
        sqe.prep_nop();
        sqe.set_user_data(counter);
        io_uring.submit_sqes_and_wait(1, 0);
        kernel_runs_all(&mut io_uring, 0);
        let cqe = io_uring.peek_for_cqe().unwrap();
        assert_eq!(cqe.user_data(), counter);
    }
}

#[test]
fn exhaust_queue_with_prepare_sqes() {
    let mut io_uring = IoUring::new(8).unwrap();

    for base in (0..64).filter(|x| x % 4 == 0) {
        let mut counter = base;
        let mut sqes = io_uring.prepare_sqes(4).unwrap();
        let mut chain = sqes.hard_linked();
        while let Some(sqe) = chain.next(io_uring.sq()) {
            sqe.prep_nop();
            sqe.set_user_data(counter);
            counter += 1;
        }

        io_uring.submit_sqes_and_wait(4, 0);
        kernel_runs_all(&mut io_uring, 0);

        for counter in base..counter {
            let cqe = io_uring.peek_for_cqe().unwrap();
            assert_eq!(cqe.user_data(), counter);
        }
    }
}

#[test]
fn prepare_sqes_all_or_nothing() {
    let mut ring = IoUring::new(64).unwrap();
    assert!(ring.prepare_sqes(65).is_none());
    assert!(ring.prepare_sqes(60).is_some());
    assert!(ring.prepare_sqes(5).is_none());
    assert!(ring.prepare_sqes(4).is_some());
    assert_eq!(ring.sq_space_left(), 0);
}

#[test]
fn iterator_test() {
    let mut io_uring = IoUring::new(32).unwrap();

    let sqe = io_uring.prepare_sqe().unwrap();
    sqe.prep_nop();
    sqe.set_user_data(0x01);

    let sqe = io_uring.prepare_sqe().unwrap();
    sqe.prep_nop();
    sqe.set_user_data(0x02);

    let sqe = io_uring.prepare_sqe().unwrap();
    sqe.prep_nop();
    sqe.set_user_data(0x03);

    io_uring.submit_sqes(0);
    kernel_runs_all(&mut io_uring, 0);

    let mut user_datas = [0x01, 0x02, 0x03];
    match io_uring.cq().cqes_blocking(3) {
        CqesWait::Ready(cqes) => cqes.iter().for_each(|cqe| {
            let ud = user_datas.iter_mut().find(|&&mut ud| cqe.user_data() == ud).expect("received unexpected CQE");
            if *ud == 0 {
                panic!("received same CQE more than once")
            } else {
                *ud = 0;
            }
        }),
        CqesWait::Enter(_) => panic!("three completions were written"),
    }

    assert_eq!(user_datas, [0x00, 0x00, 0x00]);

    let mut count = 0;
    io_uring.cq().cqes().iter().for_each(|_| count += 1);
    assert_eq!(count, 0, "all CQEs should be processed");
}

#[test]
fn cqes_nonblocking() {
    let mut io_uring = IoUring::new(8).unwrap();

    let mut sqes = io_uring.prepare_sqes(8).unwrap();
    while let Some(sqe) = sqes.next(io_uring.sq()) {
        sqe.prep_nop();
        sqe.set_user_data(0);
    }

    io_uring.submit_sqes_and_wait(8, 0);
    kernel_runs_all(&mut io_uring, 0);

    assert_eq!(io_uring.cq().cqes().len(), 8);
}

#[test]
fn cqes_blocking() {
    let mut io_uring = IoUring::new(8).unwrap();

    let mut sqes = io_uring.prepare_sqes(8).unwrap();
    while let Some(sqe) = sqes.next(io_uring.sq()) {
        sqe.prep_nop();
        sqe.set_user_data(0);
    }

    io_uring.submit_sqes(0);
    assert!(matches!(io_uring.cq().cqes_blocking(1), CqesWait::Enter(_)));
    kernel_runs_all(&mut io_uring, 0);

    match io_uring.cq().cqes_blocking(1) {
        CqesWait::Ready(cqes) => assert_eq!(cqes.iter().take(8).count(), 8),
        CqesWait::Enter(_) => panic!("eight completions were written"),
    }
}

#[test]
fn noop_test() {
    let mut io_uring = IoUring::new(32).unwrap();

    let sqe = io_uring.prepare_sqe().unwrap();
    sqe.prep_nop();
    sqe.set_user_data(0xDEADBEEF);
    io_uring.submit_sqes(0);
    kernel_runs_all(&mut io_uring, 0);

    match io_uring.wait_for_cqe() {
        CqWait::Ready(cqe) => assert_eq!(cqe.user_data(), 0xDEADBEEF),
        CqWait::Enter(_) => panic!("a completion was written"),
    }
}

#[test]
fn counters_wrap_around() {
    let mut ring = IoUring::new(2).unwrap();
    for round in 0..5u64 {
        for k in 0..2u64 {
            let sqe = ring.prepare_sqe().unwrap();
            sqe.set_user_data(round * 2 + k);
        }
        ring.submit_sqes(0);
        kernel_runs_all(&mut ring, 3);
        let first = ring.peek_for_cqe().unwrap();
        let second = ring.peek_for_cqe().unwrap();
        assert_eq!(first.user_data(), round * 2);
        assert_eq!(second.user_data(), round * 2 + 1);
        assert_eq!(second.result(), Ok(3));
        assert!(ring.peek_for_cqe().is_none());
    }
}

#[test]
fn completion_seen_once() {
    let mut cq = CompletionQueue::new(4, None).unwrap();
    assert!(cq.push(CompletionQueueEvent::new(7, 0, 0)));
    assert!(cq.push(CompletionQueueEvent::new(8, -9, 0)));
    assert_eq!(cq.peek_for_cqe().unwrap().user_data(), 7);
    let second = cq.peek_for_cqe().unwrap();
    assert_eq!(second.user_data(), 8);
    assert_eq!(second.result().unwrap_err().raw_os_error(), Some(9));
    assert!(cq.peek_for_cqe().is_none());
    assert_eq!(cq.ready(), 0);
}

#[test]
fn completion_ring_refuses_overflow() {
    let mut cq = CompletionQueue::new(2, None).unwrap();
    assert!(cq.push(CompletionQueueEvent::new(1, 0, 0)));
    assert!(cq.push(CompletionQueueEvent::new(2, 0, 0)));
    assert!(!cq.push(CompletionQueueEvent::new(3, 0, 0)));
    assert_eq!(cq.ready(), 2);
}

#[test]
fn wait_asks_kernel_when_too_few() {
    let mut cq = CompletionQueue::new(4, None).unwrap();
    assert_eq!(cq.wait_for_cqes(2), CqWait::Enter(EnterArgs { enter: true, to_submit: 0, min_complete: 2, flags: ENTER_GETEVENTS }));
    assert!(cq.push(CompletionQueueEvent::new(5, 0, 0)));
    assert!(matches!(cq.wait_for_cqes(2), CqWait::Enter(_)));
    assert!(cq.push(CompletionQueueEvent::new(6, 0, 0)));
    assert_eq!(cq.wait_for_cqes(2), CqWait::Ready(CompletionQueueEvent::new(5, 0, 0)));
    assert_eq!(cq.ready(), 1);
}

#[test]
fn timeout_injection_tags_sentinel() {
    let mut ring = IoUring::new(2).unwrap();
    match ring.submit_sqes_and_wait_with_timeout(1, 0x1000, 0) {
        TimeoutSubmit::Injected(args) => assert_eq!(args.to_submit, 1),
        TimeoutSubmit::Flushed(_) => panic!("the ring had room"),
    }
    let (_, sqe) = ring.sq().in_flight_slot(0);
    assert_eq!(sqe.user_data(), TIMEOUT_USER_DATA);
    assert_eq!(sqe.opcode(), OP_TIMEOUT);
    assert_eq!(sqe.addr(), 0x1000);
    assert_eq!(sqe.len(), 1);
    kernel_runs_all(&mut ring, -62);
    let cqe = ring.peek_for_cqe().unwrap();
    assert!(cqe.is_timeout());
}

#[test]
fn timeout_flushes_full_ring_first() {
    let mut ring = IoUring::new(1).unwrap();
    ring.prepare_sqe().unwrap().set_user_data(1);
    match ring.submit_sqes_and_wait_with_timeout(1, 0x2000, 0) {
        TimeoutSubmit::Flushed(args) => assert_eq!(args.to_submit, 1),
        TimeoutSubmit::Injected(_) => panic!("the ring was full"),
    }
    kernel_runs_all(&mut ring, 0);
    assert!(matches!(ring.submit_sqes_and_wait_with_timeout(1, 0x2000, 0), TimeoutSubmit::Injected(_)));
}

#[test]
fn timeout_sentinel_differs_from_test_tags() {
    for tag in [0u64, 1, 0xDEADBEEF, u64::MAX - 1, 1 << 63] {
        assert_ne!(tag, TIMEOUT_USER_DATA);
        assert!(!CompletionQueueEvent::new(tag, 0, 0).is_timeout());
    }
    assert_eq!(TIMEOUT_USER_DATA, u64::MAX);
    assert!(CompletionQueueEvent::new(TIMEOUT_USER_DATA, 0, 0).is_timeout());
}

#[test]
fn sqpoll_needs_wakeup_only_when_asked() {
    let mut sq = SubmissionQueue::new(4, SETUP_SQPOLL).unwrap();
    sq.prepare_sqe().unwrap().prep_nop();
    let args = sq.submit(0);
    assert!(!args.enter);
    assert_eq!(args.to_submit, 1);
    sq.prepare_sqe().unwrap().prep_nop();
    let args = sq.submit(SQ_NEED_WAKEUP);
    assert_eq!(args, EnterArgs { enter: true, to_submit: 2, min_complete: 0, flags: ENTER_SQ_WAKEUP });
}

#[test]
fn submit_without_work_does_not_enter() {
    let mut sq = SubmissionQueue::new(4, 0).unwrap();
    assert!(!sq.submit(0).enter);
    assert!(sq.submit_and_wait(1, 0).enter);
}

#[test]
fn sync_head_refuses_impossible_heads() {
    let mut sq = SubmissionQueue::new(4, 0).unwrap();
    sq.prepare_sqe().unwrap();
    sq.prepare_sqe().unwrap();
    sq.submit(0);
    assert!(!sq.sync_head(3));
    assert!(sq.sync_head(1));
    assert_eq!(sq.in_flight(), 1);
    assert!(!sq.sync_head(0));
    assert!(sq.sync_head(2));
    assert_eq!(sq.space_left(), 4);
}

#[test]
fn single_takes_last_slot() {
    let mut sq = SubmissionQueue::new(8, 0).unwrap();
    let mut sqes = sq.prepare_sqes(3).unwrap();
    let sqe = sqes.single(&mut sq).unwrap();
    sqe.set_user_data(42);
    assert_eq!(sqes.remaining(), 0);
    assert!(sqes.single(&mut sq).is_none());
    sq.submit(0);
    assert_eq!(sq.in_flight(), 3);
    assert_eq!(sq.in_flight_slot(0).1.fd(), -1);
    assert_eq!(sq.in_flight_slot(2).1.user_data(), 42);
}

#[test]
fn terminate_leaves_chain_end_unlinked() {
    let mut sq = SubmissionQueue::new(8, 0).unwrap();
    let mut sqes = sq.prepare_sqes(2).unwrap();
    let mut chain = sqes.hard_linked();
    let first = chain.next(&mut sq).unwrap();
    assert_eq!(first.flags().bits, IO_HARDLINK);
    let last = chain.terminate(&mut sq).unwrap();
    assert_eq!(last.flags().bits, 0);
}

#[test]
fn ring_sizes_and_setup_errors() {
    let ring = IoUring::new(5).unwrap();
    assert_eq!(ring.sq_space_left(), 8);
    let mut ring = IoUring::new(4096).unwrap();
    assert_eq!(ring.sq().capacity(), 4096);
    assert_eq!(ring.cq().capacity(), 8192);
    assert_eq!(IoUring::new(0).err().unwrap().raw_os_error(), Some(22));
    assert_eq!(IoUring::new(4097).err().unwrap().raw_os_error(), Some(22));
    let aff_only = iou::SetupFlags { bits: 4 };
    assert!(IoUring::new_with_flags(8, aff_only, iou::SetupFeatures::empty()).is_err());
    let aff_poll = iou::SetupFlags { bits: 4 | 2 | 1 };
    assert!(IoUring::new_with_flags(8, aff_poll, iou::SetupFeatures::empty()).is_ok());
    assert!(SubmissionQueue::new(3, 0).is_none());
    assert!(CompletionQueue::new(1 << 17, None).is_none());
}

#[test]
fn queues_split_and_eventfd_toggle() {
    let mut ring = IoUring::new(2).unwrap();
    {
        let (sq, cq, _reg) = ring.queues();
        sq.prepare_sqe().unwrap().set_user_data(9);
        assert_eq!(cq.ready(), 0);
    }
    assert_eq!(ring.sq_ready(), 1);
    assert!(ring.cq_eventfd_enabled());
    assert!(ring.cq_eventfd_toggle(false).is_ok());
    assert!(!ring.cq_eventfd_enabled());
    assert_eq!(ring.cq().kernel_flags(), Some(1));
    assert!(ring.cq_eventfd_toggle(true).is_ok());
    assert!(ring.cq_eventfd_enabled());
    let mut cq = CompletionQueue::new(2, None).unwrap();
    assert!(cq.eventfd_toggle(true).is_ok());
    assert_eq!(cq.eventfd_toggle(false).unwrap_err().raw_os_error(), Some(95));
}

#[test]
fn timed_wait_returns_ready_completion() {
    let mut ring = IoUring::new(2).unwrap();
    ring.prepare_sqe().unwrap().set_user_data(4);
    ring.submit_sqes(0);
    kernel_runs_all(&mut ring, 0);
    match ring.wait_for_cqe_with_timeout(0x3000, 0) {
        iou::TimedWait::Ready(c) => assert_eq!(c.user_data(), 4),
        iou::TimedWait::Submit(_) => panic!("a completion was ready"),
    }
    assert!(matches!(ring.wait_for_cqe_with_timeout(0x3000, 0), iou::TimedWait::Submit(TimeoutSubmit::Injected(_))));
}

#[test]
fn counters_follow_takes_and_claims() {
    let mut cq = CompletionQueue::new(2, None).unwrap();
    let head = cq.head();
    assert!(cq.peek_for_cqe().is_none());
    assert_eq!(cq.head(), head);
    assert_eq!(cq.tail(), head);
    assert!(cq.push(CompletionQueueEvent::new(1, 0, 0)));
    assert_eq!(cq.tail(), head.wrapping_add(1));
    assert!(cq.peek_for_cqe().is_some());
    assert_eq!(cq.head(), head.wrapping_add(1));
    assert!(cq.ready() <= cq.capacity());

    let mut sq = SubmissionQueue::new(4, 0).unwrap();
    let (h, p) = (sq.head(), sq.published_tail());
    assert!(sq.prepare_sqes(3).is_some());
    sq.prepare_sqe().unwrap();
    assert_eq!((sq.head(), sq.published_tail()), (h, p));
    sq.submit(0);
    assert_eq!(sq.head(), h);
    assert_eq!(sq.published_tail(), h.wrapping_add(4));
}

#[test]
fn claimed_slot_is_zeroed() {
    let mut sq = SubmissionQueue::new(2, 0).unwrap();
    let sqe = sq.prepare_sqe().unwrap();
    assert_eq!(*sqe, iou::SQE::zeroed());
    assert_eq!((sqe.opcode(), sqe.fd(), sqe.len(), sqe.user_data()), (0, 0, 0, 0));
}
