//! A verified access layer for a kernel submission/completion ring pair.
//!
//! The library keeps the state of both rings, the registration tables and the
//! slot records as plain values, and proves the index arithmetic, capacity
//! accounting and single consumption of every completion. Where the kernel has
//! to act (entering the ring, blocking, registering resources), the functions
//! here decide what to ask for and take the kernel's answer as an argument.

pub mod completion_queue;
pub mod cqe;
pub mod registrar;
pub mod ring;
pub mod sqe;
pub mod submission_queue;

use vstd::prelude::*;
use vstd::arithmetic::power2::{lemma2_to64, lemma_pow2_unfold, pow2};

pub use completion_queue::{CompletionQueue, CqModel, CqWait, CqesWait};
pub use cqe::{CompletionQueueEvent, OsError, TIMEOUT_USER_DATA};
pub use registrar::{Personality, RegisteredFd, Registrar};
pub use sqe::{SubmissionFlags, SQE};
pub use submission_queue::{EnterArgs, HardLinked, SqModel, SubmissionQueue, TimeoutSubmit, SQEs};

use crate::registrar::EINVAL;
use crate::ring::{advance, is_ring_size};
use crate::submission_queue::{SETUP_CQSIZE, SETUP_SQPOLL, SETUP_SQ_AFF};

verus! {

/// Turns a kernel return value into a count or an error: a non-negative value
/// is the count, a negative one is the negated error number.
pub fn resultify(x: i32) -> (r: Result<u32, OsError>)
    ensures
        x >= 0 ==> r == Ok::<u32, OsError>(x as u32),
        x < 0 ==> (r matches Err(e) && e.code() == cqe::errno_of(x)),
{
    if x >= 0 {
        Ok(x as u32)
    } else {
        let code: i32 = if x == i32::MIN { i32::MIN } else { -x };
        Err(OsError::from_raw_os_error(code))
    }
}

/// The largest number of entries a ring can be asked for.
pub const MAX_ENTRIES: u32 = 4096;

/// Flags for setting up a ring.
#[derive(Clone, Copy, Debug, PartialEq, Eq, Structural)]
pub struct SetupFlags {
    pub bits: u32,
}

impl SetupFlags {
    pub fn empty() -> (r: SetupFlags)
        ensures
            r.bits == 0,
    {
        SetupFlags { bits: 0 }
    }
}

/// Features to ask of the kernel when setting up a ring.
#[derive(Clone, Copy, Debug, PartialEq, Eq, Structural)]
pub struct SetupFeatures {
    pub bits: u32,
}

impl SetupFeatures {
    pub fn empty() -> (r: SetupFeatures)
        ensures
            r.bits == 0,
    {
        SetupFeatures { bits: 0 }
    }
}

/// A ring cannot be set up with `entries` and `flags`: the size is outside
/// `1..=MAX_ENTRIES`, the CPU affinity flag comes without kernel polling, or
/// the completion ring size is asked to be chosen, which these constructors
/// do not take.
pub open spec fn setup_refused(entries: u32, flags: u32) -> bool {
    ||| entries == 0
    ||| entries > MAX_ENTRIES
    ||| (flags & SETUP_SQ_AFF != 0 && flags & SETUP_SQPOLL == 0)
    ||| flags & SETUP_CQSIZE != 0
}

/// `p` is the smallest power of two no less than `n`.
pub open spec fn round_up_pow2(n: u32, p: u32) -> bool {
    exists|s: nat| p == #[trigger] pow2(s) && p >= n && (s == 0 || pow2((s - 1) as nat) < n)
}

/// The smallest power of two no less than `n`.
fn next_power_of_two(n: u32) -> (r: u32)
    requires
        1 <= n <= MAX_ENTRIES,
    ensures
        round_up_pow2(n, r),
        is_ring_size(r),
        is_ring_size((2 * r) as u32),
        r <= MAX_ENTRIES,
{
    let mut p: u32 = 1;
    let ghost mut s: nat = 0;
    proof { lemma2_to64(); }
    while p < n
        invariant
            p == pow2(s),
            s <= 12,
            s == 0 || pow2((s - 1) as nat) < n,
            n <= MAX_ENTRIES,
        decreases MAX_ENTRIES - p,
    {
        proof {
            lemma_pow2_unfold(s + 1);
            lemma2_to64();
            if s >= 12 {
                assert(p >= 4096);
            }
        }
        p = p * 2;
        proof { s = s + 1; }
    }
    proof {
        lemma_pow2_unfold(s + 1);
        lemma2_to64();
        assert(s <= 12);
        assert(p <= 4096);
        let su = s as u32;
        assert(p as nat == pow2(su as nat));
        assert((2 * p) as u32 as nat == pow2((su + 1) as u32 as nat));
        assert(round_up_pow2(n, p));
    }
    p
}

/// What a timed wait for completions needs.
#[derive(Clone, Copy, Debug, PartialEq, Eq, Structural)]
pub enum TimedWait {
    /// Enough completions were there: the oldest, now seen.
    Ready(CompletionQueueEvent),
    /// Too few: a timeout was injected, or the ring had to be flushed first.
    Submit(TimeoutSubmit),
}

/// A ring pair with its registration tables.
///
/// It can be used whole, or split into its submission ring, completion ring
/// and registrar, which touch disjoint state and can be used apart.
#[derive(Debug)]
pub struct IoUring {
    sq: SubmissionQueue,
    cq: CompletionQueue,
    registrar: Registrar,
}

impl IoUring {
    pub closed spec fn sq_spec(&self) -> SubmissionQueue {
        self.sq
    }

    pub closed spec fn cq_spec(&self) -> CompletionQueue {
        self.cq
    }

    pub closed spec fn registrar_spec(&self) -> Registrar {
        self.registrar
    }

    pub open spec fn wf(&self) -> bool {
        &&& self.sq_spec().wf()
        &&& self.cq_spec().wf()
        &&& self.registrar_spec().wf()
    }

    /// A ring pair for `entries` requests without setup flags.
    pub fn new(entries: u32) -> (r: Result<IoUring, OsError>)
        ensures
            setup_refused(entries, 0) ==> (r matches Err(e) && e.code() == EINVAL),
            !setup_refused(entries, 0) ==> (r matches Ok(ring) && ring.fresh(entries, 0)),
    {
        IoUring::new_with_flags(entries, SetupFlags::empty(), SetupFeatures::empty())
    }

    /// `self` is a new ring pair asked for with `entries` and `flags`: the
    /// submission ring holds `entries` rounded up to a power of two, the
    /// completion ring twice that, both are empty and nothing is registered.
    pub open spec fn fresh(&self, entries: u32, flags: u32) -> bool {
        &&& self.wf()
        &&& round_up_pow2(entries, self.sq_spec()@.capacity as u32)
        &&& self.cq_spec()@.capacity == 2 * self.sq_spec()@.capacity
        &&& self.sq_spec()@.in_flight.len() == 0
        &&& self.sq_spec()@.pending.len() == 0
        &&& self.cq_spec()@.ready.len() == 0
        &&& self.sq_spec().setup() == flags
        &&& self.registrar_spec().files_spec() is None
        &&& self.registrar_spec().buffers_spec() is None
        &&& self.registrar_spec().eventfd_spec() is None
    }

    /// A ring pair for `entries` requests with setup flags; the features are
    /// what is asked of the kernel and do not change the rings. Fails with
    /// `EINVAL` when `setup_refused` holds.
    pub fn new_with_flags(entries: u32, flags: SetupFlags, features: SetupFeatures) -> (r: Result<IoUring, OsError>)
        ensures
            setup_refused(entries, flags.bits) ==> (r matches Err(e) && e.code() == EINVAL),
            !setup_refused(entries, flags.bits) ==> (r matches Ok(ring) && ring.fresh(entries, flags.bits)),
    {
        if entries == 0 || entries > MAX_ENTRIES || (flags.bits & SETUP_SQ_AFF != 0 && flags.bits & SETUP_SQPOLL == 0)
            || flags.bits & SETUP_CQSIZE != 0 {
            return Err(OsError::from_raw_os_error(EINVAL));
        }
        let sq_entries = next_power_of_two(entries);
        match IoUring::with_sizes(sq_entries, 2 * sq_entries, flags, Some(0)) {
            Some(ring) => Ok(ring),
            None => Err(OsError::from_raw_os_error(EINVAL)),
        }
    }

    /// A ring pair with the sizes the kernel chose; `cq_kflags` is the
    /// kernel's completion ring flags word, when it has one. `None` unless
    /// both sizes are powers of two no larger than `2^16`.
    pub fn with_sizes(sq_entries: u32, cq_entries: u32, flags: SetupFlags, cq_kflags: Option<u32>) -> (r: Option<IoUring>)
        ensures
            r is Some <==> is_ring_size(sq_entries) && is_ring_size(cq_entries),
            r matches Some(ring) ==> {
                &&& ring.wf()
                &&& ring.sq_spec()@.capacity == sq_entries
                &&& ring.cq_spec()@.capacity == cq_entries
                &&& ring.sq_spec()@.in_flight.len() == 0
                &&& ring.sq_spec()@.pending.len() == 0
                &&& ring.cq_spec()@.ready.len() == 0
                &&& ring.sq_spec().setup() == flags.bits
                &&& ring.cq_spec().kflags_spec() == cq_kflags
                &&& ring.registrar_spec().files_spec() is None
                &&& ring.registrar_spec().buffers_spec() is None
                &&& ring.registrar_spec().eventfd_spec() is None
            },
    {
        let sq = match SubmissionQueue::new(sq_entries, flags.bits) {
            Some(q) => q,
            None => { return None; },
        };
        let cq = match CompletionQueue::new(cq_entries, cq_kflags) {
            Some(q) => q,
            None => { return None; },
        };
        Some(IoUring { sq, cq, registrar: Registrar::new() })
    }

    /// The submission ring.
    pub fn sq(&mut self) -> (r: &mut SubmissionQueue)
        ensures
            *r == old(self).sq_spec(),
            final(self).sq_spec() == *final(r),
            final(self).cq_spec() == old(self).cq_spec(),
            final(self).registrar_spec() == old(self).registrar_spec(),
    {
        &mut self.sq
    }

    /// The completion ring.
    pub fn cq(&mut self) -> (r: &mut CompletionQueue)
        ensures
            *r == old(self).cq_spec(),
            final(self).cq_spec() == *final(r),
            final(self).sq_spec() == old(self).sq_spec(),
            final(self).registrar_spec() == old(self).registrar_spec(),
    {
        &mut self.cq
    }

    /// The registration tables.
    pub fn registrar(&mut self) -> (r: &mut Registrar)
        ensures
            *r == old(self).registrar_spec(),
            final(self).registrar_spec() == *final(r),
            final(self).sq_spec() == old(self).sq_spec(),
            final(self).cq_spec() == old(self).cq_spec(),
    {
        &mut self.registrar
    }

    /// The three parts at once, to be used apart.
    pub fn queues(&mut self) -> (r: (&mut SubmissionQueue, &mut CompletionQueue, &mut Registrar))
        ensures
            *r.0 == old(self).sq_spec(),
            *r.1 == old(self).cq_spec(),
            *r.2 == old(self).registrar_spec(),
            final(self).sq_spec() == *final(r.0),
            final(self).cq_spec() == *final(r.1),
            final(self).registrar_spec() == *final(r.2),
    {
        (&mut self.sq, &mut self.cq, &mut self.registrar)
    }

    /// Claims one free submission slot, zeroed; `None` when the ring is full.
    pub fn prepare_sqe(&mut self) -> (r: Option<&mut SQE>)
        requires
            old(self).wf(),
        ensures
            final(self).sq_spec().head_counter() == old(self).sq_spec().head_counter(),
            final(self).sq_spec().published_counter() == old(self).sq_spec().published_counter(),
            final(self).wf(),
            final(self).cq_spec() == old(self).cq_spec(),
            final(self).registrar_spec() == old(self).registrar_spec(),
            final(self).sq_spec().setup() == old(self).sq_spec().setup(),
            r is None <==> old(self).sq_spec()@.space_left() == 0,
            r is None ==> final(self).sq_spec()@ == old(self).sq_spec()@,
            r matches Some(s) ==> *s == SQE::zeroed_spec()
                && final(self).sq_spec()@ == old(self).sq_spec()@.claim(*final(s)),
    {
        self.sq.prepare_sqe()
    }

    /// Claims `count` free submission slots at once; `None`, with nothing
    /// claimed, when fewer are free.
    pub fn prepare_sqes(&mut self, count: u32) -> (r: Option<SQEs>)
        requires
            old(self).wf(),
        ensures
            final(self).sq_spec().head_counter() == old(self).sq_spec().head_counter(),
            final(self).sq_spec().published_counter() == old(self).sq_spec().published_counter(),
            final(self).wf(),
            final(self).cq_spec() == old(self).cq_spec(),
            final(self).registrar_spec() == old(self).registrar_spec(),
            final(self).sq_spec().setup() == old(self).sq_spec().setup(),
            r is Some <==> count <= old(self).sq_spec()@.space_left(),
            r is None ==> final(self).sq_spec()@ == old(self).sq_spec()@,
            r matches Some(b) ==> {
                &&& final(self).sq_spec()@ == old(self).sq_spec()@.claim_all(submission_queue::zeroed_slots(count as nat))
                &&& b.within(final(self).sq_spec())
                &&& b.start_in(final(self).sq_spec()) == old(self).sq_spec()@.pending.len()
                &&& b.remaining_spec() == count
            },
    {
        self.sq.prepare_sqes(count)
    }

    /// Publishes every claimed slot; see `SubmissionQueue::submit`.
    pub fn submit_sqes(&mut self, sq_kflags: u32) -> (r: EnterArgs)
        requires
            old(self).wf(),
        ensures
            final(self).sq_spec().head_counter() == old(self).sq_spec().head_counter(),
            final(self).wf(),
            final(self).cq_spec() == old(self).cq_spec(),
            final(self).registrar_spec() == old(self).registrar_spec(),
            final(self).sq_spec().setup() == old(self).sq_spec().setup(),
            final(self).sq_spec()@ == old(self).sq_spec()@.submitted(),
            r == submission_queue::enter_decision(old(self).sq_spec().setup(), sq_kflags,
                final(self).sq_spec()@.in_flight.len() as u32, 0),
    {
        self.sq.submit(sq_kflags)
    }

    /// Publishes every claimed slot and asks to wait for `wait_for`
    /// completions.
    pub fn submit_sqes_and_wait(&mut self, wait_for: u32, sq_kflags: u32) -> (r: EnterArgs)
        requires
            old(self).wf(),
        ensures
            final(self).sq_spec().head_counter() == old(self).sq_spec().head_counter(),
            final(self).wf(),
            final(self).cq_spec() == old(self).cq_spec(),
            final(self).registrar_spec() == old(self).registrar_spec(),
            final(self).sq_spec().setup() == old(self).sq_spec().setup(),
            final(self).sq_spec()@ == old(self).sq_spec()@.submitted(),
            r == submission_queue::enter_decision(old(self).sq_spec().setup(), sq_kflags,
                final(self).sq_spec()@.in_flight.len() as u32, wait_for),
    {
        self.sq.submit_and_wait(wait_for, sq_kflags)
    }

    /// Publishes every claimed slot with an injected timeout; see
    /// `SubmissionQueue::submit_and_wait_with_timeout`.
    pub fn submit_sqes_and_wait_with_timeout(&mut self, wait_for: u32, ts_addr: u64, sq_kflags: u32) -> (r: TimeoutSubmit)
        requires
            old(self).wf(),
        ensures
            final(self).sq_spec().head_counter() == old(self).sq_spec().head_counter(),
            final(self).wf(),
            final(self).cq_spec() == old(self).cq_spec(),
            final(self).registrar_spec() == old(self).registrar_spec(),
            final(self).sq_spec().setup() == old(self).sq_spec().setup(),
            r is Injected <==> old(self).sq_spec()@.space_left() > 0,
            r matches TimeoutSubmit::Injected(a) ==> {
                &&& final(self).sq_spec()@ == old(self).sq_spec()@.claim(submission_queue::timeout_sqe(ts_addr)).submitted()
                &&& a == submission_queue::enter_decision(old(self).sq_spec().setup(), sq_kflags,
                    final(self).sq_spec()@.in_flight.len() as u32, wait_for)
            },
            r matches TimeoutSubmit::Flushed(a) ==> {
                &&& final(self).sq_spec()@ == old(self).sq_spec()@.submitted()
                &&& a == submission_queue::enter_decision(old(self).sq_spec().setup(), sq_kflags,
                    final(self).sq_spec()@.in_flight.len() as u32, 0)
            },
    {
        self.sq.submit_and_wait_with_timeout(wait_for, ts_addr, sq_kflags)
    }

    /// Takes the oldest completion, marking it seen; `None` when there is none.
    pub fn peek_for_cqe(&mut self) -> (r: Option<CompletionQueueEvent>)
        requires
            old(self).wf(),
        ensures
            r is None ==> final(self).cq_spec() == old(self).cq_spec(),
            r is Some ==> final(self).cq_spec().head_counter() == advance(old(self).cq_spec().head_counter(), 1),
            final(self).wf(),
            final(self).sq_spec() == old(self).sq_spec(),
            final(self).registrar_spec() == old(self).registrar_spec(),
            r is None <==> old(self).cq_spec()@.ready.len() == 0,
            r is None ==> final(self).cq_spec()@ == old(self).cq_spec()@,
            r matches Some(e) ==> e == old(self).cq_spec()@.ready[0] && final(self).cq_spec()@ == old(self).cq_spec()@.take_n(1),
    {
        self.cq.peek_for_cqe()
    }

    /// Waits for one completion; see `CompletionQueue::wait_for_cqes`.
    pub fn wait_for_cqe(&mut self) -> (r: CqWait)
        requires
            old(self).wf(),
        ensures
            r is Ready ==> final(self).cq_spec().head_counter() == advance(old(self).cq_spec().head_counter(), 1),
            r is Enter ==> final(self).cq_spec() == old(self).cq_spec(),
            final(self).wf(),
            final(self).sq_spec() == old(self).sq_spec(),
            final(self).registrar_spec() == old(self).registrar_spec(),
            r is Ready <==> old(self).cq_spec()@.ready.len() > 0,
            r matches CqWait::Ready(e) ==> e == old(self).cq_spec()@.ready[0] && final(self).cq_spec()@ == old(self).cq_spec()@.take_n(1),
            r matches CqWait::Enter(a) ==> a == completion_queue::wait_request(1) && final(self).cq_spec()@ == old(self).cq_spec()@,
    {
        self.cq.wait_for_cqe()
    }

    /// Waits for `count` completions; see `CompletionQueue::wait_for_cqes`.
    pub fn wait_for_cqes(&mut self, count: u32) -> (r: CqWait)
        requires
            old(self).wf(),
        ensures
            r is Ready ==> final(self).cq_spec().head_counter() == advance(old(self).cq_spec().head_counter(), 1),
            r is Enter ==> final(self).cq_spec() == old(self).cq_spec(),
            final(self).wf(),
            final(self).sq_spec() == old(self).sq_spec(),
            final(self).registrar_spec() == old(self).registrar_spec(),
            r is Ready <==> old(self).cq_spec()@.ready.len() > 0 && old(self).cq_spec()@.ready.len() >= count,
            r matches CqWait::Ready(e) ==> e == old(self).cq_spec()@.ready[0] && final(self).cq_spec()@ == old(self).cq_spec()@.take_n(1),
            r matches CqWait::Enter(a) ==> a == completion_queue::wait_request(count) && final(self).cq_spec()@ == old(self).cq_spec()@,
    {
        self.cq.wait_for_cqes(count)
    }

    /// Waits for `count` completions, treating zero as one, or until the
    /// timespec at `ts_addr` runs out: the oldest completion, seen, when there
    /// are enough; otherwise a timeout is injected into the submission ring
    /// (or the ring flushed to make room for it), and whatever then arrives
    /// may be the timeout's own completion, tagged `TIMEOUT_USER_DATA`.
    pub fn wait_for_cqes_with_timeout(&mut self, count: u32, ts_addr: u64, sq_kflags: u32) -> (r: TimedWait)
        requires
            old(self).wf(),
        ensures
            r is Ready ==> final(self).cq_spec().head_counter() == advance(old(self).cq_spec().head_counter(), 1),
            final(self).sq_spec().head_counter() == old(self).sq_spec().head_counter(),
            final(self).wf(),
            final(self).registrar_spec() == old(self).registrar_spec(),
            final(self).sq_spec().setup() == old(self).sq_spec().setup(),
            r is Ready <==> old(self).cq_spec()@.ready.len() > 0 && old(self).cq_spec()@.ready.len() >= count,
            r matches TimedWait::Ready(e) ==> {
                &&& e == old(self).cq_spec()@.ready[0]
                &&& final(self).cq_spec()@ == old(self).cq_spec()@.take_n(1)
                &&& final(self).sq_spec() == old(self).sq_spec()
            },
            r matches TimedWait::Submit(t) ==> {
                let w = if count == 0 { 1u32 } else { count };
                &&& final(self).cq_spec() == old(self).cq_spec()
                &&& t is Injected <==> old(self).sq_spec()@.space_left() > 0
                &&& t matches TimeoutSubmit::Injected(a) ==> {
                    &&& final(self).sq_spec()@ == old(self).sq_spec()@.claim(submission_queue::timeout_sqe(ts_addr)).submitted()
                    &&& a == submission_queue::enter_decision(old(self).sq_spec().setup(), sq_kflags,
                        final(self).sq_spec()@.in_flight.len() as u32, w)
                }
                &&& t matches TimeoutSubmit::Flushed(a) ==> {
                    &&& final(self).sq_spec()@ == old(self).sq_spec()@.submitted()
                    &&& a == submission_queue::enter_decision(old(self).sq_spec().setup(), sq_kflags,
                        final(self).sq_spec()@.in_flight.len() as u32, 0)
                }
            },
    {
        match self.cq.wait_for_cqes(count) {
            CqWait::Ready(e) => TimedWait::Ready(e),
            CqWait::Enter(_) => {
                let w: u32 = if count == 0 { 1 } else { count };
                TimedWait::Submit(self.sq.submit_and_wait_with_timeout(w, ts_addr, sq_kflags))
            },
        }
    }

    /// Waits for one completion or until the timespec at `ts_addr` runs out.
    pub fn wait_for_cqe_with_timeout(&mut self, ts_addr: u64, sq_kflags: u32) -> (r: TimedWait)
        requires
            old(self).wf(),
        ensures
            r is Ready ==> final(self).cq_spec().head_counter() == advance(old(self).cq_spec().head_counter(), 1),
            final(self).sq_spec().head_counter() == old(self).sq_spec().head_counter(),
            final(self).wf(),
            final(self).registrar_spec() == old(self).registrar_spec(),
            r is Ready <==> old(self).cq_spec()@.ready.len() > 0,
            r matches TimedWait::Ready(e) ==> e == old(self).cq_spec()@.ready[0]
                && final(self).cq_spec()@ == old(self).cq_spec()@.take_n(1)
                && final(self).sq_spec() == old(self).sq_spec(),
            r matches TimedWait::Submit(t) ==> {
                &&& final(self).cq_spec() == old(self).cq_spec()
                &&& t is Injected <==> old(self).sq_spec()@.space_left() > 0
                &&& t matches TimeoutSubmit::Injected(a) ==>
                    final(self).sq_spec()@ == old(self).sq_spec()@.claim(submission_queue::timeout_sqe(ts_addr)).submitted()
                    && a == submission_queue::enter_decision(old(self).sq_spec().setup(), sq_kflags,
                        final(self).sq_spec()@.in_flight.len() as u32, 1)
                &&& t matches TimeoutSubmit::Flushed(a) ==>
                    final(self).sq_spec()@ == old(self).sq_spec()@.submitted()
                    && a == submission_queue::enter_decision(old(self).sq_spec().setup(), sq_kflags,
                        final(self).sq_spec()@.in_flight.len() as u32, 0)
            },
    {
        self.wait_for_cqes_with_timeout(1, ts_addr, sq_kflags)
    }

    /// Number of completions not yet seen.
    pub fn cq_ready(&self) -> (r: u32)
        requires
            self.wf(),
        ensures
            r == self.cq_spec()@.ready.len(),
            r <= self.cq_spec()@.capacity,
    {
        self.cq.ready()
    }

    /// Number of submission slots claimed or in flight.
    pub fn sq_ready(&self) -> (r: u32)
        requires
            self.wf(),
        ensures
            r == self.sq_spec()@.in_flight.len() + self.sq_spec()@.pending.len(),
    {
        self.sq.ready()
    }

    /// Number of submission slots that can still be claimed.
    pub fn sq_space_left(&self) -> (r: u32)
        requires
            self.wf(),
        ensures
            r == self.sq_spec()@.space_left(),
    {
        self.sq.space_left()
    }

    /// Whether the registered eventfd is signalled on completions.
    pub fn cq_eventfd_enabled(&self) -> (r: bool)
        ensures
            r == self.cq_spec().eventfd_enabled_spec(),
    {
        self.cq.eventfd_enabled()
    }

    /// Turns the eventfd signal on or off; see `CompletionQueue::eventfd_toggle`.
    pub fn cq_eventfd_toggle(&mut self, enabled: bool) -> (r: Result<(), OsError>)
        requires
            old(self).wf(),
        ensures
            final(self).cq_spec().head_counter() == old(self).cq_spec().head_counter(),
            final(self).wf(),
            final(self).sq_spec() == old(self).sq_spec(),
            final(self).registrar_spec() == old(self).registrar_spec(),
            final(self).cq_spec()@ == old(self).cq_spec()@,
            enabled == old(self).cq_spec().eventfd_enabled_spec() ==> r is Ok
                && final(self).cq_spec().kflags_spec() == old(self).cq_spec().kflags_spec(),
            enabled != old(self).cq_spec().eventfd_enabled_spec() && old(self).cq_spec().kflags_spec() is None
                ==> (r matches Err(e) && e.code() == completion_queue::EOPNOTSUPP),
            enabled != old(self).cq_spec().eventfd_enabled_spec() && old(self).cq_spec().kflags_spec() is Some
                ==> r is Ok && final(self).cq_spec().eventfd_enabled_spec() == enabled,
    {
        self.cq.eventfd_toggle(enabled)
    }
}

/// Capacity is conserved: claiming a batch of submission slots, submitting
/// it, and the kernel consuming as many slots leaves the submission ring with
/// the room it had; the kernel writing as many completions and all of them
/// being seen leaves the completion ring with the room it had.
pub proof fn lemma_capacity_conservation(sq: SqModel, batch: Seq<SQE>, cq: CqModel, done: Seq<CompletionQueueEvent>)
    ensures
        sq.claim_all(batch).submitted().consumed(batch.len()).space_left() == sq.space_left(),
        cq.post_all(done).take_n(done.len()).space_left() == cq.space_left(),
{
}

} // verus!
