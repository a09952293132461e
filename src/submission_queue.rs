//! The producer side of the submission ring.
//!
//! Slots between the kernel's head and the published tail belong to the
//! kernel; slots between the published tail and the claimed tail belong to
//! the caller, who fills them before publishing. The claimed tail never runs
//! more than the ring's capacity ahead of the kernel's head.
use vstd::prelude::*;
use crate::ring::{
    advance, distance, lemma_advance_by_distance, lemma_distance_advance, lemma_distance_rest, lemma_distance_split, lemma_slots_distinct, lemma_wrap_slot, ring_shape,
    ring_shift, is_ring_size, slot_index, slot_of, wrapping_advance, wrapping_distance,
};
use crate::cqe::TIMEOUT_USER_DATA;
use crate::sqe::{lemma_prepared_fields, lemma_setter_fields, lemma_zeroed_fields, user_tag, SubmissionFlags, SQE, IO_HARDLINK, OP_NOP, OP_TIMEOUT};

verus! {

/// Setup flag: the kernel polls for completions instead of taking interrupts.
pub const SETUP_IOPOLL: u32 = 1;
/// Setup flag: a kernel thread polls the submission ring.
pub const SETUP_SQPOLL: u32 = 2;
/// Setup flag: the polling thread is bound to a chosen CPU; needs `SETUP_SQPOLL`.
pub const SETUP_SQ_AFF: u32 = 4;
/// Setup flag: the caller sizes the completion ring.
pub const SETUP_CQSIZE: u32 = 8;
/// Setup flag: clamp ring sizes to the kernel's maximum.
pub const SETUP_CLAMP: u32 = 16;
/// Setup flag: share the kernel's async workers with another ring.
pub const SETUP_ATTACH_WQ: u32 = 32;
/// Kernel submission ring flag: the polling thread sleeps and must be woken.
pub const SQ_NEED_WAKEUP: u32 = 1;
/// Enter flag: wait for completions.
pub const ENTER_GETEVENTS: u32 = 1;
/// Enter flag: wake the submission polling thread.
pub const ENTER_SQ_WAKEUP: u32 = 2;

/// The call into the kernel that a submission needs.
#[derive(Clone, Copy, Debug, PartialEq, Eq, Structural)]
pub struct EnterArgs {
    /// Whether the kernel must be entered at all; when not, `to_submit` is
    /// the number of submitted entries.
    pub enter: bool,
    pub to_submit: u32,
    pub min_complete: u32,
    pub flags: u32,
}

/// The kernel must be entered directly: it does not poll and there is work.
pub open spec fn enter_directly(setup: u32, submitted: u32) -> bool {
    setup & SETUP_SQPOLL == 0 && submitted > 0
}

/// The polling thread sleeps and must be woken.
pub open spec fn needs_wakeup(setup: u32, sq_kflags: u32, submitted: u32) -> bool {
    !enter_directly(setup, submitted) && sq_kflags & SQ_NEED_WAKEUP != 0
}

/// What to ask of the kernel after publishing, with `submitted` entries in
/// flight and `wait_nr` completions wanted.
pub open spec fn enter_decision(setup: u32, sq_kflags: u32, submitted: u32, wait_nr: u32) -> EnterArgs {
    let wake = needs_wakeup(setup, sq_kflags, submitted);
    let enter = enter_directly(setup, submitted) || wake || wait_nr > 0;
    let get_events = enter && (wait_nr > 0 || setup & SETUP_IOPOLL != 0);
    EnterArgs {
        enter,
        to_submit: submitted,
        min_complete: wait_nr,
        flags: (if wake { ENTER_SQ_WAKEUP } else { 0u32 }) | (if get_events { ENTER_GETEVENTS } else { 0u32 }),
    }
}

/// The slot that the library injects to time a wait out: a timeout on the
/// timespec at `ts_addr`, tagged with the reserved timeout tag.
pub open spec fn timeout_sqe(ts_addr: u64) -> SQE {
    SQE::zeroed_spec().prepared(OP_TIMEOUT, -1i32, ts_addr, 1, 0).with_op_flags(0).with_tag(TIMEOUT_USER_DATA)
}

/// `n` zeroed slots.
pub open spec fn zeroed_slots(n: nat) -> Seq<SQE> {
    Seq::new(n, |k: int| SQE::zeroed_spec())
}

proof fn lemma_claim_zeroed_step(m: SqModel, j: nat)
    ensures
        m.claim_all(zeroed_slots(j)).claim(SQE::zeroed_spec()) == m.claim_all(zeroed_slots(j + 1)),
{
    assert(m.claim_all(zeroed_slots(j)).claim(SQE::zeroed_spec()).pending =~= m.claim_all(zeroed_slots(j + 1)).pending);
}

/// `x` prepared as a no-op.
pub open spec fn nop_of(x: SQE) -> SQE {
    x.prepared(OP_NOP, -1i32, 0, 0, 0)
}

/// `x` prepared as a no-op of a hard-linked chain, linked to the next slot
/// unless it is the last.
pub open spec fn chain_link_of(x: SQE, last: bool) -> SQE {
    let n = nop_of(x);
    if last { n } else { n.with_flag_bits(n.flag_bits() | IO_HARDLINK) }
}

/// What a submission with a timeout did.
#[derive(Clone, Copy, Debug, PartialEq, Eq, Structural)]
pub enum TimeoutSubmit {
    /// The ring was full: every claimed slot was published so the kernel can
    /// consume some. Make the call, take the new head, and try again.
    Flushed(EnterArgs),
    /// The timeout was claimed and everything published.
    Injected(EnterArgs),
}

/// The contents of a submission ring.
pub struct SqModel {
    pub capacity: nat,
    /// Published and not yet consumed by the kernel, oldest first.
    pub in_flight: Seq<SQE>,
    /// Claimed and not yet published, oldest first.
    pub pending: Seq<SQE>,
}

impl SqModel {
    pub open spec fn space_left(self) -> int {
        self.capacity - self.in_flight.len() - self.pending.len()
    }

    /// One more slot claimed, holding `s`.
    pub open spec fn claim(self, s: SQE) -> SqModel {
        SqModel { pending: self.pending.push(s), ..self }
    }

    /// Slots claimed together, holding `batch`.
    pub open spec fn claim_all(self, batch: Seq<SQE>) -> SqModel {
        SqModel { pending: self.pending + batch, ..self }
    }

    /// Every claimed slot published.
    pub open spec fn submitted(self) -> SqModel {
        SqModel { in_flight: self.in_flight + self.pending, pending: Seq::empty(), ..self }
    }

    /// The kernel consumed the oldest `n` published slots.
    pub open spec fn consumed(self, n: nat) -> SqModel {
        SqModel { in_flight: self.in_flight.skip(n as int), ..self }
    }

    /// The claimed slots at positions `p` up to `p + n` prepared as no-ops.
    pub open spec fn with_nops(self, p: int, n: int) -> SqModel {
        SqModel {
            pending: Seq::new(self.pending.len(), |k: int| if p <= k < p + n { nop_of(self.pending[k]) } else { self.pending[k] }),
            ..self
        }
    }

    /// The claimed slot at position `k` now holds `s`.
    pub open spec fn set_pending(self, k: int, s: SQE) -> SqModel {
        SqModel { pending: self.pending.update(k, s), ..self }
    }
}

/// The submission ring.
#[derive(Debug)]
pub struct SubmissionQueue {
    slots: Vec<SQE>,
    shift: u32,
    entries: u32,
    mask: u32,
    /// The kernel's head, as last observed.
    head: u32,
    /// The tail the kernel has been shown.
    published: u32,
    /// The tail of the claimed slots.
    tail: u32,
    setup_flags: u32,
}

impl View for SubmissionQueue {
    type V = SqModel;

    closed spec fn view(&self) -> SqModel {
        SqModel {
            capacity: self.entries as nat,
            in_flight: Seq::new(distance(self.head, self.published), |k: int| self.slot_at(self.head as int + k)),
            pending: Seq::new(distance(self.published, self.tail), |k: int| self.slot_at(self.published as int + k)),
        }
    }
}

impl SubmissionQueue {
    /// The slot that the unwrapped counter value `c` falls on.
    pub closed spec fn slot_at(&self, c: int) -> SQE {
        self.slots@[slot_of(c, self.entries)]
    }

    pub closed spec fn wf(&self) -> bool {
        &&& ring_shape(self.shift, self.entries, self.mask)
        &&& self.slots@.len() == self.entries
        &&& distance(self.head, self.published) + distance(self.published, self.tail) <= self.entries
    }

    /// The setup flags the ring was created with.
    pub closed spec fn setup(&self) -> u32 {
        self.setup_flags
    }

    /// The kernel's head as last observed.
    pub closed spec fn head_counter(&self) -> u32 {
        self.head
    }

    /// The published tail.
    pub closed spec fn published_counter(&self) -> u32 {
        self.published
    }

    /// A ring of `entries` slots, empty, for a kernel set up with
    /// `setup_flags`; `None` unless `entries` is a power of two no larger
    /// than `2^16`.
    pub fn new(entries: u32, setup_flags: u32) -> (r: Option<SubmissionQueue>)
        ensures
            r is Some <==> is_ring_size(entries),
            r matches Some(q) ==> {
                &&& q.wf()
                &&& q@.capacity == entries
                &&& q@.in_flight.len() == 0
                &&& q@.pending.len() == 0
                &&& q.setup() == setup_flags
            },
    {
        match ring_shift(entries) {
            None => None,
            Some(shift) => {
                let mut slots: Vec<SQE> = Vec::new();
                let mut i: u32 = 0;
                while i < entries
                    invariant
                        i <= entries,
                        slots@.len() == i,
                    decreases entries - i,
                {
                    slots.push(SQE::zeroed());
                    i = i + 1;
                }
                let q = SubmissionQueue {
                    slots,
                    shift,
                    entries,
                    mask: entries - 1,
                    head: 0,
                    published: 0,
                    tail: 0,
                    setup_flags,
                };
                proof {
                    assert(q@.in_flight.len() == 0);
                }
                Some(q)
            },
        }
    }

    proof fn lemma_counts(&self)
        requires
            self.wf(),
        ensures
            distance(self.head, self.tail) == distance(self.head, self.published) + distance(self.published, self.tail),
            self@.space_left() == self.entries - distance(self.head, self.tail),
            self@.space_left() >= 0,
    {
        lemma_distance_split(self.head, self.published, self.tail);
    }

    /// Writing `s` into the slot of the claimed tail and moving the tail one
    /// on claims `s`.
    proof fn lemma_claim_one(&self)
        requires
            self.wf(),
            self@.space_left() > 0,
        ensures
            forall|q: SubmissionQueue, s: SQE|
                #![trigger q@, self.slots@.update(slot_of(self.tail as int, self.entries), s)]
                q.slots@ == self.slots@.update(slot_of(self.tail as int, self.entries), s)
                && q.tail == advance(self.tail, 1) && q.head == self.head && q.published == self.published
                && q.shift == self.shift && q.entries == self.entries && q.mask == self.mask
                ==> q.wf() && q@ == self@.claim(s),
    {
        self.lemma_counts();
        let e = self.entries;
        let dif = distance(self.head, self.published);
        let dp = distance(self.published, self.tail);
        let t = slot_of(self.tail as int, e);
        lemma_advance_by_distance(self.published, self.tail);
        lemma_advance_by_distance(self.head, self.tail);
        lemma_wrap_slot(self.published, dp as int, 0, self.shift, e, self.mask);
        lemma_wrap_slot(self.head, (dif + dp) as int, 0, self.shift, e, self.mask);
        assert forall|q: SubmissionQueue, s: SQE|
            #![trigger q@, self.slots@.update(slot_of(self.tail as int, self.entries), s)]
            q.slots@ == self.slots@.update(slot_of(self.tail as int, self.entries), s)
            && q.tail == advance(self.tail, 1) && q.head == self.head && q.published == self.published
            && q.shift == self.shift && q.entries == self.entries && q.mask == self.mask
            implies q.wf() && q@ == self@.claim(s) by {
            assert(distance(q.published, q.tail) == dp + 1);
            assert forall|k: int| 0 <= k < dif implies #[trigger] slot_of(self.head as int + k, e) != t by {
                lemma_slots_distinct(self.head as int, k, (dif + dp) as int, e);
            }
            assert forall|k: int| 0 <= k < dp implies #[trigger] slot_of(self.published as int + k, e) != t by {
                lemma_slots_distinct(self.published as int, k, dp as int, e);
            }
            assert(q@.in_flight =~= self@.in_flight);
            assert(q@.pending =~= self@.pending.push(s));
        }
    }

    /// Claims one free slot, zeroed, for the caller to fill; `None` when the
    /// ring is full.
    pub fn prepare_sqe(&mut self) -> (r: Option<&mut SQE>)
        requires
            old(self).wf(),
        ensures
            final(self).head_counter() == old(self).head_counter(),
            final(self).published_counter() == old(self).published_counter(),
            final(self).wf(),
            final(self).setup() == old(self).setup(),
            r is None <==> old(self)@.space_left() == 0,
            r is None ==> final(self)@ == old(self)@,
            r matches Some(s) ==> *s == SQE::zeroed_spec() && final(self)@ == old(self)@.claim(*final(s)),
    {
        proof { self.lemma_counts(); }
        if wrapping_distance(self.head, self.tail) < self.entries {
            proof { self.lemma_claim_one(); }
            let i = slot_index(self.tail, self.shift, self.entries, self.mask);
            self.tail = wrapping_advance(self.tail, 1);
            let s = &mut self.slots[i as usize];
            *s = SQE::zeroed();
            Some(s)
        } else {
            None
        }
    }

    fn decide_enter(&self, submitted: u32, wait_nr: u32, sq_kflags: u32) -> (r: EnterArgs)
        ensures
            r == enter_decision(self.setup(), sq_kflags, submitted, wait_nr),
    {
        let direct = self.setup_flags & SETUP_SQPOLL == 0 && submitted > 0;
        let wake = !direct && sq_kflags & SQ_NEED_WAKEUP != 0;
        let enter = direct || wake || wait_nr > 0;
        let get_events = enter && (wait_nr > 0 || self.setup_flags & SETUP_IOPOLL != 0);
        let wake_flag: u32 = if wake { ENTER_SQ_WAKEUP } else { 0 };
        let events_flag: u32 = if get_events { ENTER_GETEVENTS } else { 0 };
        EnterArgs { enter, to_submit: submitted, min_complete: wait_nr, flags: wake_flag | events_flag }
    }

    /// Publishes every claimed slot to the kernel, without waiting.
    /// `sq_kflags` is the kernel's submission ring flags word. Returns the
    /// kernel call to make, if any.
    pub fn submit(&mut self, sq_kflags: u32) -> (r: EnterArgs)
        requires
            old(self).wf(),
        ensures
            final(self).head_counter() == old(self).head_counter(),
            final(self).wf(),
            final(self)@ == old(self)@.submitted(),
            final(self).setup() == old(self).setup(),
            r == enter_decision(old(self).setup(), sq_kflags, final(self)@.in_flight.len() as u32, 0),
    {
        self.submit_and_wait(0, sq_kflags)
    }

    /// Publishes every claimed slot to the kernel and asks to wait for
    /// `wait_for` completions.
    pub fn submit_and_wait(&mut self, wait_for: u32, sq_kflags: u32) -> (r: EnterArgs)
        requires
            old(self).wf(),
        ensures
            final(self).head_counter() == old(self).head_counter(),
            final(self).wf(),
            final(self)@ == old(self)@.submitted(),
            final(self).setup() == old(self).setup(),
            r == enter_decision(old(self).setup(), sq_kflags, final(self)@.in_flight.len() as u32, wait_for),
    {
        let ghost before = self@;
        proof {
            self.lemma_counts();
            lemma_advance_by_distance(self.head, self.published);
            let dif = distance(self.head, self.published) as int;
            assert forall|j: int| 0 <= j < distance(self.published, self.tail) implies
                #[trigger] slot_of(self.published as int + j, self.entries) == slot_of(self.head as int + dif + j, self.entries) by {
                lemma_wrap_slot(self.head, dif, j, self.shift, self.entries, self.mask);
            }
        }
        self.published = self.tail;
        proof {
            assert(self@.in_flight =~= before.in_flight + before.pending);
            assert(self@.pending =~= Seq::<SQE>::empty());
        }
        let submitted = wrapping_distance(self.head, self.published);
        self.decide_enter(submitted, wait_for, sq_kflags)
    }

    /// Takes the kernel's head as read from the shared ring. A head that does
    /// not lie between the last observed head and the published tail is
    /// refused, and nothing changes.
    pub fn sync_head(&mut self, kernel_head: u32) -> (r: bool)
        requires
            old(self).wf(),
        ensures
            final(self).published_counter() == old(self).published_counter(),
            !r ==> *final(self) == *old(self),
            final(self).wf(),
            final(self).setup() == old(self).setup(),
            r <==> distance(old(self).head_counter(), kernel_head) <= old(self)@.in_flight.len(),
            r ==> final(self)@ == old(self)@.consumed(distance(old(self).head_counter(), kernel_head)),
            r ==> final(self).head_counter() == kernel_head,
            !r ==> final(self)@ == old(self)@,
    {
        let d = wrapping_distance(self.head, kernel_head);
        if d <= wrapping_distance(self.head, self.published) {
            let ghost before = self@;
            proof {
                lemma_distance_rest(self.head, kernel_head, self.published);
                lemma_advance_by_distance(self.head, kernel_head);
                lemma_distance_split(self.head, self.published, self.tail);
                assert forall|j: int| 0 <= j < distance(kernel_head, self.published) implies
                    #[trigger] slot_of(kernel_head as int + j, self.entries) == slot_of(self.head as int + d + j, self.entries) by {
                    lemma_wrap_slot(self.head, d as int, j, self.shift, self.entries, self.mask);
                }
            }
            self.head = kernel_head;
            proof {
                assert(self@.in_flight =~= before.in_flight.skip(d as int));
                assert(self@.pending =~= before.pending);
            }
            true
        } else {
            false
        }
    }

    /// The slot index and contents of the `k`-th slot in flight, oldest first.
    pub fn in_flight_slot(&self, k: u32) -> (r: (u32, SQE))
        requires
            self.wf(),
            k < self@.in_flight.len(),
        ensures
            r.0 < self@.capacity,
            r.0 as int == slot_of(self.head_counter() as int + k, self@.capacity as u32),
            r.1 == self@.in_flight[k as int],
    {
        proof { lemma_wrap_slot(self.head, k as int, 0, self.shift, self.entries, self.mask); }
        let i = slot_index(wrapping_advance(self.head, k), self.shift, self.entries, self.mask);
        (i, self.slots[i as usize])
    }

    /// Publishes every claimed slot together with an injected timeout on the
    /// timespec at `ts_addr`, and asks to wait for `wait_for` completions. The
    /// timeout's completion carries the reserved timeout tag. When the ring
    /// has no free slot, only publishes, so that the kernel can make room.
    pub fn submit_and_wait_with_timeout(&mut self, wait_for: u32, ts_addr: u64, sq_kflags: u32) -> (r: TimeoutSubmit)
        requires
            old(self).wf(),
        ensures
            final(self).head_counter() == old(self).head_counter(),
            final(self).wf(),
            final(self).setup() == old(self).setup(),
            r is Injected <==> old(self)@.space_left() > 0,
            r matches TimeoutSubmit::Injected(a) ==> {
                &&& final(self)@ == old(self)@.claim(timeout_sqe(ts_addr)).submitted()
                &&& a == enter_decision(old(self).setup(), sq_kflags, final(self)@.in_flight.len() as u32, wait_for)
            },
            r matches TimeoutSubmit::Flushed(a) ==> {
                &&& final(self)@ == old(self)@.submitted()
                &&& a == enter_decision(old(self).setup(), sq_kflags, final(self)@.in_flight.len() as u32, 0)
            },
    {
        match self.prepare_sqe() {
            Some(sqe) => {
                sqe.prep_timeout(ts_addr, 0);
                sqe.set_timeout_tag();
                TimeoutSubmit::Injected(self.submit_and_wait(wait_for, sq_kflags))
            },
            None => TimeoutSubmit::Flushed(self.submit(sq_kflags)),
        }
    }

    fn claim_zeroed(&mut self)
        requires
            old(self).wf(),
            old(self)@.space_left() > 0,
        ensures
            final(self).wf(),
            final(self)@ == old(self)@.claim(SQE::zeroed_spec()),
            final(self).tail == advance(old(self).tail, 1),
            final(self).head == old(self).head,
            final(self).published == old(self).published,
            final(self).setup_flags == old(self).setup_flags,
    {
        proof { self.lemma_claim_one(); }
        let i = slot_index(self.tail, self.shift, self.entries, self.mask);
        self.slots.set(i as usize, SQE::zeroed());
        self.tail = wrapping_advance(self.tail, 1);
    }

    #[verifier::rlimit(40)]
    fn claim_zeroed_n(&mut self, count: u32)
        requires
            old(self).wf(),
            count <= old(self)@.space_left(),
        ensures
            final(self).wf(),
            final(self)@ == old(self)@.claim_all(zeroed_slots(count as nat)),
            final(self).tail == advance(old(self).tail, count as int),
            final(self).head == old(self).head,
            final(self).published == old(self).published,
            final(self).setup_flags == old(self).setup_flags,
    {
        let ghost before = self@;
        let ghost start = self.tail;
        let mut j: u32 = 0;
        while j < count
            invariant
                self.wf(),
                j <= count,
                count <= before.space_left(),
                self@ == before.claim_all(zeroed_slots(j as nat)),
                self.tail == advance(start, j as int),
                self.head == old(self).head,
                self.published == old(self).published,
                self.setup_flags == old(self).setup_flags,
            decreases count - j,
        {
            self.claim_zeroed();
            proof { lemma_claim_zeroed_step(before, j as nat); }
            j = j + 1;
        }
    }

    /// Claims `count` free slots at once, zeroed, for the caller to fill;
    /// `None`, with nothing claimed, when fewer than `count` are free.
    pub fn prepare_sqes(&mut self, count: u32) -> (r: Option<SQEs>)
        requires
            old(self).wf(),
        ensures
            final(self).head_counter() == old(self).head_counter(),
            final(self).published_counter() == old(self).published_counter(),
            final(self).wf(),
            final(self).setup() == old(self).setup(),
            r is Some <==> count <= old(self)@.space_left(),
            r is None ==> final(self)@ == old(self)@,
            r matches Some(b) ==> {
                &&& final(self)@ == old(self)@.claim_all(zeroed_slots(count as nat))
                &&& b.within(*final(self))
                &&& b.start_in(*final(self)) == old(self)@.pending.len()
                &&& b.remaining_spec() == count
            },
    {
        proof { self.lemma_counts(); }
        if count > self.entries - wrapping_distance(self.head, self.tail) {
            return None;
        }
        let start = self.tail;
        let ghost before = self@;
        self.claim_zeroed_n(count);
        let b = SQEs { next: start, end: self.tail };
        proof {
            self.lemma_counts();
            assert(distance(start, self.tail) == count) by {
                lemma_distance_advance(start, count as int);
            }
            assert(distance(self.published, self.tail) == before.pending.len() + count);
            assert(b.within(*self));
        }
        Some(b)
    }

    /// Writing `s` into the slot of a claimed counter `c` replaces that
    /// claimed slot.
    proof fn lemma_write_pending(&self, c: u32)
        requires
            self.wf(),
            distance(self.published, c) < distance(self.published, self.tail),
        ensures
            forall|q: SubmissionQueue, s: SQE|
                #![trigger q@, self.slots@.update(slot_of(c as int, self.entries), s)]
                q.slots@ == self.slots@.update(slot_of(c as int, self.entries), s)
                && q.tail == self.tail && q.head == self.head && q.published == self.published
                && q.shift == self.shift && q.entries == self.entries && q.mask == self.mask
                ==> q.wf() && q@ == self@.set_pending(distance(self.published, c) as int, s),
            self.slot_at(c as int) == self@.pending[distance(self.published, c) as int],
    {
        self.lemma_counts();
        let e = self.entries;
        let dif = distance(self.head, self.published);
        let p = distance(self.published, c);
        let dp = distance(self.published, self.tail);
        let t = slot_of(c as int, e);
        lemma_advance_by_distance(self.published, c);
        lemma_advance_by_distance(self.head, self.published);
        lemma_wrap_slot(self.published, p as int, 0, self.shift, e, self.mask);
        assert forall|k: int| 0 <= k < dif implies #[trigger] slot_of(self.head as int + k, e) != t by {
            lemma_wrap_slot(self.head, dif as int, p as int, self.shift, e, self.mask);
            lemma_slots_distinct(self.head as int, k, (dif + p) as int, e);
        }
        assert forall|k: int| 0 <= k < dp && k != p implies #[trigger] slot_of(self.published as int + k, e) != t by {
            if k < p {
                lemma_slots_distinct(self.published as int, k, p as int, e);
            } else {
                lemma_slots_distinct(self.published as int, p as int, k, e);
            }
        }
        assert forall|q: SubmissionQueue, s: SQE|
            #![trigger q@, self.slots@.update(slot_of(c as int, self.entries), s)]
            q.slots@ == self.slots@.update(slot_of(c as int, self.entries), s)
            && q.tail == self.tail && q.head == self.head && q.published == self.published
            && q.shift == self.shift && q.entries == self.entries && q.mask == self.mask
            implies q.wf() && q@ == self@.set_pending(p as int, s) by {
            assert(q@.in_flight =~= self@.in_flight);
            assert(q@.pending =~= self@.pending.update(p as int, s));
        }
    }

    /// The published tail is as many slots past the kernel's head as are in
    /// flight, and the ring never holds more than its capacity.
    pub proof fn lemma_counters(&self)
        requires
            self.wf(),
        ensures
            self.published_counter() == advance(self.head_counter(), self@.in_flight.len() as int),
            self@.in_flight.len() + self@.pending.len() <= self@.capacity,
    {
        lemma_advance_by_distance(self.head, self.published);
    }

    /// Number of free slots that can still be claimed.
    pub fn space_left(&self) -> (r: u32)
        requires
            self.wf(),
        ensures
            r == self@.space_left(),
    {
        proof { self.lemma_counts(); }
        self.entries - wrapping_distance(self.head, self.tail)
    }

    /// Number of slots claimed or in flight: what the kernel has not yet consumed.
    pub fn ready(&self) -> (r: u32)
        requires
            self.wf(),
        ensures
            r == self@.in_flight.len() + self@.pending.len(),
    {
        proof { self.lemma_counts(); }
        wrapping_distance(self.head, self.tail)
    }

    /// Number of slots in flight.
    pub fn in_flight(&self) -> (r: u32)
        requires
            self.wf(),
        ensures
            r == self@.in_flight.len(),
    {
        wrapping_distance(self.head, self.published)
    }

    /// The ring's capacity.
    pub fn capacity(&self) -> (r: u32)
        ensures
            r == self@.capacity,
    {
        self.entries
    }

    /// The kernel's head as last observed.
    pub fn head(&self) -> (r: u32)
        ensures
            r == self.head_counter(),
    {
        self.head
    }

    /// The published tail, which the kernel is shown.
    pub fn published_tail(&self) -> (r: u32)
        ensures
            r == self.published_counter(),
    {
        self.published
    }
}

/// Slots claimed together by `prepare_sqes` and not yet handed out. Each is
/// handed out once; the handles stay valid until the ring is next submitted.
#[derive(Debug)]
pub struct SQEs {
    next: u32,
    end: u32,
}

impl SQEs {
    /// How many slots are left to hand out.
    pub closed spec fn remaining_spec(&self) -> nat {
        distance(self.next, self.end)
    }

    /// The claimed position of `q` where the slots left to hand out start.
    pub closed spec fn start_in(&self, q: SubmissionQueue) -> int {
        distance(q.published, self.next) as int
    }

    /// The slots left to hand out are claimed, unpublished slots of `q`.
    pub closed spec fn within(&self, q: SubmissionQueue) -> bool {
        distance(q.published, self.next) + distance(self.next, self.end) <= distance(q.published, q.tail)
    }

    /// How many slots are left to hand out.
    pub fn remaining(&self) -> (r: u32)
        ensures
            r == self.remaining_spec(),
    {
        wrapping_distance(self.next, self.end)
    }

    /// Hands out the next slot as it stands.
    #[verifier::rlimit(40)]
    fn take<'a>(&mut self, sq: &'a mut SubmissionQueue) -> (r: &'a mut SQE)
        requires
            old(sq).wf(),
            old(self).within(*old(sq)),
            old(self).remaining_spec() > 0,
        ensures
            final(sq).head_counter() == old(sq).head_counter(),
            final(sq).published_counter() == old(sq).published_counter(),
            final(sq).wf(),
            final(sq).setup() == old(sq).setup(),
            *r == old(sq)@.pending[old(self).start_in(*old(sq))],
            final(sq)@ == old(sq)@.set_pending(old(self).start_in(*old(sq)), *final(r)),
            final(self).within(*final(sq)),
            final(self).start_in(*final(sq)) == old(self).start_in(*old(sq)) + 1,
            final(self).remaining_spec() == old(self).remaining_spec() - 1,
    {
        proof {
            sq.lemma_counts();
            sq.lemma_write_pending(self.next);
            lemma_distance_split(sq.published, self.next, self.end);
            lemma_advance_by_distance(self.next, self.end);
            lemma_distance_rest(self.next, advance(self.next, 1), self.end);
            lemma_distance_split(sq.published, self.next, advance(self.next, 1));
        }
        let i = slot_index(self.next, sq.shift, sq.entries, sq.mask);
        self.next = wrapping_advance(self.next, 1);
        &mut sq.slots[i as usize]
    }

    /// Hands out one slot: the last one left, with every slot before it
    /// prepared as a no-op. `None` when none is left.
    pub fn single<'a>(&mut self, sq: &'a mut SubmissionQueue) -> (r: Option<&'a mut SQE>)
        requires
            old(sq).wf(),
            old(self).within(*old(sq)),
        ensures
            final(sq).head_counter() == old(sq).head_counter(),
            final(sq).published_counter() == old(sq).published_counter(),
            final(sq).wf(),
            final(sq).setup() == old(sq).setup(),
            final(self).remaining_spec() == 0,
            r is None <==> old(self).remaining_spec() == 0,
            r is None ==> final(sq)@ == old(sq)@,
            r matches Some(s) ==> {
                let p = old(self).start_in(*old(sq));
                let n = old(self).remaining_spec() as int;
                &&& *s == nop_of(old(sq)@.pending[p + n - 1])
                &&& final(sq)@ == old(sq)@.with_nops(p, n - 1).set_pending(p + n - 1, *final(s))
            },
    {
        let ghost before = sq@;
        let ghost first = self.start_in(*sq);
        let ghost count = self.remaining_spec() as int;
        proof {
            assert(before.with_nops(first, 0).pending =~= before.pending);
        }
        while self.remaining() > 1
            invariant
                sq.wf(),
                sq.setup() == old(sq).setup(),
                sq.head_counter() == old(sq).head_counter(),
                sq.published_counter() == old(sq).published_counter(),
                self.within(*sq),
                self.start_in(*sq) + self.remaining_spec() == first + count,
                first <= self.start_in(*sq),
                sq@ == before.with_nops(first, self.start_in(*sq) - first),
                count >= 1 ==> self.remaining_spec() >= 1,
                count == 0 ==> self.remaining_spec() == 0,
                before.pending.len() >= first + count,
            decreases self.remaining_spec(),
        {
            let ghost c = self.start_in(*sq) - first;
            let s = self.take(sq);
            s.prep_nop();
            proof {
                assert(before.with_nops(first, c).set_pending(first + c, nop_of(before.pending[first + c])).pending
                    =~= before.with_nops(first, c + 1).pending);
            }
        }
        if self.remaining() == 1 {
            let s = self.take(sq);
            s.prep_nop();
            Some(s)
        } else {
            None
        }
    }

    /// Hands out the next slot, prepared as a no-op; `None` when none is left.
    pub fn next<'a>(&mut self, sq: &'a mut SubmissionQueue) -> (r: Option<&'a mut SQE>)
        requires
            old(sq).wf(),
            old(self).within(*old(sq)),
        ensures
            final(sq).head_counter() == old(sq).head_counter(),
            final(sq).published_counter() == old(sq).published_counter(),
            final(sq).wf(),
            final(sq).setup() == old(sq).setup(),
            final(self).within(*final(sq)),
            r is None <==> old(self).remaining_spec() == 0,
            r is None ==> final(sq)@ == old(sq)@ && *final(self) == *old(self),
            r matches Some(s) ==> {
                let p = old(self).start_in(*old(sq));
                &&& *s == nop_of(old(sq)@.pending[p])
                &&& final(sq)@ == old(sq)@.set_pending(p, *final(s))
                &&& final(self).start_in(*final(sq)) == p + 1
                &&& final(self).remaining_spec() == old(self).remaining_spec() - 1
            },
    {
        if self.remaining() == 0 {
            return None;
        }
        let s = self.take(sq);
        s.prep_nop();
        Some(s)
    }

    /// Hands the slots left over to a hard-linked chain.
    pub fn hard_linked(&mut self) -> (r: HardLinked)
        ensures
            r.batch() == *old(self),
            final(self).remaining_spec() == 0,
    {
        let r = HardLinked { sqes: SQEs { next: self.next, end: self.end } };
        self.next = self.end;
        r
    }

}

/// Claimed slots handed out as a hard-linked chain: every slot but the last
/// is linked to the next one, so the kernel runs them in order.
#[derive(Debug)]
pub struct HardLinked {
    sqes: SQEs,
}

impl HardLinked {
    /// The slots left to hand out.
    pub closed spec fn batch(&self) -> SQEs {
        self.sqes
    }

    /// How many slots are left to hand out.
    pub fn remaining(&self) -> (r: u32)
        ensures
            r == self.batch().remaining_spec(),
    {
        self.sqes.remaining()
    }

    /// Hands out the next slot of the chain, prepared as a no-op and linked to
    /// the next one unless it is the last. `None` when none is left. The link
    /// flag is set here, and the preparation helpers keep it; clearing or
    /// overwriting the slot's flags afterwards removes it.
    pub fn next<'a>(&mut self, sq: &'a mut SubmissionQueue) -> (r: Option<&'a mut SQE>)
        requires
            old(sq).wf(),
            old(self).batch().within(*old(sq)),
        ensures
            final(sq).head_counter() == old(sq).head_counter(),
            final(sq).published_counter() == old(sq).published_counter(),
            final(sq).wf(),
            final(sq).setup() == old(sq).setup(),
            final(self).batch().within(*final(sq)),
            r is None <==> old(self).batch().remaining_spec() == 0,
            r is None ==> final(sq)@ == old(sq)@ && *final(self) == *old(self),
            r matches Some(s) ==> {
                let p = old(self).batch().start_in(*old(sq));
                &&& *s == chain_link_of(old(sq)@.pending[p], old(self).batch().remaining_spec() == 1)
                &&& final(sq)@ == old(sq)@.set_pending(p, *final(s))
                &&& final(self).batch().start_in(*final(sq)) == p + 1
                &&& final(self).batch().remaining_spec() == old(self).batch().remaining_spec() - 1
            },
    {
        let left = self.sqes.remaining();
        if left == 0 {
            return None;
        }
        let s = self.sqes.take(sq);
        s.prep_nop();
        if left > 1 {
            s.set_flags(SubmissionFlags::from_bits(IO_HARDLINK));
        }
        Some(s)
    }

    /// Ends the chain: hands out the next slot as a no-op that is not linked
    /// to anything. `None` when none is left.
    pub fn terminate<'a>(self, sq: &'a mut SubmissionQueue) -> (r: Option<&'a mut SQE>)
        requires
            old(sq).wf(),
            self.batch().within(*old(sq)),
        ensures
            final(sq).head_counter() == old(sq).head_counter(),
            final(sq).published_counter() == old(sq).published_counter(),
            final(sq).wf(),
            final(sq).setup() == old(sq).setup(),
            r is None <==> self.batch().remaining_spec() == 0,
            r is None ==> final(sq)@ == old(sq)@,
            r matches Some(s) ==> {
                let p = self.batch().start_in(*old(sq));
                &&& *s == nop_of(old(sq)@.pending[p])
                &&& final(sq)@ == old(sq)@.set_pending(p, *final(s))
            },
    {
        let mut sqes = self.sqes;
        if sqes.remaining() == 0 {
            return None;
        }
        let s = sqes.take(sq);
        s.prep_nop();
        Some(s)
    }
}

/// A slot claimed and then published keeps its contents, tag included: it
/// is in flight after everything published or claimed before it, and once
/// the kernel has consumed those it is the next slot the kernel reads.
pub proof fn lemma_submitted_slot_keeps_tag(m: SqModel, s: SQE)
    ensures
        ({
            let k = m.in_flight.len() + m.pending.len();
            let after = m.claim(s).submitted();
            &&& after.in_flight.len() == k + 1
            &&& after.in_flight[k as int] == s
            &&& after.consumed(k).in_flight[0] == s
            &&& after.consumed(k).in_flight[0].tag() == s.tag()
        }),
{
    let k = m.in_flight.len() + m.pending.len();
    let after = m.claim(s).submitted();
    assert(after.in_flight =~= m.in_flight + m.pending.push(s));
    assert(after.consumed(k).in_flight[0] == after.in_flight[k as int]);
}

/// In a hard-linked chain of `n` claimed slots, the slot at position `i`
/// carries the hard-link flag exactly when it is not the last.
pub proof fn lemma_chain_links(i: nat, n: nat)
    requires
        i < n,
    ensures
        (chain_link_of(SQE::zeroed_spec(), i + 1 == n).flag_bits() & IO_HARDLINK != 0) <==> i + 1 < n,
{
    let z = SQE::zeroed_spec();
    let p = nop_of(z);
    lemma_zeroed_fields();
    lemma_prepared_fields(z, OP_NOP, -1i32, 0, 0, 0);
    lemma_setter_fields(p, p.flag_bits() | IO_HARDLINK, 0, 0, 0, 0, 0);
    assert(p.flag_bits() == 0);
    assert((0u8 | 8u8) & 8u8 != 0) by (bit_vector);
    assert(0u8 & 8u8 == 0) by (bit_vector);
}

/// The slot injected for a timed wait carries the reserved timeout tag, and
/// no tag a caller may set is that tag, so the completion of a caller's
/// operation is never taken for the timeout.
pub proof fn lemma_timeout_tag_reserved(t: u64, ts_addr: u64)
    requires
        user_tag(t),
    ensures
        timeout_sqe(ts_addr).tag() == TIMEOUT_USER_DATA,
        t != timeout_sqe(ts_addr).tag(),
{
    let z = SQE::zeroed_spec();
    let p = z.prepared(OP_TIMEOUT, -1i32, ts_addr, 1, 0).with_op_flags(0);
    lemma_setter_fields(p, 0, TIMEOUT_USER_DATA, 0, 0, 0, 0);
}

/// The slot injected for a timed wait: a timeout on the timespec at
/// `ts_addr` that waits for no completion count, with no flags, tagged with
/// the reserved timeout tag.
pub proof fn lemma_timeout_sqe_fields(ts_addr: u64)
    ensures
        timeout_sqe(ts_addr).fields() == (crate::sqe::SlotFields {
            opcode: OP_TIMEOUT,
            flags: 0,
            ioprio: 0,
            fd: -1i32,
            off: 0,
            addr: ts_addr,
            len: 1,
            op_flags: 0,
            user_data: TIMEOUT_USER_DATA,
            buf_index: 0,
            personality: 0,
            splice_fd_in: 0,
        }),
{
    let z = SQE::zeroed_spec();
    let p = z.prepared(OP_TIMEOUT, -1i32, ts_addr, 1, 0);
    lemma_zeroed_fields();
    lemma_prepared_fields(z, OP_TIMEOUT, -1i32, ts_addr, 1, 0);
    lemma_setter_fields(p, 0, 0, 0, 0, 0, 0);
    lemma_setter_fields(p.with_op_flags(0), 0, TIMEOUT_USER_DATA, 0, 0, 0, 0);
}

} // verus!
