//! The consumer side of the completion ring.
//!
//! The kernel writes completions at the tail; the library copies each one out
//! and moves the head past it in the same step, so every completion is seen
//! exactly once and its slot goes back to the kernel.
use vstd::prelude::*;
use crate::cqe::{CompletionQueueEvent, OsError};
use crate::ring::{
    advance, distance, is_ring_size, lemma_advance_by_distance, lemma_distance_rest, lemma_slots_distinct,
    lemma_wrap_slot, ring_shape, ring_shift, slot_index, slot_of, wrapping_advance, wrapping_distance,
};
use crate::submission_queue::{EnterArgs, ENTER_GETEVENTS};

verus! {

/// Kernel completion ring flag: do not signal the registered eventfd.
pub const CQ_EVENTFD_DISABLED: u32 = 1;
/// The error number for an operation the kernel does not support.
pub const EOPNOTSUPP: i32 = 95;

/// The contents of a completion ring.
pub struct CqModel {
    pub capacity: nat,
    /// Completions written and not yet seen, oldest first.
    pub ready: Seq<CompletionQueueEvent>,
}

impl CqModel {
    pub open spec fn space_left(self) -> int {
        self.capacity - self.ready.len()
    }

    /// The kernel wrote `ev`.
    pub open spec fn post(self, ev: CompletionQueueEvent) -> CqModel {
        CqModel { ready: self.ready.push(ev), ..self }
    }

    /// The kernel wrote `evs`, in order.
    pub open spec fn post_all(self, evs: Seq<CompletionQueueEvent>) -> CqModel {
        CqModel { ready: self.ready + evs, ..self }
    }

    /// The oldest `n` completions seen.
    pub open spec fn take_n(self, n: nat) -> CqModel {
        CqModel { ready: self.ready.skip(n as int), ..self }
    }

    /// What `n` single takes from this ring return, in order.
    pub open spec fn observed(self, n: nat) -> Seq<CompletionQueueEvent> {
        Seq::new(n, |i: int| self.take_n(i as nat).ready[0])
    }
}

/// What a wait for completions needs.
#[derive(Clone, Copy, Debug, PartialEq, Eq, Structural)]
pub enum CqWait {
    /// Enough completions were there: the oldest, now seen.
    Ready(CompletionQueueEvent),
    /// Too few: make this call, take what the kernel wrote, and ask again.
    Enter(EnterArgs),
}

/// What a blocking wait for a batch of completions needs.
#[derive(Debug)]
pub enum CqesWait {
    /// Enough completions were there: all of them, oldest first, now seen.
    Ready(Vec<CompletionQueueEvent>),
    /// Too few: make this call, take what the kernel wrote, and ask again.
    Enter(EnterArgs),
}

/// The completion ring.
#[derive(Debug)]
pub struct CompletionQueue {
    slots: Vec<CompletionQueueEvent>,
    shift: u32,
    entries: u32,
    mask: u32,
    head: u32,
    tail: u32,
    kflags: Option<u32>,
}

impl View for CompletionQueue {
    type V = CqModel;

    closed spec fn view(&self) -> CqModel {
        CqModel {
            capacity: self.entries as nat,
            ready: Seq::new(distance(self.head, self.tail), |k: int| self.slots@[slot_of(self.head as int + k, self.entries)]),
        }
    }
}

/// The wait that asks the kernel for `count` completions, or one when
/// `count` is zero.
pub open spec fn wait_request(count: u32) -> EnterArgs {
    EnterArgs {
        enter: true,
        to_submit: 0,
        min_complete: if count == 0 { 1 } else { count },
        flags: ENTER_GETEVENTS,
    }
}

impl CompletionQueue {
    pub closed spec fn wf(&self) -> bool {
        &&& ring_shape(self.shift, self.entries, self.mask)
        &&& self.slots@.len() == self.entries
        &&& distance(self.head, self.tail) <= self.entries
    }

    /// The head counter the kernel must be shown.
    pub closed spec fn head_counter(&self) -> u32 {
        self.head
    }

    /// The tail counter, where the kernel writes next.
    pub closed spec fn tail_counter(&self) -> u32 {
        self.tail
    }

    /// The tail is as many completions past the head as are ready, and the
    /// ring never holds more than its capacity.
    pub proof fn lemma_counters(&self)
        requires
            self.wf(),
        ensures
            self.tail_counter() == advance(self.head_counter(), self@.ready.len() as int),
            self@.ready.len() <= self@.capacity,
    {
        lemma_advance_by_distance(self.head, self.tail);
    }

    /// The kernel's completion ring flags word, when the kernel has one.
    pub closed spec fn kflags_spec(&self) -> Option<u32> {
        self.kflags
    }

    /// Whether the registered eventfd is signalled.
    pub open spec fn eventfd_enabled_spec(&self) -> bool {
        match self.kflags_spec() {
            None => true,
            Some(f) => f & CQ_EVENTFD_DISABLED == 0,
        }
    }

    /// An empty ring of `entries` slots; `kflags` is the kernel's flags word,
    /// when it has one. `None` unless `entries` is a power of two no larger
    /// than `2^16`.
    pub fn new(entries: u32, kflags: Option<u32>) -> (r: Option<CompletionQueue>)
        ensures
            r is Some <==> is_ring_size(entries),
            r matches Some(q) ==> {
                &&& q.wf()
                &&& q@.capacity == entries
                &&& q@.ready.len() == 0
                &&& q.kflags_spec() == kflags
            },
    {
        match ring_shift(entries) {
            None => None,
            Some(shift) => {
                let mut slots: Vec<CompletionQueueEvent> = Vec::new();
                let mut i: u32 = 0;
                while i < entries
                    invariant
                        i <= entries,
                        slots@.len() == i,
                    decreases entries - i,
                {
                    slots.push(CompletionQueueEvent::new(0, 0, 0));
                    i = i + 1;
                }
                let q = CompletionQueue { slots, shift, entries, mask: entries - 1, head: 0, tail: 0, kflags };
                proof {
                    assert(q@.ready.len() == 0);
                }
                Some(q)
            },
        }
    }

    /// Records a completion that the kernel wrote at the tail. A full ring
    /// refuses it and does not change.
    pub fn push(&mut self, ev: CompletionQueueEvent) -> (r: bool)
        requires
            old(self).wf(),
        ensures
            final(self).head_counter() == old(self).head_counter(),
            !r ==> *final(self) == *old(self),
            final(self).wf(),
            final(self).kflags_spec() == old(self).kflags_spec(),
            r <==> old(self)@.space_left() > 0,
            r ==> final(self)@ == old(self)@.post(ev),
            !r ==> final(self)@ == old(self)@,
    {
        if wrapping_distance(self.head, self.tail) >= self.entries {
            return false;
        }
        let ghost before = self@;
        let ghost d = distance(self.head, self.tail);
        proof {
            lemma_advance_by_distance(self.head, self.tail);
            lemma_wrap_slot(self.head, d as int, 0, self.shift, self.entries, self.mask);
            assert forall|k: int| 0 <= k < d implies
                #[trigger] slot_of(self.head as int + k, self.entries) != slot_of(self.tail as int, self.entries) by {
                lemma_slots_distinct(self.head as int, k, d as int, self.entries);
            }
        }
        let i = slot_index(self.tail, self.shift, self.entries, self.mask);
        self.slots.set(i as usize, ev);
        self.tail = wrapping_advance(self.tail, 1);
        proof {
            assert(self@.ready =~= before.ready.push(ev));
        }
        true
    }

    /// Takes the oldest completion and marks it seen, returning its slot to
    /// the kernel; `None` when there is none.
    pub fn peek_for_cqe(&mut self) -> (r: Option<CompletionQueueEvent>)
        requires
            old(self).wf(),
        ensures
            r is None ==> *final(self) == *old(self),
            r is Some ==> final(self).head_counter() == advance(old(self).head_counter(), 1),
            final(self).wf(),
            final(self).kflags_spec() == old(self).kflags_spec(),
            r is None <==> old(self)@.ready.len() == 0,
            r is None ==> final(self)@ == old(self)@,
            r matches Some(e) ==> e == old(self)@.ready[0] && final(self)@ == old(self)@.take_n(1),
    {
        if self.head == self.tail {
            return None;
        }
        let ghost before = self@;
        proof {
            lemma_distance_rest(self.head, advance(self.head, 1), self.tail);
            assert forall|k: int| 0 <= k < distance(self.head, self.tail) - 1 implies
                #[trigger] slot_of(advance(self.head, 1) as int + k, self.entries) == slot_of(self.head as int + 1 + k, self.entries) by {
                lemma_wrap_slot(self.head, 1, k, self.shift, self.entries, self.mask);
            }
        }
        let i = slot_index(self.head, self.shift, self.entries, self.mask);
        let ev = self.slots[i as usize];
        self.head = wrapping_advance(self.head, 1);
        proof {
            assert(self@.ready =~= before.ready.skip(1));
        }
        Some(ev)
    }

    /// Takes every completion there is, oldest first, and marks them all seen
    /// with a single move of the head.
    pub fn cqes(&mut self) -> (r: Vec<CompletionQueueEvent>)
        requires
            old(self).wf(),
        ensures
            final(self).head_counter() == advance(old(self).head_counter(), old(self)@.ready.len() as int),
            final(self).wf(),
            final(self).kflags_spec() == old(self).kflags_spec(),
            r@ == old(self)@.ready,
            final(self)@ == old(self)@.take_n(old(self)@.ready.len()),
    {
        let n = wrapping_distance(self.head, self.tail);
        let mut out: Vec<CompletionQueueEvent> = Vec::new();
        let mut k: u32 = 0;
        while k < n
            invariant
                self.wf(),
                n == self@.ready.len(),
                k <= n,
                out@ == self@.ready.take(k as int),
            decreases n - k,
        {
            proof { lemma_wrap_slot(self.head, k as int, 0, self.shift, self.entries, self.mask); }
            let i = slot_index(wrapping_advance(self.head, k), self.shift, self.entries, self.mask);
            out.push(self.slots[i as usize]);
            proof {
                assert(out@ =~= self@.ready.take(k as int + 1));
            }
            k = k + 1;
        }
        let ghost before = self@;
        self.head = self.tail;
        proof {
            assert(out@ =~= before.ready);
            assert(self@.ready =~= before.ready.skip(n as int));
        }
        out
    }

    /// Waits for at least `count` completions, treating zero as one: the
    /// oldest completion, seen, when there are enough; otherwise the kernel
    /// call that waits for them.
    pub fn wait_for_cqes(&mut self, count: u32) -> (r: CqWait)
        requires
            old(self).wf(),
        ensures
            r is Ready ==> final(self).head_counter() == advance(old(self).head_counter(), 1),
            final(self).wf(),
            final(self).kflags_spec() == old(self).kflags_spec(),
            r is Ready <==> old(self)@.ready.len() > 0 && old(self)@.ready.len() >= count,
            r matches CqWait::Ready(e) ==> e == old(self)@.ready[0] && final(self)@ == old(self)@.take_n(1),
            r matches CqWait::Enter(a) ==> a == wait_request(count) && *final(self) == *old(self),
    {
        let ready = wrapping_distance(self.head, self.tail);
        if ready > 0 && ready >= count {
            match self.peek_for_cqe() {
                Some(e) => CqWait::Ready(e),
                None => CqWait::Enter(EnterArgs { enter: true, to_submit: 0, min_complete: 1, flags: ENTER_GETEVENTS }),
            }
        } else {
            let min_complete: u32 = if count == 0 { 1 } else { count };
            CqWait::Enter(EnterArgs { enter: true, to_submit: 0, min_complete, flags: ENTER_GETEVENTS })
        }
    }

    /// Waits until at least `wait_for` completions are there, treating zero
    /// as one, then takes all of them; otherwise the kernel call that waits.
    pub fn cqes_blocking(&mut self, wait_for: u32) -> (r: CqesWait)
        requires
            old(self).wf(),
        ensures
            r is Ready ==> final(self).head_counter() == advance(old(self).head_counter(), old(self)@.ready.len() as int),
            final(self).wf(),
            final(self).kflags_spec() == old(self).kflags_spec(),
            r is Ready <==> old(self)@.ready.len() > 0 && old(self)@.ready.len() >= wait_for,
            r matches CqesWait::Ready(v) ==> v@ == old(self)@.ready
                && final(self)@ == old(self)@.take_n(old(self)@.ready.len()),
            r matches CqesWait::Enter(a) ==> a == wait_request(wait_for) && *final(self) == *old(self),
    {
        let ready = wrapping_distance(self.head, self.tail);
        if ready > 0 && ready >= wait_for {
            CqesWait::Ready(self.cqes())
        } else {
            let min_complete: u32 = if wait_for == 0 { 1 } else { wait_for };
            CqesWait::Enter(EnterArgs { enter: true, to_submit: 0, min_complete, flags: ENTER_GETEVENTS })
        }
    }

    /// Waits for one completion.
    pub fn wait_for_cqe(&mut self) -> (r: CqWait)
        requires
            old(self).wf(),
        ensures
            r is Ready ==> final(self).head_counter() == advance(old(self).head_counter(), 1),
            final(self).wf(),
            final(self).kflags_spec() == old(self).kflags_spec(),
            r is Ready <==> old(self)@.ready.len() > 0,
            r matches CqWait::Ready(e) ==> e == old(self)@.ready[0] && final(self)@ == old(self)@.take_n(1),
            r matches CqWait::Enter(a) ==> a == wait_request(1) && *final(self) == *old(self),
    {
        self.wait_for_cqes(1)
    }

    /// Number of completions not yet seen.
    pub fn ready(&self) -> (r: u32)
        requires
            self.wf(),
        ensures
            r == self@.ready.len(),
            r <= self@.capacity,
    {
        wrapping_distance(self.head, self.tail)
    }

    /// The ring's capacity.
    pub fn capacity(&self) -> (r: u32)
        ensures
            r == self@.capacity,
    {
        self.entries
    }

    /// The head counter to show the kernel.
    pub fn head(&self) -> (r: u32)
        ensures
            r == self.head_counter(),
    {
        self.head
    }

    /// The tail counter: where the next completion the kernel writes goes.
    pub fn tail(&self) -> (r: u32)
        requires
            self.wf(),
        ensures
            r == self.tail_counter(),
            r == advance(self.head_counter(), self@.ready.len() as int),
    {
        proof { lemma_advance_by_distance(self.head, self.tail); }
        self.tail
    }

    /// The flags word to show the kernel, when it has one.
    pub fn kernel_flags(&self) -> (r: Option<u32>)
        ensures
            r == self.kflags_spec(),
    {
        self.kflags
    }

    /// Whether the registered eventfd is signalled on completions.
    pub fn eventfd_enabled(&self) -> (r: bool)
        ensures
            r == self.eventfd_enabled_spec(),
    {
        match self.kflags {
            None => true,
            Some(f) => f & CQ_EVENTFD_DISABLED == 0,
        }
    }

    /// Turns the eventfd signal on or off. A kernel without a flags word
    /// supports only the default, on.
    pub fn eventfd_toggle(&mut self, enabled: bool) -> (r: Result<(), OsError>)
        requires
            old(self).wf(),
        ensures
            final(self).head_counter() == old(self).head_counter(),
            final(self).wf(),
            final(self)@ == old(self)@,
            enabled == old(self).eventfd_enabled_spec() ==> r is Ok && final(self).kflags_spec() == old(self).kflags_spec(),
            enabled != old(self).eventfd_enabled_spec() && old(self).kflags_spec() is None ==> (r matches Err(e) && e.code() == EOPNOTSUPP),
            enabled != old(self).eventfd_enabled_spec() && old(self).kflags_spec() is Some ==> r is Ok && final(self).eventfd_enabled_spec() == enabled,
    {
        if enabled == self.eventfd_enabled() {
            return Ok(());
        }
        match self.kflags {
            None => Err(OsError::from_raw_os_error(EOPNOTSUPP)),
            Some(f) => {
                let nf: u32 = if enabled { f & !CQ_EVENTFD_DISABLED } else { f | CQ_EVENTFD_DISABLED };
                proof {
                    assert(f & !1u32 & 1u32 == 0) by (bit_vector);
                    assert((f | 1u32) & 1u32 != 0) by (bit_vector);
                }
                self.kflags = Some(nf);
                Ok(())
            },
        }
    }
}

/// Completions are seen in the order they were written, each exactly once:
/// a take after `i` takes is the same as `i + 1` takes, `n` takes return the
/// oldest `n` completions and leave the rest, and a drained ring has nothing
/// more to give.
pub proof fn lemma_each_completion_seen_once(m: CqModel, n: nat)
    requires
        n <= m.ready.len(),
    ensures
        forall|i: nat| i < m.ready.len() ==> #[trigger] m.take_n(i).take_n(1) == m.take_n(i + 1),
        m.observed(n) == m.ready.take(n as int),
        m.take_n(n).ready == m.ready.skip(n as int),
        m.take_n(m.ready.len()).ready.len() == 0,
{
    assert forall|i: nat| i < m.ready.len() implies #[trigger] m.take_n(i).take_n(1) == m.take_n(i + 1) by {
        assert(m.take_n(i).take_n(1).ready =~= m.take_n(i + 1).ready);
    }
    assert(m.observed(n) =~= m.ready.take(n as int));
}

/// A completion the kernel writes is seen with its tag, once: draining the
/// ring sees it right after everything written before it, and then the ring
/// is empty.
pub proof fn lemma_completion_keeps_tag(m: CqModel, ev: CompletionQueueEvent)
    ensures
        m.post(ev).observed(m.ready.len() + 1)[m.ready.len() as int] == ev,
        m.post(ev).observed(m.ready.len() + 1)[m.ready.len() as int].tag() == ev.tag(),
        m.post(ev).take_n(m.ready.len() + 1).ready.len() == 0,
{
    let k = m.ready.len();
    assert(m.post(ev).take_n(k).ready[0] == m.post(ev).ready[k as int]);
}

} // verus!
