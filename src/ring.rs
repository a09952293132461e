//! Index arithmetic shared by both rings.
//!
//! Ring counters are unsigned 32-bit values that only move forward and are
//! allowed to wrap. A ring has `2^shift` slots; the slot of a counter is its
//! low `shift` bits (`counter & mask`), and the number of entries between two
//! counters is their wrapping difference.
use vstd::prelude::*;
use vstd::arithmetic::div_mod::{lemma_add_mod_noop, lemma_add_mod_noop_right, lemma_mod_equivalence, lemma_mod_mod, lemma_small_mod};
use vstd::arithmetic::power2::{lemma2_to64, lemma_pow2_adds, lemma_pow2_pos, lemma_pow2_unfold, pow2};
use vstd::bits::{lemma_u32_low_bits_mask_is_mod, low_bits_mask};

verus! {

/// Largest exponent of a ring size: rings hold at most `2^16` slots.
pub const MAX_RING_SHIFT: u32 = 16;

/// The number of values a counter takes before it wraps.
pub open spec fn counter_modulus() -> int {
    0x1_0000_0000
}

/// How many entries lie from `head` up to `tail`, counted modulo `2^32`.
pub open spec fn distance(head: u32, tail: u32) -> nat {
    ((tail as int - head as int) % counter_modulus()) as nat
}

/// The counter `n` places after `c`, wrapped.
pub open spec fn advance(c: u32, n: int) -> u32 {
    ((c as int + n) % counter_modulus()) as u32
}

/// `entries` and `mask` describe a ring of `2^shift` slots.
pub open spec fn ring_shape(shift: u32, entries: u32, mask: u32) -> bool {
    &&& shift <= MAX_RING_SHIFT
    &&& entries as nat == pow2(shift as nat)
    &&& mask == entries - 1
}

/// `entries` is a size that a ring can have.
pub open spec fn is_ring_size(entries: u32) -> bool {
    exists|s: u32| s <= MAX_RING_SHIFT && entries as nat == pow2(s as nat)
}

/// The slot that the unwrapped counter value `c` falls on.
pub open spec fn slot_of(c: int, entries: u32) -> int {
    c % (entries as int)
}

/// The number of entries from `head` up to `tail`.
pub fn wrapping_distance(head: u32, tail: u32) -> (r: u32)
    ensures
        r == distance(head, tail),
{
    tail.wrapping_sub(head)
}

/// The counter `n` places after `c`.
pub fn wrapping_advance(c: u32, n: u32) -> (r: u32)
    ensures
        r == advance(c, n as int),
{
    c.wrapping_add(n)
}

/// The slot that counter `c` falls on, computed as `c & mask`.
pub fn slot_index(c: u32, shift: u32, entries: u32, mask: u32) -> (r: u32)
    requires
        ring_shape(shift, entries, mask),
    ensures
        r as int == slot_of(c as int, entries),
        r < entries,
{
    proof {
        lemma_pow2_pos(shift as nat);
        lemma_u32_low_bits_mask_is_mod(c, shift as nat);
        assert(low_bits_mask(shift as nat) == pow2(shift as nat) - 1);
    }
    c & mask
}

/// The exponent of a ring size, if `entries` is a power of two no larger
/// than `2^16`.
pub fn ring_shift(entries: u32) -> (r: Option<u32>)
    ensures
        r is Some <==> is_ring_size(entries),
        r matches Some(s) ==> ring_shape(s, entries, (entries - 1) as u32),
{
    let mut s: u32 = 0;
    let mut p: u32 = 1;
    proof {
        assert(pow2(0) == 1) by { lemma2_to64(); }
    }
    while s <= MAX_RING_SHIFT
        invariant
            s <= MAX_RING_SHIFT + 1,
            p as nat == pow2(s as nat),
            s <= MAX_RING_SHIFT ==> p <= 0x10000,
            forall|t: u32| t < s ==> entries as nat != #[trigger] pow2(t as nat),
        decreases MAX_RING_SHIFT + 1 - s,
    {
        if p == entries {
            proof { lemma_pow2_pos(s as nat); }
            return Some(s);
        }
        proof {
            lemma_pow2_unfold((s + 1) as nat);
            lemma2_to64();
        }
        p = p * 2;
        s = s + 1;
    }
    None
}

/// A counter and the unwrapped value it stands for fall on the same slot,
/// and so do the values `j` places after each, because the ring size divides
/// `2^32`.
pub proof fn lemma_wrap_slot(c: u32, n: int, j: int, shift: u32, entries: u32, mask: u32)
    requires
        ring_shape(shift, entries, mask),
        0 <= c as int + n,
    ensures
        slot_of(advance(c, n) as int + j, entries) == slot_of(c as int + n + j, entries),
{
    let rest = (32 - shift) as nat;
    let e = entries as int;
    let x = c as int + n;
    lemma_pow2_adds(shift as nat, rest);
    lemma2_to64();
    lemma_pow2_pos(shift as nat);
    lemma_pow2_pos(rest);
    assert(pow2(shift as nat + rest) == pow2(32));
    lemma_mod_mod(x, e, pow2(rest) as int);
    lemma_add_mod_noop(x % counter_modulus(), j, e);
    lemma_add_mod_noop(x, j, e);
}

/// Fewer than `entries` consecutive counters fall on distinct slots.
pub proof fn lemma_slots_distinct(base: int, j: int, k: int, entries: u32)
    requires
        0 <= j < k < entries,
    ensures
        slot_of(base + j, entries) != slot_of(base + k, entries),
{
    lemma_mod_equivalence(base + k, base + j, entries as int);
    assert((base + k) - (base + j) == k - j);
    lemma_small_mod((k - j) as nat, entries as nat);
}

/// The distance of the counter `n` places after `head` is `n`.
pub proof fn lemma_distance_advance(head: u32, n: int)
    requires
        0 <= n < counter_modulus(),
    ensures
        distance(head, advance(head, n)) == n,
{
}

/// Advancing a counter by its distance to another reaches that other.
pub proof fn lemma_advance_by_distance(a: u32, b: u32)
    ensures
        advance(a, distance(a, b) as int) == b,
{
    lemma_add_mod_noop_right(a as int, b as int - a as int, counter_modulus());
    lemma_small_mod(b as nat, counter_modulus() as nat);
}

/// Counting from a counter part of the way to another leaves the rest.
pub proof fn lemma_distance_rest(a: u32, b: u32, c: u32)
    requires
        distance(a, b) <= distance(a, c),
    ensures
        distance(b, c) == distance(a, c) - distance(a, b),
{
}

/// Distances add up along three counters in order.
pub proof fn lemma_distance_split(a: u32, b: u32, c: u32)
    requires
        distance(a, b) + distance(b, c) < counter_modulus(),
    ensures
        distance(a, c) == distance(a, b) + distance(b, c),
{
}

} // verus!
