//! Comparison of 32-bit TCP sequence numbers on the circle of period 2^32.

use vstd::prelude::*;
use vstd::arithmetic::div_mod::{
    lemma_add_mod_noop_right, lemma_mod_add_multiples_vanish, lemma_mod_sub_multiples_vanish,
    lemma_small_mod,
};

verus! {

/// The size of the sequence-number space.
pub open spec fn seq_modulus() -> int {
    0x1_0000_0000
}

/// `a - b` taken modulo 2^32.
pub open spec fn seq_diff(a: u32, b: u32) -> int {
    (a as int - b as int) % seq_modulus()
}

/// `a + k` taken modulo 2^32.
pub open spec fn seq_add(a: u32, k: int) -> u32 {
    ((a as int + k) % seq_modulus()) as u32
}

/// `lhs` lies strictly before `rhs`, within half the circle.
pub open spec fn seq_lt(lhs: u32, rhs: u32) -> bool {
    seq_diff(lhs, rhs) > 0x8000_0000
}

/// `x` lies strictly inside the open interval `(start, end)` on the circle.
pub open spec fn seq_between(start: u32, x: u32, end: u32) -> bool {
    seq_lt(start, x) && seq_lt(x, end)
}

/// Whether `lhs` comes before `rhs` in wrap-around sequence order.
pub fn wrapping_lt(lhs: u32, rhs: u32) -> (r: bool)
    ensures
        r == seq_lt(lhs, rhs),
{
    lhs.wrapping_sub(rhs) > 0x8000_0000u32
}

/// Whether `x` lies strictly between `start` and `end` in wrap-around order.
pub fn is_between_wrapped(start: u32, x: u32, end: u32) -> (r: bool)
    ensures
        r == seq_between(start, x, end),
{
    wrapping_lt(start, x) && wrapping_lt(x, end)
}

/// Adding one to a sequence number, as `wrapping_add(1)` computes it.
pub fn seq_next(a: u32) -> (r: u32)
    ensures
        r == seq_add(a, 1),
{
    a.wrapping_add(1)
}

/// Adding `k` to a sequence number, modulo 2^32.
pub fn seq_advance(a: u32, k: u64) -> (r: u32)
    ensures
        r == seq_add(a, k as int),
{
    let kk: u64 = k % 0x1_0000_0000u64;
    proof {
        lemma_add_mod_noop_right(a as int, k as int, seq_modulus());
    }
    ((a as u64 + kk) % 0x1_0000_0000u64) as u32
}

/// `seq_diff` without the modulo.
pub proof fn lemma_seq_diff_cases(a: u32, b: u32)
    ensures
        seq_diff(a, b) == if a >= b { a - b } else { a - b + seq_modulus() },
{
    if a >= b {
        lemma_small_mod((a - b) as nat, seq_modulus() as nat);
    } else {
        lemma_mod_add_multiples_vanish(a - b, seq_modulus());
        lemma_small_mod((a - b + seq_modulus()) as nat, seq_modulus() as nat);
    }
}

/// `seq_add` by an amount in `[-1, 2^32)` without the modulo.
pub proof fn lemma_seq_add_cases(a: u32, k: int)
    requires
        -1 <= k < seq_modulus(),
    ensures
        seq_add(a, k) as int == if a + k >= seq_modulus() { a + k - seq_modulus() } else if a + k < 0 { a + k + seq_modulus() } else { a + k },
{
    if a + k >= seq_modulus() {
        lemma_mod_sub_multiples_vanish(a + k, seq_modulus());
        lemma_small_mod((a + k - seq_modulus()) as nat, seq_modulus() as nat);
    } else if a + k < 0 {
        lemma_mod_add_multiples_vanish(a + k, seq_modulus());
        lemma_small_mod((a + k + seq_modulus()) as nat, seq_modulus() as nat);
    } else {
        lemma_small_mod((a + k) as nat, seq_modulus() as nat);
    }
}

/// An acknowledgment strictly after `una` and not after `nxt` leaves no more
/// sequence numbers in flight than `una` did.
pub proof fn lemma_between_shrinks(una: u32, ack: u32, nxt: u32)
    requires
        seq_between(una, ack, seq_add(nxt, 1)),
        !seq_lt(nxt, una),
    ensures
        seq_diff(nxt, ack) <= seq_diff(nxt, una),
{
    lemma_seq_add_cases(nxt, 1);
    let e = seq_add(nxt, 1);
    lemma_seq_diff_cases(una, ack);
    lemma_seq_diff_cases(ack, e);
    lemma_seq_diff_cases(nxt, ack);
    lemma_seq_diff_cases(nxt, una);
}

/// Advancing `nxt` by `k` adds `k` to what is in flight, while that stays
/// within the sequence space.
pub proof fn lemma_advance_in_flight(nxt: u32, una: u32, k: int)
    requires
        0 <= k,
        seq_diff(nxt, una) + k < seq_modulus(),
    ensures
        seq_diff(seq_add(nxt, k), una) == seq_diff(nxt, una) + k,
{
    lemma_seq_add_cases(nxt, k);
    lemma_seq_diff_cases(nxt, una);
    lemma_seq_diff_cases(seq_add(nxt, k), una);
}

} // verus!
