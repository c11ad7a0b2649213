use vstd::prelude::*;

verus! {

/// One reading of the hardware's free-running counter: ticks since boot.
/// The counter is monotonic but wraps at 64 bits, so elapsed time between
/// two readings must be computed with wraparound-safe subtraction.
pub type Tick = u64;

/// The number of distinct values a 64-bit counter can hold; the counter
/// wraps modulo this quantity.
pub open spec fn tick_modulus() -> int {
    0x1_0000_0000_0000_0000
}

/// Mathematical model of wraparound-safe elapsed time: the unique `d`
/// with `0 <= d < 2^64` such that `last + d` is congruent to `now`
/// modulo `2^64`.
pub open spec fn spec_elapsed(now: Tick, last: Tick) -> u64 {
    if now >= last {
        (now - last) as u64
    } else {
        (now - last + tick_modulus()) as u64
    }
}

/// A counter reading advanced by `d` ticks, wrapping at 64 bits.
pub open spec fn spec_tick_add(t: Tick, d: u64) -> Tick {
    if t + d > u64::MAX {
        (t + d - tick_modulus()) as u64
    } else {
        (t + d) as u64
    }
}

/// Elapsed ticks between an earlier reading and the current one, safe
/// across counter overflow: modular subtraction, not signed comparison.
pub fn elapsed(now: Tick, last: Tick) -> (d: u64)
    ensures
        d == spec_elapsed(now, last),
{
    now.wrapping_sub(last)
}

/// Advance a counter reading by a duration, wrapping at the counter's
/// bit width.
pub fn tick_add(t: Tick, d: u64) -> (r: Tick)
    ensures
        r == spec_tick_add(t, d),
{
    t.wrapping_add(d)
}

/// Wraparound agreement: if `b` is produced from `a` by wrapping
/// increment of `d` ticks, modular subtraction recovers exactly `d` —
/// the same answer an unbounded integer model (`(a + d) - a`) gives.
pub proof fn lemma_elapsed_agrees_with_unbounded(a: Tick, d: u64)
    ensures
        spec_elapsed(spec_tick_add(a, d), a) == d,
{
}

} // verus!
