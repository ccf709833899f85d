//! Tick arithmetic: milliseconds to ticks, delay deadlines that survive
//! counter wrap-around, and timer compare values.

use vstd::prelude::*;

verus! {

/// Timer ticks per second (one tick per 10,000 cycles of a 10 MHz timer).
pub const TICK_HZ: u64 = 1000;

/// Timer cycles between two ticks.
pub const TICK_INTERVAL: u64 = 10_000;

/// 2^64, the modulus of the tick counter.
pub open spec fn tick_modulus() -> int {
    0x1_0000_0000_0000_0000
}

/// Half the tick counter's range, 2^63: differences below it count as
/// "not before".
pub open spec fn half_range() -> int {
    0x8000_0000_0000_0000
}

/// `ms` milliseconds in ticks, rounded up.
pub open spec fn ticks_for_ms(ms: u64) -> int {
    (ms * TICK_HZ + 999) / 1000
}

/// `ms` is small enough for the tick conversion to fit in 64 bits.
pub open spec fn ms_in_range(ms: u64) -> bool {
    ms * TICK_HZ + 999 <= u64::MAX
}

/// Ticks from `then` to `now` on the wrapping counter.
pub open spec fn ticks_since(now: u64, then: u64) -> int {
    (now - then) % tick_modulus()
}

/// The deadline of a delay of `ms` milliseconds started at tick `now`.
pub open spec fn deadline_of(now: u64, ms: u64) -> u64 {
    ((now + ticks_for_ms(ms)) % tick_modulus()) as u64
}

/// The wrapping difference `now - deadline`, read as a signed number, is not
/// negative.
pub open spec fn reached(now: u64, deadline: u64) -> bool {
    ticks_since(now, deadline) < half_range()
}

/// Converts milliseconds to ticks, rounding up.
pub fn ms_to_ticks(ms: u64) -> (r: u64)
    requires
        ms_in_range(ms),
    ensures
        r == ticks_for_ms(ms),
{
    (ms * TICK_HZ + 999) / 1000
}

/// Starts a delay of `ms` milliseconds at tick `now`: returns the deadline
/// tick, wrapping at 2^64. The caller yields until [`delay_expired`] holds.
pub fn delay_ms(now: u64, ms: u64) -> (deadline: u64)
    requires
        ms_in_range(ms),
    ensures
        deadline == deadline_of(now, ms),
{
    now.wrapping_add(ms_to_ticks(ms))
}

/// Whether tick `now` is at or past `deadline`: the wrapping difference
/// `now - deadline`, read as a signed 64-bit number, is not negative.
pub fn delay_expired(now: u64, deadline: u64) -> (r: bool)
    ensures
        r == reached(now, deadline),
{
    now.wrapping_sub(deadline) < 0x8000_0000_0000_0000u64
}

/// The timer compare value `delta` cycles after timer value `now`.
pub fn compare_value(now: u64, delta: u64) -> (r: u64)
    requires
        now + delta <= u64::MAX,
    ensures
        r == now + delta,
{
    now + delta
}

/// Delay monotonicity: a delay of `ms` milliseconds started at tick `start`
/// has expired `elapsed` ticks later exactly when at least
/// `ceil(ms * TICK_HZ / 1000)` ticks have passed, for any elapsed time below
/// 2^63 ticks (half the counter's range), across wrap-around.
pub proof fn lemma_delay_expires_after(start: u64, ms: u64, elapsed: nat)
    requires
        ms_in_range(ms),
        elapsed < half_range(),
    ensures
        reached(((start + elapsed) % tick_modulus()) as u64, deadline_of(start, ms)) <==> elapsed
            >= ticks_for_ms(ms),
{
    let m = tick_modulus();
    let d = ticks_for_ms(ms);
    assert(0 <= d < half_range());
    let now = (start + elapsed) % m;
    let dl = (start + d) % m;
    vstd::arithmetic::div_mod::lemma_sub_mod_noop(start + elapsed, start + d, m);
    assert((now - dl) % m == (elapsed - d) % m);
    if elapsed >= d {
        vstd::arithmetic::div_mod::lemma_small_mod((elapsed - d) as nat, m as nat);
    } else {
        vstd::arithmetic::div_mod::lemma_mod_add_multiples_vanish(elapsed - d, m);
        vstd::arithmetic::div_mod::lemma_small_mod((m + elapsed - d) as nat, m as nat);
    }
}

} // verus!
