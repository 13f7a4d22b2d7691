//! Delays that double with every attempt, up to a longest one.

use vstd::prelude::*;

verus! {

/// Two to a power.
pub open spec fn doubled(times: nat) -> nat
    decreases times,
{
    if times == 0 {
        1
    } else {
        2 * doubled((times - 1) as nat)
    }
}

/// A delay, doubled a number of times, up to the longest delay.
pub open spec fn delay_within(base: int, times: nat, most: int) -> int {
    if base * doubled(times) < most {
        base * doubled(times)
    } else {
        most
    }
}

proof fn lemma_doubled_grows(base: int, less: nat, more: nat)
    requires
        0 <= base,
        less <= more,
    ensures
        base * doubled(less) <= base * doubled(more),
    decreases more - less,
{
    if less < more {
        lemma_doubled_grows(base, less, (more - 1) as nat);
        lemma_doubled_once(base, (more - 1) as nat);
        assert(0 <= base * doubled((more - 1) as nat)) by (nonlinear_arith)
            requires
                0 <= base,
        ;
    }
}

proof fn lemma_doubled_once(base: int, times: nat)
    ensures
        base * doubled(times + 1) == 2 * (base * doubled(times)),
{
    assert(doubled(times + 1) == 2 * doubled(times));
    assert(base * (2 * doubled(times)) == 2 * (base * doubled(times))) by (nonlinear_arith);
}

/// A delay, doubled a number of times, up to the longest delay.
pub fn doubled_delay(base: i64, times: u64, most: i64) -> (delay: i64)
    requires
        0 < base < most <= i64::MAX / 2,
    ensures
        delay == delay_within(base as int, times as nat, most as int),
{
    let mut delay: i64 = base;
    let mut i: u64 = 0;
    assert(base * doubled(0) == base) by (nonlinear_arith)
        requires
            doubled(0) == 1,
    ;
    while i < times
        invariant
            i <= times,
            0 < base < most <= i64::MAX / 2,
            0 < delay < most,
            delay == base * doubled(i as nat),
        decreases times - i,
    {
        proof {
            lemma_doubled_once(base as int, i as nat);
        }
        delay = delay * 2;
        i += 1;
        if delay >= most {
            proof {
                lemma_doubled_grows(base as int, i as nat, times as nat);
            }
            return most;
        }
    }
    delay
}

/// Delays grow with the number of doublings and stay between the first and the
/// longest one.
pub proof fn law_delays_grow_within_bounds(base: int, less: nat, more: nat, most: int)
    requires
        0 < base < most,
        less <= more,
    ensures
        base <= delay_within(base, less, most) <= delay_within(base, more, most) <= most,
        delay_within(base, 0, most) == base,
{
    lemma_doubled_grows(base, 0, less);
    lemma_doubled_grows(base, less, more);
    assert(base * doubled(0) == base) by (nonlinear_arith)
        requires
            doubled(0) == 1,
    ;
}

} // verus!
