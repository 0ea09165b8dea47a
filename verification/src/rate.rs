//! Rates per second, kept exactly as an increase and the time it took.

use vstd::prelude::*;

use crate::decimal::lemma_cross_transitive;
use crate::history::SECOND;

verus! {

/// What a counter has grown by in some time.
#[derive(Clone, Copy, Debug, PartialEq, Eq, Structural)]
pub struct Rate {
    pub increase: u64,
    /// The time in nanoseconds, never zero.
    pub elapsed: u128,
}

/// The rate of an increase. One that took no time at all is counted as that of a second.
pub open spec fn rate_over(increase: u64, elapsed: u128) -> Rate {
    Rate {
        increase,
        elapsed: if elapsed > 0 {
            elapsed
        } else {
            SECOND
        },
    }
}

/// The rate of so many per second.
pub open spec fn each_second(count: u64) -> Rate {
    Rate { increase: count, elapsed: SECOND }
}

/// The whole number of a rate per second: the increase divided by the elapsed seconds, rounded
/// down.
pub open spec fn per_second(rate: Rate) -> int {
    rate.increase * SECOND / (rate.elapsed as int)
}

/// Whether one rate is less than another.
pub open spec fn rate_less(a: Rate, b: Rate) -> bool {
    a.increase * b.elapsed < b.increase * a.elapsed
}

/// No rate is less than itself.
pub proof fn law_no_rate_is_less_than_itself(a: Rate)
    ensures
        !rate_less(a, a),
{
}

/// What is less than a rate is less than every rate that is not less than that one.
pub proof fn law_rate_order_is_transitive(a: Rate, b: Rate, c: Rate)
    requires
        a.elapsed > 0,
        b.elapsed > 0,
        c.elapsed > 0,
        rate_less(a, b),
        !rate_less(c, b),
    ensures
        rate_less(a, c),
{
    lemma_cross_transitive(
        a.increase as int,
        a.elapsed as int,
        b.increase as int,
        b.elapsed as int,
        c.increase as int,
        c.elapsed as int,
    );
}

/// The whole number of a rate times the elapsed time is the increase over a second, but for less
/// than what one more would make.
pub proof fn law_per_second_times_elapsed_is_the_increase(rate: Rate)
    requires
        rate.elapsed > 0,
    ensures
        per_second(rate) * rate.elapsed <= rate.increase * SECOND < (per_second(rate) + 1)
            * rate.elapsed,
        per_second(rate) >= 0,
{
    let n = rate.increase * SECOND;
    let d = rate.elapsed as int;
    assert((n / d) * d <= n < (n / d + 1) * d && n / d >= 0) by (nonlinear_arith)
        requires
            n >= 0,
            d > 0,
    ;
}

/// An increase of so many in each of a number of seconds makes a rate of so many per second.
pub proof fn law_rate_is_per_second(count: u64, seconds: u64)
    requires
        seconds > 0,
        count * seconds <= u64::MAX,
    ensures
        per_second(rate_over((count * seconds) as u64, (seconds * SECOND) as u128)) == count,
{
    let (n, d) = (count * seconds * SECOND, seconds * SECOND);
    assert(n / d == count && d > 0) by (nonlinear_arith)
        requires
            n == count * seconds * SECOND,
            d == seconds * SECOND,
            seconds > 0,
            SECOND > 0,
    ;
}

/// A rate holds its increase and the time that it took, or a second where it took none.
pub proof fn law_rate_holds_its_increase_and_time(increase: u64, elapsed: u128)
    ensures
        rate_over(increase, elapsed).increase == increase,
        elapsed > 0 ==> rate_over(increase, elapsed).elapsed == elapsed,
        rate_over(increase, 0).elapsed == 1_000_000_000,
        each_second(increase) == rate_over(increase, 1_000_000_000),
{
}

/// In the same time, the rate of the smaller increase is less; for the same increase, that which
/// took longer is less. Otherwise rates are ordered like increases in the time of both together.
pub proof fn law_rates_are_ordered_by_increase_and_time(a: Rate, b: Rate)
    requires
        a.elapsed > 0,
        b.elapsed > 0,
    ensures
        a.elapsed == b.elapsed ==> (rate_less(a, b) <==> a.increase < b.increase),
        a.increase == b.increase > 0 ==> (rate_less(a, b) <==> a.elapsed > b.elapsed),
        rate_less(a, b) <==> (a.increase as int) * (b.elapsed as int) < (b.increase as int) * (
        a.elapsed as int),
        rate_less(a, b) ==> per_second(a) <= per_second(b),
{
    let (i, e, j, f) = (
        a.increase as int,
        a.elapsed as int,
        b.increase as int,
        b.elapsed as int,
    );
    assert(e == f ==> (i * f < j * e <==> i < j)) by (nonlinear_arith)
        requires
            e > 0,
            f > 0,
    ;
    assert(i == j && i > 0 ==> (i * f < j * e <==> e > f)) by (nonlinear_arith)
        requires
            e > 0,
            f > 0,
    ;
    if rate_less(a, b) {
        law_per_second_times_elapsed_is_the_increase(a);
        law_per_second_times_elapsed_is_the_increase(b);
        let (p, q) = (per_second(a), per_second(b));
        let s = SECOND as int;
        assert(p < q + 1) by (nonlinear_arith)
            requires
                i * f < j * e,
                p * e <= i * s,
                j * s < (q + 1) * f,
                s > 0,
                e > 0,
                f > 0,
        ;
    }
}

/// The rate of an increase.
pub fn rate_of(increase: u64, elapsed: u128) -> (rate: Rate)
    ensures
        rate == rate_over(increase, elapsed),
        rate.elapsed > 0,
{
    if elapsed > 0 {
        Rate { increase, elapsed }
    } else {
        Rate { increase, elapsed: SECOND }
    }
}

/// The whole number of a rate per second.
pub fn whole_per_second(rate: Rate) -> (count: u128)
    requires
        rate.elapsed > 0,
    ensures
        count == per_second(rate),
{
    rate.increase as u128 * SECOND / rate.elapsed
}

/// Two to the power of 64.
const LIMB: u128 = 0x1_0000_0000_0000_0000;

/// A product, as the number of whole limbs in it and what is left.
fn product(a: u64, b: u128) -> (limbs: (u128, u128))
    ensures
        limbs.0 * LIMB + limbs.1 == a * b,
        limbs.1 < LIMB,
{
    let high: u128 = b / LIMB;
    let low: u128 = b % LIMB;
    proof {
        assert(a * low <= 0xffff_ffff_ffff_ffff * 0xffff_ffff_ffff_ffff) by (nonlinear_arith)
            requires
                a <= 0xffff_ffff_ffff_ffff,
                low <= 0xffff_ffff_ffff_ffff,
        ;
        assert(a * high <= 0xffff_ffff_ffff_ffff * 0xffff_ffff_ffff_ffff) by (nonlinear_arith)
            requires
                a <= 0xffff_ffff_ffff_ffff,
                high <= 0xffff_ffff_ffff_ffff,
        ;
        assert(a * b == a * high * LIMB + a * low) by (nonlinear_arith)
            requires
                b == high * LIMB + low,
        ;
    }
    let tail: u128 = a as u128 * low;
    (a as u128 * high + tail / LIMB, tail % LIMB)
}

/// Tests whether one rate is less than another.
pub fn is_slower(a: Rate, b: Rate) -> (slower: bool)
    ensures
        slower == rate_less(a, b),
{
    let left = product(a.increase, b.elapsed);
    let right = product(b.increase, a.elapsed);
    left.0 < right.0 || (left.0 == right.0 && left.1 < right.1)
}

} // verus!
