//! Fixed-point conventions and the two roundings every other module uses.

use vstd::arithmetic::div_mod::lemma_fundamental_div_mod_converse;
use vstd::prelude::*;

verus! {

/// The fixed-point value of 1.0: samples and phases carry 16 fractional bits.
pub const ONE: i32 = 0x1_0000;

/// The quotient `num / den` rounded toward zero, for a positive `den`.
pub open spec fn div_toward_zero(num: int, den: int) -> int
    recommends
        den > 0,
{
    if num >= 0 {
        num / den
    } else {
        -((-num) / den)
    }
}

/// A quotient rounded toward zero is no larger in magnitude than `bound`
/// whenever the numerator is no larger in magnitude than `bound * den`.
pub proof fn lemma_div_toward_zero_bounded(num: int, den: int, bound: int)
    requires
        den > 0,
        bound >= 0,
        -(bound * den) <= num <= bound * den,
    ensures
        -bound <= div_toward_zero(num, den) <= bound,
{
    let a = if num >= 0 { num } else { -num };
    assert(0 <= a / den <= bound) by (nonlinear_arith)
        requires
            den > 0,
            bound >= 0,
            0 <= a <= bound * den,
    ;
}

/// A numerator between two multiples of `den` gives a quotient between the
/// two factors: the rounding is monotonic and leaves exact quotients alone.
pub proof fn lemma_div_toward_zero_between(num: int, den: int, low: int, high: int)
    requires
        den > 0,
        low * den <= num <= high * den,
    ensures
        low <= div_toward_zero(num, den) <= high,
{
    let a = if num >= 0 { num } else { -num };
    let q = a / den;
    assert(q * den <= a < (q + 1) * den) by (nonlinear_arith)
        requires
            den > 0,
            a >= 0,
            q == a / den,
    ;
    if num >= 0 {
        assert(low <= q <= high) by (nonlinear_arith)
            requires
                den > 0,
                q * den <= num < (q + 1) * den,
                low * den <= num <= high * den,
                q >= 0,
        ;
    } else {
        assert(low <= -q <= high) by (nonlinear_arith)
            requires
                den > 0,
                q * den <= -num < (q + 1) * den,
                low * den <= num <= high * den,
                q >= 0,
                num < 0,
        ;
    }
}

/// Reduces `value` into `[0, period)`: the remainder that is never negative.
pub fn wrap(value: i64, period: i64) -> (wrapped: i64)
    requires
        period > 0,
    ensures
        wrapped == value % period,
        0 <= wrapped < period,
{
    let rem: i64 = value % period;
    if rem < 0 {
        proof {
            let back = (-value) % (period as int);
            let turns = (-value) / (period as int);
            assert(-value == turns * period + back) by (nonlinear_arith)
                requires
                    period > 0,
                    back == (-value) % (period as int),
                    turns == (-value) / (period as int),
            ;
            assert(value == (-turns - 1) * period + (period - back)) by (nonlinear_arith)
                requires
                    -value == turns * period + back,
            ;
            lemma_fundamental_div_mod_converse(
                value as int,
                period as int,
                -turns - 1,
                period - back,
            );
        }
        rem + period
    } else {
        proof {
            if value < 0 {
                let turns = (-value) / (period as int);
                assert(-value == turns * period) by (nonlinear_arith)
                    requires
                        period > 0,
                        (-value) % (period as int) == 0,
                        turns == (-value) / (period as int),
                ;
                assert(value == (-turns) * period + 0) by (nonlinear_arith)
                    requires
                        -value == turns * period,
                ;
                lemma_fundamental_div_mod_converse(value as int, period as int, -turns, 0);
            }
        }
        rem
    }
}

} // verus!
