//! Fixed-point values with nine decimal places, and the decoding of scaled
//! decimal readings into them.
//!
//! Every price, yield and threshold of the oracle is a [`Fixed`]: an exact
//! count of billionths. A reading arrives as a mantissa and a scale and stands
//! for `mantissa * 10^(-scale)`; [`decode`] turns it into a `Fixed`, cutting
//! what lies beyond the ninth decimal place and refusing what does not fit
//! into 128 bits.

use vstd::prelude::*;
use vstd::arithmetic::div_mod::lemma_div_denominator;

verus! {

/// Number of decimal places that a [`Fixed`] value carries.
pub const FRACTION_DIGITS: i32 = 9;

/// The raw count that stands for the value one.
pub const ONE: i128 = 1_000_000_000;

/// Largest distance from zero that the scale of a reading may have.
pub const MAX_SCALE: i32 = 28;

/// A decimal number with nine places after the point, held as a count of
/// billionths.
///
/// The count has 128 bits, so that every reading of up to 96 bits and up to
/// [`MAX_SCALE`] decimal places has a value.
#[derive(Clone, Copy, Debug, PartialEq, Eq, Structural)]
pub struct Fixed {
    pub raw: i128,
}

/// Why a reading has no [`Fixed`] value.
#[derive(Clone, Copy, Debug, PartialEq, Eq, Structural)]
pub enum DecodeError {
    /// The scale is out of range, or the value is too large in magnitude.
    NonFinite,
}

/// Ten to the power `n`.
pub open spec fn pow10(n: nat) -> nat
    decreases n,
{
    if n == 0 {
        1
    } else {
        10 * pow10((n - 1) as nat)
    }
}

/// The quotient of `a` by a positive `d`, rounded toward zero.
pub open spec fn truncated_quotient(a: int, d: int) -> int {
    if a >= 0 {
        a / d
    } else {
        -((-a) / d)
    }
}

/// The number of billionths in `mantissa * 10^(-scale)`, rounded toward zero.
pub open spec fn scaled_value(mantissa: int, scale: int) -> int {
    if scale <= FRACTION_DIGITS {
        mantissa * pow10((FRACTION_DIGITS - scale) as nat)
    } else {
        truncated_quotient(mantissa, pow10((scale - FRACTION_DIGITS) as nat) as int)
    }
}

/// Whether the reading `mantissa * 10^(-scale)` has a [`Fixed`] value: its
/// scale is at most [`MAX_SCALE`] away from zero and its billionths fit.
pub open spec fn decodable(mantissa: int, scale: int) -> bool {
    &&& -MAX_SCALE <= scale <= MAX_SCALE
    &&& i128::MIN <= scaled_value(mantissa, scale) <= i128::MAX
}

/// What [`decode`] returns.
pub open spec fn decode_spec(mantissa: int, scale: int) -> Result<Fixed, DecodeError> {
    if decodable(mantissa, scale) {
        Ok(Fixed { raw: scaled_value(mantissa, scale) as i128 })
    } else {
        Err(DecodeError::NonFinite)
    }
}

impl Fixed {
    /// The value zero.
    pub fn zero() -> (r: Fixed)
        ensures
            r.raw == 0,
    {
        Fixed { raw: 0 }
    }

    /// The value that `raw` billionths stand for.
    pub fn from_raw(raw: i128) -> (r: Fixed)
        ensures
            r.raw == raw,
    {
        Fixed { raw }
    }
}

pub proof fn lemma_pow10_positive(n: nat)
    ensures
        pow10(n) >= 1,
    decreases n,
{
    if n > 0 {
        lemma_pow10_positive((n - 1) as nat);
    }
}

pub proof fn lemma_pow10_add(a: nat, b: nat)
    ensures
        pow10(a + b) == pow10(a) * pow10(b),
    decreases a,
{
    if a == 0 {
        assert(pow10(0) == 1);
        assert(pow10(a + b) == 1 * pow10(b));
    } else {
        lemma_pow10_add((a - 1) as nat, b);
        let rest = pow10((a - 1) as nat);
        assert(pow10(a + b) == 10 * pow10((a - 1 + b) as nat));
        assert(10 * (rest * pow10(b)) == (10 * rest) * pow10(b)) by (nonlinear_arith);
    }
}

/// Dividing by `d` and then by ten, each time toward zero, is dividing by
/// `d * 10` toward zero.
proof fn lemma_truncated_quotient_step(a: int, d: int)
    requires
        d > 0,
    ensures
        truncated_quotient(truncated_quotient(a, d), 10) == truncated_quotient(a, d * 10),
{
    if a >= 0 {
        lemma_div_denominator(a, d, 10);
        assert(a / d >= 0) by (nonlinear_arith)
            requires
                a >= 0,
                d > 0,
        ;
    } else {
        lemma_div_denominator(-a, d, 10);
        let q = (-a) / d;
        assert(q >= 0) by (nonlinear_arith)
            requires
                -a >= 0,
                d > 0,
                q == (-a) / d,
        ;
        if q == 0 {
            assert(truncated_quotient(0, 10) == 0);
        } else {
            assert(truncated_quotient(-q, 10) == -(q / 10));
        }
    }
}

/// A product that has left the range of `i128` stays outside it when it is
/// multiplied further by a power of ten.
proof fn lemma_scaling_keeps_outside(value: int, factor: nat)
    requires
        factor >= 1,
        value < i128::MIN || value > i128::MAX,
    ensures
        value * factor < i128::MIN || value * factor > i128::MAX,
{
    if value > i128::MAX {
        assert(value * factor >= value) by (nonlinear_arith)
            requires
                value > 0,
                factor >= 1,
        ;
    } else {
        assert(value * factor <= value) by (nonlinear_arith)
            requires
                value < 0,
                factor >= 1,
        ;
    }
}

/// The quotient toward zero is no further from zero than what was divided.
proof fn lemma_truncated_quotient_bound(a: int, d: int)
    requires
        d >= 1,
    ensures
        a >= 0 ==> 0 <= truncated_quotient(a, d) <= a,
        a <= 0 ==> a <= truncated_quotient(a, d) <= 0,
{
    let size = if a >= 0 {
        a
    } else {
        -a
    };
    assert(0 <= size / d <= size) by (nonlinear_arith)
        requires
            size >= 0,
            d >= 1,
    ;
}

/// Every reading of a feed has a value: a mantissa of up to 96 bits with up
/// to [`MAX_SCALE`] decimal places.
pub proof fn lemma_feed_reading_decodable(mantissa: int, scale: int)
    requires
        -0x1_0000_0000_0000_0000_0000_0000 < mantissa < 0x1_0000_0000_0000_0000_0000_0000,
        0 <= scale <= MAX_SCALE,
    ensures
        decodable(mantissa, scale),
{
    if scale <= FRACTION_DIGITS {
        let left = (FRACTION_DIGITS - scale) as nat;
        lemma_pow10_add(left, scale as nat);
        lemma_pow10_positive(left);
        lemma_pow10_positive(scale as nat);
        reveal_with_fuel(pow10, 10);
        assert(pow10(9) == 1_000_000_000);
        let factor = pow10(left);
        assert(factor <= 1_000_000_000) by (nonlinear_arith)
            requires
                factor * pow10(scale as nat) == 1_000_000_000,
                factor >= 1,
                pow10(scale as nat) >= 1,
        ;
        assert(-0x1_0000_0000_0000_0000_0000_0000 * 1_000_000_000 <= mantissa * factor
            <= 0x1_0000_0000_0000_0000_0000_0000 * 1_000_000_000) by (nonlinear_arith)
            requires
                -0x1_0000_0000_0000_0000_0000_0000 < mantissa < 0x1_0000_0000_0000_0000_0000_0000,
                1 <= factor <= 1_000_000_000,
        ;
    } else {
        let unit = pow10((scale - FRACTION_DIGITS) as nat);
        lemma_pow10_positive((scale - FRACTION_DIGITS) as nat);
        lemma_truncated_quotient_bound(mantissa, unit as int);
    }
}

/// Decodes the reading `mantissa * 10^(-scale)`.
///
/// The result is the number of billionths in the reading, rounded toward zero.
/// The reading is refused when its scale lies more than [`MAX_SCALE`] from
/// zero, or when its billionths do not fit into 128 bits, and then only.
/// No reading of a feed is refused: see [`lemma_feed_reading_decodable`].
pub fn decode(mantissa: i128, scale: i32) -> (r: Result<Fixed, DecodeError>)
    ensures
        r == decode_spec(mantissa as int, scale as int),
{
    if scale < -MAX_SCALE || scale > MAX_SCALE {
        return Err(DecodeError::NonFinite);
    }
    let mut value: i128 = mantissa;
    if scale <= FRACTION_DIGITS {
        let steps: i32 = FRACTION_DIGITS - scale;
        let mut done: i32 = 0;
        proof {
            let unit = pow10(0);
            assert(unit == 1);
            assert(mantissa * unit == mantissa);
        }
        while done < steps
            invariant
                0 <= done <= steps,
                steps == FRACTION_DIGITS - scale,
                -MAX_SCALE <= scale <= FRACTION_DIGITS,
                value == mantissa * pow10(done as nat),
            decreases steps - done,
        {
            proof {
                assert(mantissa * (10 * pow10(done as nat)) == (mantissa * pow10(done as nat))
                    * 10) by (nonlinear_arith);
            }
            match value.checked_mul(10) {
                None => {
                    proof {
                        let left = (steps - done - 1) as nat;
                        lemma_pow10_add((done + 1) as nat, left);
                        lemma_pow10_positive(left);
                        assert(mantissa * (pow10((done + 1) as nat) * pow10(left)) == (mantissa
                            * pow10((done + 1) as nat)) * pow10(left)) by (nonlinear_arith);
                        lemma_scaling_keeps_outside(value * 10, pow10(left));
                    }
                    return Err(DecodeError::NonFinite);
                },
                Some(next) => {
                    value = next;
                },
            }
            done = done + 1;
        }
    } else {
        let steps: i32 = scale - FRACTION_DIGITS;
        let mut done: i32 = 0;
        proof {
            assert(pow10(0) == 1);
        }
        while done < steps
            invariant
                0 <= done <= steps,
                steps == scale - FRACTION_DIGITS,
                FRACTION_DIGITS < scale <= MAX_SCALE,
                value == truncated_quotient(mantissa as int, pow10(done as nat) as int),
            decreases steps - done,
        {
            proof {
                lemma_pow10_positive(done as nat);
                lemma_truncated_quotient_step(mantissa as int, pow10(done as nat) as int);
                assert(pow10((done + 1) as nat) == pow10(done as nat) * 10);
            }
            value = value / 10;
            done = done + 1;
        }
    }
    Ok(Fixed { raw: value })
}

} // verus!
