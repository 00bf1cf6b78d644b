//! Products of two numbers of 128 bits, which need up to 256 bits, and the
//! order of two such products.

use vstd::prelude::*;

verus! {

/// Two to the power 64.
pub const LIMB: u128 = 0x1_0000_0000_0000_0000;

/// A number below two to the power 256, in two halves of 128 bits.
#[derive(Clone, Copy, Debug)]
pub struct Wide {
    pub high: u128,
    pub low: u128,
}

impl Wide {
    /// The number that the two halves stand for.
    pub open spec fn value(self) -> int {
        self.high * (u128::MAX + 1) + self.low
    }
}

/// The distance of `x` from zero.
pub open spec fn magnitude(x: int) -> int {
    if x >= 0 {
        x
    } else {
        -x
    }
}

/// The distance of `x` from zero.
pub fn size_of(x: i128) -> (r: u128)
    ensures
        r == magnitude(x as int),
{
    if x >= 0 {
        x as u128
    } else if x == i128::MIN {
        0x8000_0000_0000_0000_0000_0000_0000_0000
    } else {
        (-x) as u128
    }
}

/// The distance between `a` and `b`.
pub fn distance(a: i128, b: i128) -> (r: u128)
    ensures
        r == magnitude(a - b),
{
    let left = size_of(a);
    let right = size_of(b);
    if (a >= 0) != (b >= 0) {
        left + right
    } else if left >= right {
        left - right
    } else {
        right - left
    }
}

/// The product of two numbers below two to the power 64 is below two to
/// the power 128, with room to spare.
proof fn lemma_limb_product(x: int, y: int)
    requires
        0 <= x < LIMB,
        0 <= y < LIMB,
    ensures
        0 <= x * y <= (LIMB - 1) * (LIMB - 1),
        (LIMB - 1) * (LIMB - 1) == 0xffff_ffff_ffff_fffe_0000_0000_0000_0001,
{
    assert(0 <= x * y <= (LIMB - 1) * (LIMB - 1)) by (nonlinear_arith)
        requires
            0 <= x <= LIMB - 1,
            0 <= y <= LIMB - 1,
    ;
}

/// The product of two numbers in four parts, one for each pair of halves.
proof fn lemma_product_parts(a: int, a1: int, a0: int, b: int, b1: int, b0: int, limb: int)
    requires
        a == a1 * limb + a0,
        b == b1 * limb + b0,
    ensures
        a * b == (a1 * b1) * (limb * limb) + (a0 * b1) * limb + (a1 * b0) * limb + a0 * b0,
{
    let upper = a1 * limb;
    let other = b1 * limb;
    assert((upper + a0) * (other + b0) == upper * other + upper * b0 + a0 * other + a0 * b0)
        by (nonlinear_arith);
    assert(upper * other == (a1 * b1) * (limb * limb)) by (nonlinear_arith)
        requires
            upper == a1 * limb,
            other == b1 * limb,
    ;
    assert(upper * b0 == (a1 * b0) * limb) by (nonlinear_arith)
        requires
            upper == a1 * limb,
    ;
    assert(a0 * other == (a0 * b1) * limb) by (nonlinear_arith)
        requires
            other == b1 * limb,
    ;
}

/// The sum of the four parts, with what the middle ones carry over.
proof fn lemma_recombine(
    p11: int,
    h01: int,
    l01: int,
    h10: int,
    l10: int,
    h00: int,
    l00: int,
    hm: int,
    lm: int,
    limb: int,
)
    requires
        h00 + l01 + l10 == hm * limb + lm,
    ensures
        (p11 + h01 + h10 + hm) * (limb * limb) + (lm * limb + l00) == p11 * (limb * limb) + (h01
            * limb + l01) * limb + (h10 * limb + l10) * limb + (h00 * limb + l00),
{
    let square = limb * limb;
    assert((p11 + h01 + h10 + hm) * square == p11 * square + h01 * square + h10 * square + hm
        * square) by (nonlinear_arith);
    assert((h01 * limb + l01) * limb == h01 * square + l01 * limb) by (nonlinear_arith)
        requires
            square == limb * limb,
    ;
    assert((h10 * limb + l10) * limb == h10 * square + l10 * limb) by (nonlinear_arith)
        requires
            square == limb * limb,
    ;
    assert((hm * limb + lm) * limb == hm * square + lm * limb) by (nonlinear_arith)
        requires
            square == limb * limb,
    ;
    assert((h00 + l01 + l10) * limb == h00 * limb + l01 * limb + l10 * limb) by (nonlinear_arith);
}

/// The product of `a` and `b`.
pub fn wide_product(a: u128, b: u128) -> (r: Wide)
    ensures
        r.value() == a * b,
{
    let a1: u128 = a / LIMB;
    let a0: u128 = a % LIMB;
    let b1: u128 = b / LIMB;
    let b0: u128 = b % LIMB;
    proof {
        lemma_limb_product(a0 as int, b0 as int);
        lemma_limb_product(a0 as int, b1 as int);
        lemma_limb_product(a1 as int, b0 as int);
        lemma_limb_product(a1 as int, b1 as int);
        lemma_product_parts(
            a as int,
            a1 as int,
            a0 as int,
            b as int,
            b1 as int,
            b0 as int,
            LIMB as int,
        );
    }
    let p00: u128 = a0 * b0;
    let p01: u128 = a0 * b1;
    let p10: u128 = a1 * b0;
    let p11: u128 = a1 * b1;
    let mid: u128 = p00 / LIMB + p01 % LIMB + p10 % LIMB;
    let low: u128 = (mid % LIMB) * LIMB + p00 % LIMB;
    let high: u128 = p11 + p01 / LIMB + p10 / LIMB + mid / LIMB;
    proof {
        assert(LIMB * LIMB == u128::MAX + 1);
        assert(a * b == p11 * (u128::MAX + 1) + p01 * LIMB + p10 * LIMB + p00);
        let limb: int = 0x1_0000_0000_0000_0000;
        let h01 = p01 as int / limb;
        let l01 = p01 as int % limb;
        let h10 = p10 as int / limb;
        let l10 = p10 as int % limb;
        let h00 = p00 as int / limb;
        let l00 = p00 as int % limb;
        let hm = mid as int / limb;
        let lm = mid as int % limb;
        assert(p01 == h01 * limb + l01);
        assert(p10 == h10 * limb + l10);
        assert(p00 == h00 * limb + l00);
        assert(h00 + l01 + l10 == hm * limb + lm);
        assert(low == lm * limb + l00);
        assert(high == p11 + h01 + h10 + hm);
        lemma_recombine(p11 as int, h01, l01, h10, l10, h00, l00, hm, lm, limb);
    }
    Wide { high, low }
}

/// Whether `x` is above `y`.
pub fn wide_exceeds(x: Wide, y: Wide) -> (r: bool)
    ensures
        r == (x.value() > y.value()),
{
    x.high > y.high || (x.high == y.high && x.low > y.low)
}

} // verus!
