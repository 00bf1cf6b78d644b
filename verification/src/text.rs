//! Decimal numbers as text: how a [`Fixed`] value is read from bytes and
//! how it is written to them.
//!
//! A number is an optional sign, digits, and optionally a point followed by
//! digits, with at least one digit in all: `12`, `-0.5`, `+3.`, `.25`. There
//! is no exponent. Digits beyond the ninth decimal place are cut off, and a
//! number whose billionths do not fit into 128 bits is no value.

use vstd::prelude::*;
use vstd::slice::slice_subrange;
use crate::fixed::{lemma_pow10_add, lemma_pow10_positive, pow10, Fixed, ONE};
use crate::wide::size_of;

verus! {

/// The largest number before the point that is read digit by digit:
/// `2 * 10^29`. The billionths of a number above it do not fit into 128 bits.
pub const WHOLE_LIMIT: u128 = 200_000_000_000_000_000_000_000_000_000;

/// The byte `b` is a decimal digit.
pub open spec fn is_digit(b: u8) -> bool {
    48 <= b <= 57
}

/// The byte `b` is a blank: a space, a tab, a line feed, a vertical tab, a
/// form feed or a carriage return.
pub open spec fn is_blank(b: u8) -> bool {
    b == 32 || 9 <= b <= 13
}

/// Every byte of `s` is a decimal digit.
pub open spec fn all_digits(s: Seq<u8>) -> bool {
    forall|i: int| 0 <= i < s.len() ==> is_digit(#[trigger] s[i])
}

/// The number that the digits `s` spell.
pub open spec fn digits_value(s: Seq<u8>) -> nat
    decreases s.len(),
{
    if s.len() == 0 {
        0
    } else {
        digits_value(s.drop_last()) * 10 + (s.last() - 48) as nat
    }
}

/// How many digits stand at the start of `s`.
pub open spec fn digit_run(s: Seq<u8>) -> nat
    decreases s.len(),
{
    if s.len() > 0 && is_digit(s[0]) {
        1 + digit_run(s.skip(1))
    } else {
        0
    }
}

/// How many blanks stand at the start of `s`.
pub open spec fn leading_blanks(s: Seq<u8>) -> nat
    decreases s.len(),
{
    if s.len() > 0 && is_blank(s[0]) {
        1 + leading_blanks(s.skip(1))
    } else {
        0
    }
}

/// How many blanks stand at the end of `s`.
pub open spec fn trailing_blanks(s: Seq<u8>) -> nat
    decreases s.len(),
{
    if s.len() > 0 && is_blank(s.last()) {
        1 + trailing_blanks(s.drop_last())
    } else {
        0
    }
}

/// `s` without the blanks at its start and at its end.
pub open spec fn trimmed(s: Seq<u8>) -> Seq<u8> {
    let rest = s.skip(leading_blanks(s) as int);
    rest.take(rest.len() - trailing_blanks(rest))
}

/// The billionths that the digits `fraction` after the point stand for: the
/// first nine digits count.
pub open spec fn fraction_value(fraction: Seq<u8>) -> nat {
    let kept = if fraction.len() > 9 {
        fraction.take(9)
    } else {
        fraction
    };
    digits_value(kept) * pow10((9 - kept.len()) as nat)
}

/// The billionths that the digits `whole` before the point and `fraction`
/// after it stand for.
pub open spec fn billionths(whole: Seq<u8>, fraction: Seq<u8>) -> nat {
    digits_value(whole) * (ONE as nat) + fraction_value(fraction)
}

/// `text` without its sign.
pub open spec fn unsigned_part(text: Seq<u8>) -> Seq<u8> {
    if text.len() > 0 && (text[0] == 45 || text[0] == 43) {
        text.skip(1)
    } else {
        text
    }
}

/// The value that `text` spells, if it spells a number that fits.
pub open spec fn parse_decimal(text: Seq<u8>) -> Option<Fixed> {
    let negative = text.len() > 0 && text[0] == 45;
    let body = unsigned_part(text);
    let whole = body.take(digit_run(body) as int);
    let rest = body.skip(digit_run(body) as int);
    let pointed = rest.len() > 0 && rest[0] == 46;
    let fraction = if pointed {
        rest.skip(1)
    } else {
        rest
    };
    if !all_digits(fraction) || whole.len() + fraction.len() == 0 {
        None
    } else {
        let size = billionths(whole, fraction);
        let raw = if negative {
            -size
        } else {
            size as int
        };
        if i128::MIN <= raw <= i128::MAX {
            Some(Fixed { raw: raw as i128 })
        } else {
            None
        }
    }
}

proof fn lemma_digit_run(s: Seq<u8>, n: int)
    requires
        0 <= n <= s.len(),
        forall|i: int| 0 <= i < n ==> is_digit(#[trigger] s[i]),
        n == s.len() || !is_digit(s[n]),
    ensures
        digit_run(s) == n,
    decreases n,
{
    if n > 0 {
        let rest = s.skip(1);
        assert forall|i: int| 0 <= i < n - 1 implies is_digit(#[trigger] rest[i]) by {
            assert(rest[i] == s[i + 1]);
        }
        lemma_digit_run(rest, n - 1);
    }
}

proof fn lemma_leading_blanks(s: Seq<u8>, n: int)
    requires
        0 <= n <= s.len(),
        forall|i: int| 0 <= i < n ==> is_blank(#[trigger] s[i]),
        n == s.len() || !is_blank(s[n]),
    ensures
        leading_blanks(s) == n,
    decreases n,
{
    if n > 0 {
        let rest = s.skip(1);
        assert forall|i: int| 0 <= i < n - 1 implies is_blank(#[trigger] rest[i]) by {
            assert(rest[i] == s[i + 1]);
        }
        lemma_leading_blanks(rest, n - 1);
    }
}

proof fn lemma_trailing_blanks(s: Seq<u8>, n: int)
    requires
        0 <= n <= s.len(),
        forall|i: int| s.len() - n <= i < s.len() ==> is_blank(#[trigger] s[i]),
        n == s.len() || !is_blank(s[s.len() - n - 1]),
    ensures
        trailing_blanks(s) == n,
    decreases n,
{
    if n > 0 {
        let rest = s.drop_last();
        assert forall|i: int| rest.len() - (n - 1) <= i < rest.len() implies is_blank(
            #[trigger] rest[i],
        ) by {
            assert(rest[i] == s[i]);
        }
        lemma_trailing_blanks(rest, n - 1);
    }
}

/// The value of the first `n + 1` digits, from the value of the first `n`.
proof fn lemma_digits_value_step(s: Seq<u8>, n: int)
    requires
        0 <= n < s.len(),
    ensures
        digits_value(s.take(n + 1)) == digits_value(s.take(n)) * 10 + (s[n] - 48) as nat,
{
    assert(s.take(n + 1).drop_last() =~= s.take(n));
}

/// More digits spell no smaller a number.
proof fn lemma_digits_value_grows(s: Seq<u8>, n: int, m: int)
    requires
        0 <= n <= m <= s.len(),
        all_digits(s.take(m)),
    ensures
        digits_value(s.take(n)) <= digits_value(s.take(m)),
    decreases m - n,
{
    if n < m {
        lemma_digits_value_step(s, m - 1);
        assert(s.take(m)[m - 1] == s[m - 1]);
        assert(all_digits(s.take(m - 1))) by {
            assert forall|i: int| 0 <= i < s.take(m - 1).len() implies is_digit(
                #[trigger] s.take(m - 1)[i],
            ) by {
                assert(s.take(m - 1)[i] == s.take(m)[i]);
            }
        }
        lemma_digits_value_grows(s, n, m - 1);
    }
}

/// Reads the digits of `text` from `start` on, up to the first byte that is
/// no digit. Returns where they end and the number that they spell, or no
/// number when they spell more than [`WHOLE_LIMIT`].
fn read_whole(text: &[u8], start: usize) -> (r: (usize, Option<u128>))
    requires
        start <= text@.len(),
    ensures
        ({
            let body = text@.skip(start as int);
            let whole = body.take(digit_run(body) as int);
            match r.1 {
                Some(value) => r.0 == start + digit_run(body) && r.0 <= text@.len() && value
                    == digits_value(whole) && value <= WHOLE_LIMIT,
                None => digits_value(whole) > WHOLE_LIMIT,
            }
        }),
{
    let len = text.len();
    let ghost body = text@.skip(start as int);
    let mut i: usize = start;
    let mut whole: u128 = 0;
    while i < len && 48 <= text[i] && text[i] <= 57
        invariant
            start <= i <= len,
            len == text@.len(),
            body == text@.skip(start as int),
            forall|j: int| 0 <= j < i - start ==> is_digit(#[trigger] body[j]),
            whole == digits_value(body.take(i - start)),
            whole <= WHOLE_LIMIT,
        decreases len - i,
    {
        proof {
            lemma_digits_value_step(body, i - start);
            assert(body[i - start] == text@[i as int]);
        }
        whole = whole * 10 + (text[i] - 48) as u128;
        i = i + 1;
        if whole > WHOLE_LIMIT {
            proof {
                lemma_whole_too_large(body, i - start);
            }
            return (i, None);
        }
    }
    proof {
        if i < len {
            assert(body[i - start] == text@[i as int]);
        }
        lemma_digit_run(body, i - start);
    }
    (i, Some(whole))
}

/// Reads the digits of `text` from `start` to its end. Returns the
/// billionths that they stand for after a point, or nothing when a byte
/// among them is no digit.
fn read_fraction(text: &[u8], start: usize) -> (r: Option<u64>)
    requires
        start <= text@.len(),
    ensures
        ({
            let fraction = text@.skip(start as int);
            match r {
                Some(value) => all_digits(fraction) && value == fraction_value(fraction) && value
                    < 1_000_000_000,
                None => !all_digits(fraction),
            }
        }),
{
    let len = text.len();
    let ghost fraction = text@.skip(start as int);
    proof {
        lemma_pow10_chain(0);
    }
    let mut j: usize = start;
    let mut part: u64 = 0;
    let mut kept: usize = 0;
    while j < len
        invariant
            start <= j <= len,
            len == text@.len(),
            fraction == text@.skip(start as int),
            forall|k: int| 0 <= k < j - start ==> is_digit(#[trigger] fraction[k]),
            kept == if j - start > 9 {
                9int
            } else {
                j - start
            },
            part == digits_value(fraction.take(kept as int)),
            part < pow10(kept as nat),
            pow10(kept as nat) <= pow10(9),
            pow10(9) == 1_000_000_000,
        decreases len - j,
    {
        let b = text[j];
        proof {
            assert(fraction[j - start] == text@[j as int]);
        }
        if !(48 <= b && b <= 57) {
            return None;
        }
        if kept < 9 {
            proof {
                lemma_digits_value_step(fraction, kept as int);
                lemma_pow10_chain(kept as nat);
            }
            part = part * 10 + (b - 48) as u64;
            kept = kept + 1;
        }
        j = j + 1;
    }
    // Scale the digits that count up to nine places.
    let mut scaled: u64 = part;
    let mut places: usize = kept;
    proof {
        let unit = pow10(0);
        assert(part * unit == part);
    }
    while places < 9
        invariant
            kept <= places <= 9,
            scaled == part * pow10((places - kept) as nat),
            scaled < pow10(places as nat),
            pow10(places as nat) <= pow10(9),
            pow10(9) == 1_000_000_000,
        decreases 9 - places,
    {
        proof {
            lemma_pow10_chain(places as nat);
            assert(pow10((places + 1 - kept) as nat) == 10 * pow10((places - kept) as nat));
            assert(part * (10 * pow10((places - kept) as nat)) == (part * pow10(
                (places - kept) as nat,
            )) * 10) by (nonlinear_arith);
        }
        scaled = scaled * 10;
        places = places + 1;
    }
    proof {
        let counted = if fraction.len() > 9 {
            fraction.take(9)
        } else {
            fraction
        };
        assert(counted =~= fraction.take(kept as int));
    }
    Some(scaled)
}

/// Reads the number that `text` spells.
///
/// Returns `None` when `text` is not a number, or when the number does not
/// fit.
pub fn parse_decimal_text(text: &[u8]) -> (r: Option<Fixed>)
    ensures
        r == parse_decimal(text@),
{
    let len = text.len();
    let negative = len > 0 && text[0] == 45;
    let signed = len > 0 && (text[0] == 45 || text[0] == 43);
    let start: usize = if signed {
        1
    } else {
        0
    };
    let ghost body = text@.skip(start as int);
    proof {
        assert(text@.skip(0) =~= text@);
        assert(body == unsigned_part(text@));
    }
    let (end, whole) = read_whole(text, start);
    let whole = match whole {
        None => {
            proof {
                lemma_does_not_fit(text@);
            }
            return None;
        },
        Some(whole) => whole,
    };
    let pointed = end < len && text[end] == 46;
    let fraction_start: usize = if pointed {
        end + 1
    } else {
        end
    };
    let ghost rest = body.skip(end - start);
    let ghost fraction = text@.skip(fraction_start as int);
    proof {
        if end < len {
            assert(rest[0] == text@[end as int]);
        }
        if pointed {
            assert(rest.skip(1) =~= fraction);
        } else {
            assert(rest =~= fraction);
        }
    }
    let part = match read_fraction(text, fraction_start) {
        None => {
            return None;
        },
        Some(part) => part,
    };
    if (end - start) + (len - fraction_start) == 0 {
        return None;
    }
    let size: u128 = whole * 1_000_000_000 + (part as u128);
    assert(size == billionths(body.take(end - start), fraction));
    if negative {
        if size > 0x8000_0000_0000_0000_0000_0000_0000_0000 {
            None
        } else if size == 0x8000_0000_0000_0000_0000_0000_0000_0000 {
            Some(Fixed { raw: i128::MIN })
        } else {
            Some(Fixed { raw: -(size as i128) })
        }
    } else {
        if size > 0x7fff_ffff_ffff_ffff_ffff_ffff_ffff_ffff {
            None
        } else {
            Some(Fixed { raw: size as i128 })
        }
    }
}

/// One more power of ten is ten times the last, and the first nine are at
/// most a billion.
proof fn lemma_pow10_chain(n: nat)
    requires
        n < 9,
    ensures
        pow10(0) == 1,
        pow10(n + 1) == 10 * pow10(n),
        pow10(n) <= pow10(9),
        pow10(n + 1) <= pow10(9),
        pow10(9) == 1_000_000_000,
{
    reveal_with_fuel(pow10, 10);
    assert(pow10(9) == 1_000_000_000);
    if n == 0 {
    } else if n == 1 {
    } else if n == 2 {
    } else if n == 3 {
    } else if n == 4 {
    } else if n == 5 {
    } else if n == 6 {
    } else if n == 7 {
    } else {
        assert(n == 8);
    }
}

/// Digits before the point that begin with more than [`WHOLE_LIMIT`] spell
/// more than it.
proof fn lemma_whole_too_large(body: Seq<u8>, n: int)
    requires
        0 <= n <= body.len(),
        forall|j: int| 0 <= j < n ==> is_digit(#[trigger] body[j]),
        digits_value(body.take(n)) > WHOLE_LIMIT,
    ensures
        digits_value(body.take(digit_run(body) as int)) > WHOLE_LIMIT,
{
    lemma_digit_run_covers(body, n);
    lemma_digit_run_digits(body);
    lemma_digits_value_grows(body, n, digit_run(body) as int);
}

/// A number with more than [`WHOLE_LIMIT`] before the point does not fit.
proof fn lemma_does_not_fit(text: Seq<u8>)
    requires
        ({
            let body = unsigned_part(text);
            digits_value(body.take(digit_run(body) as int)) > WHOLE_LIMIT
        }),
    ensures
        parse_decimal(text) is None,
{
    let body = unsigned_part(text);
    let whole = body.take(digit_run(body) as int);
    assert(digits_value(whole) * (ONE as nat) >= (WHOLE_LIMIT + 1) * 1_000_000_000) by (nonlinear_arith)
        requires
            digits_value(whole) > WHOLE_LIMIT,
            ONE == 1_000_000_000,
    ;
}

/// Digits at the start of `s` are part of its run of digits.
proof fn lemma_digit_run_covers(s: Seq<u8>, n: int)
    requires
        0 <= n <= s.len(),
        forall|j: int| 0 <= j < n ==> is_digit(#[trigger] s[j]),
    ensures
        n <= digit_run(s) <= s.len(),
    decreases s.len(),
{
    if s.len() > 0 && is_digit(s[0]) {
        let rest = s.skip(1);
        if n > 0 {
            assert forall|j: int| 0 <= j < n - 1 implies is_digit(#[trigger] rest[j]) by {
                assert(rest[j] == s[j + 1]);
            }
            lemma_digit_run_covers(rest, n - 1);
        } else {
            lemma_digit_run_covers(rest, 0);
        }
    } else {
        if n > 0 {
            assert(is_digit(s[0]));
        }
    }
}

/// The run of digits at the start of `s` holds digits only.
proof fn lemma_digit_run_digits(s: Seq<u8>)
    ensures
        digit_run(s) <= s.len(),
        all_digits(s.take(digit_run(s) as int)),
    decreases s.len(),
{
    if s.len() > 0 && is_digit(s[0]) {
        let rest = s.skip(1);
        lemma_digit_run_digits(rest);
        let run = digit_run(s) as int;
        assert forall|i: int| 0 <= i < s.take(run).len() implies is_digit(#[trigger] s.take(run)[i]) by {
            if i > 0 {
                assert(s.take(run)[i] == rest.take(run - 1)[i - 1]);
            }
        }
    }
}

/// The byte of the decimal digit `d`.
pub open spec fn digit_byte(d: nat) -> u8 {
    (48 + d) as u8
}

/// The digits of `n`, without zeros in front; zero is the one digit `0`.
pub open spec fn decimal_digits(n: nat) -> Seq<u8>
    decreases n,
{
    if n < 10 {
        seq![digit_byte(n)]
    } else {
        decimal_digits(n / 10).push(digit_byte(n % 10))
    }
}

/// The digits after the point that spell `part`, a count of units of the
/// decimal place `places`, without zeros at the end.
pub open spec fn fraction_text(part: nat, places: nat) -> Seq<u8>
    decreases places,
{
    if part == 0 || places == 0 {
        Seq::empty()
    } else {
        seq![digit_byte(part / pow10((places - 1) as nat))] + fraction_text(
            part % pow10((places - 1) as nat),
            (places - 1) as nat,
        )
    }
}

/// How `value` is written: a minus sign if it is below zero, the digits
/// before the point, and, unless they are all zero, the point and the digits
/// after it up to the last that is not zero.
pub open spec fn rendered(value: Fixed) -> Seq<u8> {
    let size = (if value.raw < 0 {
        -value.raw
    } else {
        value.raw as int
    }) as nat;
    let whole = size / (ONE as nat);
    let part = size % (ONE as nat);
    let sign = if value.raw < 0 {
        seq![45u8]
    } else {
        Seq::<u8>::empty()
    };
    let tail = if part == 0 {
        Seq::<u8>::empty()
    } else {
        seq![46u8] + fraction_text(part, 9)
    };
    sign + decimal_digits(whole) + tail
}

/// Appends the digits of `n` to `out`.
fn push_digits(out: &mut Vec<u8>, n: u128)
    ensures
        final(out)@ == old(out)@ + decimal_digits(n as nat),
    decreases n,
{
    if n >= 10 {
        push_digits(out, n / 10);
    }
    let digit: u8 = (n % 10) as u8;
    out.push(48 + digit);
    proof {
        assert(final(out)@ =~= old(out)@ + decimal_digits(n as nat));
    }
}

/// Writes `value` as text.
pub fn render_decimal(value: Fixed) -> (r: Vec<u8>)
    ensures
        r@ == rendered(value),
{
    let mut out: Vec<u8> = Vec::new();
    let size: u128 = size_of(value.raw);
    if value.raw < 0 {
        out.push(45);
    }
    let whole: u128 = size / 1_000_000_000;
    let start: u64 = (size % 1_000_000_000) as u64;
    push_digits(&mut out, whole);
    if start != 0 {
        out.push(46);
        let ghost head = out@;
        let mut part: u64 = start;
        let mut places: usize = 9;
        let mut divisor: u64 = 100_000_000;
        proof {
            lemma_pow10_chain(8);
            lemma_pow10_values();
        }
        while part != 0
            invariant
                places <= 9,
                part < pow10(places as nat),
                places > 0 ==> divisor == pow10((places - 1) as nat),
                out@ + fraction_text(part as nat, places as nat) == head + fraction_text(
                    start as nat,
                    9,
                ),
            decreases places,
        {
            proof {
                lemma_pow10_values();
                assert(places > 0) by {
                    if places == 0 {
                        assert(pow10(0) == 1);
                    }
                }
                lemma_pow10_chain((places - 1) as nat);
                lemma_pow10_positive((places - 1) as nat);
                assert(part / divisor < 10) by (nonlinear_arith)
                    requires
                        part < 10 * divisor,
                        divisor > 0,
                ;
            }
            let digit: u8 = (part / divisor) as u8;
            let ghost before = out@;
            let ghost whole_part = part;
            out.push(48 + digit);
            part = part % divisor;
            places = places - 1;
            divisor = divisor / 10;
            proof {
                assert(before + fraction_text(whole_part as nat, (places + 1) as nat) =~= out@
                    + fraction_text(part as nat, places as nat));
                if places > 0 {
                    lemma_pow10_chain((places - 1) as nat);
                }
            }
        }
        proof {
            assert(out@ + fraction_text(0, places as nat) =~= out@);
        }
    }
    proof {
        assert(out@ =~= rendered(value));
    }
    out
}

/// The powers of ten up to the ninth.
proof fn lemma_pow10_values()
    ensures
        pow10(0) == 1,
        pow10(8) == 100_000_000,
        pow10(9) == 1_000_000_000,
{
    reveal_with_fuel(pow10, 10);
}

/// The part of `text` between the blanks at its start and at its end.
pub fn trim_blanks(text: &[u8]) -> (r: &[u8])
    ensures
        r@ == trimmed(text@),
{
    let len = text.len();
    let mut lo: usize = 0;
    while lo < len && (text[lo] == 32 || (9 <= text[lo] && text[lo] <= 13))
        invariant
            lo <= len,
            len == text@.len(),
            forall|i: int| 0 <= i < lo ==> is_blank(#[trigger] text@[i]),
        decreases len - lo,
    {
        lo = lo + 1;
    }
    proof {
        lemma_leading_blanks(text@, lo as int);
    }
    let ghost rest = text@.skip(lo as int);
    let mut hi: usize = len;
    while hi > lo && (text[hi - 1] == 32 || (9 <= text[hi - 1] && text[hi - 1] <= 13))
        invariant
            lo <= hi <= len,
            len == text@.len(),
            rest == text@.skip(lo as int),
            forall|i: int| hi - lo <= i < rest.len() ==> is_blank(#[trigger] rest[i]),
        decreases hi,
    {
        proof {
            assert(rest[hi - 1 - lo] == text@[hi - 1]);
        }
        hi = hi - 1;
    }
    proof {
        if hi > lo {
            assert(rest[hi - 1 - lo] == text@[hi - 1]);
        }
        lemma_trailing_blanks(rest, len - hi);
        assert(text@.subrange(lo as int, hi as int) =~= rest.take(rest.len() - (len - hi)));
    }
    slice_subrange(text, lo, hi)
}

/// The digits of a number are digits, at least one of them, and spell the
/// number.
pub proof fn lemma_decimal_digits(n: nat)
    ensures
        decimal_digits(n).len() >= 1,
        all_digits(decimal_digits(n)),
        digits_value(decimal_digits(n)) == n,
    decreases n,
{
    if n < 10 {
        let one = seq![digit_byte(n)];
        assert(one.drop_last() =~= Seq::<u8>::empty());
        assert(digits_value(one.drop_last()) == 0);
    } else {
        lemma_decimal_digits(n / 10);
        let front = decimal_digits(n / 10);
        let all = front.push(digit_byte(n % 10));
        assert(all.drop_last() =~= front);
        assert forall|i: int| 0 <= i < all.len() implies is_digit(#[trigger] all[i]) by {
            if i < front.len() {
                assert(all[i] == front[i]);
            }
        }
    }
}

/// A digit in front of `rest` adds its value at the place that the length
/// of `rest` gives it.
proof fn lemma_digits_value_prepend(digit: u8, rest: Seq<u8>)
    requires
        is_digit(digit),
    ensures
        digits_value(seq![digit] + rest) == (digit - 48) * pow10(rest.len()) + digits_value(rest),
    decreases rest.len(),
{
    let all = seq![digit] + rest;
    let worth = (digit - 48) as nat;
    if rest.len() == 0 {
        assert(all =~= seq![digit]);
        assert(all.drop_last() =~= Seq::<u8>::empty());
        assert(digits_value(all.drop_last()) == 0);
        assert(all.last() == digit);
        let unit = pow10(0);
        assert(unit == 1);
        assert(worth * unit == worth) by (nonlinear_arith)
            requires
                unit == 1,
        ;
        assert(digits_value(rest) == 0);
    } else {
        let shorter = rest.drop_last();
        lemma_digits_value_prepend(digit, shorter);
        assert(all.drop_last() =~= seq![digit] + shorter);
        assert(all.last() == rest.last());
        let below = pow10(shorter.len());
        assert(pow10(rest.len()) == 10 * below);
        assert((worth * below + digits_value(shorter)) * 10 == worth * (10 * below)
            + digits_value(shorter) * 10) by (nonlinear_arith);
    }
}

/// The digits after the point are digits, no more than `places` of them,
/// and stand for `part`.
pub proof fn lemma_fraction_text(part: nat, places: nat)
    requires
        part < pow10(places),
    ensures
        fraction_text(part, places).len() <= places,
        part > 0 ==> fraction_text(part, places).len() >= 1,
        all_digits(fraction_text(part, places)),
        digits_value(fraction_text(part, places)) * pow10(
            (places - fraction_text(part, places).len()) as nat,
        ) == part,
    decreases places,
{
    let text = fraction_text(part, places);
    if part == 0 || places == 0 {
        assert(pow10(0) == 1);
        assert(text =~= Seq::<u8>::empty());
        assert(digits_value(text) == 0);
        assert(0 * pow10(places) == 0);
    } else {
        let unit = pow10((places - 1) as nat);
        lemma_pow10_positive((places - 1) as nat);
        assert(pow10(places) == 10 * unit);
        let digit = part / unit;
        let left = part % unit;
        assert(digit < 10 && left < unit && digit * unit + left == part) by (nonlinear_arith)
            requires
                part < 10 * unit,
                unit > 0,
                digit == part / unit,
                left == part % unit,
        ;
        lemma_fraction_text(left, (places - 1) as nat);
        let rest = fraction_text(left, (places - 1) as nat);
        assert(text == seq![digit_byte(digit)] + rest);
        assert forall|i: int| 0 <= i < text.len() implies is_digit(#[trigger] text[i]) by {
            if i > 0 {
                assert(text[i] == rest[i - 1]);
            }
        }
        lemma_digits_value_prepend(digit_byte(digit), rest);
        let gap = (places - 1 - rest.len()) as nat;
        lemma_pow10_add(rest.len(), gap);
        assert(places - text.len() == gap);
        assert((digit * pow10(rest.len()) + digits_value(rest)) * pow10(gap) == digit * (pow10(
            rest.len(),
        ) * pow10(gap)) + digits_value(rest) * pow10(gap)) by (nonlinear_arith);
    }
}

/// What is written of a value holds a minus sign, digits and a point, and
/// nothing else.
pub proof fn lemma_rendered_bytes(value: Fixed)
    ensures
        forall|i: int|
            0 <= i < rendered(value).len() ==> {
                let b = #[trigger] rendered(value)[i];
                b == 45 || b == 46 || is_digit(b)
            },
{
    let size = (if value.raw < 0 {
        -value.raw
    } else {
        value.raw as int
    }) as nat;
    let whole = size / (ONE as nat);
    let part = size % (ONE as nat);
    lemma_decimal_digits(whole);
    lemma_pow10_values();
    lemma_fraction_text(part, 9);
    let sign = if value.raw < 0 {
        seq![45u8]
    } else {
        Seq::<u8>::empty()
    };
    let digits = decimal_digits(whole);
    let tail = if part == 0 {
        Seq::<u8>::empty()
    } else {
        seq![46u8] + fraction_text(part, 9)
    };
    assert forall|i: int| 0 <= i < rendered(value).len() implies {
        let b = #[trigger] rendered(value)[i];
        b == 45 || b == 46 || is_digit(b)
    } by {
        let text = sign + digits + tail;
        if i < sign.len() {
            assert(text[i] == sign[i]);
        } else if i < sign.len() + digits.len() {
            assert(text[i] == digits[i - sign.len()]);
        } else {
            let j = i - sign.len() - digits.len();
            assert(text[i] == tail[j]);
            if j > 0 {
                assert(tail[j] == fraction_text(part, 9)[j - 1]);
            }
        }
    }
}

/// What is written of a value reads back as that value.
pub proof fn lemma_rendered_reads_back(value: Fixed)
    ensures
        parse_decimal(rendered(value)) == Some(value),
{
    let size = (if value.raw < 0 {
        -value.raw
    } else {
        value.raw as int
    }) as nat;
    let whole = size / (ONE as nat);
    let part = size % (ONE as nat);
    lemma_decimal_digits(whole);
    lemma_pow10_values();
    lemma_fraction_text(part, 9);
    let sign = if value.raw < 0 {
        seq![45u8]
    } else {
        Seq::<u8>::empty()
    };
    let digits = decimal_digits(whole);
    let fraction = fraction_text(part, 9);
    let tail = if part == 0 {
        Seq::<u8>::empty()
    } else {
        seq![46u8] + fraction
    };
    let text = rendered(value);
    assert(text == sign + digits + tail);
    let body = digits + tail;
    assert(is_digit(digits[0]));
    if value.raw < 0 {
        assert(text[0] == 45);
        assert(text.skip(1) =~= body);
    } else {
        assert(text =~= body);
        assert(text[0] == digits[0]);
    }
    assert(unsigned_part(text) == body);
    assert forall|i: int| 0 <= i < digits.len() implies is_digit(#[trigger] body[i]) by {
        assert(body[i] == digits[i]);
    }
    if part != 0 {
        assert(body[digits.len() as int] == tail[0]);
    }
    lemma_digit_run(body, digits.len() as int);
    assert(body.take(digits.len() as int) =~= digits);
    assert(body.skip(digits.len() as int) =~= tail);
    if part != 0 {
        assert(tail.skip(1) =~= fraction);
    }
    let read = if part != 0 {
        fraction
    } else {
        tail
    };
    assert(all_digits(read));
    assert(fraction_value(read) == part) by {
        if part == 0 {
            assert(digits_value(read) == 0);
            assert(0 * pow10(9) == 0);
        }
    }
    assert(whole * (ONE as nat) + part == size) by (nonlinear_arith)
        requires
            whole == size / (ONE as nat),
            part == size % (ONE as nat),
            ONE == 1_000_000_000,
    ;
    assert(billionths(digits, read) == size);
}

} // verus!
