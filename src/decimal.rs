use vstd::prelude::*;

use vstd::arithmetic::div_mod::{lemma_fundamental_div_mod, lemma_mod_bound};

verus! {

/// The largest magnitude of a decimal mantissa: 2^96 - 1.
pub const MAX_MANTISSA: i128 = 79228162514264337593543950335;

/// The largest scale of a decimal.
pub const MAX_SCALE: u32 = 28;

pub open spec fn pow10(n: nat) -> int
    decreases n,
{
    if n == 0 {
        1
    } else {
        10 * pow10((n - 1) as nat)
    }
}

pub open spec fn abs(x: int) -> int {
    if x < 0 {
        -x
    } else {
        x
    }
}

/// `m · 10^-d` rounded to an integer, halves away from zero.
pub open spec fn round_half_away(m: int, d: nat) -> int {
    let p = pow10(d);
    let a = abs(m);
    let q = a / p;
    let mag = if 2 * (a % p) >= p {
        q + 1
    } else {
        q
    };
    if m < 0 {
        -mag
    } else {
        mag
    }
}

/// What a decimal literal parses to: its mantissa and its scale.
pub uninterp spec fn decimal_literal(s: Seq<char>) -> Option<(int, int)>;

/// The mantissa at scale `DECIMAL_SCALE` of the decimal `m · 10^-s`: the
/// mantissa times the missing power of ten at a smaller scale, rounded halves
/// away from zero at a larger one.
pub open spec fn mantissa_at_scale_two(m: int, s: int) -> Option<int> {
    if s >= 2 {
        Some(round_half_away(m, (s - 2) as nat))
    } else {
        Some(m * pow10((2 - s) as nat))
    }
}

/// The mantissa at scale two of a decimal literal, or `None` where it is
/// malformed or out of range.
pub open spec fn decimal_text_mantissa(s: Seq<char>) -> Option<int> {
    match decimal_literal(s) {
        Some((m, sc)) => mantissa_at_scale_two(m, sc),
        None => None,
    }
}

proof fn lemma_pow10_positive(n: nat)
    ensures
        pow10(n) >= 1,
    decreases n,
{
    if n > 0 {
        lemma_pow10_positive((n - 1) as nat);
    }
}

/// Relies on rust_decimal's `Decimal::from_str`; `Decimal::mantissa` and
/// `Decimal::scale` read the result, whose mantissa stays within 96 bits and
/// whose scale is at most `Decimal::MAX_SCALE`.
#[verifier::external_body]
fn parse_decimal(s: &str) -> (r: Option<(i128, u32)>)
    ensures
        r is Some <==> decimal_literal(s@) is Some,
        r is Some ==> decimal_literal(s@) == Some((r->Some_0.0 as int, r->Some_0.1 as int)),
        r is Some ==> r->Some_0.1 <= MAX_SCALE && -MAX_MANTISSA <= r->Some_0.0 <= MAX_MANTISSA,
{
    match <rust_decimal::Decimal as std::str::FromStr>::from_str(s) {
        Ok(d) => Some((d.mantissa(), d.scale())),
        Err(_) => None,
    }
}

/// Relies on rust_decimal's `Decimal::rescale` (`Decimal::from_i128_with_scale`,
/// which panics out of range, builds the value; `mantissa` and `scale` read
/// it): lowering the scale rounds halves away from zero.
#[verifier::external_body]
fn rescale(mantissa: i128, scale: u32, new_scale: u32) -> (r: (i128, u32))
    requires
        scale <= MAX_SCALE,
        new_scale <= scale,
        -MAX_MANTISSA <= mantissa <= MAX_MANTISSA,
    ensures
        r.0 as int == round_half_away(mantissa as int, (scale - new_scale) as nat),
        r.1 == new_scale,
{
    let mut d = rust_decimal::Decimal::from_i128_with_scale(mantissa, scale);
    d.rescale(new_scale);
    (d.mantissa(), d.scale())
}

/// The mantissa at scale two of a decimal literal; `None` where the text is
/// not a decimal literal.
pub fn decimal_mantissa(s: &str) -> (r: Option<i128>)
    ensures
        r is Some <==> decimal_text_mantissa(s@) is Some,
        r is Some ==> r->Some_0 as int == decimal_text_mantissa(s@)->Some_0,
{
    let (m, sc) = match parse_decimal(s) {
        Some(p) => p,
        None => {
            return None;
        },
    };
    if sc >= 2 {
        let (rm, _) = rescale(m, sc, 2);
        Some(rm)
    } else if sc == 1 {
        proof {
            reveal_with_fuel(pow10, 2);
        }
        Some(m * 10)
    } else {
        proof {
            reveal_with_fuel(pow10, 3);
        }
        Some(m * 100)
    }
}

/// Rescaling to scale two: at a scale of two or less the mantissa is the
/// literal's mantissa times the missing power of ten, with no rounding; at a larger scale it is
/// the nearest integer to the exact value, with halves going away from zero.
pub proof fn lemma_rescale_to_two(m: int, s: int)
    requires
        0 <= s <= MAX_SCALE,
        abs(m) <= MAX_MANTISSA,
    ensures
        s <= 2 ==> mantissa_at_scale_two(m, s) == Some(m * pow10((2 - s) as nat)),
        s > 2 ==> ({
            let r = mantissa_at_scale_two(m, s)->Some_0;
            let p = pow10((s - 2) as nat);
            &&& mantissa_at_scale_two(m, s) is Some
            &&& 2 * abs(m) - p < 2 * abs(r) * p <= 2 * abs(m) + p
            &&& (m >= 0 ==> r >= 0)
            &&& (m <= 0 ==> r <= 0)
        }),
{
    if s > 2 {
        let d = (s - 2) as nat;
        let p = pow10(d);
        lemma_pow10_positive(d);
        let a = abs(m);
        lemma_fundamental_div_mod(a, p);
        lemma_mod_bound(a, p);
        let q = a / p;
        let rem = a % p;
        assert(a == p * q + rem);
        assert(q >= 0) by (nonlinear_arith)
            requires
                a >= 0,
                p >= 1,
                a == p * q + rem,
                0 <= rem < p,
        ;
        let r = round_half_away(m, d);
        if 2 * rem >= p {
            assert(abs(r) == q + 1);
            assert(2 * (q + 1) * p == 2 * (p * q) + 2 * p) by (nonlinear_arith);
        } else {
            assert(abs(r) == q);
            assert(2 * q * p == 2 * (p * q)) by (nonlinear_arith);
        }
    }
}

} // verus!
