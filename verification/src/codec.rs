//! Stored parameters and the numbers they stand for.
//!
//! A parameter is stored as a 32-bit integer, the parameter times 2^15. The
//! model computes in IEEE 754 single precision; this module handles such
//! numbers by their bit patterns alone.

use vstd::prelude::*;
use vstd::arithmetic::power2::{lemma2_to64, lemma_pow2_adds, lemma_pow2_unfold, pow2};

verus! {

/// 2^23: the leading one of a significand, which a bit pattern leaves out.
pub const HIDDEN_ONE: u32 = 0x80_0000;

/// 2^24: from here on a magnitude may have more significant bits than a
/// significand holds.
pub const SIGNIFICAND_LIMIT: u32 = 0x100_0000;

/// 2^31: the sign bit of a bit pattern.
pub const SIGN_BIT: u32 = 0x8000_0000;

/// The exponent field of the number 2^-15, the smallest magnitude that
/// decoding yields besides zero.
pub const LOWEST_EXPONENT: u32 = 112;

/// Bit pattern of positive infinity: the largest pattern that stands for a
/// positive number.
pub const MAX_POSITIVE_BITS: u32 = 0x7f80_0000;

/// Whether `bits` is the single-precision bit pattern of a positive number.
/// Zero is pattern 0; negative numbers and negative zero have the sign bit set;
/// the patterns above positive infinity are not numbers.
pub open spec fn is_positive(bits: u32) -> bool {
    0 < bits <= MAX_POSITIVE_BITS
}

/// The positive part of the number with bit pattern `bits`: the number itself
/// where it is positive, zero for anything else.
pub open spec fn positive_part_of(bits: u32) -> u32 {
    if is_positive(bits) {
        bits
    } else {
        0
    }
}

/// The positive part of a number, by bit patterns. It is the rectifier of the
/// hidden layer, and what the decoder compares probabilities by.
pub fn positive_part(bits: u32) -> (part: u32)
    ensures
        part == positive_part_of(bits),
{
    if 0 < bits && bits <= MAX_POSITIVE_BITS {
        bits
    } else {
        0
    }
}

/// Whether the single-precision bit pattern `bits` has its sign bit set.
pub open spec fn sign_of(bits: u32) -> bool {
    bits >= SIGN_BIT
}

/// The exponent field of the bit pattern `bits`.
pub open spec fn exponent_of(bits: u32) -> int {
    (bits as int / HIDDEN_ONE as int) % 0x100
}

/// The significand of the normal number with bit pattern `bits`, leading one
/// included: an integer from 2^23 up to, but not including, 2^24.
pub open spec fn significand_of(bits: u32) -> int {
    HIDDEN_ONE as int + bits as int % HIDDEN_ONE as int
}

/// 2^38 times the number that `bits` stands for, where `bits` is a zero or a
/// normal number of magnitude 2^-15 or more: such a number is its significand
/// times 2^(exponent - 150), negated where the sign bit is set.
pub open spec fn scaled_value(bits: u32) -> int
    recommends
        bits % SIGN_BIT == 0 || exponent_of(bits) >= LOWEST_EXPONENT,
{
    let magnitude = significand_of(bits) * pow2((exponent_of(bits) - LOWEST_EXPONENT) as nat);
    if bits % SIGN_BIT == 0 {
        0
    } else if sign_of(bits) {
        -magnitude
    } else {
        magnitude as int
    }
}

/// The distance between neighbouring single-precision numbers around the
/// integer `magnitude`, or 1 where every integer around it is such a number:
/// 2^(p - 23) for a magnitude of p + 1 > 24 bits.
pub open spec fn spacing(magnitude: nat) -> nat
    decreases magnitude,
{
    if magnitude < SIGNIFICAND_LIMIT {
        1
    } else {
        2 * spacing(magnitude / 2)
    }
}

/// The multiple of `unit` nearest to `magnitude`; of two equally near ones,
/// the even multiple.
pub open spec fn round_half_even(magnitude: nat, unit: nat) -> nat
    recommends
        unit > 0,
{
    let below = magnitude / unit;
    let rest = magnitude % unit;
    if 2 * rest > unit || (2 * rest == unit && below % 2 == 1) {
        (below + 1) * unit
    } else {
        below * unit
    }
}

/// The single-precision number nearest to the integer `magnitude`.
pub open spec fn rounded(magnitude: nat) -> nat {
    round_half_even(magnitude, spacing(magnitude))
}

/// The magnitude of a stored parameter.
pub open spec fn magnitude_of(raw: int) -> nat {
    if raw < 0 {
        (-raw) as nat
    } else {
        raw as nat
    }
}

/// The parameter stored as `raw`, times 2^15, as decoding yields it: `raw`
/// rounded to the nearest integer that has no more than 24 significant bits.
pub open spec fn rounded_parameter(raw: int) -> int {
    if raw < 0 {
        -(rounded((-raw) as nat) as int)
    } else {
        rounded(raw as nat) as int
    }
}

/// `bits` is the single-precision bit pattern of the parameter stored as `raw`:
/// of the number `raw / 2^15`, where `raw` is first rounded to the nearest
/// integer that has no more than 24 significant bits.
///
/// Positive zero stands for zero. Any other parameter is a normal number with
/// the sign of `raw`; that it is `rounded(|raw|) / 2^15` is stated with both
/// sides multiplied by 2^38.
pub open spec fn is_decoding(raw: int, bits: u32) -> bool {
    if raw == 0 {
        bits == 0
    } else {
        &&& sign_of(bits) == (raw < 0)
        &&& LOWEST_EXPONENT <= exponent_of(bits) <= LOWEST_EXPONENT + 31
        &&& significand_of(bits) * pow2((exponent_of(bits) - LOWEST_EXPONENT) as nat) == rounded(
            magnitude_of(raw),
        ) * pow2(23)
    }
}

/// Division with remainder by a positive unit.
proof fn lemma_quotient(magnitude: nat, unit: nat)
    requires
        unit > 0,
    ensures
        magnitude == (magnitude / unit) * unit + magnitude % unit,
        0 <= magnitude % unit < unit,
        (magnitude / unit + 1) * unit == (magnitude / unit) * unit + unit,
        0 <= magnitude / unit,
{
    assert(magnitude == (magnitude / unit) * unit + magnitude % unit && 0 <= magnitude % unit
        < unit && 0 <= magnitude / unit) by (nonlinear_arith)
        requires
            unit > 0,
            magnitude >= 0,
    ;
    assert((magnitude / unit + 1) * unit == (magnitude / unit) * unit + unit) by (nonlinear_arith);
}

/// The spacing is at least 1, and a magnitude lies in the binade of its
/// spacing: below 2^24 spacings, and from 2^23 spacings on where the spacing
/// is more than 1.
pub proof fn lemma_spacing_bounds(magnitude: nat)
    ensures
        spacing(magnitude) >= 1,
        magnitude < spacing(magnitude) * 0x100_0000,
        spacing(magnitude) > 1 ==> spacing(magnitude) * 0x80_0000 <= magnitude,
    decreases magnitude,
{
    if magnitude >= 0x100_0000 {
        lemma_spacing_bounds(magnitude / 2);
    }
}

/// Of two magnitudes, the larger has the same spacing as the smaller or at
/// least twice its spacing.
pub proof fn lemma_spacing_monotonic(smaller: nat, larger: nat)
    requires
        smaller <= larger,
    ensures
        spacing(smaller) == spacing(larger) || 2 * spacing(smaller) <= spacing(larger),
    decreases larger,
{
    lemma_spacing_bounds(larger);
    if larger >= 0x100_0000 && smaller >= 0x100_0000 {
        lemma_spacing_monotonic(smaller / 2, larger / 2);
    }
}

/// Rounding to a multiple of `unit` yields one of the two multiples around the
/// magnitude, no further from it than half a unit; where the magnitude lies
/// halfway between the two, it yields the even multiple.
pub proof fn lemma_round_half_even_is_nearest(magnitude: nat, unit: nat)
    requires
        unit > 0,
    ensures
        round_half_even(magnitude, unit) % unit == 0,
        (magnitude / unit) * unit <= round_half_even(magnitude, unit) <= (magnitude / unit) * unit
            + unit,
        2 * (round_half_even(magnitude, unit) - magnitude) <= unit,
        2 * (magnitude - round_half_even(magnitude, unit)) <= unit,
        2 * (round_half_even(magnitude, unit) - magnitude) == unit || 2 * (magnitude
            - round_half_even(magnitude, unit)) == unit ==> (round_half_even(magnitude, unit)
            / unit) % 2 == 0,
{
    lemma_quotient(magnitude, unit);
    vstd::arithmetic::div_mod::lemma_mod_multiples_basic((magnitude / unit) as int, unit as int);
    vstd::arithmetic::div_mod::lemma_mod_multiples_basic(
        (magnitude / unit + 1) as int,
        unit as int,
    );
    vstd::arithmetic::div_mod::lemma_div_multiples_vanish((magnitude / unit) as int, unit as int);
    vstd::arithmetic::div_mod::lemma_div_multiples_vanish(
        (magnitude / unit + 1) as int,
        unit as int,
    );
    assert((magnitude / unit) * unit == unit * (magnitude / unit)) by (nonlinear_arith);
    assert((magnitude / unit + 1) * unit == unit * (magnitude / unit + 1)) by (nonlinear_arith);
}

/// Rounding to a multiple of `unit` keeps the order of magnitudes.
pub proof fn lemma_round_half_even_monotonic(smaller: nat, larger: nat, unit: nat)
    requires
        unit > 0,
        smaller <= larger,
    ensures
        round_half_even(smaller, unit) <= round_half_even(larger, unit),
{
    lemma_quotient(smaller, unit);
    lemma_quotient(larger, unit);
    lemma_round_half_even_is_nearest(smaller, unit);
    lemma_round_half_even_is_nearest(larger, unit);
    vstd::arithmetic::div_mod::lemma_div_is_ordered(smaller as int, larger as int, unit as int);
    if smaller / unit < larger / unit {
        vstd::arithmetic::mul::lemma_mul_inequality(
            (smaller / unit + 1) as int,
            (larger / unit) as int,
            unit as int,
        );
    }
}

/// The nearest single-precision number is a multiple of the spacing and no
/// further from the magnitude than half the spacing; of two that are equally
/// near, it is the even multiple.
pub proof fn lemma_rounded_is_nearest(magnitude: nat)
    ensures
        rounded(magnitude) % spacing(magnitude) == 0,
        2 * (rounded(magnitude) - magnitude) <= spacing(magnitude),
        2 * (magnitude - rounded(magnitude)) <= spacing(magnitude),
        2 * (rounded(magnitude) - magnitude) == spacing(magnitude) || 2 * (magnitude - rounded(
            magnitude,
        )) == spacing(magnitude) ==> (rounded(magnitude) / spacing(magnitude)) % 2 == 0,
{
    lemma_spacing_bounds(magnitude);
    lemma_round_half_even_is_nearest(magnitude, spacing(magnitude));
}

/// An integer of no more than 24 significant bits is a single-precision number
/// itself: rounding leaves it as it is.
pub proof fn lemma_rounded_is_exact(magnitude: nat)
    requires
        magnitude <= 0x100_0000,
    ensures
        rounded(magnitude) == magnitude,
{
    if magnitude == 0x100_0000 {
        assert(spacing(0x80_0000) == 1);
        assert(spacing(magnitude) == 2);
        assert(round_half_even(0x100_0000, 2) == 0x100_0000);
    } else {
        assert(spacing(magnitude) == 1);
        assert(magnitude / 1 == magnitude && magnitude % 1 == 0);
        assert(round_half_even(magnitude, 1) == magnitude);
    }
}

/// A larger magnitude never rounds to a smaller number.
pub proof fn lemma_rounded_monotonic(smaller: nat, larger: nat)
    requires
        smaller <= larger,
    ensures
        rounded(smaller) <= rounded(larger),
{
    let unit_s = spacing(smaller);
    let unit_l = spacing(larger);
    lemma_spacing_bounds(smaller);
    lemma_spacing_bounds(larger);
    lemma_spacing_monotonic(smaller, larger);
    if unit_s == unit_l {
        lemma_round_half_even_monotonic(smaller, larger, unit_s);
    } else {
        // the smaller rounds to the end of its binade at most, the larger to the
        // start of its own at least
        lemma_round_half_even_is_nearest(smaller, unit_s);
        lemma_round_half_even_is_nearest(larger, unit_l);
        lemma_quotient(smaller, unit_s);
        lemma_quotient(larger, unit_l);
        assert((smaller / unit_s) * unit_s + unit_s <= unit_s * 0x100_0000) by (nonlinear_arith)
            requires
                (smaller / unit_s) * unit_s <= smaller < unit_s * 0x100_0000,
                unit_s > 0,
        ;
        assert((larger / unit_l) * unit_l >= unit_l * 0x80_0000) by (nonlinear_arith)
            requires
                larger == (larger / unit_l) * unit_l + larger % unit_l,
                0 <= larger % unit_l < unit_l,
                unit_l * 0x80_0000 <= larger,
        ;
    }
}

/// A larger parameter never decodes to a smaller number.
pub proof fn lemma_rounded_parameter_monotonic(smaller: int, larger: int)
    requires
        smaller <= larger,
    ensures
        rounded_parameter(smaller) <= rounded_parameter(larger),
{
    if larger < 0 {
        lemma_rounded_monotonic((-larger) as nat, (-smaller) as nat);
    } else if smaller >= 0 {
        lemma_rounded_monotonic(smaller as nat, larger as nat);
    }
}

/// What a bit pattern that decodes `raw` stands for: `rounded_parameter(raw)`
/// divided by 2^15, here with both sides multiplied by 2^38.
pub proof fn lemma_decoded_value(raw: int, bits: u32)
    requires
        is_decoding(raw, bits),
    ensures
        scaled_value(bits) == rounded_parameter(raw) * HIDDEN_ONE,
{
    lemma2_to64();
    if raw == 0 {
        lemma_rounded_is_exact(0);
    } else {
        assert(bits % SIGN_BIT != 0);
        let product = rounded(magnitude_of(raw)) * pow2(23);
        assert((-(rounded(magnitude_of(raw)) as int)) * HIDDEN_ONE == -(product as int))
            by (nonlinear_arith)
            requires
                product == rounded(magnitude_of(raw)) * pow2(23),
                pow2(23) == HIDDEN_ONE,
        ;
    }
}

/// Decoding is a function of the stored parameter: no parameter has two
/// decodings.
pub proof fn lemma_decoding_unique(raw: int, a: u32, b: u32)
    requires
        is_decoding(raw, a),
        is_decoding(raw, b),
    ensures
        a == b,
{
    if raw != 0 {
        let ka = (exponent_of(a) - LOWEST_EXPONENT) as nat;
        let kb = (exponent_of(b) - LOWEST_EXPONENT) as nat;
        lemma_scale_determines_exponent(significand_of(a), ka, significand_of(b), kb);
        lemma_scale_determines_exponent(significand_of(b), kb, significand_of(a), ka);
        vstd::arithmetic::power2::lemma_pow2_pos(ka);
        vstd::arithmetic::mul::lemma_mul_equality_converse(
            pow2(ka) as int,
            significand_of(a),
            significand_of(b),
        );
        assert(significand_of(a) * pow2(ka) == pow2(ka) * significand_of(a)) by (nonlinear_arith);
        assert(significand_of(b) * pow2(ka) == pow2(ka) * significand_of(b)) by (nonlinear_arith);
    }
}

/// Two normal significands scaled to the same product are scaled alike: the
/// first is not scaled by less than the second.
proof fn lemma_scale_determines_exponent(sa: int, ka: nat, sb: int, kb: nat)
    requires
        0x80_0000 <= sa < 0x100_0000,
        0x80_0000 <= sb < 0x100_0000,
        sa * pow2(ka) == sb * pow2(kb),
    ensures
        ka >= kb,
{
    if ka < kb {
        lemma_pow2_unfold(ka + 1);
        if ka + 1 < kb {
            vstd::arithmetic::power2::lemma_pow2_strictly_increases(ka + 1, kb);
        }
        let pa = pow2(ka);
        let pb = pow2(kb);
        vstd::arithmetic::power2::lemma_pow2_pos(ka);
        assert(sa * pa < sb * pb) by (nonlinear_arith)
            requires
                0x80_0000 <= sa < 0x100_0000,
                0x80_0000 <= sb < 0x100_0000,
                pa > 0,
                pb >= 2 * pa,
        ;
    }
}

/// A larger parameter never decodes to a smaller number: decoding is monotonic.
pub proof fn lemma_decoding_monotonic(smaller: int, larger: int, a: u32, b: u32)
    requires
        smaller <= larger,
        is_decoding(smaller, a),
        is_decoding(larger, b),
    ensures
        scaled_value(a) <= scaled_value(b),
{
    lemma_decoded_value(smaller, a);
    lemma_decoded_value(larger, b);
    lemma_rounded_parameter_monotonic(smaller, larger);
    assert(rounded_parameter(smaller) * HIDDEN_ONE <= rounded_parameter(larger) * HIDDEN_ONE)
        by (nonlinear_arith)
        requires
            rounded_parameter(smaller) <= rounded_parameter(larger),
    ;
}

/// A magnitude within one binade has the spacing of that binade.
pub proof fn lemma_spacing_of_binade(magnitude: nat, steps: nat)
    requires
        steps > 0 ==> pow2(steps) * HIDDEN_ONE <= magnitude,
        magnitude < pow2(steps) * SIGNIFICAND_LIMIT,
    ensures
        spacing(magnitude) == pow2(steps),
    decreases steps,
{
    lemma2_to64();
    if steps > 0 {
        lemma_pow2_unfold(steps);
        if steps > 1 {
            lemma_pow2_unfold((steps - 1) as nat);
        }
        lemma_spacing_of_binade(magnitude / 2, (steps - 1) as nat);
    }
}

/// Decodes a stored parameter: the single-precision bit pattern of
/// `raw / 32768`, rounded as a conversion of `raw` to single precision rounds.
pub fn decode(raw: i32) -> (bits: u32)
    ensures
        is_decoding(raw as int, bits),
        scaled_value(bits) == rounded_parameter(raw as int) * HIDDEN_ONE,
{
    if raw == 0 {
        return 0;
    }
    let negative = raw < 0;
    let magnitude: u64 = if negative {
        (-(raw as i64)) as u64
    } else {
        raw as u64
    };
    let mut exponent: u32 = LOWEST_EXPONENT + 23;
    let mut significand: u64 = magnitude;
    proof {
        lemma2_to64();
    }
    if magnitude < SIGNIFICAND_LIMIT as u64 {
        let ghost mut shift: nat = 0;
        while significand < HIDDEN_ONE as u64
            invariant
                1 <= significand < SIGNIFICAND_LIMIT,
                shift <= 23,
                exponent + shift == LOWEST_EXPONENT + 23,
                significand == magnitude * pow2(shift),
                significand >= pow2(shift),
            decreases 23 - shift,
        {
            proof {
                lemma2_to64();
                lemma_pow2_unfold(shift + 1);
                assert(magnitude * (2 * pow2(shift)) == 2 * (magnitude * pow2(shift)))
                    by (nonlinear_arith);
                shift = shift + 1;
            }
            significand = significand * 2;
            exponent = exponent - 1;
        }
        proof {
            lemma_pow2_adds(shift, (23 - shift) as nat);
            assert(magnitude * pow2(shift) * pow2((23 - shift) as nat) == magnitude * (pow2(shift)
                * pow2((23 - shift) as nat))) by (nonlinear_arith);
            assert(spacing(magnitude as nat) == 1);
            assert(rounded(magnitude as nat) == magnitude);
        }
    } else {
        let mut unit: u64 = 1;
        let ghost mut steps: nat = 0;
        while magnitude >= unit * 0x100_0000
            invariant
                1 <= unit <= 256,
                unit == pow2(steps),
                steps <= 8,
                exponent == LOWEST_EXPONENT + 23 + steps,
                unit * 0x80_0000 <= magnitude <= 0x8000_0000,
            decreases 256 - unit,
        {
            proof {
                lemma_pow2_unfold(steps + 1);
                steps = steps + 1;
                lemma2_to64();
            }
            unit = unit * 2;
            exponent = exponent + 1;
        }
        let below = magnitude / unit;
        let rest = magnitude % unit;
        proof {
            lemma_spacing_of_binade(magnitude as nat, steps);
            assert(magnitude == below * unit + rest && below * unit <= magnitude) by (nonlinear_arith)
                requires
                    below == magnitude / unit,
                    rest == magnitude % unit,
                    unit > 0,
            ;
            assert(HIDDEN_ONE <= below < SIGNIFICAND_LIMIT) by (nonlinear_arith)
                requires
                    unit * HIDDEN_ONE <= magnitude < unit * SIGNIFICAND_LIMIT,
                    below == magnitude / unit,
                    unit > 0,
            ;
        }
        significand = if 2 * rest > unit || (2 * rest == unit && below % 2 == 1) {
            below + 1
        } else {
            below
        };
        assert(significand * unit == rounded(magnitude as nat));
        if significand == SIGNIFICAND_LIMIT as u64 {
            proof {
                assert(unit <= 128) by (nonlinear_arith)
                    requires
                        below * unit <= magnitude <= SIGN_BIT,
                        below + 1 == SIGNIFICAND_LIMIT,
                        1 <= unit <= 256,
                ;
                lemma_pow2_unfold(steps + 1);
                assert(SIGNIFICAND_LIMIT * unit == HIDDEN_ONE * (2 * unit)) by (nonlinear_arith);
                steps = steps + 1;
            }
            significand = HIDDEN_ONE as u64;
            exponent = exponent + 1;
        }
        proof {
            lemma_pow2_adds(steps, 23);
            assert(significand * (pow2(steps) * pow2(23)) == (significand * pow2(steps)) * pow2(23))
                by (nonlinear_arith);
        }
    }
    let sign_bit: u32 = if negative {
        SIGN_BIT
    } else {
        0
    };
    let bits: u32 = sign_bit + exponent * HIDDEN_ONE + (significand as u32 - HIDDEN_ONE);
    proof {
        assert(exponent_of(bits) == exponent);
        assert(significand_of(bits) == significand);
        lemma_decoded_value(raw as int, bits);
    }
    bits
}

} // verus!
