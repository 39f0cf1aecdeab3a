//! From an integer to the bits of the number that stands for it.

use vstd::prelude::*;
use vstd::arithmetic::div_mod::{lemma_div_denominator, lemma_fundamental_div_mod};
use vstd::arithmetic::power2::{
    lemma2_to64, lemma2_to64_rest, lemma_pow2_pos, lemma_pow2_strictly_increases,
    lemma_pow2_unfold, pow2,
};
use crate::constant::{exponent_field, fraction_field, is_zero, number_is_zero, NUMBER_ZERO};

verus! {

/// Two to the fifty-second: the weight of the bit that a number's fraction leaves out.
pub const HIDDEN_BIT: u64 = 0x10_0000_0000_0000;

/// What is added to a power of two to give the exponent field.
pub const EXPONENT_BIAS: u64 = 1023;

/// The power of two that `n` begins with: the `e` with `2^e <= n < 2^(e + 1)`.
pub open spec fn floor_log2(n: nat) -> nat
    decreases n,
{
    if n < 2 {
        0
    } else {
        floor_log2(n / 2) + 1
    }
}

/// `n` in units of `unit`, rounded to the nearest, and to the even one of two that are as near.
pub open spec fn round_half_even(n: nat, unit: nat) -> nat {
    let quotient = n / unit;
    let remainder = n % unit;
    if 2 * remainder > unit || (2 * remainder == unit && quotient % 2 == 1) {
        quotient + 1
    } else {
        quotient
    }
}

/// The fifty-three leading bits of `n`: `n` scaled by a power of two into
/// `2^52 ..= 2^53`, exactly where `n` has no more bits than that, else rounded.
pub open spec fn significand_of(n: nat) -> nat {
    let exponent = floor_log2(n);
    if exponent <= 52 {
        n * pow2((52 - exponent) as nat)
    } else {
        round_half_even(n, pow2((exponent - 52) as nat))
    }
}

/// The bits of the number nearest to the integer `n`.
pub open spec fn number_of_integer(n: nat) -> u64 {
    if n == 0 {
        NUMBER_ZERO
    } else {
        ((EXPONENT_BIAS + floor_log2(n)) * HIDDEN_BIT + (significand_of(n) - HIDDEN_BIT)) as u64
    }
}

/// What lies between two neighbouring powers of two begins with the lower one.
pub proof fn lemma_floor_log2_between(n: nat, exponent: nat)
    requires
        pow2(exponent) <= n < pow2(exponent + 1),
    ensures
        floor_log2(n) == exponent,
    decreases exponent,
{
    lemma2_to64();
    if exponent == 0 {
    } else {
        lemma_pow2_unfold(exponent);
        lemma_pow2_unfold(exponent + 1);
        lemma_floor_log2_between(n / 2, (exponent - 1) as nat);
    }
}

/// The bits of the number nearest to `n`.
pub fn number_from_integer(n: u64) -> (bits: u64)
    ensures
        bits == number_of_integer(n as nat),
{
    if n == 0 {
        return NUMBER_ZERO;
    }
    proof {
        lemma2_to64();
        lemma2_to64_rest();
    }
    let mut exponent: u64 = 52;
    let mut significand: u64 = n;
    if n < HIDDEN_BIT {
        assert(n * pow2(0) == n) by (nonlinear_arith)
            requires
                pow2(0) == 1,
        ;
        while significand < HIDDEN_BIT
            invariant
                0 < significand < 2 * HIDDEN_BIT,
                exponent <= 52,
                n < HIDDEN_BIT,
                significand == n * pow2((52 - exponent) as nat),
                floor_log2(significand as nat) == floor_log2(n as nat) + (52 - exponent),
                significand >= pow2((52 - exponent) as nat),
            decreases 2 * HIDDEN_BIT - significand,
        {
            proof {
                lemma2_to64_rest();
                let shift = (52 - exponent) as nat;
                lemma_pow2_unfold(shift + 1);
                assert(2 * (n * pow2(shift)) == n * (2 * pow2(shift))) by (nonlinear_arith);
                if exponent == 0 {
                    // the scale would be two to the fifty-second, and `n` is not zero
                }
            }
            significand = significand * 2;
            exponent = exponent - 1;
        }
        proof {
            lemma_floor_log2_between(significand as nat, 52);
            assert(significand == significand_of(n as nat));
        }
    } else {
        let mut unit: u64 = 1;
        while significand >= 2 * HIDDEN_BIT
            invariant
                HIDDEN_BIT <= significand,
                52 <= exponent <= 63,
                1 <= unit,
                unit == pow2((exponent - 52) as nat),
                significand == n / unit,
                significand * unit <= n,
                floor_log2(n as nat) == floor_log2(significand as nat) + (exponent - 52),
            decreases significand,
        {
            proof {
                lemma2_to64();
                lemma2_to64_rest();
                let shift = (exponent - 52) as nat;
                lemma_pow2_unfold(shift + 1);
                lemma_div_denominator(n as int, unit as int, 2);
                assert(unit < 0x800) by (nonlinear_arith)
                    requires
                        significand * unit <= n,
                        significand >= 0x20_0000_0000_0000,
                        n < 0x1_0000_0000_0000_0000,
                ;
                if exponent >= 63 {
                    vstd::arithmetic::power2::lemma_pow2_strictly_increases(10, shift);
                }
                assert((significand / 2) * (unit * 2) <= significand * unit) by (nonlinear_arith);
            }
            significand = significand / 2;
            unit = unit * 2;
            exponent = exponent + 1;
        }
        proof {
            lemma_floor_log2_between(significand as nat, 52);
        }
        let remainder = n % unit;
        if remainder > unit - remainder || (remainder == unit - remainder && significand % 2 == 1) {
            significand = significand + 1;
        }
        assert(exponent == 52 ==> significand == n * pow2(0)) by (nonlinear_arith)
            requires
                exponent == 52 ==> significand == n && pow2(0) == 1,
        ;
        assert(significand == significand_of(n as nat));
    }
    (EXPONENT_BIAS + exponent) * HIDDEN_BIT + (significand - HIDDEN_BIT)
}

/// The integer that the bits stand for, where they stand for one that is not
/// negative and below two to the sixty-fourth. A zero of either sign stands for zero.
pub open spec fn integer_of_number(bits: u64) -> Option<nat> {
    let exponent = exponent_field(bits);
    let significand = (HIDDEN_BIT + fraction_field(bits)) as nat;
    if is_zero(bits) {
        Some(0)
    } else if bits >= 0x8000_0000_0000_0000 || exponent < EXPONENT_BIAS || exponent
        > EXPONENT_BIAS + 63 {
        None
    } else if exponent >= EXPONENT_BIAS + 52 {
        Some(significand * pow2((exponent - EXPONENT_BIAS - 52) as nat))
    } else if significand % pow2((EXPONENT_BIAS + 52 - exponent) as nat) == 0 {
        Some(significand / pow2((EXPONENT_BIAS + 52 - exponent) as nat))
    } else {
        None
    }
}

fn power_of_two(exponent: u64) -> (power: u64)
    requires
        exponent <= 52,
    ensures
        power == pow2(exponent as nat),
        1 <= power <= HIDDEN_BIT,
{
    proof {
        lemma2_to64();
        lemma2_to64_rest();
    }
    let mut power: u64 = 1;
    let mut done: u64 = 0;
    while done < exponent
        invariant
            done <= exponent <= 52,
            power == pow2(done as nat),
            1 <= power <= pow2(52),
            pow2(52) == HIDDEN_BIT,
        decreases exponent - done,
    {
        proof {
            lemma_pow2_unfold((done + 1) as nat);
            if done + 1 < 52 {
                lemma_pow2_strictly_increases((done + 1) as nat, 52);
            }
        }
        power = power * 2;
        done = done + 1;
    }
    power
}

/// The integer that the bits of a number stand for, if they stand for one.
pub fn number_as_integer(bits: u64) -> (integer: Option<u64>)
    ensures
        match integer {
            Some(integer) => integer_of_number(bits) == Some(integer as nat),
            None => integer_of_number(bits) is None,
        },
{
    if number_is_zero(bits) {
        return Some(0);
    }
    let exponent: u64 = (bits >> 52) & 0x7FF;
    let fraction: u64 = bits & 0xF_FFFF_FFFF_FFFF;
    assert(exponent == (bits / 0x10_0000_0000_0000) % 0x800 && fraction == bits
        % 0x10_0000_0000_0000) by (bit_vector)
        requires
            exponent == (bits >> 52) & 0x7FF,
            fraction == bits & 0xF_FFFF_FFFF_FFFF,
    ;
    if bits >= 0x8000_0000_0000_0000 || exponent < EXPONENT_BIAS || exponent > EXPONENT_BIAS + 63 {
        return None;
    }
    let significand: u64 = HIDDEN_BIT + fraction;
    if exponent >= EXPONENT_BIAS + 52 {
        let up = power_of_two(exponent - EXPONENT_BIAS - 52);
        proof {
            lemma2_to64();
            if exponent - EXPONENT_BIAS - 52 < 11 {
                lemma_pow2_strictly_increases((exponent - EXPONENT_BIAS - 52) as nat, 11);
            }
            assert(significand * up < 0x1_0000_0000_0000_0000) by (nonlinear_arith)
                requires
                    significand < 0x20_0000_0000_0000,
                    up <= 0x800,
            ;
        }
        Some(significand * up)
    } else {
        let down = power_of_two(EXPONENT_BIAS + 52 - exponent);
        if significand % down == 0 {
            Some(significand / down)
        } else {
            None
        }
    }
}

/// An integer below two to the fifty-third is a number exactly: the bits of
/// the number nearest to it stand for it.
pub proof fn lemma_integer_round_trip(n: nat)
    requires
        n < 2 * HIDDEN_BIT,
    ensures
        integer_of_number(number_of_integer(n)) == Some(n),
{
    lemma2_to64();
    lemma2_to64_rest();
    if n > 0 {
        let exponent = floor_log2(n);
        lemma_floor_log2_bounds(n);
        if exponent > 52 {
            lemma_pow2_strictly_increases(53, exponent);
        }
        let shift = (52 - exponent) as nat;
        let unit = pow2(shift);
        lemma_pow2_pos(shift);
        vstd::arithmetic::power2::lemma_pow2_adds(exponent, shift);
        vstd::arithmetic::power2::lemma_pow2_adds(exponent + 1, shift);
        let significand = n * unit;
        assert(HIDDEN_BIT <= significand < 2 * HIDDEN_BIT) by (nonlinear_arith)
            requires
                significand == n * unit,
                pow2(exponent) <= n < pow2(exponent + 1),
                pow2(exponent) * unit == HIDDEN_BIT,
                pow2(exponent + 1) * unit == 2 * HIDDEN_BIT,
                unit > 0,
        ;
        let fraction = significand - HIDDEN_BIT;
        let bits = number_of_integer(n);
        assert(bits as int / 0x10_0000_0000_0000 == EXPONENT_BIAS + exponent && bits as int
            % 0x10_0000_0000_0000 == fraction) by {
            vstd::arithmetic::div_mod::lemma_fundamental_div_mod_converse(
                bits as int,
                0x10_0000_0000_0000,
                (EXPONENT_BIAS + exponent) as int,
                fraction as int,
            );
        }
        assert(exponent_field(bits) == EXPONENT_BIAS + exponent);
        vstd::arithmetic::div_mod::lemma_div_multiples_vanish(n as int, unit as int);
        vstd::arithmetic::div_mod::lemma_mod_multiples_basic(n as int, unit as int);
        if exponent == 52 {
            assert(n * 1 == n);
        }
    }
}

/// The integer that the number nearest to `n` stands for: `n` itself where it
/// has no more than fifty-three bits, else `n` rounded to a multiple of the
/// power of two that its fifty-third bit weighs.
pub open spec fn nearest_integer(n: nat) -> nat {
    let exponent = floor_log2(n);
    if exponent <= 52 {
        n
    } else {
        round_half_even(n, pow2((exponent - 52) as nat)) * pow2((exponent - 52) as nat)
    }
}

/// Rounding goes to the nearest multiple of the unit, and to the even one
/// where two are as near.
pub proof fn lemma_round_half_even_is_nearest(n: nat, unit: nat)
    requires
        unit > 0,
    ensures
        2 * (round_half_even(n, unit) * unit - n) <= unit,
        2 * (n - round_half_even(n, unit) * unit) <= unit,
        2 * (round_half_even(n, unit) * unit - n) == unit || 2 * (n - round_half_even(n, unit)
            * unit) == unit ==> round_half_even(n, unit) % 2 == 0,
{
    let quotient = n / unit;
    let remainder = n % unit;
    lemma_fundamental_div_mod(n as int, unit as int);
    assert(n == unit * quotient + remainder);
    assert((quotient + 1) * unit == quotient * unit + unit) by (nonlinear_arith);
    assert(quotient * unit == unit * quotient) by (nonlinear_arith);
}

/// An integer of more than fifty-three bits is rounded: the bits of the
/// number nearest to it stand for the nearest integer that a number can be.
pub proof fn lemma_large_integer_round_trip(n: nat)
    requires
        2 * HIDDEN_BIT <= n < 0x1_0000_0000_0000_0000,
        nearest_integer(n) < 0x1_0000_0000_0000_0000,
    ensures
        integer_of_number(number_of_integer(n)) == Some(nearest_integer(n)),
{
    lemma2_to64();
    lemma2_to64_rest();
    let exponent = floor_log2(n);
    lemma_floor_log2_bounds(n);
    // fifty-three bits at least, and sixty-four at most
    if exponent + 1 < 53 {
        lemma_pow2_strictly_increases(exponent + 1, 53);
    }
    if exponent > 63 {
        lemma_pow2_strictly_increases(64, exponent);
    }
    let shift = (exponent - 52) as nat;
    let unit = pow2(shift);
    lemma_pow2_pos(shift);
    vstd::arithmetic::power2::lemma_pow2_adds(52, shift);
    vstd::arithmetic::power2::lemma_pow2_adds(53, shift);
    let quotient = n / unit;
    let remainder = n % unit;
    lemma_fundamental_div_mod(n as int, unit as int);
    assert(HIDDEN_BIT <= quotient < 2 * HIDDEN_BIT) by (nonlinear_arith)
        requires
            n == unit * quotient + remainder,
            0 <= remainder < unit,
            HIDDEN_BIT * unit <= n < 2 * HIDDEN_BIT * unit,
            unit > 0,
    ;
    let significand = round_half_even(n, unit);
    let bits = number_of_integer(n);
    assert(bits == (EXPONENT_BIAS + exponent) * HIDDEN_BIT + (significand - HIDDEN_BIT));
    if significand < 2 * HIDDEN_BIT {
        let fraction = significand - HIDDEN_BIT;
        vstd::arithmetic::div_mod::lemma_fundamental_div_mod_converse(
            bits as int,
            0x10_0000_0000_0000,
            (EXPONENT_BIAS + exponent) as int,
            fraction as int,
        );
        assert(exponent_field(bits) == EXPONENT_BIAS + exponent);
        assert(fraction_field(bits) == fraction);
    } else {
        // the rounding carried into the exponent
        vstd::arithmetic::div_mod::lemma_fundamental_div_mod_converse(
            bits as int,
            0x10_0000_0000_0000,
            (EXPONENT_BIAS + exponent + 1) as int,
            0,
        );
        assert(exponent_field(bits) == EXPONENT_BIAS + exponent + 1);
        assert(fraction_field(bits) == 0);
        lemma_pow2_unfold(shift + 1);
        assert(HIDDEN_BIT * (2 * unit) == (2 * HIDDEN_BIT) * unit) by (nonlinear_arith);
        if exponent >= 63 {
            assert(significand * unit >= 0x1_0000_0000_0000_0000) by (nonlinear_arith)
                requires
                    significand == 2 * HIDDEN_BIT,
                    2 * HIDDEN_BIT * unit == pow2(exponent + 1),
                    pow2(exponent + 1) >= 0x1_0000_0000_0000_0000,
            ;
        }
    }
}

/// Every integer that is not zero lies between the power of two that it
/// begins with and the next.
pub proof fn lemma_floor_log2_bounds(n: nat)
    requires
        n > 0,
    ensures
        pow2(floor_log2(n)) <= n < pow2(floor_log2(n) + 1),
    decreases n,
{
    lemma2_to64();
    if n >= 2 {
        lemma_floor_log2_bounds(n / 2);
        lemma_pow2_unfold(floor_log2(n));
        lemma_pow2_unfold(floor_log2(n) + 1);
    }
}

} // verus!
