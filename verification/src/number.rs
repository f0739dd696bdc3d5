use vstd::arithmetic::div_mod::{lemma_div_denominator, lemma_fundamental_div_mod};
use vstd::arithmetic::power2::{
    lemma2_to64, lemma_pow2_adds, lemma_pow2_pos, lemma_pow2_strictly_increases,
    lemma_pow2_subtracts, lemma_pow2_unfold, pow2,
};
use vstd::prelude::*;

verus! {

/// The bits of positive infinity.
pub const INFINITY: u32 = 0x7F80_0000;

/// Two to the power 23: the hidden bit of a significand.
pub const HIDDEN: u128 = 0x80_0000;

/// Whether a character is one of the ten decimal digits.
pub open spec fn is_digit(c: char) -> bool {
    '0' <= c <= '9'
}

/// The number that a sequence of decimal digits denotes.
pub open spec fn decimal_value(digits: Seq<char>) -> nat
    decreases digits.len(),
{
    if digits.len() == 0 {
        0
    } else {
        decimal_value(digits.drop_last()) * 10 + (digits.last() as nat - '0' as nat) as nat
    }
}

/// The exponent of the largest power of two that is not above `n`; 0 for 0.
pub open spec fn exponent_of(n: nat) -> nat
    decreases n,
{
    if n < 2 {
        0
    } else {
        1 + exponent_of(n / 2)
    }
}

/// The bits of the single-precision number `q * 2^(e - 23)`, for a
/// significand `q` from `2^23` up to `2^24` and an exponent `e` up to 127:
/// no sign, the exponent with its bias, and the significand without its
/// hidden bit.
pub open spec fn single(q: nat, e: nat) -> u32 {
    ((e + 127) * 0x80_0000 + (q - 0x80_0000)) as u32
}

/// The bits of the single-precision number nearest to `n`. A number that has
/// more than 24 significant bits is rounded to 24: up where what is cut off
/// is more than half a unit of the last place kept, or half a unit and the
/// last place kept is odd. A number that rounds to `2^128` or more gives
/// infinity.
pub open spec fn nearest_single(n: nat) -> u32 {
    let e = exponent_of(n);
    if n == 0 {
        0
    } else if e >= 128 {
        INFINITY
    } else if e <= 23 {
        single(n * pow2((23 - e) as nat), e)
    } else {
        let unit = pow2((e - 23) as nat);
        let q = n / unit;
        let r = n % unit;
        if !(2 * r > unit || (2 * r == unit && q % 2 == 1)) {
            single(q, e)
        } else if q + 1 < 0x100_0000 {
            single(q + 1, e)
        } else if e + 1 >= 128 {
            INFINITY
        } else {
            single(0x80_0000, e + 1)
        }
    }
}

/// A number that is at least a power of two has at least its exponent.
pub proof fn lemma_exponent_at_least(n: nat, k: nat)
    requires
        n >= pow2(k),
    ensures
        exponent_of(n) >= k,
    decreases k,
{
    if k > 0 {
        lemma_pow2_unfold(k);
        lemma_pow2_pos((k - 1) as nat);
        assert(n / 2 >= pow2((k - 1) as nat));
        lemma_exponent_at_least(n / 2, (k - 1) as nat);
    }
}

/// Two to the power 128 is one more than the largest 128-bit number.
pub proof fn lemma_pow2_128()
    ensures
        pow2(128) == 0x1_0000_0000_0000_0000_0000_0000_0000_0000,
        pow2(23) == 0x80_0000,
        pow2(24) == 0x100_0000,
{
    lemma2_to64();
    lemma_pow2_adds(64, 64);
}

/// The bits of the single-precision number nearest to `n`.
pub fn to_single(n: u128) -> (bits: u32)
    ensures
        bits == nearest_single(n as nat),
{
    if n == 0 {
        return 0;
    }
    let mut e: u32 = 0;
    let mut unit: u128 = 1;
    proof {
        lemma2_to64();
        lemma_pow2_128();
    }
    while n / unit >= 2
        invariant
            unit == pow2(e as nat),
            0 < unit <= n,
            e < 128,
            exponent_of(n as nat) == e + exponent_of((n / unit) as nat),
        decreases n - unit,
    {
        proof {
            lemma_fundamental_div_mod(n as int, unit as int);
            assert(unit * 2 <= n) by (nonlinear_arith)
                requires
                    n == unit * (n / unit) + n % unit,
                    n / unit >= 2,
                    n % unit >= 0,
                    unit > 0,
            ;
            lemma_div_denominator(n as int, unit as int, 2);
            lemma_pow2_unfold((e + 1) as nat);
            lemma_pow2_128();
        }
        unit = unit * 2;
        e = e + 1;
    }
    proof {
        lemma_fundamental_div_mod(n as int, unit as int);
        assert(n / unit >= 1) by (nonlinear_arith)
            requires
                n >= unit,
                unit > 0,
        ;
        assert(exponent_of(1) == 0);
        assert(n < 2 * unit) by (nonlinear_arith)
            requires
                n == unit * (n / unit) + n % unit,
                n / unit == 1,
                n % unit < unit,
        ;
    }
    if e <= 23 {
        let mut significand: u128 = n;
        let mut doubled: u32 = 0;
        while doubled < 23 - e
            invariant
                e <= 23,
                doubled <= 23 - e,
                significand == n * pow2(doubled as nat),
                pow2(e as nat) <= n < 2 * pow2(e as nat),
                significand < pow2((e + doubled + 1) as nat),
                significand >= pow2((e + doubled) as nat),
            decreases 23 - e - doubled,
        {
            proof {
                lemma_pow2_unfold((doubled + 1) as nat);
                lemma_pow2_unfold((e + doubled + 1) as nat);
                lemma_pow2_unfold((e + doubled + 2) as nat);
                assert(n * (2 * pow2(doubled as nat)) == 2 * (n * pow2(doubled as nat)))
                    by (nonlinear_arith);
                lemma_pow2_strictly_increases((e + doubled + 1) as nat, 24);
                lemma_pow2_128();
            }
            significand = significand * 2;
            doubled = doubled + 1;
        }
        proof {
            lemma_pow2_128();
        }
        ((e as u128 + 127) * HIDDEN + (significand - HIDDEN)) as u32
    } else {
        proof {
            lemma_pow2_subtracts(23, e as nat);
            lemma_pow2_adds((e - 23) as nat, 23);
            lemma_pow2_adds((e - 23) as nat, 24);
            lemma_pow2_unfold((e + 1) as nat);
            lemma_pow2_pos((e - 23) as nat);
            lemma_pow2_128();
        }
        let place = unit / HIDDEN;
        assert(place == pow2((e - 23) as nat));
        let q = n / place;
        let r = n % place;
        proof {
            lemma_fundamental_div_mod(n as int, place as int);
            assert(q >= 0x80_0000) by (nonlinear_arith)
                requires
                    n == place * q + r,
                    0 <= r < place,
                    n >= place * 0x80_0000,
            ;
            assert(q < 0x100_0000) by (nonlinear_arith)
                requires
                    n == place * q + r,
                    0 <= r < place,
                    n < place * 0x100_0000,
            ;
        }
        let up = r > place - r || (r == place - r && q % 2 == 1);
        if !up {
            ((e as u128 + 127) * HIDDEN + (q - HIDDEN)) as u32
        } else if q + 1 < 0x100_0000 {
            ((e as u128 + 127) * HIDDEN + (q + 1 - HIDDEN)) as u32
        } else if e + 1 >= 128 {
            INFINITY
        } else {
            ((e as u128 + 128) * HIDDEN) as u32
        }
    }
}

/// More digits never denote less.
pub proof fn lemma_decimal_value_grows(digits: Seq<char>, shorter: int)
    requires
        0 <= shorter <= digits.len(),
        forall|i: int| 0 <= i < digits.len() ==> is_digit(#[trigger] digits[i]),
    ensures
        decimal_value(digits.take(shorter)) <= decimal_value(digits),
    decreases digits.len() - shorter,
{
    if shorter < digits.len() {
        assert(digits.drop_last().take(shorter) =~= digits.take(shorter));
        lemma_decimal_value_grows(digits.drop_last(), shorter);
    } else {
        assert(digits.take(shorter) =~= digits);
    }
}

/// The bits of the single-precision number nearest to the number that the
/// decimal digits at `start` up to `end` of `text` denote.
pub fn digits_to_single(text: &Vec<char>, start: usize, end: usize) -> (bits: u32)
    requires
        start <= end <= text@.len(),
        forall|i: int| start <= i < end ==> is_digit(#[trigger] text@[i]),
    ensures
        bits == nearest_single(decimal_value(text@.subrange(start as int, end as int))),
{
    let ghost digits = text@.subrange(start as int, end as int);
    let mut value: u128 = 0;
    let mut at = start;
    assert(text@.subrange(start as int, start as int) =~= Seq::empty());
    while at < end
        invariant
            start <= at <= end <= text@.len(),
            digits == text@.subrange(start as int, end as int),
            forall|i: int| start <= i < end ==> is_digit(#[trigger] text@[i]),
            value == decimal_value(text@.subrange(start as int, at as int)),
        decreases end - at,
    {
        let c = text[at];
        assert(is_digit(text@[at as int]));
        let digit = (c as u32 - '0' as u32) as u128;
        let ghost longer = text@.subrange(start as int, at + 1);
        assert(longer.drop_last() =~= text@.subrange(start as int, at as int));
        assert(longer.last() == c);
        if value > (u128::MAX - digit) / 10 {
            proof {
                assert(decimal_value(longer) > u128::MAX);
                assert(digits.take(at + 1 - start) =~= longer);
                lemma_decimal_value_grows(digits, at + 1 - start);
                lemma_pow2_128();
                lemma_exponent_at_least(decimal_value(digits), 128);
            }
            return INFINITY;
        }
        value = value * 10 + digit;
        at = at + 1;
    }
    to_single(value)
}

} // verus!
