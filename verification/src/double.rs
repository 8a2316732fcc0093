//! Products of integers and floating-point numbers, reckoned in integers.
use crate::num::smaller;
use vstd::arithmetic::power2::{
    lemma2_to64, lemma2_to64_rest, lemma_pow2_adds, lemma_pow2_pos, lemma_pow2_strictly_increases,
    lemma_pow2_unfold, pow2,
};
use vstd::prelude::*;

verus! {

/// How many integers a floating-point number of 64 bits counts without a gap: two to the 53rd.
pub const EXACT_INTEGERS: u128 = 0x20_0000_0000_0000;

/// The weight of the lowest bit of the exponent, which is the weight of the leading bit of a
/// mantissa: two to the 52nd.
pub const LEADING_BIT: u64 = 0x10_0000_0000_0000;

/// The weight of the sign.
pub const SIGN_BIT: u64 = 0x8000_0000_0000_0000;

/// The number 1, by its bits.
pub const ONE: u64 = 0x3FF0_0000_0000_0000;

/// The number 2, by its bits.
pub const TWO: u64 = 0x4000_0000_0000_0000;

/// The number 2.5, by its bits.
pub const TWO_AND_A_HALF: u64 = 0x4004_0000_0000_0000;

/// A floating-point number of 64 bits, by its bits: a sign, eleven bits of an exponent, and 52 bits
/// of a fraction.
#[derive(Clone, Copy, Debug, PartialEq, Eq, Structural)]
pub struct Double {
    pub bits: u64,
}

impl Double {
    /// The bits of the exponent.
    pub open spec fn exponent(self) -> int {
        (self.bits as int / LEADING_BIT as int) % 2048
    }

    /// The bits of the fraction.
    pub open spec fn fraction(self) -> int {
        self.bits as int % LEADING_BIT as int
    }

    /// Whether the number is neither infinite nor no number.
    pub open spec fn is_finite(self) -> bool {
        self.exponent() != 2047
    }

    /// The size of a finite number is its mantissa times two to its power.
    pub open spec fn mantissa(self) -> int {
        if self.exponent() == 0 {
            self.fraction()
        } else {
            self.fraction() + LEADING_BIT
        }
    }

    /// The size of a finite number is its mantissa times two to its power.
    pub open spec fn power(self) -> int {
        if self.exponent() == 0 {
            -1074
        } else {
            self.exponent() - 1075
        }
    }

    /// Whether the number is finite and not below zero.
    pub open spec fn is_factor(self) -> bool {
        self.is_finite() && (self.bits < SIGN_BIT || self.mantissa() == 0)
    }
}

/// How far apart the floating-point numbers around an integer are, for integers that they do not
/// count without a gap: the least power of two with which 53 bits reach the integer.
pub open spec fn spacing(x: int) -> int
    decreases x,
{
    if x < EXACT_INTEGERS {
        1
    } else {
        2 * spacing(x / 2)
    }
}

/// The multiple of `unit` that is nearest to `x`; of two that are equally near, the even one.
pub open spec fn to_even(x: int, unit: int) -> int {
    let (count, rest) = (x / unit, x % unit);
    if 2 * rest > unit || (2 * rest == unit && count % 2 == 1) {
        (count + 1) * unit
    } else {
        count * unit
    }
}

/// The floating-point number that is nearest to an integer.
pub open spec fn nearest(x: int) -> int {
    to_even(x, spacing(x))
}

/// `x` times two to the power of `power`, rounded to the nearest integer, and halves up.
pub open spec fn scaled(x: int, power: int) -> int {
    if power >= 0 {
        x * pow2(power as nat)
    } else {
        (x + pow2((-power - 1) as nat)) / (pow2((-power) as nat) as int)
    }
}

/// The product of an integer and a factor as floating-point numbers, rounded to the nearest integer:
/// the integer is rounded to a floating-point number, and so is the product. A product too small for
/// 53 bits is far below a half, and rounds to zero either way.
pub open spec fn product_of(base: int, factor: Double) -> int {
    scaled(nearest(nearest(base) * factor.mantissa()), factor.power())
}

proof fn lemma_spacing(x: int)
    requires
        0 <= x,
    ensures
        1 <= spacing(x),
        x >= EXACT_INTEGERS ==> spacing(x) * EXACT_INTEGERS <= 2 * x,
    decreases x,
{
    if x >= EXACT_INTEGERS {
        lemma_spacing(x / 2);
        if x / 2 < EXACT_INTEGERS {
            assert(spacing(x / 2) == 1);
        }
    }
}

/// Rounding to a floating-point number changes an integer of 53 bits not at all, and no integer by
/// more than half of the spacing.
pub proof fn lemma_nearest(x: int)
    requires
        0 <= x,
    ensures
        x < EXACT_INTEGERS ==> nearest(x) == x,
        -spacing(x) <= 2 * (nearest(x) - x) <= spacing(x),
        0 <= nearest(x) <= 2 * x,
{
    lemma_spacing(x);
    let unit = spacing(x);
    let (count, rest) = (x / unit, x % unit);
    assert(x == count * unit + rest && 0 <= rest < unit && 0 <= count) by (nonlinear_arith)
        requires
            unit >= 1,
            0 <= x,
            count == x / unit,
            rest == x % unit,
    ;
    assert((count + 1) * unit == count * unit + unit) by (nonlinear_arith);
    assert(count * unit >= 0) by (nonlinear_arith)
        requires
            count >= 0,
            unit >= 1,
    ;
}

/// A number that 53 bits reach times a power of two is a floating-point number.
proof fn lemma_shifted_is_exact(x: int, shift: nat)
    requires
        0 <= x < EXACT_INTEGERS,
    ensures
        nearest(x * pow2(shift)) == x * pow2(shift),
{
    let y = x * pow2(shift);
    lemma_pow2_pos(shift);
    assert(y >= 0) by (nonlinear_arith)
        requires
            x >= 0,
            pow2(shift) >= 1,
            y == x * pow2(shift),
    ;
    lemma_spacing_divides(x, shift);
    lemma_spacing(y);
    let unit = spacing(y);
    assert(y / unit * unit == y && y % unit == 0) by (nonlinear_arith)
        requires
            y % unit == 0,
            unit >= 1,
    ;
}

proof fn lemma_spacing_divides(x: int, shift: nat)
    requires
        0 <= x < EXACT_INTEGERS,
    ensures
        (x * pow2(shift)) % spacing(x * pow2(shift)) == 0,
    decreases shift,
{
    let y = x * pow2(shift);
    lemma2_to64();
    if shift == 0 {
        assert(pow2(shift) == 1);
        assert(y == x) by (nonlinear_arith)
            requires
                y == x * pow2(shift),
                pow2(shift) == 1,
        ;
        assert(spacing(y) == 1);
    } else {
        let rest = (shift - 1) as nat;
        let half = x * pow2(rest);
        lemma_pow2_unfold(shift);
        lemma_pow2_pos(rest);
        assert(y == 2 * half) by (nonlinear_arith)
            requires
                y == x * pow2(shift),
                half == x * pow2(rest),
                pow2(shift) == 2 * pow2(rest),
        ;
        assert(half >= 0) by (nonlinear_arith)
            requires
                x >= 0,
                pow2(rest) >= 1,
                half == x * pow2(rest),
        ;
        lemma_spacing_divides(x, rest);
        if y >= EXACT_INTEGERS {
            assert(y / 2 == half);
            let unit = spacing(half);
            lemma_spacing(half);
            vstd::arithmetic::div_mod::lemma_truncate_middle(half, 2, unit);
            assert((2 * half) % (2 * unit) == 2 * (half % unit));
        } else {
            assert(spacing(y) == 1);
        }
    }
}

/// The product of an amount and one, two, or two and a half, told in halves, is the exact product,
/// rounded to the nearest integer, and halves up.
pub proof fn lemma_product_by_halves(base: int, halves: int)
    requires
        0 <= base < 0x4_0000_0000_0000,
        halves == 2 || halves == 4 || halves == 5,
    ensures
        ({
            let factor = Double {
                bits: if halves == 2 {
                    ONE
                } else if halves == 4 {
                    TWO
                } else {
                    TWO_AND_A_HALF
                },
            };
            factor.is_factor() && product_of(base, factor) == (halves * base + 1) / 2
        }),
{
    lemma2_to64();
    lemma2_to64_rest();
    lemma_nearest(base);
    let factor = Double {
        bits: if halves == 2 {
            ONE
        } else if halves == 4 {
            TWO
        } else {
            TWO_AND_A_HALF
        },
    };
    if halves == 5 {
        assert(factor.exponent() == 1024 && factor.fraction() == pow2(50));
        assert(factor.mantissa() == 5 * pow2(50));
        assert(base * factor.mantissa() == (5 * base) * pow2(50)) by (nonlinear_arith)
            requires
                factor.mantissa() == 5 * pow2(50),
        ;
        lemma_shifted_is_exact(5 * base, 50);
        assert(pow2(51) == 2 * pow2(50));
        let x = 5 * base;
        let unit = pow2(50) as int;
        assert((x * unit + unit) / (2 * unit) == (x + 1) / 2) by (nonlinear_arith)
            requires
                unit == 0x4_0000_0000_0000,
                x >= 0,
        ;
    } else {
        assert(factor.fraction() == 0 && factor.mantissa() == pow2(52));
        lemma_shifted_is_exact(base, 52);
        let unit = pow2(51) as int;
        if halves == 2 {
            assert(factor.exponent() == 1023);
            assert((base * (2 * unit) + unit) / (2 * unit) == base) by (nonlinear_arith)
                requires
                    unit == 0x8_0000_0000_0000,
                    base >= 0,
            ;
        } else {
            assert(factor.exponent() == 1024);
            let small = pow2(50) as int;
            assert((base * (4 * small) + small) / (2 * small) == 2 * base) by (nonlinear_arith)
                requires
                    small == 0x4_0000_0000_0000,
                    base >= 0,
            ;
        }
    }
}

fn find_spacing(x: u128) -> (unit: u128)
    requires
        x < 0x100_0000_0000_0000_0000_0000_0000_0000,
    ensures
        unit == spacing(x as int),
        1 <= unit <= 0x10_0000_0000_0000_0000,
{
    let mut rest: u128 = x;
    let mut unit: u128 = 1;
    while rest >= EXACT_INTEGERS
        invariant
            x < 0x100_0000_0000_0000_0000_0000_0000_0000,
            1 <= unit,
            rest * unit <= x,
            unit <= 0x10_0000_0000_0000_0000,
            unit * spacing(rest as int) == spacing(x as int),
        decreases rest,
    {
        let ghost half = spacing(rest as int / 2);
        assert(unit < 0x8_0000_0000_0000_0000) by (nonlinear_arith)
            requires
                rest * unit <= x,
                x < 0x100_0000_0000_0000_0000_0000_0000_0000,
                rest >= 0x20_0000_0000_0000,
        ;
        assert((rest / 2) * (unit * 2) <= x) by (nonlinear_arith)
            requires
                rest * unit <= x,
        ;
        assert((unit * 2) * half == unit * (2 * half)) by (nonlinear_arith);
        rest = rest / 2;
        unit = unit * 2;
    }
    unit
}

fn round_to_double(x: u128) -> (r: u128)
    requires
        x < 0x100_0000_0000_0000_0000_0000_0000_0000,
    ensures
        r == nearest(x as int),
        r <= 2 * x,
{
    let unit = find_spacing(x);
    proof {
        lemma_nearest(x as int);
    }
    let (count, rest) = (x / unit, x % unit);
    proof {
        assert(count * unit <= x && count >= 0) by (nonlinear_arith)
            requires
                unit >= 1,
                count == x / unit,
        ;
        assert((count + 1) * unit == count * unit + unit) by (nonlinear_arith);
        assert(count <= x) by (nonlinear_arith)
            requires
                unit >= 1,
                count == x / unit,
        ;
    }
    if 2 * rest > unit || (2 * rest == unit && count % 2 == 1) {
        (count + 1) * unit
    } else {
        count * unit
    }
}

fn power_of_two(n: u32) -> (r: u128)
    requires
        n <= 122,
    ensures
        r == pow2(n as nat),
{
    let mut r: u128 = 1;
    let mut i: u32 = 0;
    assert(pow2(0) == 1) by {
        lemma2_to64();
    }
    while i < n
        invariant
            i <= n <= 122,
            r == pow2(i as nat),
        decreases n - i,
    {
        proof {
            lemma_pow2_unfold((i + 1) as nat);
            lemma_pow2_is_bounded((i + 1) as nat);
        }
        r = r * 2;
        i = i + 1;
    }
    r
}

proof fn lemma_pow2_is_bounded(n: nat)
    requires
        n <= 122,
    ensures
        pow2(n) <= 0x400_0000_0000_0000_0000_0000_0000_0000,
{
    lemma2_to64_rest();
    lemma_pow2_adds(61, 61);
    assert(pow2(61) * pow2(61) == 0x400_0000_0000_0000_0000_0000_0000_0000);
    if n < 122 {
        lemma_pow2_strictly_increases(n, 122);
    }
}

proof fn lemma_pow2_120()
    ensures
        pow2(120) == 0x100_0000_0000_0000_0000_0000_0000_0000,
{
    lemma2_to64_rest();
    lemma_pow2_adds(60, 60);
}

fn scale(x: u128, power: i32) -> (r: i64)
    requires
        x < 0x100_0000_0000_0000_0000_0000_0000_0000,
        -1074 <= power <= 971,
    ensures
        r == smaller(scaled(x as int, power as int), i64::MAX as int),
{
    if power >= 0 {
        let mut value: u128 = x;
        let mut left: u32 = power as u32;
        while left > 0 && value <= i64::MAX as u128
            invariant
                value < 0x100_0000_0000_0000_0000_0000_0000_0000,
                value * pow2(left as nat) == x * pow2(power as nat),
            decreases left,
        {
            proof {
                lemma_pow2_unfold(left as nat);
                let rest = pow2((left - 1) as nat);
                assert(value * (2 * rest) == (2 * value) * rest) by (nonlinear_arith);
            }
            value = value * 2;
            left = left - 1;
        }
        proof {
            lemma_pow2_pos(left as nat);
            let rest = pow2(left as nat);
            assert(value * rest >= value) by (nonlinear_arith)
                requires
                    rest >= 1,
                    value >= 0,
            ;
            if left == 0 {
                lemma2_to64();
                assert(rest == 1);
                assert(value * rest == value) by (nonlinear_arith)
                    requires
                        rest == 1,
                ;
            }
        }
        if value > i64::MAX as u128 {
            i64::MAX
        } else {
            value as i64
        }
    } else {
        let down: u32 = (-power) as u32;
        if down > 121 {
            proof {
                lemma_pow2_120();
                lemma_pow2_strictly_increases(120, (down - 1) as nat);
                lemma_pow2_unfold(down as nat);
                let unit = pow2(down as nat) as int;
                let half = pow2((down - 1) as nat) as int;
                assert((x + half) / unit == 0) by (nonlinear_arith)
                    requires
                        0 <= x + half < unit,
                ;
            }
            return 0;
        }
        let half = power_of_two(down - 1);
        proof {
            lemma_pow2_unfold(down as nat);
            lemma_pow2_pos((down - 1) as nat);
            lemma_pow2_is_bounded((down - 1) as nat);
        }
        let unit: u128 = half * 2;
        let value: u128 = (x + half) / unit;
        if value > i64::MAX as u128 {
            i64::MAX
        } else {
            value as i64
        }
    }
}

impl Double {
    /// Whether the number is finite and not below zero.
    pub fn can_multiply(&self) -> (r: bool)
        ensures
            r == self.is_factor(),
    {
        let exponent: u64 = (self.bits / LEADING_BIT) % 2048;
        let fraction: u64 = self.bits % LEADING_BIT;
        exponent != 2047 && (self.bits < SIGN_BIT || (exponent == 0 && fraction == 0))
    }

    /// The product of an amount that is not below zero and a factor, held at the largest amount.
    pub fn multiply(&self, base: i64) -> (r: i64)
        requires
            self.is_factor(),
            base >= 0,
        ensures
            r == smaller(product_of(base as int, *self), i64::MAX as int),
    {
        let exponent: u64 = (self.bits / LEADING_BIT) % 2048;
        let fraction: u64 = self.bits % LEADING_BIT;
        let (mantissa, power): (u64, i32) = if exponent == 0 {
            (fraction, -1074)
        } else {
            (fraction + LEADING_BIT, exponent as i32 - 1075)
        };
        let whole = round_to_double(base as u128);
        assert(whole * mantissa < 0x80_0000_0000_0000_0000_0000_0000_0000) by (nonlinear_arith)
            requires
                0 <= whole <= 0x1_0000_0000_0000_0000,
                0 <= mantissa < 0x20_0000_0000_0000,
        ;
        scale(round_to_double(whole * mantissa as u128), power)
    }
}

} // verus!
