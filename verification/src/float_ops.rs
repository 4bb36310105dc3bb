//! Arithmetic on doubles, correctly rounded: every result is the double nearest to the
//! exact one, and of two that are equally near the even one.

use vstd::arithmetic::div_mod::{
    lemma_fundamental_div_mod, lemma_fundamental_div_mod_converse,
};
use vstd::arithmetic::power2::{
    lemma2_to64, lemma2_to64_rest, lemma_pow2_adds, lemma_pow2_pos, lemma_pow2_strictly_increases,
    lemma_pow2_unfold, pow2,
};
use vstd::prelude::*;

use crate::float_bits::{
    narrowing_keeps_zero, narrowing_rounds_to_nearest, nearest, Double, Single, DOUBLE_INFINITY,
    DOUBLE_SIGN, SINGLE_INFINITY, SINGLE_SIGN, SINGLE_UNIT,
};

verus! {

/// A quiet double that is not a number.
pub const QUIET: u64 = 0x7ff8_0000_0000_0000;

/// How often `n` must be doubled for `n / d` to have the 53 bits of a significand: to
/// be two to the power of 52 or more.
pub open spec fn shortfall(n: nat, d: nat) -> nat
    decreases
            if n < 0x10_0000_0000_0000 * d {
                0x10_0000_0000_0000 * d - n
            } else {
                0
            },
{
    if n == 0 || n >= 0x10_0000_0000_0000 * d {
        0
    } else {
        1 + shortfall(2 * n, d)
    }
}

/// How often `d` must be doubled for `n / d` to have no more than 53 bits before the
/// point: to be less than two to the power of 53.
pub open spec fn excess(n: nat, d: nat) -> nat
    decreases n - d,
{
    if d == 0 || n < 0x20_0000_0000_0000 * d {
        0
    } else {
        1 + excess(n, 2 * d)
    }
}

/// The magnitude of the double nearest to `n / d` times two to the power of
/// `scale - 1075`, ties to even. The quotient is brought to 53 bits, or to fewer where
/// the double is below the normal ones.
pub open spec fn nearest_magnitude(n: nat, d: nat, scale: nat) -> int {
    let up = if shortfall(n, d) < scale {
        shortfall(n, d)
    } else {
        (scale - 1) as nat
    };
    let down = excess(n, d);
    if n == 0 {
        0
    } else {
        (scale - up + down - 1) * 0x10_0000_0000_0000 + nearest(
            (n * pow2(up)) as int,
            (d * pow2(down)) as int,
        )
    }
}

/// The double of that magnitude and sign, infinite where the magnitude is beyond the
/// finite ones.
pub open spec fn of_magnitude(negative: bool, magnitude: int) -> Double {
    Double {
        bits: ((if magnitude > DOUBLE_INFINITY {
            DOUBLE_INFINITY as int
        } else {
            magnitude
        }) + if negative {
            DOUBLE_SIGN as int
        } else {
            0
        }) as u64,
    }
}

/// Where a finite number lies, in units of the least positive double: two to the power
/// of -1074. Every finite double is a whole number of units.
pub open spec fn units(value: Double) -> int {
    let size = value.significand() * pow2((value.scale() - 1) as nat);
    if value.negative() {
        -size
    } else {
        size
    }
}

/// The size of a whole number.
pub open spec fn size(n: int) -> nat {
    if n < 0 {
        (-n) as nat
    } else {
        n as nat
    }
}

/// The double nearest to a whole number.
pub open spec fn whole(n: u64) -> Double {
    of_magnitude(false, nearest_magnitude(n as nat, 1, 1075))
}

impl Double {
    /// The power of two, plus 1075, that the significand is multiplied by.
    pub open spec fn scale(self) -> nat {
        if self.exponent() == 0 {
            1
        } else {
            self.exponent() as nat
        }
    }

    /// The number divided by a whole number, rounded to the nearest double, ties to
    /// even. A number divided by zero is infinite; zero divided by zero is not a
    /// number.
    pub open spec fn over(self, divisor: u32) -> Double {
        if self.not_a_number() || (self.magnitude() == 0 && divisor == 0) {
            Double { bits: QUIET }
        } else if self.magnitude() == DOUBLE_INFINITY || divisor == 0 {
            of_magnitude(self.negative(), DOUBLE_INFINITY as int)
        } else {
            of_magnitude(
                self.negative(),
                nearest_magnitude(self.significand() as nat, divisor as nat, self.scale()),
            )
        }
    }

    /// The number is infinite.
    pub open spec fn infinite(self) -> bool {
        self.magnitude() == DOUBLE_INFINITY
    }

    /// The number with the other sign.
    pub open spec fn opposite(self) -> Double {
        Double {
            bits: if self.negative() {
                (self.bits - DOUBLE_SIGN) as u64
            } else {
                (self.bits + DOUBLE_SIGN) as u64
            },
        }
    }

    /// The sum, rounded to the nearest double, ties to even. A sum of zero is positive
    /// unless both numbers are negative; opposite infinities have no sum.
    pub open spec fn plus(self, other: Double) -> Double {
        let sum = units(self) + units(other);
        if self.not_a_number() || other.not_a_number() || (self.infinite() && other.infinite()
            && self.negative() != other.negative()) {
            Double { bits: QUIET }
        } else if self.infinite() {
            self
        } else if other.infinite() {
            other
        } else if sum == 0 {
            of_magnitude(self.negative() && other.negative(), 0)
        } else {
            of_magnitude(sum < 0, nearest_magnitude(size(sum), 1, 1))
        }
    }

    /// The difference, rounded as a sum is.
    pub open spec fn minus(self, other: Double) -> Double {
        self.plus(other.opposite())
    }

    /// The product, rounded to the nearest double, ties to even. Infinity times zero is
    /// not a number.
    pub open spec fn product(self, other: Double) -> Double {
        if self.not_a_number() || other.not_a_number() || (self.infinite() && other.magnitude()
            == 0) || (self.magnitude() == 0 && other.infinite()) {
            Double { bits: QUIET }
        } else if self.infinite() || other.infinite() {
            of_magnitude(self.negative() != other.negative(), DOUBLE_INFINITY as int)
        } else {
            of_magnitude(
                self.negative() != other.negative(),
                nearest_magnitude(size(units(self)) * size(units(other)), pow2(1074), 1),
            )
        }
    }

    /// The double nearest to a whole number.
    pub fn from_u64(n: u64) -> (result: Double)
        ensures
            result == whole(n),
    {
        Double { bits: magnitude_of(n as u128, 1, 1075) }
    }

    /// The number divided by a whole number.
    pub fn divide(self, divisor: u32) -> (result: Double)
        ensures
            result == self.over(divisor),
    {
        if !self.place().0 {
            return Double { bits: QUIET };
        }
        let (negative, scale, significand): (bool, u32, u64) = self.scaled_parts();
        if divisor == 0 && significand == 0 {
            return Double { bits: QUIET };
        }
        if scale == 2047 || divisor == 0 {
            return signed(negative, DOUBLE_INFINITY);
        }
        signed(negative, magnitude_of(significand as u128, divisor as u128, scale))
    }

    /// The number with the other sign.
    pub fn negate(self) -> (result: Double)
        ensures
            result == self.opposite(),
    {
        Double {
            bits: if self.bits >= DOUBLE_SIGN {
                self.bits - DOUBLE_SIGN
            } else {
                self.bits + DOUBLE_SIGN
            },
        }
    }

    /// The sum of two numbers.
    pub fn sum(self, other: Double) -> (result: Double)
        ensures
            result == self.plus(other),
    {
        if !self.place().0 || !other.place().0 {
            return Double { bits: QUIET };
        }
        let a: (bool, u32, u64) = self.scaled_parts();
        let b: (bool, u32, u64) = other.scaled_parts();
        if a.1 == 2047 {
            return if b.1 == 2047 && a.0 != b.0 {
                Double { bits: QUIET }
            } else {
                self
            };
        }
        if b.1 == 2047 {
            return other;
        }
        if a.1 >= b.1 {
            self.add_smaller(other)
        } else {
            other.add_smaller(self)
        }
    }

    /// The difference of two numbers.
    pub fn difference(self, other: Double) -> (result: Double)
        ensures
            result == self.minus(other),
    {
        self.sum(other.negate())
    }

    /// The sign, the scale and the significand. The scale of what is infinite or not a
    /// number is 2047.
    fn scaled_parts(self) -> (result: (bool, u32, u64))
        ensures
            result.0 == self.negative(),
            result.1 == self.scale(),
            result.2 == self.significand(),
            1 <= result.1 <= 2047,
            result.2 < 0x20_0000_0000_0000,
            result.1 > 1 ==> result.2 >= 0x10_0000_0000_0000,
            (result.1 == 2047) == (self.magnitude() >= DOUBLE_INFINITY),
    {
        let (negative, exponent, significand): (bool, u64, u64) = self.parts();
        (
            negative,
            if exponent == 0 {
                1
            } else {
                exponent as u32
            },
            significand,
        )
    }

    /// The sum of two finite numbers of which the other has no larger scale.
    fn add_smaller(self, other: Double) -> (result: Double)
        requires
            self.magnitude() < DOUBLE_INFINITY,
            other.magnitude() < DOUBLE_INFINITY,
            self.scale() >= other.scale(),
        ensures
            result == self.plus(other),
            result == other.plus(self),
    {
        let (negative, scale, significand): (bool, u32, u64) = self.scaled_parts();
        let (other_negative, other_scale, other_significand): (bool, u32, u64) =
            other.scaled_parts();
        let ghost t = (other_scale - 1) as nat;
        let ghost gap = (scale - other_scale) as nat;
        proof {
            lemma_pow2_pos(t);
            lemma_pow2_pos(gap);
            lemma_pow2_adds(t, gap);
        }
        if scale - other_scale > 64 {
            proof {
                far_apart(self, other);
            }
            return self;
        }
        let power: u128 = wide_power(scale - other_scale);
        proof {
            lemma2_to64();
            if gap < 64 {
                lemma_pow2_strictly_increases(gap, 64);
            }
            assert(significand * power < 0x20_0000_0000_0000 * 0x1_0000_0000_0000_0000)
                by (nonlinear_arith)
                requires
                    significand < 0x20_0000_0000_0000,
                    power <= 0x1_0000_0000_0000_0000,
            ;
            assert(significand * pow2((scale - 1) as nat) == (significand * power) * pow2(t))
                by (nonlinear_arith)
                requires
                    pow2((scale - 1) as nat) == pow2(t) * power,
            ;
        }
        let large: u128 = significand as u128 * power;
        let small: u128 = other_significand as u128;
        let (n, sign): (u128, bool) = if negative == other_negative {
            (large + small, negative)
        } else if large >= small {
            (large - small, negative)
        } else {
            (small - large, other_negative)
        };
        let ghost sum = units(self) + units(other);
        assert(size(sum) == n * pow2(t) && (n > 0 ==> sum != 0 && sign == (sum < 0)) && (n == 0
            ==> sum == 0)) by {
            assert((large + small) * pow2(t) == large * pow2(t) + small * pow2(t) && (large
                - small) * pow2(t) == large * pow2(t) - small * pow2(t) && (n > 0 ==> n * pow2(t)
                > 0) && (n == 0 ==> n * pow2(t) == 0) && (small - large) * pow2(t) == small * pow2(
                t,
            ) - large * pow2(t) && large * pow2(t) >= 0 && small * pow2(t) >= 0)
                by (nonlinear_arith)
                requires
                    pow2(t) > 0,
                    large >= 0,
                    small >= 0,
                    n >= 0,
            ;
        }
        if n == 0 {
            return signed(negative && other_negative, 0);
        }
        proof {
            powers_are_scales(n as nat, 1, 1, t);
        }
        signed(sign, magnitude_of(n, 1, other_scale))
    }

    /// The product of two numbers.
    pub fn multiply(self, other: Double) -> (result: Double)
        ensures
            result == self.product(other),
    {
        if !self.place().0 || !other.place().0 {
            return Double { bits: QUIET };
        }
        let a: (bool, u32, u64) = self.scaled_parts();
        let b: (bool, u32, u64) = other.scaled_parts();
        let sign: bool = a.0 != b.0;
        if a.1 == 2047 || b.1 == 2047 {
            return if a.2 == 0 || b.2 == 0 {
                Double { bits: QUIET }
            } else {
                signed(sign, DOUBLE_INFINITY)
            };
        }
        assert(a.2 * b.2 < 0x20_0000_0000_0000 * 0x20_0000_0000_0000) by (nonlinear_arith)
            requires
                a.2 < 0x20_0000_0000_0000,
                b.2 < 0x20_0000_0000_0000,
        ;
        let n: u128 = a.2 as u128 * b.2 as u128;
        let ghost total = (a.1 + b.1 - 2) as nat;
        proof {
            lemma_pow2_adds((a.1 - 1) as nat, (b.1 - 1) as nat);
            let p = pow2((a.1 - 1) as nat);
            let q = pow2((b.1 - 1) as nat);
            assert((a.2 * p) * (b.2 * q) == n * pow2(total)) by (nonlinear_arith)
                requires
                    n == a.2 * b.2,
                    pow2(total) == p * q,
            ;
            assert(a.2 * p >= 0 && b.2 * q >= 0) by (nonlinear_arith);
        }
        if n == 0 {
            assert(n * pow2(total) == 0) by (nonlinear_arith)
                requires
                    n == 0,
            ;
            return signed(sign, 0);
        }
        if a.1 + b.1 > 1075 {
            proof {
                let above = (total - 1074) as nat;
                lemma_pow2_adds(above, 1074);
                lemma_pow2_pos(1074);
                let m = n * pow2(above);
                assert(n * pow2(total) == m * pow2(1074)) by (nonlinear_arith)
                    requires
                        m == n * pow2(above),
                        pow2(total) == pow2(above) * pow2(1074),
                ;
                fractions_can_be_expanded(m as nat, 1, 1, 1074);
                powers_are_scales(n as nat, 1, 1, above);
            }
            return signed(sign, magnitude_of(n, 1, a.1 + b.1 - 1075));
        }
        let below: u32 = 1076 - a.1 - b.1;
        proof {
            lemma_pow2_adds(below as nat, total);
            lemma_pow2_pos(below as nat);
            fractions_can_be_expanded(n as nat, pow2(below as nat), 1, total);
        }
        signed(sign, low_magnitude(n, below))
    }
}

impl Single {
    /// The exponent field, one where it is zero: the power of two, plus 150, that the
    /// significand is multiplied by.
    pub open spec fn scale(self) -> nat {
        if self.magnitude() < SINGLE_UNIT {
            1
        } else {
            (self.magnitude() / SINGLE_UNIT as int) as nat
        }
    }

    /// The significand, as an integer.
    pub open spec fn significand(self) -> nat {
        if self.magnitude() < SINGLE_UNIT {
            self.magnitude() as nat
        } else {
            (SINGLE_UNIT + self.magnitude() % SINGLE_UNIT as int) as nat
        }
    }

    /// The same number as a double.
    pub open spec fn widened(self) -> Double {
        if self.not_a_number() {
            Double { bits: QUIET }
        } else if self.magnitude() == SINGLE_INFINITY {
            of_magnitude(self.negative(), DOUBLE_INFINITY as int)
        } else {
            of_magnitude(
                self.negative(),
                nearest_magnitude(self.significand(), 1, self.scale() + 925),
            )
        }
    }

    /// The number without its sign.
    pub open spec fn absolute(self) -> Single {
        Single { bits: self.magnitude() as u32 }
    }

    /// How far two numbers are apart, as a single: the size of their difference. The
    /// difference is taken of doubles, which have more than twice the bits of singles, so
    /// that rounding it to a double and then to a single is rounding it once.
    pub open spec fn apart(self, other: Single) -> Single {
        self.widened().minus(other.widened()).narrowed().absolute()
    }

    /// The same number as a double.
    pub fn to_double(self) -> (result: Double)
        ensures
            result == self.widened(),
    {
        let negative: bool = self.bits >= SINGLE_SIGN;
        let magnitude: u32 = if negative {
            self.bits - SINGLE_SIGN
        } else {
            self.bits
        };
        if magnitude > SINGLE_INFINITY {
            return Double { bits: QUIET };
        }
        if magnitude == SINGLE_INFINITY {
            return signed(negative, DOUBLE_INFINITY);
        }
        if magnitude < SINGLE_UNIT {
            return signed(negative, magnitude_of(magnitude as u128, 1, 926));
        }
        let scale: u32 = magnitude / SINGLE_UNIT + 925;
        let significand: u32 = SINGLE_UNIT + magnitude % SINGLE_UNIT;
        signed(negative, magnitude_of(significand as u128, 1, scale))
    }

    /// How far two numbers are apart, as a single.
    pub fn distance(self, other: Single) -> (result: Single)
        ensures
            result == self.apart(other),
    {
        let difference: Single = self.to_double().difference(other.to_double()).to_single();
        Single {
            bits: if difference.bits >= SINGLE_SIGN {
                difference.bits - SINGLE_SIGN
            } else {
                difference.bits
            },
        }
    }
}

/// The double of that magnitude and sign.
fn signed(negative: bool, magnitude: u64) -> (result: Double)
    requires
        magnitude <= DOUBLE_INFINITY,
    ensures
        result == of_magnitude(negative, magnitude as int),
{
    Double {
        bits: if negative {
            magnitude + DOUBLE_SIGN
        } else {
            magnitude
        },
    }
}

/// Two to the power of `exponent`.
fn wide_power(exponent: u32) -> (result: u128)
    requires
        exponent < 127,
    ensures
        result == pow2(exponent as nat),
{
    let mut power: u128 = 1;
    let mut i: u32 = 0;
    proof {
        lemma2_to64();
        lemma_pow2_adds(64, 62);
        lemma2_to64_rest();
    }
    while i < exponent
        invariant
            i <= exponent < 127,
            power == pow2(i as nat),
            pow2(126) == 0x4000_0000_0000_0000_0000_0000_0000_0000,
        decreases exponent - i,
    {
        proof {
            lemma_pow2_unfold((i + 1) as nat);
            if i + 1 < 126 {
                lemma_pow2_strictly_increases((i + 1) as nat, 126);
            }
        }
        power = power * 2;
        i = i + 1;
    }
    power
}

/// The magnitude of the double nearest to `n` divided by two to the power of `below`, in
/// units of the least positive double.
fn low_magnitude(n: u128, below: u32) -> (result: u64)
    requires
        0 < n < 0x400_0000_0000_0000_0000_0000_0000,
        1 <= below < 1076,
    ensures
        result <= DOUBLE_INFINITY,
        result == nearest_magnitude(n as nat, pow2(below as nat), 1) || (result
            == DOUBLE_INFINITY && nearest_magnitude(n as nat, pow2(below as nat), 1)
            > DOUBLE_INFINITY),
{
    proof {
        lemma2_to64();
        lemma2_to64_rest();
        lemma_pow2_adds(54, 53);
        lemma_pow2_pos(below as nat);
    }
    if below < 54 {
        proof {
            lemma_pow2_strictly_increases(below as nat, 54);
        }
        return magnitude_of(n, wide_power(below), 1);
    }
    proof {
        if below > 54 {
            lemma_pow2_strictly_increases(54, below as nat);
        }
        assert(excess(n as nat, pow2(below as nat)) == 0);
        assert(n * pow2(0) == n && pow2(below as nat) * pow2(0) == pow2(below as nat));
    }
    if below > 107 {
        proof {
            lemma_pow2_strictly_increases(107, below as nat);
            lemma_fundamental_div_mod_converse(n as int, pow2(below as nat) as int, 0, n as int);
        }
        return 0;
    }
    let power: u128 = wide_power(below);
    proof {
        lemma_pow2_adds(64, 43);
        if below < 107 {
            lemma_pow2_strictly_increases(below as nat, 107);
        }
        assert(n / power < 0x10_0000_0000_0000) by (nonlinear_arith)
            requires
                n < 0x400_0000_0000_0000_0000_0000_0000,
                power >= 0x40_0000_0000_0000,
        ;
    }
    nearest_integer(n, power) as u64
}

/// The magnitude of the nearest double, or of infinity; see [`nearest_magnitude`].
fn magnitude_of(n: u128, d: u128, scale: u32) -> (result: u64)
    requires
        n < 0x40_0000_0000_0000_0000_0000_0000_0000,
        1 <= d < 0x40_0000_0000_0000,
        1 <= scale < 4096,
    ensures
        result <= DOUBLE_INFINITY,
        result == nearest_magnitude(n as nat, d as nat, scale as nat) || (result
            == DOUBLE_INFINITY && nearest_magnitude(n as nat, d as nat, scale as nat)
            > DOUBLE_INFINITY),
{
    if n == 0 {
        return 0;
    }
    let mut a: u128 = n;
    let mut up: u32 = 0;
    proof {
        lemma2_to64();
    }
    while a < 0x10_0000_0000_0000 * d && up + 1 < scale
        invariant
            1 <= d < 0x40_0000_0000_0000,
            n < 0x40_0000_0000_0000_0000_0000_0000_0000,
            up < scale < 4096,
            a > 0,
            a == n * pow2(up as nat),
            a < 0x20_0000_0000_0000 * d || up == 0,
            a < 0x40_0000_0000_0000_0000_0000_0000_0000,
            up + shortfall(a as nat, d as nat) == shortfall(n as nat, d as nat),
            up > 0 ==> n < 0x10_0000_0000_0000 * d,
        decreases scale - up,
    {
        proof {
            lemma_pow2_unfold((up + 1) as nat);
            assert(n * pow2((up + 1) as nat) == 2 * a) by (nonlinear_arith)
                requires
                    a == n * pow2(up as nat),
                    pow2((up + 1) as nat) == 2 * pow2(up as nat),
            ;
        }
        a = a * 2;
        up = up + 1;
    }
    let mut b: u128 = d;
    let mut down: u128 = 0;
    while n >= 0x20_0000_0000_0000 * b
        invariant
            n < 0x40_0000_0000_0000_0000_0000_0000_0000,
            1 <= b,
            b < 0x100_0000_0000_0000_0000,
            down < b,
            b == d * pow2(down as nat),
            down + excess(n as nat, b as nat) == excess(n as nat, d as nat),
        decreases n - b,
    {
        proof {
            lemma_pow2_unfold((down + 1) as nat);
            assert(d * pow2((down + 1) as nat) == 2 * b) by (nonlinear_arith)
                requires
                    b == d * pow2(down as nat),
                    pow2((down + 1) as nat) == 2 * pow2(down as nat),
            ;
        }
        b = b * 2;
        down = down + 1;
    }
    let kept: u128 = nearest_integer(a, b);
    let field: u128 = (scale - up) as u128 + down - 1;
    let magnitude: u128 = field * 0x10_0000_0000_0000 + kept;
    if magnitude > DOUBLE_INFINITY as u128 {
        DOUBLE_INFINITY
    } else {
        magnitude as u64
    }
}

/// The integer nearest to `a / b`, ties to even.
fn nearest_integer(a: u128, b: u128) -> (result: u128)
    requires
        1 <= b < 0x8000_0000_0000_0000_0000_0000_0000_0000,
        a < 0x8000_0000_0000_0000_0000_0000_0000_0000,
    ensures
        result == nearest(a as int, b as int),
        result <= a + 1,
{
    let quotient: u128 = a / b;
    let rest: u128 = a % b;
    assert(quotient <= a) by (nonlinear_arith)
        requires
            quotient == a / b,
            b >= 1,
    ;
    if 2 * rest > b || (2 * rest == b && quotient % 2 == 1) {
        quotient + 1
    } else {
        quotient
    }
}

/// A number divided by a whole number that is not zero is a number, of the same sign.
pub proof fn quotients_are_numbers(value: Double, divisor: u32)
    requires
        !value.not_a_number(),
        divisor > 0,
    ensures
        !value.over(divisor).not_a_number(),
        value.over(divisor).negative() == value.negative(),
{
    if value.magnitude() != DOUBLE_INFINITY {
        magnitudes_are_not_negative(
            value.significand() as nat,
            divisor as nat,
            value.scale(),
        );
    }
}

proof fn magnitudes_are_not_negative(n: nat, d: nat, scale: nat)
    requires
        d > 0,
        scale > 0,
    ensures
        nearest_magnitude(n, d, scale) >= 0,
{
    let up = if shortfall(n, d) < scale {
        shortfall(n, d)
    } else {
        (scale - 1) as nat
    };
    let down = excess(n, d);
    lemma_pow2_pos(up);
    lemma_pow2_pos(down);
    let a = n * pow2(up);
    let b = d * pow2(down);
    assert(a >= 0 && b > 0 && a / b >= 0) by (nonlinear_arith)
        requires
            a == n * pow2(up),
            b == d * pow2(down),
            d > 0,
            pow2(up) > 0,
            pow2(down) > 0,
    ;
}

/// Doubling as often as [`shortfall`] says brings a number of up to 53 bits to 53.
proof fn shortfall_fills_up(n: nat)
    requires
        0 < n < 0x20_0000_0000_0000,
    ensures
        0x10_0000_0000_0000 <= n * pow2(shortfall(n, 1)) < 0x20_0000_0000_0000,
    decreases 0x20_0000_0000_0000 - n,
{
    lemma2_to64();
    if n < 0x10_0000_0000_0000 {
        shortfall_fills_up(2 * n);
        let s = shortfall(2 * n, 1);
        lemma_pow2_unfold(s + 1);
        assert(n * pow2(s + 1) == 2 * n * pow2(s)) by (nonlinear_arith)
            requires
                pow2(s + 1) == 2 * pow2(s),
        ;
        assert(shortfall(n, 1) == s + 1);
    } else {
        assert(shortfall(n, 1) == 0);
        assert(n * pow2(0) == n) by (nonlinear_arith)
            requires
                pow2(0) == 1,
        ;
    }
}

/// A whole number of up to 53 bits as a double: its significand is the number, doubled
/// to 53 bits.
proof fn whole_numbers_by_parts(n: u64)
    requires
        0 < n < 0x20_0000_0000_0000,
    ensures
        shortfall(n as nat, 1) <= 52,
        !whole(n).negative(),
        whole(n).magnitude() < DOUBLE_INFINITY,
        whole(n).exponent() == 1075 - shortfall(n as nat, 1),
        whole(n).significand() == n * pow2(shortfall(n as nat, 1)),
{
    let s = shortfall(n as nat, 1);
    let a = n * pow2(s);
    lemma2_to64();
    lemma2_to64_rest();
    shortfall_fills_up(n as nat);
    if s > 52 {
        if s > 53 {
            lemma_pow2_strictly_increases(53, s);
        }
        assert(a >= 0x20_0000_0000_0000) by (nonlinear_arith)
            requires
                a == n * pow2(s),
                n >= 1,
                pow2(s) >= 0x20_0000_0000_0000,
        ;
    }
    assert(whole(n).magnitude() == (1074 - s) * 0x10_0000_0000_0000 + a);
}

/// Whole numbers of up to 53 bits are doubles: nothing is lost on the way there and
/// back.
pub proof fn whole_numbers_are_kept(n: u64)
    requires
        n < 0x20_0000_0000_0000,
    ensures
        whole(n).truncated() == n,
{
    if n > 0 {
        let s = shortfall(n as nat, 1);
        let a = n * pow2(s);
        lemma2_to64();
        lemma_pow2_pos(s);
        whole_numbers_by_parts(n);
        assert(a / pow2(s) as int == n) by (nonlinear_arith)
            requires
                a == n * pow2(s),
                pow2(s) > 0,
        ;
    }
}

/// Doubling both parts of a fraction keeps the nearest integer.
proof fn nearest_of_doubles(a: int, b: int)
    requires
        a >= 0,
        b > 0,
    ensures
        nearest(2 * a, 2 * b) == nearest(a, b),
{
    let q = a / b;
    let r = a % b;
    lemma_fundamental_div_mod(a, b);
    assert(2 * a == q * (2 * b) + 2 * r) by (nonlinear_arith)
        requires
            a == b * q + r,
    ;
    lemma_fundamental_div_mod_converse(2 * a, 2 * b, q, 2 * r);
}

/// Doubling both parts of a fraction keeps how its bits compare with those of a
/// significand.
proof fn bits_of_doubles(n: nat, d: nat)
    requires
        n > 0,
        d > 0,
    ensures
        shortfall(2 * n, 2 * d) == shortfall(n, d),
        excess(2 * n, 2 * d) == excess(n, d),
{
    shortfall_of_doubles(n, d);
    excess_of_doubles(n, d);
}

proof fn shortfall_of_doubles(n: nat, d: nat)
    requires
        n > 0,
        d > 0,
    ensures
        shortfall(2 * n, 2 * d) == shortfall(n, d),
    decreases
            if n < 0x10_0000_0000_0000 * d {
                0x10_0000_0000_0000 * d - n
            } else {
                0
            },
{
    if n < 0x10_0000_0000_0000 * d {
        shortfall_of_doubles(2 * n, d);
    }
}

proof fn excess_of_doubles(n: nat, d: nat)
    requires
        n > 0,
        d > 0,
    ensures
        excess(2 * n, 2 * d) == excess(n, d),
    decreases n - d,
{
    if n >= 0x20_0000_0000_0000 * d {
        excess_of_doubles(n, 2 * d);
    }
}

/// Doubling both parts of a fraction keeps the nearest double.
proof fn fractions_can_be_expanded(n: nat, d: nat, scale: nat, times: nat)
    requires
        d > 0,
        scale > 0,
    ensures
        nearest_magnitude(n * pow2(times), d * pow2(times), scale) == nearest_magnitude(
            n,
            d,
            scale,
        ),
    decreases times,
{
    lemma2_to64();
    if times == 0 {
        assert(n * pow2(0) == n && d * pow2(0) == d) by (nonlinear_arith)
            requires
                pow2(0) == 1,
        ;
    } else {
        let less = (times - 1) as nat;
        lemma_pow2_unfold(times);
        lemma_pow2_pos(less);
        let m = n * pow2(less);
        let e = d * pow2(less);
        assert(n * pow2(times) == 2 * m && d * pow2(times) == 2 * e && e > 0 && (n > 0 ==> m > 0)
            && (n == 0 ==> m == 0)) by (nonlinear_arith)
            requires
                m == n * pow2(less),
                e == d * pow2(less),
                pow2(times) == 2 * pow2(less),
                pow2(less) > 0,
                d > 0,
        ;
        fractions_can_be_expanded(n, d, scale, less);
        if n > 0 {
            bits_of_doubles(m, e);
            let up = if shortfall(m, e) < scale {
                shortfall(m, e)
            } else {
                (scale - 1) as nat
            };
            let down = excess(m, e);
            lemma_pow2_pos(up);
            lemma_pow2_pos(down);
            let a = (m * pow2(up)) as int;
            let b = (e * pow2(down)) as int;
            assert((2 * m) * pow2(up) == 2 * a && (2 * e) * pow2(down) == 2 * b && a >= 0 && b > 0)
                by (nonlinear_arith)
                requires
                    a == m * pow2(up),
                    b == e * pow2(down),
                    e > 0,
                    pow2(up) > 0,
                    pow2(down) > 0,
            ;
            nearest_of_doubles(a, b);
        }
    }
}

/// Doubling the number and lowering the scale by one keeps the nearest double.
proof fn doubling_is_scaling(n: nat, d: nat, scale: nat)
    requires
        n > 0,
        d > 0,
        scale > 0,
    ensures
        nearest_magnitude(2 * n, d, scale) == nearest_magnitude(n, d, scale + 1),
{
    lemma2_to64();
    if n >= 0x10_0000_0000_0000 * d {
        let k = excess(n, d);
        bits_of_doubles(n, d);
        assert(excess(2 * n, d) == k + 1);
        lemma_pow2_unfold(k + 1);
        lemma_pow2_pos(k);
        let b = (d * pow2(k)) as int;
        assert(d * pow2(k + 1) == 2 * b && b > 0 && (2 * n) * pow2(0) == 2 * n && n * pow2(0) == n)
            by (nonlinear_arith)
            requires
                b == d * pow2(k),
                pow2(k + 1) == 2 * pow2(k),
                pow2(0) == 1,
                d > 0,
                pow2(k) > 0,
        ;
        nearest_of_doubles(n as int, b);
    } else {
        let s = shortfall(2 * n, d);
        assert(shortfall(n, d) == s + 1);
        let up = if s < scale {
            s
        } else {
            (scale - 1) as nat
        };
        lemma_pow2_unfold(up + 1);
        assert((2 * n) * pow2(up) == n * pow2(up + 1)) by (nonlinear_arith)
            requires
                pow2(up + 1) == 2 * pow2(up),
        ;
    }
}

/// Doubling the number and lowering the scale, time and again.
proof fn powers_are_scales(n: nat, d: nat, scale: nat, times: nat)
    requires
        n > 0,
        d > 0,
        scale > 0,
    ensures
        nearest_magnitude(n * pow2(times), d, scale) == nearest_magnitude(n, d, scale + times),
    decreases times,
{
    lemma2_to64();
    if times == 0 {
        assert(n * pow2(0) == n) by (nonlinear_arith)
            requires
                pow2(0) == 1,
        ;
    } else {
        let less = (times - 1) as nat;
        lemma_pow2_unfold(times);
        lemma_pow2_pos(less);
        let m = n * pow2(less);
        assert(n * pow2(times) == 2 * m && m > 0) by (nonlinear_arith)
            requires
                m == n * pow2(less),
                pow2(times) == 2 * pow2(less),
                pow2(less) > 0,
                n > 0,
        ;
        doubling_is_scaling(m, d, scale);
        powers_are_scales(n, d, scale + 1, less);
    }
}

/// A number of 53 bits, doubled some times, exceeds 53 bits by as many.
proof fn excess_of_a_power(n: nat, d: nat, k: nat)
    requires
        d > 0,
        n < 0x20_0000_0000_0000 * pow2(k) * d,
        k > 0 ==> n >= 0x10_0000_0000_0000 * pow2(k) * d,
    ensures
        excess(n, d) == k,
    decreases k,
{
    lemma2_to64();
    if k == 0 {
        assert(0x20_0000_0000_0000 * pow2(0) * d == 0x20_0000_0000_0000 * d) by (nonlinear_arith)
            requires
                pow2(0) == 1,
        ;
    } else {
        let j = (k - 1) as nat;
        lemma_pow2_unfold(k);
        lemma_pow2_pos(j);
        assert(0x20_0000_0000_0000 * pow2(k) * d == 0x20_0000_0000_0000 * pow2(j) * (2 * d)
            && 0x10_0000_0000_0000 * pow2(k) * d == 0x10_0000_0000_0000 * pow2(j) * (2 * d)
            && 0x10_0000_0000_0000 * pow2(k) * d >= 0x20_0000_0000_0000 * d) by (nonlinear_arith)
            requires
                pow2(k) == 2 * pow2(j),
                pow2(j) >= 1,
                d > 0,
        ;
        excess_of_a_power(n, 2 * d, j);
    }
}

/// What a sum far below a unit of the last place of a number does to it: nothing.
proof fn small_changes_are_rounded_away(significand: nat, scale: nat, change: int)
    requires
        0x10_0000_0000_0000 <= significand < 0x20_0000_0000_0000,
        scale > 1,
        -(pow2((scale - 1) as nat) as int) < 4 * change < pow2((scale - 1) as nat),
    ensures
        significand * pow2((scale - 1) as nat) + change > 0,
        nearest_magnitude(
            (significand * pow2((scale - 1) as nat) + change) as nat,
            1,
            1,
        ) == (scale - 1) * 0x10_0000_0000_0000 + significand,
{
    lemma2_to64();
    let t = (scale - 1) as nat;
    let p = pow2(t) as int;
    lemma_pow2_pos(t);
    assert(significand * p + change > 0) by (nonlinear_arith)
        requires
            significand >= 1,
            p > 0,
            -p < 4 * change,
    ;
    let n = (significand * p + change) as nat;
    if change < 0 && significand == 0x10_0000_0000_0000 {
        let u = (t - 1) as nat;
        lemma_pow2_unfold(t);
        lemma_pow2_pos(u);
        let h = pow2(u) as int;
        assert(n == 0x20_0000_0000_0000 * h + change);
        excess_of_a_power(n, 1, u);
        lemma_fundamental_div_mod_converse(n as int, h, 0x1f_ffff_ffff_ffff, h + change);
        assert(n * pow2(0) == n && 1 * pow2(u) == h);
    } else {
        assert(0x10_0000_0000_0000 * p <= n < 0x20_0000_0000_0000 * p) by (nonlinear_arith)
            requires
                n == significand * p + change,
                p > 0,
                -p < 4 * change < p,
                0x10_0000_0000_0000 <= significand < 0x20_0000_0000_0000,
                change >= 0 || significand > 0x10_0000_0000_0000,
        ;
        excess_of_a_power(n, 1, t);
        if change >= 0 {
            lemma_fundamental_div_mod_converse(n as int, p, significand as int, change);
        } else {
            assert(n == (significand - 1) * p + (p + change)) by (nonlinear_arith)
                requires
                    n == significand * p + change,
            ;
            lemma_fundamental_div_mod_converse(n as int, p, significand - 1, p + change);
        }
        assert(n * pow2(0) == n && 1 * pow2(t) == p);
    }
}

/// A finite double is the one nearest to itself.
proof fn doubles_are_kept(value: Double)
    requires
        value.magnitude() < DOUBLE_INFINITY,
    ensures
        nearest_magnitude(
            (value.significand() * pow2((value.scale() - 1) as nat)) as nat,
            1,
            1,
        ) == value.magnitude(),
{
    lemma2_to64();
    let t = (value.scale() - 1) as nat;
    lemma_pow2_pos(t);
    let n = value.significand() as nat;
    if t > 0 {
        small_changes_are_rounded_away(n, value.scale(), 0);
    } else {
        assert(n * pow2(0) == n) by (nonlinear_arith)
            requires
                pow2(0) == 1,
        ;
        assert(excess(n, 1) == 0);
        assert(1 * pow2(0) == 1);
        assert(nearest(n as int, 1) == n);
    }
}

/// A number far below the unit of the last place of another does not change it.
proof fn far_apart(large: Double, small: Double)
    requires
        large.magnitude() < DOUBLE_INFINITY,
        small.magnitude() < DOUBLE_INFINITY,
        large.scale() > small.scale() + 64,
    ensures
        large.plus(small) == large,
        small.plus(large) == large,
{
    lemma2_to64();
    let t = (large.scale() - 1) as nat;
    let s = (small.scale() - 1) as nat;
    let change = if large.negative() {
        -units(small)
    } else {
        units(small)
    };
    lemma_pow2_pos(s);
    lemma_pow2_adds(s, 64);
    if s + 64 < t {
        lemma_pow2_strictly_increases(s + 64, t);
    }
    let p = pow2(s) as int;
    assert(4 * (small.significand() * p) < pow2(64) * p && small.significand() * p >= 0)
        by (nonlinear_arith)
        requires
            0 <= small.significand() < 0x20_0000_0000_0000,
            p > 0,
            pow2(64) == 0x1_0000_0000_0000_0000,
    ;
    assert(pow2(64) * p == p * pow2(64)) by (nonlinear_arith);
    small_changes_are_rounded_away(large.significand() as nat, large.scale(), change);
}

/// Adding zero changes no finite number, but for the sign of a zero.
pub proof fn adding_zero_changes_nothing(value: Double, nothing: Double)
    requires
        value.magnitude() < DOUBLE_INFINITY,
        nothing.magnitude() == 0,
    ensures
        value.magnitude() != 0 ==> value.plus(nothing) == value && nothing.plus(value) == value,
        value.magnitude() == 0 ==> value.plus(nothing).magnitude() == 0,
{
    zeros_have_no_units(value);
    zeros_have_no_units(nothing);
    doubles_are_kept(value);
}

/// A finite number lies at zero exactly where it is one of the two zeros.
proof fn zeros_have_no_units(value: Double)
    requires
        value.magnitude() < DOUBLE_INFINITY,
    ensures
        value.magnitude() == 0 <==> units(value) == 0,
        size(units(value)) == value.significand() * pow2((value.scale() - 1) as nat),
        units(value) < 0 ==> value.negative(),
        units(value) > 0 ==> !value.negative(),
{
    let p = pow2((value.scale() - 1) as nat);
    lemma_pow2_pos((value.scale() - 1) as nat);
    assert((value.significand() == 0) == (value.significand() * p == 0) && value.significand() * p
        >= 0) by (nonlinear_arith)
        requires
            p > 0,
            value.significand() >= 0,
    ;
}

/// A number and its opposite add up to zero.
pub proof fn opposites_cancel(value: Double)
    requires
        value.magnitude() < DOUBLE_INFINITY,
    ensures
        value.plus(value.opposite()).magnitude() == 0,
        value.opposite().opposite() == value,
{
    assert(units(value.opposite()) == -units(value));
}

/// Multiplying by one changes no finite number.
pub proof fn multiplying_by_one_changes_nothing(value: Double)
    requires
        value.magnitude() < DOUBLE_INFINITY,
    ensures
        value.product(Double { bits: 0x3ff0_0000_0000_0000 }) == value,
{
    let one = Double { bits: 0x3ff0_0000_0000_0000 };
    lemma2_to64_rest();
    lemma_pow2_adds(52, 1022);
    assert(one.scale() == 1023 && one.significand() == 0x10_0000_0000_0000);
    assert(size(units(one)) == pow2(1074));
    zeros_have_no_units(value);
    fractions_can_be_expanded(size(units(value)), 1, 1, 1074);
    assert(1 * pow2(1074) == pow2(1074));
    doubles_are_kept(value);
}

/// Multiplying by zero gives a zero.
pub proof fn multiplying_by_zero_gives_zero(value: Double)
    requires
        value.magnitude() < DOUBLE_INFINITY,
    ensures
        value.product(Double { bits: 0 }).magnitude() == 0,
{
    zeros_have_no_units(Double { bits: 0 });
    assert(size(units(value)) * size(units(Double { bits: 0 })) == 0) by (nonlinear_arith)
        requires
            size(units(Double { bits: 0 })) == 0,
    ;
}

/// How often a number must be doubled to be two to the power of 52 times another.
proof fn shortfall_of_a_power(n: nat, i: nat)
    requires
        n > 0,
        i <= 52,
    ensures
        shortfall(n * pow2(i), n) == 52 - i,
    decreases 52 - i,
{
    lemma2_to64();
    lemma2_to64_rest();
    lemma_pow2_pos(i);
    if i == 52 {
        assert(n * pow2(52) == 0x10_0000_0000_0000 * n) by (nonlinear_arith)
            requires
                pow2(52) == 0x10_0000_0000_0000,
        ;
    } else {
        lemma_pow2_unfold(i + 1);
        lemma_pow2_strictly_increases(i, 52);
        assert(n * pow2(i) < 0x10_0000_0000_0000 * n && n * pow2(i + 1) == 2 * (n * pow2(i)) && n
            * pow2(i) > 0) by (nonlinear_arith)
            requires
                pow2(i) < 0x10_0000_0000_0000,
                pow2(i + 1) == 2 * pow2(i),
                pow2(i) > 0,
                n > 0,
        ;
        shortfall_of_a_power(n, i + 1);
    }
}

/// A whole number divided by itself is one.
pub proof fn a_number_over_itself_is_one(n: u32)
    requires
        n > 0,
    ensures
        whole(n as u64).over(n) == (Double { bits: 0x3ff0_0000_0000_0000 }),
{
    lemma2_to64();
    lemma2_to64_rest();
    let s = shortfall(n as nat, 1);
    let value = whole(n as u64);
    whole_numbers_by_parts(n as u64);
    powers_are_scales(n as nat, n as nat, (1075 - s) as nat, s);
    shortfall_of_a_power(n as nat, 0);
    assert(n * pow2(0) == n);
    assert(nearest_magnitude(n as nat, n as nat, 1075) == 1022 * 0x10_0000_0000_0000 + nearest(
        (n * pow2(52)) as int,
        (n * pow2(0)) as int,
    ));
    assert((n * 0x10_0000_0000_0000) / n as int == 0x10_0000_0000_0000 && (n
        * 0x10_0000_0000_0000) % n as int == 0) by (nonlinear_arith)
        requires
            n > 0,
    ;
}

/// A normal single as a double: its significand, doubled to 53 bits.
pub proof fn normal_singles_widen_exactly(value: Single)
    requires
        SINGLE_UNIT <= value.magnitude() < SINGLE_INFINITY,
    ensures
        value.widened().negative() == value.negative(),
        value.widened().magnitude() < DOUBLE_INFINITY,
        value.widened().exponent() == value.scale() + 896,
        value.widened().significand() == value.significand() * 0x2000_0000,
{
    lemma2_to64();
    lemma2_to64_rest();
    let n = value.significand();
    let s = shortfall(n, 1);
    shortfall_fills_up(n);
    if s < 29 {
        if s < 28 {
            lemma_pow2_strictly_increases(s, 28);
        }
        assert(n * pow2(s) < 0x10_0000_0000_0000) by (nonlinear_arith)
            requires
                n < 0x100_0000,
                pow2(s) <= 0x1000_0000,
        ;
    }
    if s > 29 {
        if s > 30 {
            lemma_pow2_strictly_increases(30, s);
        }
        assert(n * pow2(s) >= 0x20_0000_0000_0000) by (nonlinear_arith)
            requires
                n >= 0x80_0000,
                pow2(s) >= 0x4000_0000,
        ;
    }
    assert(excess(n, 1) == 0);
    assert(value.widened().magnitude() == (value.scale() + 895) * 0x10_0000_0000_0000 + n
        * 0x2000_0000);
}

/// No number is apart from itself; what is infinite or not a number has no distance from
/// itself.
pub proof fn nothing_is_apart_from_itself(value: Single)
    ensures
        value.apart(value).magnitude() == 0 || value.apart(value).not_a_number(),
{
    let wide = value.widened();
    let difference = wide.minus(wide);
    if wide.magnitude() < DOUBLE_INFINITY {
        opposites_cancel(wide);
        narrowing_keeps_zero(difference);
    } else {
        assert(difference == Double { bits: QUIET });
    }
}

/// Multiplying by 512 raises the exponent by nine and keeps the significand, where the
/// product is finite and the number normal.
pub proof fn multiplying_by_512_is_exact(value: Double)
    requires
        1 <= value.exponent() < 2038,
        !value.negative(),
    ensures
        value.product(Double { bits: 0x4080_0000_0000_0000 }) == (Double {
            bits: (value.bits + 0x0090_0000_0000_0000) as u64,
        }),
{
    let factor = Double { bits: 0x4080_0000_0000_0000 };
    let raised = Double { bits: (value.bits + 0x0090_0000_0000_0000) as u64 };
    lemma2_to64();
    lemma2_to64_rest();
    lemma_pow2_adds(52, 1031);
    lemma_pow2_adds(9, 1074);
    assert(factor.scale() == 1032 && factor.significand() == 0x10_0000_0000_0000);
    assert(size(units(factor)) == pow2(1083));
    zeros_have_no_units(value);
    let n = size(units(value));
    let m = n * pow2(9);
    assert(n * pow2(1083) == m * pow2(1074)) by (nonlinear_arith)
        requires
            m == n * pow2(9),
            pow2(1083) == pow2(9) * pow2(1074),
    ;
    fractions_can_be_expanded(m, 1, 1, 1074);
    assert(1 * pow2(1074) == pow2(1074));
    assert(raised.exponent() == value.exponent() + 9);
    assert(raised.significand() == value.significand());
    let t = (value.scale() - 1) as nat;
    lemma_pow2_adds(t, 9);
    assert(m == raised.significand() * pow2((raised.scale() - 1) as nat)) by (nonlinear_arith)
        requires
            m == n * pow2(9),
            n == value.significand() * pow2(t),
            raised.significand() == value.significand(),
            pow2((raised.scale() - 1) as nat) == pow2(t) * pow2(9),
    ;
    doubles_are_kept(raised);
}

/// The nearest integer is no more than half away, and within bounds that the quotient is
/// within.
proof fn nearest_is_near(a: int, b: int, low: int, high: int)
    requires
        a >= 0,
        b > 0,
        low * b <= a <= high * b,
    ensures
        -b <= 2 * (nearest(a, b) * b - a) <= b,
        low <= nearest(a, b) <= high,
        nearest(a, b) >= 0,
{
    let q = a / b;
    let r = a % b;
    lemma_fundamental_div_mod(a, b);
    assert(q >= 0) by (nonlinear_arith)
        requires
            q == a / b,
            a >= 0,
            b > 0,
    ;
    assert(q * b == a - r && (q + 1) * b == a - r + b) by (nonlinear_arith)
        requires
            a == b * q + r,
    ;
    assert(q < high || (q == high && r == 0)) by (nonlinear_arith)
        requires
            a == b * q + r,
            0 <= r < b,
            a <= high * b,
    ;
    assert(q >= low) by (nonlinear_arith)
        requires
            a == b * q + r,
            0 <= r < b,
            a >= low * b,
    ;
}

/// What is in excess of 53 bits is just that.
proof fn excess_is_enough(n: nat, d: nat)
    requires
        d > 0,
    ensures
        n < 0x20_0000_0000_0000 * (d * pow2(excess(n, d))),
        excess(n, d) > 0 ==> n >= 0x10_0000_0000_0000 * (d * pow2(excess(n, d))),
    decreases n - d,
{
    lemma2_to64();
    if n < 0x20_0000_0000_0000 * d {
        assert(d * pow2(0) == d) by (nonlinear_arith)
            requires
                pow2(0) == 1,
        ;
    } else {
        excess_is_enough(n, 2 * d);
        let k = excess(n, 2 * d);
        lemma_pow2_unfold(k + 1);
        assert(d * pow2(k + 1) == (2 * d) * pow2(k)) by (nonlinear_arith)
            requires
                pow2(k + 1) == 2 * pow2(k),
        ;
        if k == 0 {
            assert((2 * d) * pow2(0) == 2 * d) by (nonlinear_arith)
                requires
                    pow2(0) == 1,
            ;
        }
    }
}

/// The units of a double by its parts.
proof fn units_by_parts(k: nat, r: nat)
    requires
        r <= 0x20_0000_0000_0000,
        k > 0 ==> r >= 0x10_0000_0000_0000,
        k * 0x10_0000_0000_0000 + r < DOUBLE_INFINITY,
    ensures
        units(of_magnitude(false, (k * 0x10_0000_0000_0000 + r) as int)) == r * pow2(k),
        units(of_magnitude(true, (k * 0x10_0000_0000_0000 + r) as int)) == -(r * pow2(k)),
        of_magnitude(false, (k * 0x10_0000_0000_0000 + r) as int).magnitude() == k
            * 0x10_0000_0000_0000 + r,
        of_magnitude(true, (k * 0x10_0000_0000_0000 + r) as int).magnitude() == k
            * 0x10_0000_0000_0000 + r,
{
    lemma2_to64();
    let value = of_magnitude(false, (k * 0x10_0000_0000_0000 + r) as int);
    let other = of_magnitude(true, (k * 0x10_0000_0000_0000 + r) as int);
    assert(value.magnitude() == other.magnitude());
    if r == 0x20_0000_0000_0000 {
        assert(value.exponent() == k + 2);
        assert(value.significand() == 0x10_0000_0000_0000);
        lemma_pow2_unfold(k + 1);
        assert(value.significand() * pow2(k + 1) == r * pow2(k)) by (nonlinear_arith)
            requires
                pow2(k + 1) == 2 * pow2(k),
                value.significand() == 0x10_0000_0000_0000,
                r == 0x20_0000_0000_0000,
        ;
        assert((value.scale() - 1) as nat == k + 1);
    } else if r >= 0x10_0000_0000_0000 {
        assert(value.exponent() == k + 1);
        assert(value.significand() == r);
        assert((value.scale() - 1) as nat == k);
    } else {
        assert(value.exponent() == 0);
        assert(value.significand() == r);
    }
}

/// How near a rounded fraction is to the exact one, in units of the least positive double:
/// within half a unit where it has no more than 53 bits, else within its part of two to
/// the power of 53. A fraction that is not too large stays finite.
proof fn rounding_is_near(n: nat, d: nat)
    requires
        d > 0,
        n <= d * pow2(2096),
    ensures
        ({
            let m = nearest_magnitude(n, d, 1);
            let r = units(of_magnitude(false, m));
            let e = r * d - n;
            &&& 0 <= m < DOUBLE_INFINITY
            &&& r >= 0
            &&& units(of_magnitude(true, m)) == -r
            &&& n < 0x20_0000_0000_0000 * d ==> -d <= 2 * e <= d
            &&& n >= 0x20_0000_0000_0000 * d ==> -n <= e * 0x20_0000_0000_0000 <= n
            &&& m == 0 ==> r == 0
        }),
{
    lemma2_to64();
    let k = excess(n, d);
    let p = pow2(k);
    lemma_pow2_pos(k);
    excess_is_enough(n, d);
    let b = (d * p) as int;
    assert(b > 0) by (nonlinear_arith)
        requires
            b == d * p,
            d > 0,
            p > 0,
    ;
    if n == 0 {
        assert(k == 0);
        units_by_parts(0, 0);
        assert(0 * pow2(0) == 0);
        assert(0 * d == 0) by (nonlinear_arith);
    } else {
        let r = nearest(n as int, b);
        let low: int = if k > 0 {
            0x10_0000_0000_0000
        } else {
            0
        };
        nearest_is_near(n as int, b, low, 0x20_0000_0000_0000);
        if k >= 2045 {
            lemma_pow2_adds(52, 2044);
            lemma_pow2_pos(2044);
            lemma2_to64_rest();
            if k > 2045 {
                lemma_pow2_strictly_increases(2045, k);
            }
            lemma_pow2_unfold(2045);
            assert(false) by (nonlinear_arith)
                requires
                    n >= 0x10_0000_0000_0000 * b,
                    b == d * p,
                    d > 0,
                    p >= 2 * pow2(2044),
                    n <= d * pow2(2096),
                    pow2(2096) == 0x10_0000_0000_0000 * pow2(2044),
                    pow2(2044) > 0,
            ;
        }
        assert(n * pow2(0) == n) by (nonlinear_arith)
            requires
                pow2(0) == 1,
        ;
        assert(nearest_magnitude(n, d, 1) == k * 0x10_0000_0000_0000 + r);
        units_by_parts(k, r as nat);
        let units_r = r * p;
        assert(units_r * d == r * b && units_r >= 0) by (nonlinear_arith)
            requires
                units_r == r * p,
                b == d * p,
                r >= 0,
                p > 0,
        ;
        if k == 0 {
            assert(b == d) by (nonlinear_arith)
                requires
                    b == d * p,
                    p == 1,
            ;
        } else {
            lemma_pow2_unfold(k);
            lemma_pow2_pos((k - 1) as nat);
            assert(n >= 0x20_0000_0000_0000 * d) by (nonlinear_arith)
                requires
                    n >= 0x10_0000_0000_0000 * b,
                    b == d * p,
                    p >= 2,
                    d > 0,
            ;
        }
    }
}

/// A sum is within its part of two to the power of 53 of the exact sum, and exact where it
/// has no more than 53 bits.
pub proof fn sums_are_near(a: Double, b: Double)
    requires
        a.magnitude() < DOUBLE_INFINITY,
        b.magnitude() < DOUBLE_INFINITY,
        size(units(a) + units(b)) <= pow2(2096),
    ensures
        a.plus(b).magnitude() < DOUBLE_INFINITY,
        size(units(a.plus(b)) - (units(a) + units(b))) * 0x20_0000_0000_0000 <= size(
            units(a) + units(b),
        ),
{
    let sum = units(a) + units(b);
    let n = size(sum);
    assert(1 * pow2(2096) == pow2(2096));
    rounding_is_near(n, 1);
    zeros_have_no_units(of_magnitude(false, 0));
    zeros_have_no_units(of_magnitude(true, 0));
}

/// A product is within its part of two to the power of 53 and half a unit of the exact
/// product. (A unit times a unit is a unit divided by two to the power of 1074.)
pub proof fn products_are_near(a: Double, b: Double)
    requires
        a.magnitude() < DOUBLE_INFINITY,
        b.magnitude() < DOUBLE_INFINITY,
        size(units(a)) * size(units(b)) <= pow2(1074) * pow2(2096),
    ensures
        a.product(b).magnitude() < DOUBLE_INFINITY,
        size(units(a.product(b)) * pow2(1074) - units(a) * units(b)) * 0x20_0000_0000_0000 <= size(
            units(a) * units(b),
        ) + pow2(1074) * 0x10_0000_0000_0000,
{
    let n = size(units(a)) * size(units(b));
    let c = pow2(1074);
    lemma_pow2_pos(1074);
    rounding_is_near(n, c);
    zeros_have_no_units(a);
    zeros_have_no_units(b);
    let exact = units(a) * units(b);
    let m = nearest_magnitude(n, c, 1);
    let r = units(of_magnitude(false, m));
    let p = units(a.product(b));
    assert(n == size(exact) && (exact > 0 ==> a.negative() == b.negative()) && (exact < 0
        ==> a.negative() != b.negative())) by {
        sign_of_a_product(units(a), units(b));
    }
    assert(p == r || p == -r);
    assert((-r) * c == -(r * c)) by (nonlinear_arith);
    if exact == 0 {
        assert(r * c == 0) by (nonlinear_arith)
            requires
                r == 0,
        ;
    }
}

proof fn sign_of_a_product(x: int, y: int)
    ensures
        size(x * y) == size(x) * size(y),
        x * y > 0 ==> (x > 0 && y > 0) || (x < 0 && y < 0),
        x * y < 0 ==> (x > 0 && y < 0) || (x < 0 && y > 0),
{
    assert(size(x * y) == size(x) * size(y)) by (nonlinear_arith)
        requires
            size(x) == if x < 0 { -x } else { x },
            size(y) == if y < 0 { -y } else { y },
            size(x * y) == if x * y < 0 { -(x * y) } else { x * y },
    ;
    assert(x * y > 0 ==> (x > 0 && y > 0) || (x < 0 && y < 0)) by (nonlinear_arith);
    assert(x * y < 0 ==> (x > 0 && y < 0) || (x < 0 && y > 0)) by (nonlinear_arith);
}

/// A quotient times its divisor is within half the divisor, in units, or within its part
/// of two to the power of 53, of the dividend.
pub proof fn quotients_are_near(value: Double, divisor: u32)
    requires
        value.magnitude() < DOUBLE_INFINITY,
        divisor > 0,
        value.exponent() < 2040,
    ensures
        value.over(divisor).magnitude() < DOUBLE_INFINITY,
        size(units(value)) < 0x20_0000_0000_0000 * divisor ==> 2 * size(
            units(value.over(divisor)) * divisor - units(value),
        ) <= divisor,
        size(units(value)) >= 0x20_0000_0000_0000 * divisor ==> size(
            units(value.over(divisor)) * divisor - units(value),
        ) * 0x20_0000_0000_0000 <= size(units(value)),
{
    let t = (value.scale() - 1) as nat;
    let n = size(units(value));
    let d = divisor as nat;
    zeros_have_no_units(value);
    lemma_pow2_pos(t);
    size_by_exponent(value, 2040);
    lemma_pow2_strictly_increases(2092, 2096);
    lemma_pow2_pos(2096);
    assert(n <= d * pow2(2096)) by (nonlinear_arith)
        requires
            n <= pow2(2096),
            d >= 1,
    ;
    rounding_is_near(n, d);
    if value.significand() > 0 {
        powers_are_scales(value.significand() as nat, d, 1, t);
    } else {
        assert(value.significand() * pow2(t) == 0) by (nonlinear_arith)
            requires
                value.significand() == 0,
        ;
    }
    let r = units(of_magnitude(false, nearest_magnitude(n, d, 1)));
    assert((-r) * d == -(r * d)) by (nonlinear_arith);
    if n == 0 {
        assert(r * d == 0) by (nonlinear_arith)
            requires
                r == 0,
        ;
    }
}

/// Numbers that are not too large have not too many units.
pub proof fn size_by_exponent(value: Double, most: nat)
    requires
        value.exponent() <= most < 2047,
        most > 0,
    ensures
        value.magnitude() < DOUBLE_INFINITY,
        size(units(value)) < pow2(most + 52),
{
    lemma2_to64_rest();
    let t = (value.scale() - 1) as nat;
    zeros_have_no_units(value);
    lemma_pow2_pos(t);
    lemma_pow2_adds(53, (most - 1) as nat);
    if t < most - 1 {
        lemma_pow2_strictly_increases(t, (most - 1) as nat);
    }
    assert(value.significand() * pow2(t) < 0x20_0000_0000_0000 * pow2(t)) by (nonlinear_arith)
        requires
            value.significand() < 0x20_0000_0000_0000,
            pow2(t) > 0,
    ;
}

/// The opposite of a finite number lies as far on the other side of zero.
pub proof fn opposites_have_opposite_units(value: Double)
    requires
        value.magnitude() < DOUBLE_INFINITY,
    ensures
        value.opposite().magnitude() == value.magnitude(),
        value.opposite().negative() != value.negative(),
        units(value.opposite()) == -units(value),
{
}

/// Where a whole number of up to 53 bits lies.
pub proof fn whole_numbers_lie_at_their_value(n: u64)
    requires
        n < 0x20_0000_0000_0000,
    ensures
        whole(n).magnitude() < DOUBLE_INFINITY,
        !whole(n).negative(),
        whole(n).exponent() < 1076,
        units(whole(n)) == n * pow2(1074),
{
    if n == 0 {
        zeros_have_no_units(whole(0));
        assert(0 * pow2(1074) == 0);
    } else {
        whole_numbers_by_parts(n);
        let s = shortfall(n as nat, 1);
        lemma_pow2_adds(s, (1074 - s) as nat);
        assert((n * pow2(s)) * pow2((1074 - s) as nat) == n * pow2(1074)) by (nonlinear_arith)
            requires
                pow2(1074) == pow2(s) * pow2((1074 - s) as nat),
        ;
    }
}

/// The order of the factors does not matter.
pub proof fn products_commute(a: Double, b: Double)
    ensures
        a.product(b) == b.product(a),
{
    assert(size(units(a)) * size(units(b)) == size(units(b)) * size(units(a)))
        by (nonlinear_arith);
}

/// Leaving out the fraction leaves the largest whole number that is not above the number.
pub proof fn truncation_rounds_down(value: Double)
    requires
        !value.negative(),
        value.exponent() < 1087,
    ensures
        value.truncated() * pow2(1074) <= units(value) < (value.truncated() + 1) * pow2(1074),
        value.truncated() >= 0,
{
    let e = value.exponent();
    let c = pow2(1074) as int;
    let whole_part = value.truncated();
    if e < 1023 {
        size_by_exponent(value, 1022);
        zeros_have_no_units(value);
        assert(0 * c == 0 && 1 * c == c);
    } else if e >= 1075 {
        let p = pow2((e - 1075) as nat) as int;
        lemma_pow2_adds((e - 1075) as nat, 1074);
        lemma_pow2_pos((e - 1075) as nat);
        lemma_pow2_pos(1074);
        assert(whole_part * c == value.significand() * (p * c) && (whole_part + 1) * c == whole_part
            * c + c && whole_part >= 0) by (nonlinear_arith)
            requires
                whole_part == value.significand() * p,
                p > 0,
                value.significand() >= 0,
        ;
    } else {
        let d = pow2((1075 - e) as nat) as int;
        let p = pow2((e - 1) as nat) as int;
        let s = value.significand();
        lemma_pow2_adds((1075 - e) as nat, (e - 1) as nat);
        lemma_pow2_pos((1075 - e) as nat);
        lemma_pow2_pos((e - 1) as nat);
        lemma_fundamental_div_mod(s, d);
        assert(whole_part * c <= s * p < (whole_part + 1) * c && whole_part >= 0)
            by (nonlinear_arith)
            requires
                s == d * whole_part + s % d,
                0 <= s % d < d,
                whole_part == s / d,
                s >= 0,
                c == d * p,
                p > 0,
        ;
    }
}

/// A time in seconds, counted in samples of a rate, is the rate times the time without
/// the fraction, but for rounding. (The time is in units of the least positive double, of
/// which a second has two to the power of 1074.)
pub proof fn times_in_samples(rate: u32, seconds: Double)
    requires
        !seconds.negative(),
        seconds.exponent() < 1053,
    ensures
        ({
            let count = whole(rate as u64).product(seconds).truncated();
            let exact = rate * units(seconds);
            let second = pow2(1074);
            &&& seconds.product(whole(rate as u64)).truncated() == count
            &&& 0 <= count < 0x8000_0000_0000_0000
            &&& count * second * 0x20_0000_0000_0000 <= exact * 0x20_0000_0000_0001
                + 0x10_0000_0000_0000
            &&& exact * 0x1f_ffff_ffff_ffff < (count + 1) * second * 0x20_0000_0000_0000
                + 0x10_0000_0000_0000
        }),
{
    let factor = whole(rate as u64);
    let product = factor.product(seconds);
    let count = product.truncated();
    let c = pow2(1074);
    let x = units(seconds);
    let exact = rate * x;
    let p = units(product);
    products_commute(factor, seconds);
    whole_numbers_lie_at_their_value(rate as u64);
    size_by_exponent(seconds, 1052);
    zeros_have_no_units(seconds);
    lemma_pow2_pos(1074);
    lemma2_to64();
    lemma2_to64_rest();
    lemma_pow2_adds(30, 1074);
    lemma_pow2_adds(62, 1074);
    lemma_pow2_adds(1074, 2096);
    lemma_pow2_adds(1104, 1106);
    lemma_pow2_strictly_increases(2210, 3170);
    lemma_pow2_adds(32, 1074);
    assert(exact >= 0 && exact < pow2(1136)) by (nonlinear_arith)
        requires
            exact == rate * x,
            0 <= rate <= 0xffff_ffff,
            0 <= x < pow2(1104),
            pow2(1104) == 0x4000_0000 * c,
            pow2(1136) == 0x4000_0000_0000_0000 * c,
    ;
    let a = rate * c;
    assert(a * x == exact * c) by (nonlinear_arith)
        requires
            a == rate * c,
            exact == rate * x,
    ;
    sign_of_a_product(a, x);
    assert(a >= 0 && a <= pow2(1106)) by (nonlinear_arith)
        requires
            a == rate * c,
            0 <= rate <= 0xffff_ffff,
            pow2(1106) == 0x1_0000_0000 * c,
            c > 0,
    ;
    assert(size(a) * size(x) <= pow2(1104) * pow2(1106)) by (nonlinear_arith)
        requires
            0 <= size(a) <= pow2(1106),
            0 <= size(x) <= pow2(1104),
    ;
    products_are_near(factor, seconds);
    // The error of the product, without the factor that both sides have.
    let e = p - exact;
    assert(p * c - exact * c == e * c) by (nonlinear_arith)
        requires
            e == p - exact,
    ;
    sign_of_a_product(e, c as int);
    sign_of_a_product(exact, c as int);
    assert(size(e) * 0x20_0000_0000_0000 <= exact + 0x10_0000_0000_0000) by (nonlinear_arith)
        requires
            (size(e) * c) * 0x20_0000_0000_0000 <= exact * c + c * 0x10_0000_0000_0000,
            c > 0,
    ;
    // The product is below two to the power of 63.
    assert(!product.negative());
    assert(p < 0x8000_0000_0000_0000 * c);
    if product.exponent() >= 1086 {
        let s = product.significand();
        let t = (product.exponent() - 1) as nat;
        lemma_pow2_adds(52, t);
        lemma_pow2_adds(63, 1074);
        if 52 + t > 1137 {
            lemma_pow2_strictly_increases(1137, 52 + t);
        }
        lemma_pow2_pos(t);
        assert(s * pow2(t) >= 0x10_0000_0000_0000 * pow2(t)) by (nonlinear_arith)
            requires
                s >= 0x10_0000_0000_0000,
                pow2(t) > 0,
        ;
    }
    truncation_rounds_down(product);
    assert(count < 0x8000_0000_0000_0000) by (nonlinear_arith)
        requires
            count * c <= p,
            p < 0x8000_0000_0000_0000 * c,
            c > 0,
    ;
}

/// Numbers are ordered as they lie: one is less than another where it lies below it.
pub proof fn the_order_is_that_of_the_values(a: Double, b: Double)
    requires
        a.magnitude() < DOUBLE_INFINITY,
        b.magnitude() < DOUBLE_INFINITY,
    ensures
        a.less(b) == (units(a) < units(b)),
{
    zeros_have_no_units(a);
    zeros_have_no_units(b);
    if a.magnitude() < b.magnitude() {
        sizes_follow_magnitudes(a, b);
    } else if b.magnitude() < a.magnitude() {
        sizes_follow_magnitudes(b, a);
    }
}

/// The larger magnitude has more units.
proof fn sizes_follow_magnitudes(a: Double, b: Double)
    requires
        a.magnitude() < b.magnitude() < DOUBLE_INFINITY,
    ensures
        size(units(a)) < size(units(b)),
{
    zeros_have_no_units(a);
    zeros_have_no_units(b);
    let ta = (a.scale() - 1) as nat;
    let tb = (b.scale() - 1) as nat;
    lemma_pow2_pos(ta);
    lemma_pow2_pos(tb);
    let x = a.significand();
    let y = b.significand();
    if ta == tb {
        assert(x < y);
        assert(x * pow2(ta) < y * pow2(tb)) by (nonlinear_arith)
            requires
                x < y,
                pow2(ta) == pow2(tb),
                pow2(ta) > 0,
        ;
    } else {
        assert(ta < tb);
        lemma_pow2_unfold((ta + 1) as nat);
        if ta + 1 < tb {
            lemma_pow2_strictly_increases((ta + 1) as nat, tb);
        }
        assert(x * pow2(ta) < y * pow2(tb)) by (nonlinear_arith)
            requires
                0 <= x < 0x20_0000_0000_0000,
                y >= 0x10_0000_0000_0000,
                pow2(tb) >= 2 * pow2(ta),
                pow2(ta) > 0,
        ;
    }
}

/// A number from a quarter to four lies at its significand times a power of two. (In units
/// of two to the power of -25, each of which is two to the power of 1049 of the least
/// positive double.)
proof fn speeds_lie_at_their_value(value: Single)
    requires
        0x3e80_0000 <= value.bits <= 0x4080_0000,
    ensures
        value.widened().magnitude() < DOUBLE_INFINITY,
        !value.widened().negative(),
        units(value.widened()) == ((0x80_0000 + value.bits % 0x80_0000) * pow2(
            (value.bits / 0x80_0000 - 125) as nat,
        )) * pow2(1049),
        0x80_0000 <= (0x80_0000 + value.bits % 0x80_0000) * pow2(
            (value.bits / 0x80_0000 - 125) as nat,
        ) <= 0x800_0000,
{
    normal_singles_widen_exactly(value);
    lemma2_to64();
    lemma2_to64_rest();
    let s = (0x80_0000 + value.bits % 0x80_0000) as int;
    let e = (value.bits / 0x80_0000) as int;
    let wide = value.widened();
    assert(wide.exponent() == e + 896);
    assert(wide.significand() == s * 0x2000_0000);
    let t = (e - 125) as nat;
    lemma_pow2_adds(t, 1049);
    lemma_pow2_adds(29, (e + 895) as nat);
    assert((s * 0x2000_0000) * pow2((e + 895) as nat) == (s * pow2(t)) * pow2(1049))
        by (nonlinear_arith)
        requires
            pow2((e + 924) as nat) == 0x2000_0000 * pow2((e + 895) as nat),
            pow2((e + 924) as nat) == pow2(t) * pow2(1049),
    ;
    lemma_pow2_pos(t);
    assert(s * pow2(t) >= s) by (nonlinear_arith)
        requires
            pow2(t) >= 1,
            s >= 0,
    ;
    if e == 129 {
        assert(s * pow2(t) == 0x800_0000) by (nonlinear_arith)
            requires
                s == 0x80_0000,
                pow2(t) == 16,
        ;
    } else {
        if t < 3 {
            lemma_pow2_strictly_increases(t, 3);
        }
        assert(s * pow2(t) <= 0x800_0000) by (nonlinear_arith)
            requires
                0 <= s < 0x100_0000,
                pow2(t) <= 8,
        ;
    }
}

/// How far two numbers from a quarter to four are apart, next to a thousandth: as a single
/// their distance is below it, or above it, where their exact distance is. (In units of two
/// to the power of -25; a thousandth as a single is 8589935 parts in 256 of them.)
pub proof fn thousandths_are_told_apart(a: Single, b: Single)
    requires
        0x3e80_0000 <= a.bits <= 0x4080_0000,
        0x3e80_0000 <= b.bits <= 0x4080_0000,
    ensures
        ({
            let x = (0x80_0000 + a.bits % 0x80_0000) * pow2((a.bits / 0x80_0000 - 125) as nat);
            let y = (0x80_0000 + b.bits % 0x80_0000) * pow2((b.bits / 0x80_0000 - 125) as nat);
            &&& !a.apart(b).not_a_number()
            &&& !a.apart(b).negative()
            &&& (a.apart(b).bits < 0x3a83_126f) == (size(x - y) * 256 < 8589935)
            &&& (a.apart(b).bits > 0x3a83_126f) == (size(x - y) * 256 > 8589935)
        }),
{
    let x = (0x80_0000 + a.bits % 0x80_0000) * pow2((a.bits / 0x80_0000 - 125) as nat);
    let y = (0x80_0000 + b.bits % 0x80_0000) * pow2((b.bits / 0x80_0000 - 125) as nat);
    let p = pow2(1049);
    lemma_pow2_pos(1049);
    lemma2_to64();
    lemma2_to64_rest();
    speeds_lie_at_their_value(a);
    speeds_lie_at_their_value(b);
    opposites_have_opposite_units(b.widened());
    let sum = units(a.widened()) + units(b.widened().opposite());
    let d = size(x - y);
    assert(x * p - y * p == (x - y) * p) by (nonlinear_arith);
    sign_of_a_product(x - y, p as int);
    assert(size(sum) == d * p);
    let difference = a.widened().minus(b.widened());
    if d == 0 {
        assert(sum == 0) by (nonlinear_arith)
            requires
                size(sum) == d * p,
                d == 0,
                sum == 0 || size(sum) > 0,
        ;
        narrowing_keeps_zero(difference);
    } else {
        assert(sum != 0) by (nonlinear_arith)
            requires
                size(sum) == d * p,
                d > 0,
                p > 0,
                sum == 0 ==> size(sum) == 0,
        ;
        powers_are_scales(d, 1, 1, 1049);
        let s = shortfall(d, 1);
        let f = d * pow2(s);
        shortfall_fills_up(d);
        if s < 26 {
            lemma_pow2_strictly_increases(s, 26);
            assert(f < 0x10_0000_0000_0000) by (nonlinear_arith)
                requires
                    f == d * pow2(s),
                    d < 0x800_0000,
                    pow2(s) <= 0x200_0000,
            ;
        }
        if s > 52 {
            if s > 53 {
                lemma_pow2_strictly_increases(53, s);
            }
            assert(f >= 0x20_0000_0000_0000) by (nonlinear_arith)
                requires
                    f == d * pow2(s),
                    d >= 1,
                    pow2(s) >= 0x20_0000_0000_0000,
            ;
        }
        assert(1 * pow2(0) == 1);
        assert(difference.magnitude() == (1049 - s) * 0x10_0000_0000_0000 + f);
        assert(difference.exponent() == 1050 - s);
        narrowing_rounds_to_nearest(difference);
        let m = difference.narrowed().magnitude();
        assert(a.apart(b).bits == m);
        if s == 37 {
            assert(f == d * 256 * 0x2000_0000) by (nonlinear_arith)
                requires
                    f == d * pow2(s),
                    pow2(s) == 0x20_0000_0000,
            ;
        } else if s > 37 {
            if s > 38 {
                lemma_pow2_strictly_increases(38, s);
            }
            assert(d < 0x8000) by (nonlinear_arith)
                requires
                    f == d * pow2(s),
                    f < 0x20_0000_0000_0000,
                    pow2(s) >= 0x40_0000_0000,
            ;
        } else {
            if s < 36 {
                lemma_pow2_strictly_increases(s, 36);
            }
            assert(d >= 0x1_0000) by (nonlinear_arith)
                requires
                    f == d * pow2(s),
                    f >= 0x10_0000_0000_0000,
                    pow2(s) <= 0x10_0000_0000,
            ;
        }
    }
}

} // verus!
