//! Binary floating-point numbers, held by their IEEE 754 bit patterns.
//!
//! The player passes gains, volumes, positions and samples along, compares them,
//! clamps them, narrows doubles to singles and cuts doubles down to integers. All
//! of these are integer computations on the bit patterns, which is what this module
//! states and does.

use vstd::arithmetic::power2::{
    lemma2_to64, lemma2_to64_rest, lemma_pow2_adds, lemma_pow2_pos, lemma_pow2_strictly_increases,
    lemma_pow2_unfold, pow2,
};
use vstd::prelude::*;

verus! {

/// The sign bit of a double.
pub const DOUBLE_SIGN: u64 = 0x8000_0000_0000_0000;

/// The magnitude of an infinite double; what lies above is not a number.
pub const DOUBLE_INFINITY: u64 = 0x7ff0_0000_0000_0000;

/// The weight of the exponent field of a double.
pub const DOUBLE_UNIT: u64 = 0x0010_0000_0000_0000;

/// The sign bit of a single.
pub const SINGLE_SIGN: u32 = 0x8000_0000;

/// The magnitude of an infinite single; what lies above is not a number.
pub const SINGLE_INFINITY: u32 = 0x7f80_0000;

/// The weight of the exponent field of a single.
pub const SINGLE_UNIT: u32 = 0x0080_0000;

/// A double-precision number, held by its bit pattern.
#[derive(Clone, Copy, Debug, PartialEq, Eq, Structural)]
pub struct Double {
    pub bits: u64,
}

/// A single-precision number, held by its bit pattern. A sample of audio is one.
#[derive(Clone, Copy, Debug, PartialEq, Eq, Structural)]
pub struct Single {
    pub bits: u32,
}

/// Positive zero.
#[verifier::allow_in_spec]
pub fn zero() -> Double
    returns
        (Double { bits: 0 }),
{
    Double { bits: 0 }
}

/// A sample of silence: positive zero.
#[verifier::allow_in_spec]
pub fn silence() -> Single
    returns
        (Single { bits: 0 }),
{
    Single { bits: 0 }
}

impl Double {
    /// The sign bit is set.
    pub open spec fn negative(self) -> bool {
        self.bits >= DOUBLE_SIGN
    }

    /// The bit pattern without its sign.
    pub open spec fn magnitude(self) -> int {
        if self.negative() {
            self.bits - DOUBLE_SIGN
        } else {
            self.bits as int
        }
    }

    pub open spec fn not_a_number(self) -> bool {
        self.magnitude() > DOUBLE_INFINITY
    }

    /// Where the number stands among all numbers; the two zeros share a place.
    pub open spec fn rank(self) -> int {
        if self.negative() {
            -self.magnitude()
        } else {
            self.magnitude()
        }
    }

    /// `self < other` as floating-point numbers: never true of what is not a number.
    pub open spec fn less(self, other: Double) -> bool {
        !self.not_a_number() && !other.not_a_number() && self.rank() < other.rank()
    }

    /// What clamping to the range from `low` to `high` leaves of the number.
    pub open spec fn clamped(self, low: Double, high: Double) -> Double {
        if self.less(low) {
            low
        } else if high.less(self) {
            high
        } else {
            self
        }
    }

    /// The number where it is positive, else zero.
    pub open spec fn positive_part(self) -> Double {
        if zero().less(self) {
            self
        } else {
            zero()
        }
    }

    /// The exponent field. The value of a number is its significand times two to
    /// the power of its exponent field less 1075; with a zero exponent field, less
    /// 1074.
    pub open spec fn exponent(self) -> int {
        self.magnitude() / DOUBLE_UNIT as int
    }

    /// The significand, as an integer.
    pub open spec fn significand(self) -> int {
        if self.exponent() == 0 {
            self.magnitude() % DOUBLE_UNIT as int
        } else {
            DOUBLE_UNIT + self.magnitude() % DOUBLE_UNIT as int
        }
    }

    /// The magnitude of the nearest single, ties to even. What is too large becomes
    /// infinite; what is not a number becomes a quiet one that is not.
    pub open spec fn single_magnitude(self) -> int {
        let exponent = self.exponent() - 896;
        if self.not_a_number() {
            SINGLE_INFINITY + 0x0040_0000
        } else if exponent >= 255 {
            SINGLE_INFINITY as int
        } else if exponent >= 1 {
            (exponent - 1) * SINGLE_UNIT + rounded(self.significand(), 29)
        } else {
            rounded(self.significand(), (30 - exponent) as nat)
        }
    }

    /// The nearest single, with the sign of the number.
    pub open spec fn narrowed(self) -> Single {
        Single {
            bits: (self.single_magnitude() + if self.negative() {
                SINGLE_SIGN as int
            } else {
                0
            }) as u32,
        }
    }

    /// The number without its fraction, within the range of `u64`: zero for
    /// negative numbers and for what is not a number.
    pub open spec fn truncated(self) -> int {
        if self.not_a_number() || self.negative() || self.exponent() < 1023 {
            0
        } else if self.exponent() >= 1023 + 64 {
            u64::MAX as int
        } else if self.exponent() >= 1075 {
            self.significand() * pow2((self.exponent() - 1075) as nat)
        } else {
            self.significand() / pow2((1075 - self.exponent()) as nat) as int
        }
    }

    /// Whether the number is below `other`.
    pub fn is_less(self, other: Double) -> (result: bool)
        ensures
            result == self.less(other),
    {
        let a: (bool, i64) = self.place();
        let b: (bool, i64) = other.place();
        a.0 && b.0 && a.1 < b.1
    }

    /// Whether this is a number at all, and its rank.
    pub(crate) fn place(self) -> (result: (bool, i64))
        ensures
            result.0 == !self.not_a_number(),
            result.1 == self.rank(),
    {
        if self.bits >= DOUBLE_SIGN {
            let magnitude: u64 = self.bits - DOUBLE_SIGN;
            (magnitude <= DOUBLE_INFINITY, -(magnitude as i64))
        } else {
            (self.bits <= DOUBLE_INFINITY, self.bits as i64)
        }
    }

    /// The sign, the exponent field and the significand.
    pub(crate) fn parts(self) -> (result: (bool, u64, u64))
        ensures
            result.0 == self.negative(),
            result.1 == self.exponent(),
            result.2 == self.significand(),
            result.1 < 2048,
            result.2 < 2 * DOUBLE_UNIT,
    {
        let negative: bool = self.bits >= DOUBLE_SIGN;
        let magnitude: u64 = if negative {
            self.bits - DOUBLE_SIGN
        } else {
            self.bits
        };
        let exponent: u64 = magnitude / DOUBLE_UNIT;
        let fraction: u64 = magnitude % DOUBLE_UNIT;
        (
            negative,
            exponent,
            if exponent == 0 {
                fraction
            } else {
                DOUBLE_UNIT + fraction
            },
        )
    }

    /// The nearest single, ties to even.
    pub fn to_single(self) -> (result: Single)
        ensures
            result == self.narrowed(),
            result.not_a_number() == self.not_a_number(),
    {
        let (negative, exponent, significand): (bool, u64, u64) = self.parts();
        let number: bool = self.place().0;
        proof {
            lemma2_to64();
        }
        let magnitude: u32 = if !number {
            SINGLE_INFINITY + 0x0040_0000
        } else if exponent >= 1151 {
            SINGLE_INFINITY
        } else if exponent >= 897 {
            let kept: u64 = round_to_even(significand, 29);
            ((exponent - 897) * 0x0080_0000 + kept) as u32
        } else {
            let kept: u64 = round_to_even(significand, (926 - exponent) as u32);
            kept as u32
        };
        Single {
            bits: if negative {
                magnitude + SINGLE_SIGN
            } else {
                magnitude
            },
        }
    }

    /// The number without its fraction, within the range of `u64`.
    pub fn to_u64(self) -> (result: u64)
        ensures
            result == self.truncated(),
    {
        let (negative, exponent, significand): (bool, u64, u64) = self.parts();
        if !self.place().0 || negative || exponent < 1023 {
            0
        } else if exponent >= 1087 {
            u64::MAX
        } else if exponent >= 1075 {
            proof {
                lemma2_to64();
                if exponent < 1086 {
                    lemma_pow2_strictly_increases((exponent - 1075) as nat, 11);
                }
                assert(significand * pow2((exponent - 1075) as nat) <= u64::MAX)
                    by (nonlinear_arith)
                    requires
                        significand < 0x20_0000_0000_0000,
                        pow2((exponent - 1075) as nat) <= 2048,
                ;
            }
            significand * power_of_two((exponent - 1075) as u32)
        } else {
            let divisor: u64 = power_of_two((1075 - exponent) as u32);
            proof {
                lemma_pow2_pos((1075 - exponent) as nat);
            }
            significand / divisor
        }
    }

    /// The number, brought into the range from `low` to `high`. What is not a
    /// number stays as it is.
    pub fn clamp(self, low: Double, high: Double) -> (result: Double)
        requires
            !low.not_a_number(),
            !high.not_a_number(),
            low.rank() <= high.rank(),
        ensures
            result == self.clamped(low, high),
    {
        if self.is_less(low) {
            low
        } else if high.is_less(self) {
            high
        } else {
            self
        }
    }

    /// Whether the number is above zero.
    pub fn is_positive(self) -> (result: bool)
        ensures
            result == zero().less(self),
    {
        zero().is_less(self)
    }

    /// The number where it is positive, else zero; zero for what is not a number.
    pub fn max_zero(self) -> (result: Double)
        ensures
            result == self.positive_part(),
    {
        if self.is_positive() {
            self
        } else {
            zero()
        }
    }
}

impl Single {
    /// The sign bit is set.
    pub open spec fn negative(self) -> bool {
        self.bits >= SINGLE_SIGN
    }

    /// The bit pattern without its sign.
    pub open spec fn magnitude(self) -> int {
        if self.negative() {
            self.bits - SINGLE_SIGN
        } else {
            self.bits as int
        }
    }

    pub open spec fn not_a_number(self) -> bool {
        self.magnitude() > SINGLE_INFINITY
    }

    /// Where the number stands among all numbers; the two zeros share a place.
    pub open spec fn rank(self) -> int {
        if self.negative() {
            -self.magnitude()
        } else {
            self.magnitude()
        }
    }

    /// `self < other` as floating-point numbers: never true of what is not a number.
    pub open spec fn less(self, other: Single) -> bool {
        !self.not_a_number() && !other.not_a_number() && self.rank() < other.rank()
    }

    /// What clamping to the range from `low` to `high` leaves of the number.
    pub open spec fn clamped(self, low: Single, high: Single) -> Single {
        if self.less(low) {
            low
        } else if high.less(self) {
            high
        } else {
            self
        }
    }

    /// Whether this is a number at all, and its rank.
    fn place(self) -> (result: (bool, i32))
        ensures
            result.0 == !self.not_a_number(),
            result.1 == self.rank(),
    {
        if self.bits >= SINGLE_SIGN {
            let magnitude: u32 = self.bits - SINGLE_SIGN;
            (magnitude <= SINGLE_INFINITY, -(magnitude as i32))
        } else {
            (self.bits <= SINGLE_INFINITY, self.bits as i32)
        }
    }

    /// Whether the number is below `other`.
    pub fn is_less(self, other: Single) -> (result: bool)
        ensures
            result == self.less(other),
    {
        let a: (bool, i32) = self.place();
        let b: (bool, i32) = other.place();
        a.0 && b.0 && a.1 < b.1
    }

    /// The number, brought into the range from `low` to `high`. What is not a
    /// number stays as it is.
    pub fn clamp(self, low: Single, high: Single) -> (result: Single)
        requires
            !low.not_a_number(),
            !high.not_a_number(),
            low.rank() <= high.rank(),
        ensures
            result == self.clamped(low, high),
    {
        if self.is_less(low) {
            low
        } else if high.is_less(self) {
            high
        } else {
            self
        }
    }
}

/// The integer nearest to `a / b`, ties to even.
pub open spec fn nearest(a: int, b: int) -> int {
    let quotient = a / b;
    let rest = a % b;
    if 2 * rest > b || (2 * rest == b && quotient % 2 == 1) {
        quotient + 1
    } else {
        quotient
    }
}

/// `n` divided by two to the power of `shift`, rounded to the nearest integer, ties
/// to even.
pub open spec fn rounded(n: int, shift: nat) -> int {
    nearest(n, pow2(shift) as int)
}

/// Two to the power of `exponent`.
pub(crate) fn power_of_two(exponent: u32) -> (result: u64)
    requires
        exponent < 64,
    ensures
        result == pow2(exponent as nat),
{
    let mut power: u64 = 1;
    let mut i: u32 = 0;
    proof {
        lemma2_to64();
    }
    while i < exponent
        invariant
            i <= exponent < 64,
            power == pow2(i as nat),
        decreases exponent - i,
    {
        proof {
            lemma_pow2_unfold((i + 1) as nat);
            lemma2_to64();
            lemma2_to64_rest();
            if i + 1 < 63 {
                lemma_pow2_strictly_increases((i + 1) as nat, 63);
            }
        }
        power = power * 2;
        i = i + 1;
    }
    power
}

/// A significand without its last `shift` bits, rounded to nearest, ties to even.
fn round_to_even(n: u64, shift: u32) -> (result: u64)
    requires
        n < 2 * DOUBLE_UNIT,
        shift >= 29,
    ensures
        result == rounded(n as int, shift as nat),
        result <= 0x0100_0000,
        shift >= 30 ==> result <= 0x0080_0000,
{
    proof {
        lemma2_to64();
        lemma2_to64_rest();
        if shift > 54 {
            lemma_pow2_strictly_increases(54, shift as nat);
        }
        if shift > 30 {
            lemma_pow2_strictly_increases(30, shift as nat);
        }
    }
    if shift >= 54 {
        assert(n as int / pow2(shift as nat) as int == 0 && n as int % pow2(shift as nat) as int
            == n) by (nonlinear_arith)
            requires
                0 <= n < pow2(shift as nat),
        ;
        return 0;
    }
    let divisor: u64 = power_of_two(shift);
    proof {
        lemma_pow2_strictly_increases(shift as nat, 54);
    }
    let quotient: u64 = n / divisor;
    let rest: u64 = n % divisor;
    assert(quotient < 0x0100_0000 && (shift >= 30 ==> quotient < 0x0080_0000)) by (nonlinear_arith)
        requires
            n < 0x20_0000_0000_0000,
            divisor >= 0x2000_0000,
            shift >= 30 ==> divisor >= 0x4000_0000,
            quotient == n / divisor,
    ;
    if 2 * rest > divisor || (2 * rest == divisor && quotient % 2 == 1) {
        quotient + 1
    } else {
        quotient
    }
}

/// A clamped number lies in the range, wherever it was a number before.
pub proof fn clamped_lies_in_range(value: Double, low: Double, high: Double)
    requires
        !value.not_a_number(),
        !low.not_a_number(),
        !high.not_a_number(),
        low.rank() <= high.rank(),
    ensures
        !value.clamped(low, high).not_a_number(),
        low.rank() <= value.clamped(low, high).rank() <= high.rank(),
{
}

/// Clamping keeps what already lies in the range, so clamping twice is clamping once.
pub proof fn clamping_is_idempotent(value: Double, low: Double, high: Double)
    requires
        !low.not_a_number(),
        !high.not_a_number(),
        low.rank() <= high.rank(),
    ensures
        value.clamped(low, high).clamped(low, high) == value.clamped(low, high),
{
}

/// Clamping keeps the order of numbers.
pub proof fn clamping_is_monotonic(a: Double, b: Double, low: Double, high: Double)
    requires
        !a.not_a_number(),
        !b.not_a_number(),
        !low.not_a_number(),
        !high.not_a_number(),
        low.rank() <= high.rank(),
        a.rank() <= b.rank(),
    ensures
        a.clamped(low, high).rank() <= b.clamped(low, high).rank(),
{
}

/// Rounding keeps order.
proof fn rounding_is_monotonic(a: int, b: int, shift: nat)
    requires
        0 <= a <= b,
    ensures
        rounded(a, shift) <= rounded(b, shift),
{
    lemma_pow2_pos(shift);
    let d = pow2(shift) as int;
    assert(a / d <= b / d && (a / d == b / d ==> a % d <= b % d)) by (nonlinear_arith)
        requires
            0 <= a <= b,
            d > 0,
    ;
}

/// A number that a single can hold keeps its value when narrowed: the double with
/// the exponent and fraction of a normal single becomes that single.
pub proof fn narrowing_keeps_singles(exponent: int, fraction: int, negative: bool)
    requires
        1 <= exponent < 255,
        0 <= fraction < SINGLE_UNIT,
    ensures
        ({
            let sign = if negative {
                1int
            } else {
                0int
            };
            let wide = Double {
                bits: (sign * DOUBLE_SIGN + (exponent + 896) * DOUBLE_UNIT + fraction
                    * 0x2000_0000) as u64,
            };
            wide.narrowed() == Single {
                bits: (sign * SINGLE_SIGN + exponent * SINGLE_UNIT + fraction) as u32,
            }
        }),
{
    lemma2_to64();
}

/// A quotient between two integers is rounded to something between them.
proof fn rounding_is_bounded(n: int, shift: nat, m: int)
    requires
        0 <= n,
        0 <= m,
    ensures
        n <= m * pow2(shift) ==> rounded(n, shift) <= m,
        n >= m * pow2(shift) ==> rounded(n, shift) >= m,
{
    lemma_pow2_pos(shift);
    let d = pow2(shift) as int;
    let q = n / d;
    let r = n % d;
    assert(n == q * d + r && 0 <= r < d) by (nonlinear_arith)
        requires
            d > 0,
            q == n / d,
            r == n % d,
    ;
    if n <= m * d {
        assert(q < m || (q == m && r == 0)) by (nonlinear_arith)
            requires
                n == q * d + r,
                0 <= r < d,
                n <= m * d,
        ;
    }
    if n >= m * d {
        assert(q >= m) by (nonlinear_arith)
            requires
                n == q * d + r,
                0 <= r < d,
                n >= m * d,
        ;
    }
}

/// Narrowing keeps the order of magnitudes.
proof fn narrowing_keeps_magnitude_order(a: Double, b: Double)
    requires
        !a.not_a_number(),
        !b.not_a_number(),
        a.magnitude() <= b.magnitude(),
    ensures
        0 <= a.single_magnitude() <= b.single_magnitude() <= SINGLE_INFINITY,
{
    lemma2_to64();
    let ea = a.exponent() - 896;
    let eb = b.exponent() - 896;
    let na = a.significand();
    let nb = b.significand();
    assert(ea <= eb);
    assert(ea == eb ==> na <= nb);
    if ea >= 1 {
        rounding_is_bounded(na, 29, 0x0100_0000);
        rounding_is_bounded(na, 29, 0x0080_0000);
    } else {
        let shift = (30 - ea) as nat;
        if shift > 30 {
            lemma_pow2_strictly_increases(30, shift);
        }
        assert(na <= 0x0080_0000 * pow2(shift)) by (nonlinear_arith)
            requires
                na < 0x20_0000_0000_0000,
                pow2(shift) >= 0x4000_0000,
        ;
        rounding_is_bounded(na, shift, 0x0080_0000);
        rounding_is_bounded(na, shift, 0);
    }
    if eb >= 1 {
        rounding_is_bounded(nb, 29, 0x0100_0000);
        rounding_is_bounded(nb, 29, 0x0080_0000);
    } else {
        let shift = (30 - eb) as nat;
        if shift > 30 {
            lemma_pow2_strictly_increases(30, shift);
        }
        assert(nb <= 0x0080_0000 * pow2(shift)) by (nonlinear_arith)
            requires
                nb < 0x20_0000_0000_0000,
                pow2(shift) >= 0x4000_0000,
        ;
        rounding_is_bounded(nb, shift, 0x0080_0000);
        rounding_is_bounded(nb, shift, 0);
    }
    if ea == eb {
        if ea >= 1 {
            rounding_is_monotonic(na, nb, 29);
        } else {
            rounding_is_monotonic(na, nb, (30 - ea) as nat);
        }
    } else if eb < 1 {
        small_numbers_stay_ordered(na, (30 - ea) as nat, nb, (30 - eb) as nat);
    }
}

/// A zero stays a zero of its sign.
pub proof fn narrowing_keeps_zero(value: Double)
    ensures
        value.magnitude() == 0 ==> value.single_magnitude() == 0,
{
    lemma_pow2_pos(926);
    let divisor = pow2(926) as int;
    assert(0int / divisor == 0 && 0int % divisor == 0) by (nonlinear_arith)
        requires
            divisor > 0,
    ;
}

/// Narrowing keeps the order of numbers, and numbers stay numbers.
pub proof fn narrowing_is_monotonic(a: Double, b: Double)
    requires
        !a.not_a_number(),
        !b.not_a_number(),
        a.rank() <= b.rank(),
    ensures
        !a.narrowed().not_a_number(),
        !b.narrowed().not_a_number(),
        a.narrowed().rank() <= b.narrowed().rank(),
{
    narrowing_keeps_magnitude_order(a, a);
    narrowing_keeps_magnitude_order(b, b);
    narrowing_keeps_zero(a);
    narrowing_keeps_zero(b);
    if a.magnitude() <= b.magnitude() {
        narrowing_keeps_magnitude_order(a, b);
    } else {
        narrowing_keeps_magnitude_order(b, a);
    }
}

/// Of two numbers below the normal singles, the one with the lower exponent is
/// rounded to no more than the other.
proof fn small_numbers_stay_ordered(na: int, sa: nat, nb: int, sb: nat)
    requires
        0 <= na < 2 * DOUBLE_UNIT,
        DOUBLE_UNIT <= nb,
        30 <= sb < sa,
    ensures
        rounded(na, sa) <= rounded(nb, sb),
{
    lemma2_to64();
    lemma2_to64_rest();
    rounding_is_bounded(nb, sb, 0);
    if sa >= 54 {
        if sa > 54 {
            lemma_pow2_strictly_increases(54, sa);
        }
        assert(na / pow2(sa) as int == 0 && na % pow2(sa) as int == na) by (nonlinear_arith)
            requires
                0 <= na < pow2(sa),
        ;
    } else {
        let m = pow2((53 - sa) as nat) as int;
        lemma_pow2_adds((53 - sa) as nat, sa);
        rounding_is_bounded(na, sa, m);
        lemma_pow2_adds((53 - sa) as nat, sb);
        if sb + 1 < sa {
            lemma_pow2_strictly_increases((53 - sa + sb) as nat, 52);
        }
        rounding_is_bounded(nb, sb, m);
    }
}

/// Clamping keeps what is in the range, and gives the nearer end for what is not. What is
/// not a number stays as it is.
pub proof fn clamping_keeps_what_is_in_range(value: Double, low: Double, high: Double)
    requires
        !low.not_a_number(),
        !high.not_a_number(),
        low.rank() <= high.rank(),
    ensures
        value.not_a_number() ==> value.clamped(low, high) == value,
        !value.not_a_number() && low.rank() <= value.rank() <= high.rank() ==> value.clamped(
            low,
            high,
        ) == value,
        !value.not_a_number() && value.rank() < low.rank() ==> value.clamped(low, high) == low,
        !value.not_a_number() && value.rank() > high.rank() ==> value.clamped(low, high) == high,
{
}

/// The positive part of a number above zero is the number, and zero for all others.
pub proof fn positive_parts_are_kept(value: Double)
    ensures
        0 < value.bits <= 0x7ff0_0000_0000_0000 ==> value.positive_part() == value,
        value.bits == 0 || value.bits > 0x7ff0_0000_0000_0000 ==> value.positive_part().bits == 0,
{
}

/// Narrowing leaves out the last 29 bits and rounds to nearest: the single is no more than
/// half of its last place away. The sign is kept. (The numbers are those that singles have
/// all their bits for.)
pub proof fn narrowing_rounds_to_nearest(value: Double)
    requires
        897 <= value.exponent() < 1150,
    ensures
        value.narrowed().negative() == value.negative(),
        -0x1000_0000 <= value.narrowed().magnitude() * 0x2000_0000 - (value.magnitude() - 896
            * 0x10_0000_0000_0000) <= 0x1000_0000,
{
    lemma2_to64();
    let s = value.significand();
    let b = 0x2000_0000int;
    assert(pow2(29) == 0x2000_0000);
    let q = s / b;
    let r = s % b;
    assert(s == b * q + r && 0 <= r < b);
    assert(nearest(s, b) == q || nearest(s, b) == q + 1);
    assert(q >= 0x80_0000 && q <= 0xff_ffff);
}

} // verus!
