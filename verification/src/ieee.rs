//! IEEE 754 numbers, held by their bit patterns.
//!
//! Opacities, ratios and scale factors pass through the window manager mostly
//! unread. What it does with them (compare, bring into a range, take a share of
//! a width) is done here on the bit patterns, exactly.
use vstd::arithmetic::power2::{lemma_pow2_pos, lemma_pow2_unfold, pow2};
use vstd::prelude::*;

verus! {

/// A single-precision number: `bits` is its IEEE 754 encoding. `==` tells
/// encodings apart; [`Float32::is_equal`] compares the numbers.
#[derive(Debug, Clone, Copy, PartialEq, Eq, Structural)]
pub struct Float32 {
    pub bits: u32,
}

/// A double-precision number: `bits` is its IEEE 754 encoding. `==` tells
/// encodings apart; [`Float64::is_equal`] compares the numbers.
#[derive(Debug, Clone, Copy, PartialEq, Eq, Structural)]
pub struct Float64 {
    pub bits: u64,
}

/// `n` divided by the least power of two, from `unit` on, that leaves under 24
/// bits: that power of two.
pub open spec fn rounding_unit(n: nat, unit: nat) -> nat
    decreases n / unit,
{
    if unit == 0 || n / unit < 0x100_0000 {
        unit
    } else {
        proof {
            vstd::arithmetic::div_mod::lemma_div_denominator(n as int, unit as int, 2);
        }
        rounding_unit(n, unit * 2)
    }
}

/// The integer nearest to `n` that a 24-bit significand holds, ties to the even one.
pub open spec fn round_to_single(n: nat) -> nat {
    let unit = rounding_unit(n, 1);
    let q = n / unit;
    let r = n % unit;
    if 2 * r < unit || (2 * r == unit && q % 2 == 0) {
        q * unit
    } else {
        (q + 1) * unit
    }
}

impl Float32 {
    pub open spec fn is_negative(self) -> bool {
        self.bits >= 0x8000_0000
    }

    /// The encoding without its sign: it grows with the absolute value.
    pub open spec fn magnitude(self) -> int {
        if self.is_negative() {
            self.bits - 0x8000_0000
        } else {
            self.bits as int
        }
    }

    pub open spec fn nan(self) -> bool {
        self.magnitude() > 0x7f80_0000
    }

    /// A whole number that is ordered among its like as the numbers are.
    pub open spec fn rank(self) -> int {
        if self.is_negative() {
            -self.magnitude()
        } else {
            self.magnitude()
        }
    }

    /// `self < other`, as IEEE 754 compares.
    pub open spec fn less(self, other: Float32) -> bool {
        !self.nan() && !other.nan() && self.rank() < other.rank()
    }

    /// `self == other`, as IEEE 754 compares: the two zeros are equal, and NaN
    /// equals nothing.
    pub open spec fn equals(self, other: Float32) -> bool {
        !self.nan() && !other.nan() && self.rank() == other.rank()
    }

    /// The significand, as a whole number.
    pub open spec fn significand(self) -> nat {
        if self.magnitude() < 0x80_0000 {
            self.magnitude() as nat
        } else {
            (self.magnitude() % 0x80_0000 + 0x80_0000) as nat
        }
    }

    /// The power of two that the significand is multiplied by.
    pub open spec fn exponent(self) -> int {
        if self.magnitude() < 0x80_0000 {
            -149
        } else {
            self.magnitude() / 0x80_0000 - 150
        }
    }

    /// `n` times the number, cut to a `u32`: `n` and the product are each
    /// rounded to single precision; what lies outside of `u32` becomes its
    /// nearest end, and NaN becomes 0.
    pub open spec fn share(self, n: u32) -> u32 {
        if self.nan() || self.is_negative() || n == 0 {
            0
        } else if self.magnitude() == 0x7f80_0000 {
            u32::MAX
        } else {
            let product = round_to_single(round_to_single(n as nat) * self.significand());
            if self.exponent() >= 0 {
                let v = product * pow2(self.exponent() as nat);
                if v > u32::MAX { u32::MAX } else { v as u32 }
            } else {
                let v = product / pow2((-self.exponent()) as nat);
                if v > u32::MAX { u32::MAX } else { v as u32 }
            }
        }
    }

    pub fn is_nan(&self) -> (r: bool)
        ensures
            r == self.nan(),
    {
        self.unsigned() > 0x7f80_0000
    }

    fn unsigned(&self) -> (r: u32)
        ensures
            r == self.magnitude(),
    {
        if self.bits >= 0x8000_0000 {
            self.bits - 0x8000_0000
        } else {
            self.bits
        }
    }

    /// Whether this number is less than `other`; never where one is NaN.
    pub fn is_less(&self, other: &Float32) -> (r: bool)
        ensures
            r == self.less(*other),
    {
        if self.is_nan() || other.is_nan() {
            return false;
        }
        let a: i64 = if self.bits >= 0x8000_0000 { -(self.unsigned() as i64) } else { self.unsigned() as i64 };
        let b: i64 = if other.bits >= 0x8000_0000 { -(other.unsigned() as i64) } else { other.unsigned() as i64 };
        a < b
    }

    /// Whether this number equals `other`; never where one is NaN.
    pub fn is_equal(&self, other: &Float32) -> (r: bool)
        ensures
            r == self.equals(*other),
    {
        !self.is_nan() && !other.is_nan() && !self.is_less(other) && !other.is_less(self)
    }

    /// The number, or the end of `low..=high` that it lies beyond. NaN stays.
    pub fn clamped(self, low: Float32, high: Float32) -> (r: Float32)
        requires
            !high.less(low),
        ensures
            r == (if self.less(low) { low } else if high.less(self) { high } else { self }),
    {
        if self.is_less(&low) {
            low
        } else if high.is_less(&self) {
            high
        } else {
            self
        }
    }

    /// The part of `n` that the number is as a ratio, see [`Float32::share`].
    pub fn share_of(&self, n: u32) -> (r: u32)
        ensures
            r == self.share(n),
    {
        if self.is_nan() || self.bits >= 0x8000_0000 || n == 0 {
            return 0;
        }
        if self.bits == 0x7f80_0000 {
            return u32::MAX;
        }
        let significand: u64 = if self.bits < 0x80_0000 {
            self.bits as u64
        } else {
            (self.bits % 0x80_0000) as u64 + 0x80_0000
        };
        let factor: u64 = round_single(n as u64);
        proof {
            lemma_round_bound(n as nat, 0x1_0000_0000);
            assert(factor * significand < 0x100_0000_0000_0000) by (nonlinear_arith)
                requires
                    factor <= 0x1_0000_0000,
                    significand < 0x100_0000,
            ;
        }
        let exact: u64 = factor * significand;
        let product: u64 = round_single(exact);
        proof {
            assert(exact == round_to_single(n as nat) * self.significand());
        }
        if self.bits < 0x80_0000 {
            let v: u64 = halved(product, 149);
            if v > 0xffff_ffff { u32::MAX } else { v as u32 }
        } else {
            let e: u32 = self.bits / 0x80_0000;
            if e >= 150 {
                doubled(product, e - 150)
            } else {
                let v: u64 = halved(product, 150 - e);
                if v > 0xffff_ffff { u32::MAX } else { v as u32 }
            }
        }
    }
}

/// Rounding a number under a power of two stays at or under it.
proof fn lemma_round_bound(n: nat, bound: nat)
    requires
        n < bound,
        bound == 0x1_0000_0000 || bound == 0x100_0000_0000_0000,
    ensures
        round_to_single(n) <= bound,
{
    vstd::arithmetic::power2::lemma2_to64();
    lemma_unit(n, 1, if bound == 0x1_0000_0000 { 8 } else { 32 }, bound);
}

/// The unit that [`rounding_unit`] finds divides `bound`, a power of two above `n`.
proof fn lemma_unit(n: nat, unit: nat, steps: nat, bound: nat)
    requires
        unit > 0,
        n < bound,
        bound == unit * (pow2(steps) * 0x100_0000),
    ensures
        ({
            let u = rounding_unit(n, unit);
            &&& u > 0
            &&& (n / u) * u <= bound
            &&& (n / u + 1) * u <= bound
            &&& u <= unit * pow2(steps)
        }),
    decreases steps,
{
    vstd::arithmetic::div_mod::lemma_fundamental_div_mod(n as int, unit as int);
    lemma_pow2_pos(steps);
    let q = n / unit;
    if q < 0x100_0000 {
        let m = pow2(steps) * 0x100_0000;
        assert(q * unit <= n) by (nonlinear_arith)
            requires
                n == unit * q + n % unit,
                0 <= n % unit,
        ;
        assert(q < m) by (nonlinear_arith)
            requires
                q * unit <= n,
                n < bound,
                bound == unit * m,
                unit > 0,
        ;
        assert((q + 1) * unit <= bound) by (nonlinear_arith)
            requires
                q + 1 <= m,
                bound == unit * m,
                unit > 0,
        ;
        assert(unit <= unit * pow2(steps)) by (nonlinear_arith)
            requires
                pow2(steps) >= 1,
        ;
    } else {
        if steps == 0 {
            vstd::arithmetic::power2::lemma2_to64();
            assert(q < 0x100_0000) by (nonlinear_arith)
                requires
                    n < unit * 0x100_0000,
                    n == unit * q + n % unit,
                    0 <= n % unit,
                    unit > 0,
            ;
        }
        lemma_pow2_unfold(steps);
        let p = pow2((steps - 1) as nat);
        assert(unit * ((2 * p) * 0x100_0000) == (unit * 2) * (p * 0x100_0000)) by (nonlinear_arith);
        assert(unit * (2 * p) == (unit * 2) * p) by (nonlinear_arith);
        lemma_unit(n, unit * 2, (steps - 1) as nat, bound);
    }
}

/// [`round_to_single`], for numbers of up to 56 bits.
fn round_single(n: u64) -> (r: u64)
    requires
        n < 0x100_0000_0000_0000,
    ensures
        r == round_to_single(n as nat),
        r <= 0x100_0000_0000_0000,
{
    proof {
        vstd::arithmetic::power2::lemma2_to64();
        lemma_unit(n as nat, 1, 32, 0x100_0000_0000_0000);
    }
    let mut unit: u64 = 1;
    while n / unit >= 0x100_0000
        invariant
            n < 0x100_0000_0000_0000,
            0 < unit <= 0x2_0000_0000,
            rounding_unit(n as nat, 1) == rounding_unit(n as nat, unit as nat),
        decreases n / unit,
    {
        proof {
            vstd::arithmetic::div_mod::lemma_fundamental_div_mod(n as int, unit as int);
            let q = n as int / unit as int;
            assert(unit < 0x1_0000_0000) by (nonlinear_arith)
                requires
                    n == unit * q + n as int % unit as int,
                    n as int % unit as int >= 0,
                    q >= 0x100_0000,
                    n < 0x100_0000_0000_0000,
            ;
            vstd::arithmetic::div_mod::lemma_div_denominator(n as int, unit as int, 2);
        }
        unit = unit * 2;
    }
    let q: u64 = n / unit;
    let r: u64 = n % unit;
    if 2 * r < unit || (2 * r == unit && q % 2 == 0) {
        q * unit
    } else {
        (q + 1) * unit
    }
}

/// `v` divided by two to the power `k`.
fn halved(v: u64, k: u32) -> (r: u64)
    ensures
        r == v as nat / pow2(k as nat),
{
    let mut rest: u64 = v;
    let mut left: u32 = k;
    while left > 0
        invariant
            rest as nat / pow2(left as nat) == v as nat / pow2(k as nat),
        decreases left,
    {
        proof {
            lemma_pow2_unfold(left as nat);
            lemma_pow2_pos((left - 1) as nat);
            vstd::arithmetic::div_mod::lemma_div_denominator(rest as int, 2, pow2((left - 1) as nat) as int);
        }
        rest = rest / 2;
        left = left - 1;
    }
    proof {
        vstd::arithmetic::power2::lemma2_to64();
        assert(rest as nat / 1 == rest);
    }
    rest
}

/// `v` times two to the power `k`, or the largest `u32` where that is less.
fn doubled(v: u64, k: u32) -> (r: u32)
    requires
        v <= 0x100_0000_0000_0000,
    ensures
        r == (if v as nat * pow2(k as nat) > u32::MAX { u32::MAX as nat } else { v as nat * pow2(k as nat) }),
{
    let mut product: u64 = v;
    let mut left: u32 = k;
    while left > 0 && product <= 0xffff_ffff
        invariant
            product <= 0x100_0000_0000_0000,
            left <= k,
            product as nat * pow2(left as nat) == v as nat * pow2(k as nat),
        decreases left,
    {
        proof {
            lemma_pow2_unfold(left as nat);
            assert(product * (2 * pow2((left - 1) as nat)) == (product * 2) * pow2((left - 1) as nat))
                by (nonlinear_arith);
        }
        product = product * 2;
        left = left - 1;
    }
    proof {
        vstd::arithmetic::power2::lemma2_to64();
        lemma_pow2_pos(left as nat);
        assert(product as nat * pow2(left as nat) >= product) by (nonlinear_arith)
            requires
                pow2(left as nat) >= 1,
        ;
        assert(product as nat * 1 == product);
    }
    if product > 0xffff_ffff {
        u32::MAX
    } else {
        product as u32
    }
}

impl Float64 {
    pub open spec fn is_negative(self) -> bool {
        self.bits >= 0x8000_0000_0000_0000
    }

    /// The encoding without its sign: it grows with the absolute value.
    pub open spec fn magnitude(self) -> int {
        if self.is_negative() {
            self.bits - 0x8000_0000_0000_0000
        } else {
            self.bits as int
        }
    }

    pub open spec fn nan(self) -> bool {
        self.magnitude() > 0x7ff0_0000_0000_0000
    }

    /// A whole number that is ordered among its like as the numbers are.
    pub open spec fn rank(self) -> int {
        if self.is_negative() {
            -self.magnitude()
        } else {
            self.magnitude()
        }
    }

    /// `self < other`, as IEEE 754 compares.
    pub open spec fn less(self, other: Float64) -> bool {
        !self.nan() && !other.nan() && self.rank() < other.rank()
    }

    /// `self == other`, as IEEE 754 compares: the two zeros are equal, and NaN
    /// equals nothing.
    pub open spec fn equals(self, other: Float64) -> bool {
        !self.nan() && !other.nan() && self.rank() == other.rank()
    }

    fn unsigned(&self) -> (r: u64)
        ensures
            r == self.magnitude(),
    {
        if self.bits >= 0x8000_0000_0000_0000 {
            self.bits - 0x8000_0000_0000_0000
        } else {
            self.bits
        }
    }

    pub fn is_nan(&self) -> (r: bool)
        ensures
            r == self.nan(),
    {
        self.unsigned() > 0x7ff0_0000_0000_0000
    }

    /// Whether this number is less than `other`; never where one is NaN.
    pub fn is_less(&self, other: &Float64) -> (r: bool)
        ensures
            r == self.less(*other),
    {
        if self.is_nan() || other.is_nan() {
            return false;
        }
        let a: i128 = if self.bits >= 0x8000_0000_0000_0000 {
            -(self.unsigned() as i128)
        } else {
            self.unsigned() as i128
        };
        let b: i128 = if other.bits >= 0x8000_0000_0000_0000 {
            -(other.unsigned() as i128)
        } else {
            other.unsigned() as i128
        };
        a < b
    }

    /// Whether this number equals `other`; never where one is NaN.
    pub fn is_equal(&self, other: &Float64) -> (r: bool)
        ensures
            r == self.equals(*other),
    {
        !self.is_nan() && !other.is_nan() && !self.is_less(other) && !other.is_less(self)
    }
}

/// The unit that a number is rounded to is no larger than it has to be.
proof fn lemma_unit_needed(n: nat, unit: nat)
    requires
        unit > 0,
    ensures
        rounding_unit(n, unit) > 0,
        rounding_unit(n, unit) == unit || rounding_unit(n, unit) * 0x80_0000 <= n,
    decreases n / unit,
{
    if n / unit >= 0x100_0000 {
        vstd::arithmetic::div_mod::lemma_div_denominator(n as int, unit as int, 2);
        lemma_unit_needed(n, unit * 2);
        vstd::arithmetic::div_mod::lemma_fundamental_div_mod(n as int, unit as int);
        assert(unit * 0x100_0000 <= n) by (nonlinear_arith)
            requires
                n >= unit * (n / unit),
                n / unit >= 0x100_0000,
        ;
    }
}

/// Rounding to single precision changes a number by no more than one part in
/// 2^24, and one of 24 bits not at all.
pub proof fn lemma_rounding_is_close(n: nat)
    ensures
        n < 0x100_0000 ==> round_to_single(n) == n,
        0x100_0000 * round_to_single(n) <= 0x100_0001 * n,
        0x100_0000 * round_to_single(n) >= 0xff_ffff * n,
{
    let u = rounding_unit(n, 1);
    lemma_unit_needed(n, 1);
    let q = n / u;
    let r = n % u;
    vstd::arithmetic::div_mod::lemma_fundamental_div_mod(n as int, u as int);
    vstd::arithmetic::div_mod::lemma_mod_bound(n as int, u as int);
    assert(q * u == u * q && (q + 1) * u == q * u + u) by (nonlinear_arith);
    if n < 0x100_0000 {
        assert(n / 1 == n);
        assert(u == 1);
    }
    if u == 1 {
        assert(r == 0);
    }
}

/// The share of a width that a ratio gives is the width times the ratio, rounded
/// down, but for one part in 2^24. The ratio is given by its encoding `m`: it is
/// the significand `m % 2^23 + 2^23` over two to the power of `k`.
pub proof fn lemma_share_is_product(ratio: Float32, n: u32, k: nat)
    requires
        0x80_0000 <= ratio.bits < 0x4b00_0000,
        n < 0x100_0000,
        ratio.share(n) < u32::MAX,
        k == 150 - ratio.bits / 0x80_0000,
    ensures
        ({
            let sig = ratio.bits % 0x80_0000 + 0x80_0000;
            let r = ratio.share(n);
            &&& 0x100_0000 * (r * pow2(k)) <= 0x100_0001 * (n * sig)
            &&& 0x100_0000 * ((r + 1) * pow2(k)) > 0xff_ffff * (n * sig)
        }),
{
    let sig = ratio.significand();
    let p = pow2(k);
    lemma_pow2_pos(k);
    if n == 0 {
        assert(0 * sig == 0 && 0 * p == 0 && 1 * p == p);
    } else {
        lemma_rounding_is_close(n as nat);
        let whole = n as nat * sig;
        lemma_rounding_is_close(whole);
        let product = round_to_single(whole);
        assert(ratio.exponent() == -k);
        let v = product / p;
        assert(ratio.share(n) == v);
        vstd::arithmetic::div_mod::lemma_fundamental_div_mod(product as int, p as int);
        vstd::arithmetic::div_mod::lemma_mod_bound(product as int, p as int);
        assert(v * p == p * v && (v + 1) * p == v * p + p) by (nonlinear_arith);
    }
}

/// A ratio that is negative or no number gives nothing.
pub proof fn lemma_share_of_nothing(ratio: Float32, n: u32)
    ensures
        ratio.bits >= 0x8000_0000 ==> ratio.share(n) == 0,
        0x7f80_0000 < ratio.bits < 0x8000_0000 ==> ratio.share(n) == 0,
        ratio.share(0) == 0,
{
}

/// Numbers compare by their encodings: with the same sign by the rest of it, the
/// other way round for negative ones, and a negative one is less than one that
/// is not, but for the two zeros.
pub proof fn lemma_compared(a: Float32, b: Float32)
    requires
        a.bits <= 0x7f80_0000 || 0x8000_0000 <= a.bits <= 0xff80_0000,
        b.bits <= 0x7f80_0000 || 0x8000_0000 <= b.bits <= 0xff80_0000,
    ensures
        a.bits < 0x8000_0000 && b.bits < 0x8000_0000 ==> a.less(b) == (a.bits < b.bits),
        a.bits >= 0x8000_0000 && b.bits >= 0x8000_0000 ==> a.less(b) == (a.bits > b.bits),
        a.bits >= 0x8000_0000 && b.bits < 0x8000_0000 ==> a.less(b) == (a.bits > 0x8000_0000 || b.bits > 0),
        a.bits < 0x8000_0000 && b.bits >= 0x8000_0000 ==> !a.less(b),
        a.equals(b) == (!a.less(b) && !b.less(a)),
{
}

} // verus!
