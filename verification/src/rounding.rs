//! Conversions between number formats: of a whole number to double precision,
//! and from double to single precision. Each rounds to the nearest number of
//! the new format, ties to the one with an even significand.
use crate::ieee::{Float32, Float64};
use vstd::arithmetic::div_mod::lemma_fundamental_div_mod;
use vstd::arithmetic::power2::{lemma_pow2_pos, lemma_pow2_unfold, pow2};
use vstd::prelude::*;

verus! {

/// The whole number nearest to `n / unit`, ties to the even one.
pub open spec fn nearest(n: nat, unit: nat) -> nat {
    let q = n / unit;
    let r = n % unit;
    if 2 * r < unit || (2 * r == unit && q % 2 == 0) {
        q
    } else {
        q + 1
    }
}

/// The position of the highest bit of a positive number.
pub open spec fn highest_bit(n: nat) -> nat
    decreases n,
{
    if n <= 1 {
        0
    } else {
        1 + highest_bit(n / 2)
    }
}

proof fn lemma_highest_bit(n: nat, e: nat)
    requires
        pow2(e) <= n < pow2(e + 1),
    ensures
        highest_bit(n) == e,
    decreases e,
{
    vstd::arithmetic::power2::lemma2_to64();
    if e > 0 {
        lemma_pow2_unfold(e);
        lemma_pow2_unfold(e + 1);
        lemma_pow2_pos((e - 1) as nat);
        lemma_highest_bit(n / 2, (e - 1) as nat);
    }
}

/// The encoding of the number nearest to `size`: its highest bit gives the
/// exponent, and it is rounded to the 53 bits of a significand.
pub open spec fn double_magnitude(size: nat) -> nat {
    let e = highest_bit(size);
    if size == 0 {
        0
    } else if e <= 52 {
        (1022 + e) * 0x10_0000_0000_0000 + size * pow2((52 - e) as nat)
    } else {
        (1022 + e) * 0x10_0000_0000_0000 + nearest(size, pow2((e - 52) as nat))
    }
}

impl Float64 {
    /// The number nearest to a whole number of up to 64 bits.
    pub open spec fn of_whole(n: int) -> Float64 {
        if n < 0 {
            Float64 { bits: (0x8000_0000_0000_0000 + double_magnitude((-n) as nat)) as u64 }
        } else {
            Float64 { bits: double_magnitude(n as nat) as u64 }
        }
    }

    /// The significand, as a whole number.
    pub open spec fn significand(self) -> nat {
        if self.magnitude() < 0x10_0000_0000_0000 {
            self.magnitude() as nat
        } else {
            (self.magnitude() % 0x10_0000_0000_0000 + 0x10_0000_0000_0000) as nat
        }
    }

    /// The power of two that the significand is multiplied by.
    pub open spec fn exponent(self) -> int {
        if self.magnitude() < 0x10_0000_0000_0000 {
            -1074
        } else {
            self.magnitude() / 0x10_0000_0000_0000 - 1075
        }
    }

    /// Whether the absolute value is `m` times two to the power `k`.
    pub open spec fn is_scaled(self, m: nat, k: nat) -> bool {
        if self.exponent() >= k {
            self.significand() * pow2((self.exponent() - k) as nat) == m
        } else {
            self.significand() == m * pow2((k - self.exponent()) as nat)
        }
    }

    /// Whether this is the number nearest to a whole number: for some power of
    /// two that leaves no more than the 53 bits of a significand, and no fewer
    /// if it is not 1, it is the multiple of it nearest to `n`.
    pub open spec fn is_nearest(self, n: int) -> bool {
        let size = if n < 0 { (-n) as nat } else { n as nat };
        &&& self.is_negative() == (n < 0)
        &&& self.magnitude() < 0x7ff0_0000_0000_0000
        &&& exists|k: nat|
            {
                &&& size < 0x20_0000_0000_0000 * #[trigger] pow2(k)
                &&& k > 0 ==> size >= 0x10_0000_0000_0000 * pow2(k)
                &&& self.is_scaled(nearest(size, pow2(k)), k)
            }
    }

    /// The number nearest to a whole number.
    pub fn of_i64(n: i64) -> (r: Float64)
        ensures
            r == Self::of_whole(n as int),
            r.is_nearest(n as int),
    {
        proof {
            vstd::arithmetic::power2::lemma2_to64();
        }
        if n == 0 {
            let r = Float64 { bits: 0 };
            proof {
                lemma_pow2_pos(1074);
                assert(0 * pow2(1074) == 0) by (nonlinear_arith);
                assert(nearest(0, pow2(0)) == 0);
                assert(r.is_scaled(nearest(0, pow2(0)), 0));
            }
            return r;
        }
        let negative: bool = n < 0;
        let size: u64 = if negative { (-(n as i128)) as u64 } else { n as u64 };
        let bits: u64 = if size < 0x20_0000_0000_0000 { encode_small(size) } else { encode_large(size) };
        let r = Float64 { bits: if negative { bits + 0x8000_0000_0000_0000 } else { bits } };
        proof {
            let plain = Float64 { bits };
            assert(r.magnitude() == plain.magnitude());
            let k = choose|k: nat|
                {
                    &&& size < 0x20_0000_0000_0000 * #[trigger] pow2(k)
                    &&& k > 0 ==> size >= 0x10_0000_0000_0000 * pow2(k)
                    &&& plain.is_scaled(nearest(size as nat, pow2(k)), k)
                };
            assert(r.is_scaled(nearest(size as nat, pow2(k)), k));
        }
        r
    }
}

/// Where the highest bit is of a number that has to be doubled `shift` times to
/// fill a significand.
proof fn lemma_first_bit(size: nat, shift: nat)
    requires
        shift <= 52,
        0x10_0000_0000_0000 <= size * pow2(shift) < 0x20_0000_0000_0000,
    ensures
        highest_bit(size) == 52 - shift,
{
    let e = (52 - shift) as nat;
    vstd::arithmetic::power2::lemma2_to64_rest();
    vstd::arithmetic::power2::lemma_pow2_adds(e, shift);
    vstd::arithmetic::power2::lemma_pow2_adds(e + 1, shift);
    lemma_pow2_pos(shift);
    let p = pow2(shift);
    let low = pow2(e);
    let high = pow2(e + 1);
    assert(low <= size < high) by (nonlinear_arith)
        requires
            low * p <= size * p < high * p,
            p > 0,
    ;
    lemma_highest_bit(size, e);
}

/// Where the highest bit is of a number that has to be halved `shift` times to
/// fit a significand.
proof fn lemma_last_bit(size: nat, shift: nat)
    requires
        0x10_0000_0000_0000 * pow2(shift) <= size < 0x20_0000_0000_0000 * pow2(shift),
    ensures
        highest_bit(size) == 52 + shift,
{
    vstd::arithmetic::power2::lemma2_to64_rest();
    vstd::arithmetic::power2::lemma_pow2_adds(52, shift);
    vstd::arithmetic::power2::lemma_pow2_adds(53, shift);
    lemma_highest_bit(size, 52 + shift);
}

/// The encoding of a number that fits a significand.
fn encode_small(size: u64) -> (bits: u64)
    requires
        0 < size < 0x20_0000_0000_0000,
    ensures
        bits < 0x7ff0_0000_0000_0000,
        bits == double_magnitude(size as nat),
        (Float64 { bits }).is_nearest(size as int),
{
    let mut significand: u64 = size;
    let mut shift: u64 = 0;
    proof {
        vstd::arithmetic::power2::lemma2_to64();
        assert(size * pow2(0) == size);
    }
    while significand < 0x10_0000_0000_0000
        invariant
            0 < size,
            0 < significand < 0x20_0000_0000_0000,
            significand == size * pow2(shift as nat),
            shift <= 52,
        decreases 0x20_0000_0000_0000 - significand,
    {
        proof {
            lemma_pow2_unfold((shift + 1) as nat);
            assert(size * (2 * pow2(shift as nat)) == 2 * (size * pow2(shift as nat))) by (nonlinear_arith);
            if shift == 52 {
                vstd::arithmetic::power2::lemma2_to64_rest();
                assert(size * pow2(52) >= pow2(52)) by (nonlinear_arith)
                    requires
                        size > 0,
                ;
            }
        }
        significand = significand * 2;
        shift = shift + 1;
    }
    let bits: u64 = (1075 - shift) * 0x10_0000_0000_0000 + (significand - 0x10_0000_0000_0000);
    proof {
        let r = Float64 { bits };
        let high = 1075 - shift;
        let low = significand - 0x10_0000_0000_0000;
        assert(bits == high * 0x10_0000_0000_0000 + low);
        assert(r.magnitude() == bits);
        assert(bits / 0x10_0000_0000_0000 == high && bits % 0x10_0000_0000_0000 == low);
        assert(r.significand() == significand);
        assert(r.exponent() == -shift);
        vstd::arithmetic::power2::lemma2_to64();
        lemma_first_bit(size as nat, shift as nat);
        assert(nearest(size as nat, pow2(0)) == size);
        assert(r.is_scaled(nearest(size as nat, pow2(0)), 0)) by {
            if shift == 0 {
                assert(r.significand() * pow2(0) == size);
            }
        }
    }
    bits
}

/// The encoding of a number with more bits than a significand.
fn encode_large(size: u64) -> (bits: u64)
    requires
        0x20_0000_0000_0000 <= size <= 0x8000_0000_0000_0000,
    ensures
        bits < 0x7ff0_0000_0000_0000,
        bits == double_magnitude(size as nat),
        (Float64 { bits }).is_nearest(size as int),
{
    let mut unit: u64 = 1;
    let mut shift: u64 = 0;
    proof {
        vstd::arithmetic::power2::lemma2_to64();
    }
    while size / unit >= 0x20_0000_0000_0000
        invariant
            0x20_0000_0000_0000 <= size <= 0x8000_0000_0000_0000,
            0 < unit <= 0x800,
            unit == pow2(shift as nat),
            shift <= 11,
            size >= 0x10_0000_0000_0000 * unit,
        decreases 0x1000 - unit,
    {
        proof {
            lemma_fundamental_div_mod(size as int, unit as int);
            assert(size >= 0x20_0000_0000_0000 * unit) by (nonlinear_arith)
                requires
                    size == unit * (size as int / unit as int) + size as int % unit as int,
                    size as int % unit as int >= 0,
                    size as int / unit as int >= 0x20_0000_0000_0000,
                    unit > 0,
            ;
            vstd::arithmetic::power2::lemma2_to64();
            lemma_pow2_unfold((shift + 1) as nat);
        }
        unit = unit * 2;
        shift = shift + 1;
    }
    let q: u64 = size / unit;
    let r: u64 = size % unit;
    proof {
        lemma_fundamental_div_mod(size as int, unit as int);
        assert(size < 0x20_0000_0000_0000 * unit) by (nonlinear_arith)
            requires
                size == unit * q + r,
                r < unit,
                q < 0x20_0000_0000_0000,
        ;
        assert(q >= 0x10_0000_0000_0000) by (nonlinear_arith)
            requires
                size == unit * q + r,
                r < unit,
                size >= 0x10_0000_0000_0000 * unit,
        ;
    }
    let rounded: u64 = if 2 * r < unit || (2 * r == unit && q % 2 == 0) { q } else { q + 1 };
    let bits: u64 = (1074 + shift) * 0x10_0000_0000_0000 + rounded;
    proof {
        let f = Float64 { bits };
        lemma_last_bit(size as nat, shift as nat);
        assert(rounded == nearest(size as nat, pow2(shift as nat)));
        assert(f.magnitude() == bits);
        if rounded < 0x20_0000_0000_0000 {
            assert(bits / 0x10_0000_0000_0000 == 1075 + shift);
            assert(f.significand() == rounded);
            assert(f.exponent() == shift);
            vstd::arithmetic::power2::lemma2_to64();
            assert((f.exponent() - shift as nat) as nat == 0);
            assert(f.significand() * pow2(0) == rounded);
        } else {
            assert(bits / 0x10_0000_0000_0000 == 1076 + shift);
            assert(f.significand() == 0x10_0000_0000_0000);
            assert(f.exponent() == shift + 1);
            vstd::arithmetic::power2::lemma2_to64();
            assert((f.exponent() - shift as nat) as nat == 1);
            assert(f.significand() * pow2(1) == rounded);
        }
        assert(f.is_scaled(nearest(size as nat, pow2(shift as nat)), shift as nat));
    }
    bits
}

// ---- From double to single precision ---------------------------------------

impl Float64 {
    /// How many bits of the significand single precision leaves out.
    pub open spec fn surplus(self) -> nat {
        if self.exponent() >= -178 {
            29
        } else {
            (-149 - self.exponent()) as nat
        }
    }

    /// The number without its sign, to the precision of [`Float32`]: its
    /// encoding. Where an exponent is too low for a full significand, fewer
    /// bits are left; where it is too high, the result is infinite.
    pub open spec fn single_magnitude(self) -> nat {
        let kept = nearest(self.significand(), pow2(self.surplus()));
        let encoded = (self.exponent() + self.surplus() + 149) * 0x80_0000 + kept;
        if self.magnitude() >= 0x7ff0_0000_0000_0000 || encoded > 0x7f80_0000 {
            0x7f80_0000
        } else {
            encoded as nat
        }
    }

    /// Whether `r` is this number in single precision. NaN gives some NaN.
    pub open spec fn is_narrowed(self, r: Float32) -> bool {
        if self.nan() {
            r.nan()
        } else {
            r.is_negative() == self.is_negative() && r.magnitude() == self.single_magnitude()
        }
    }

    /// The number in single precision.
    pub fn narrowed(self) -> (r: Float32)
        ensures
            self.is_narrowed(r),
    {
        let negative: bool = self.bits >= 0x8000_0000_0000_0000;
        let magnitude: u64 = if negative { self.bits - 0x8000_0000_0000_0000 } else { self.bits };
        if magnitude > 0x7ff0_0000_0000_0000 {
            return Float32 { bits: 0x7fc0_0000 };
        }
        let single: u32 = if magnitude == 0x7ff0_0000_0000_0000 {
            0x7f80_0000
        } else {
            narrow(magnitude)
        };
        proof {
            let plain = Float64 { bits: magnitude };
            assert(plain.magnitude() == self.magnitude());
            assert(plain.single_magnitude() == self.single_magnitude());
        }
        Float32 { bits: if negative { single + 0x8000_0000 } else { single } }
    }
}

fn narrow(magnitude: u64) -> (r: u32)
    requires
        magnitude < 0x7ff0_0000_0000_0000,
    ensures
        r == (Float64 { bits: magnitude }).single_magnitude(),
        r <= 0x7f80_0000,
{
    let ghost f = Float64 { bits: magnitude };
    let biased: u64 = magnitude / 0x10_0000_0000_0000;
    let significand: u64 = if biased == 0 { magnitude } else { magnitude % 0x10_0000_0000_0000 + 0x10_0000_0000_0000 };
    let raised: i64 = if biased == 0 { 1 } else { biased as i64 };
    let exponent: i64 = raised - 1075;
    assert(f.significand() == significand && f.exponent() == exponent);
    let surplus: i64 = if exponent >= -178 { 29 } else { -149 - exponent };
    let kept: u64 = nearest_shifted(significand, surplus as u64);
    let encoded: i64 = (exponent + surplus + 149) * 0x80_0000 + kept as i64;
    if encoded > 0x7f80_0000 {
        0x7f80_0000
    } else {
        encoded as u32
    }
}

/// The whole number nearest to `n` over two to the power `k`, ties to the even.
fn nearest_shifted(n: u64, k: u64) -> (r: u64)
    requires
        n < 0x20_0000_0000_0000,
        29 <= k < 0x1_0000,
    ensures
        r == nearest(n as nat, pow2(k as nat)),
        r <= 0x100_0000,
{
    proof {
        vstd::arithmetic::power2::lemma2_to64();
        vstd::arithmetic::power2::lemma2_to64_rest();
    }
    if k > 54 {
        proof {
            vstd::arithmetic::power2::lemma_pow2_strictly_increases(54, k as nat);
            vstd::arithmetic::div_mod::lemma_small_mod(n as nat, pow2(k as nat));
            assert(n as nat / pow2(k as nat) == 0) by {
                vstd::arithmetic::div_mod::lemma_basic_div(n as int, pow2(k as nat) as int);
            }
        }
        return 0;
    }
    let mut unit: u64 = 0x2000_0000;
    let mut i: u64 = 29;
    while i < k
        invariant
            29 <= i <= k <= 54,
            unit == pow2(i as nat),
            0x2000_0000 <= unit <= 0x40_0000_0000_0000,
        decreases k - i,
    {
        proof {
            lemma_pow2_unfold((i + 1) as nat);
            vstd::arithmetic::power2::lemma_pow2_strictly_increases(i as nat, 54);
            vstd::arithmetic::power2::lemma2_to64_rest();
            if i + 1 < 54 {
                vstd::arithmetic::power2::lemma_pow2_strictly_increases((i + 1) as nat, 54);
            }
        }
        unit = unit * 2;
        i = i + 1;
    }
    let q: u64 = n / unit;
    let r: u64 = n % unit;
    proof {
        lemma_fundamental_div_mod(n as int, unit as int);
        assert(q < 0x100_0000) by (nonlinear_arith)
            requires
                n == unit * q + r,
                r >= 0,
                unit >= 0x2000_0000,
                n < 0x20_0000_0000_0000,
        ;
    }
    if 2 * r < unit || (2 * r == unit && q % 2 == 0) {
        q
    } else {
        q + 1
    }
}

/// Rounding to a unit is off by half a unit at most, and where two multiples are
/// as close it gives the even one.
pub proof fn lemma_nearest_is_near(n: nat, unit: nat)
    requires
        unit > 0,
    ensures
        2 * n <= 2 * (nearest(n, unit) * unit) + unit,
        2 * (nearest(n, unit) * unit) <= 2 * n + unit,
        2 * n == 2 * (nearest(n, unit) * unit) + unit || 2 * (nearest(n, unit) * unit) == 2 * n + unit ==> nearest(
            n,
            unit,
        ) % 2 == 0,
{
    let q = n / unit;
    let r = n % unit;
    assert(n == q * unit + r && r < unit) by {
        vstd::arithmetic::div_mod::lemma_fundamental_div_mod(n as int, unit as int);
        vstd::arithmetic::mul::lemma_mul_is_commutative(q as int, unit as int);
        vstd::arithmetic::div_mod::lemma_mod_bound(n as int, unit as int);
    }
    assert((q + 1) * unit == q * unit + unit) by (nonlinear_arith);
}

} // verus!
