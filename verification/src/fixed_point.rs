//! Signed fixed-point arithmetic with 48 fractional bits.
//!
//! A `Fixed` stores a numeric value as `bits / 2^48` in a full `i128`,
//! giving at least 80 integer bits and 48 fractional bits.  All monetary
//! arithmetic in the crate goes through this type.  Multiplication and
//! division compute the mathematically exact rational result and round
//! it toward negative infinity in a single step; intermediate products
//! are carried in 256 bits so no representable input overflows on the
//! way to a representable output.

use vstd::prelude::*;
use vstd::arithmetic::div_mod::lemma_fundamental_div_mod;
use vstd::arithmetic::div_mod::lemma_fundamental_div_mod_converse;
use vstd::arithmetic::mul::lemma_mul_inequality;
use vstd::arithmetic::power2::pow2;
use vstd::arithmetic::power2::lemma_pow2_adds;
use vstd::arithmetic::power2::lemma2_to64;
use vstd::arithmetic::power2::lemma2_to64_rest;
use vstd::arithmetic::power2::lemma_pow2_pos;
use vstd::arithmetic::power2::lemma_pow2_strictly_increases;

verus! {

/// Number of fractional bits as a scaling factor: `2^48`.
pub const SCALE: u128 = 281474976710656;

/// `2^64`, the limb base used by the wide multiplication helper.
pub const LIMB: u128 = 18446744073709551616;

/// Magnitude of `i128::MIN`, the one magnitude with no positive `i128`.
pub const I128_MIN_MAG: u128 = 170141183460469231731687303715884105728;

/// A fixed-point number worth `bits / 2^48`.
#[derive(Clone, Copy, PartialEq, Eq, Structural, Hash, Debug)]
pub struct Fixed {
    pub bits: i128,
}

/// Magnitude of an integer.
pub open spec fn iabs(x: int) -> int {
    if x < 0 {
        -x
    } else {
        x
    }
}

/// Scaled result of a fixed-point product: `floor(a * b / 2^48)` over bit values.
pub open spec fn mul_bits(a: int, b: int) -> int {
    (a * b) / (SCALE as int)
}

/// Scaled result of a fixed-point quotient: `floor(a * 2^48 / b)` over bit values.
pub open spec fn div_bits(a: int, b: int) -> int
    recommends
        b > 0,
{
    (a * (SCALE as int)) / b
}

/// Whether a mathematical integer is representable as an `i128`.
pub open spec fn fits_i128(x: int) -> bool {
    i128::MIN <= x <= i128::MAX
}

impl Fixed {
    /// The bit value as a mathematical integer; the number itself is `v / 2^48`.
    pub open spec fn v(self) -> int {
        self.bits as int
    }

    pub fn zero() -> (r: Fixed)
        ensures
            r.v() == 0,
    {
        Fixed { bits: 0 }
    }

    pub fn one() -> (r: Fixed)
        ensures
            r.v() == SCALE,
    {
        Fixed { bits: 281474976710656 }
    }

    pub fn from_bits(bits: i128) -> (r: Fixed)
        ensures
            r.bits == bits,
    {
        Fixed { bits }
    }

    /// The integer `n` as a fixed-point value.
    pub fn from_u64(n: u64) -> (r: Fixed)
        ensures
            r.v() == n * SCALE,
    {
        proof {
            lemma_mul_inequality(n as int, 0xffff_ffff_ffff_ffff, SCALE as int);
        }
        Fixed { bits: (n as i128) * 281474976710656i128 }
    }

    /// The rational `num / den` as a fixed-point value, rounded toward zero.
    pub fn from_ratio(num: u64, den: u64) -> (r: Fixed)
        requires
            den > 0,
        ensures
            r.v() == (num * SCALE) / (den as int),
    {
        proof {
            lemma_mul_inequality(num as int, 0xffff_ffff_ffff_ffff, SCALE as int);
            lemma_div_bounds_nonneg((num as u128 * SCALE) as int, den as int);
        }
        let wide: u128 = (num as u128) * SCALE;
        let q: u128 = wide / (den as u128);
        Fixed { bits: q as i128 }
    }

    pub fn is_zero(self) -> (r: bool)
        ensures
            r == (self.v() == 0),
    {
        self.bits == 0
    }

    pub fn is_neg(self) -> (r: bool)
        ensures
            r == (self.v() < 0),
    {
        self.bits < 0
    }

    pub fn le(self, other: Fixed) -> (r: bool)
        ensures
            r == (self.v() <= other.v()),
    {
        self.bits <= other.bits
    }

    pub fn lt(self, other: Fixed) -> (r: bool)
        ensures
            r == (self.v() < other.v()),
    {
        self.bits < other.bits
    }

    /// The smaller of two values.
    pub fn min_with(self, other: Fixed) -> (r: Fixed)
        ensures
            r.v() == if self.v() <= other.v() {
                self.v()
            } else {
                other.v()
            },
    {
        if self.bits <= other.bits {
            self
        } else {
            other
        }
    }

    /// Exact sum, or `None` when it leaves the `i128` range.
    pub fn checked_add(self, other: Fixed) -> (r: Option<Fixed>)
        ensures
            match r {
                Some(f) => f.v() == self.v() + other.v(),
                None => !fits_i128(self.v() + other.v()),
            },
    {
        if other.bits >= 0 {
            if self.bits > i128::MAX - other.bits {
                None
            } else {
                Some(Fixed { bits: self.bits + other.bits })
            }
        } else {
            if self.bits < i128::MIN - other.bits {
                None
            } else {
                Some(Fixed { bits: self.bits + other.bits })
            }
        }
    }

    /// Exact difference, or `None` when it leaves the `i128` range.
    pub fn checked_sub(self, other: Fixed) -> (r: Option<Fixed>)
        ensures
            match r {
                Some(f) => f.v() == self.v() - other.v(),
                None => !fits_i128(self.v() - other.v()),
            },
    {
        if other.bits <= 0 {
            if other.bits < 0 && self.bits > i128::MAX + other.bits {
                None
            } else {
                Some(Fixed { bits: self.bits - other.bits })
            }
        } else {
            if self.bits < i128::MIN + other.bits {
                None
            } else {
                Some(Fixed { bits: self.bits - other.bits })
            }
        }
    }

    /// Fixed-point product, rounded toward negative infinity; `None` when
    /// the exact rounded result does not fit.
    pub fn mul_floor(self, other: Fixed) -> (r: Option<Fixed>)
        ensures
            match r {
                Some(f) => f.v() == mul_bits(self.v(), other.v()),
                None => !fits_i128(mul_bits(self.v(), other.v())),
            },
    {
        self.mul_div_floor(other, SCALE)
    }

    /// `floor(self * other / den)` over bit values, with the full product
    /// carried in 256 bits; `None` when the exact rounded result does not
    /// fit an `i128`.
    pub fn mul_div_floor(self, other: Fixed, den: u128) -> (r: Option<Fixed>)
        requires
            0 < den < I128_MIN_MAG,
        ensures
            match r {
                Some(f) => f.v() == (self.v() * other.v()) / (den as int),
                None => !fits_i128((self.v() * other.v()) / (den as int)),
            },
    {
        let ma = mag_of(self.bits);
        let mb = mag_of(other.bits);
        let neg = (self.bits < 0) != (other.bits < 0);
        let (hi, lo) = wide_mul(ma, mb);
        proof {
            lemma_mag_product(self.v(), other.v(), ma as int, mb as int);
        }
        wide_signed_floor_div(neg, hi, lo, den, Ghost(self.v() * other.v()))
    }

    /// `floor(self * m / other)` over bit values; the divisor must be
    /// positive.  `None` when the exact rounded result does not fit.
    pub fn mul_u128_div_floor(self, m: u128, other: Fixed) -> (r: Option<Fixed>)
        requires
            m < I128_MIN_MAG,
            other.v() > 0,
        ensures
            match r {
                Some(f) => f.v() == (self.v() * (m as int)) / other.v(),
                None => !fits_i128((self.v() * (m as int)) / other.v()),
            },
    {
        let ma = mag_of(self.bits);
        let neg = self.bits < 0;
        let (hi, lo) = wide_mul(ma, m);
        proof {
            lemma_mag_product(self.v(), m as int, ma as int, m as int);
        }
        wide_signed_floor_div(neg, hi, lo, other.bits as u128, Ghost(self.v() * (m as int)))
    }

    /// The whole native units this value holds: `floor(v / 2^48)`,
    /// when non-negative and within `u64`.
    pub fn to_native_u64(self) -> (r: Option<u64>)
        ensures
            match r {
                Some(n) => n == self.v() / (SCALE as int) && self.v() >= 0,
                None => self.v() < 0 || self.v() / (SCALE as int) > u64::MAX,
            },
    {
        if self.bits < 0 {
            return None;
        }
        let q = (self.bits as u128) / SCALE;
        if q > 0xffff_ffff_ffff_ffffu128 {
            None
        } else {
            Some(q as u64)
        }
    }

    /// Exact product with a non-negative integer; `None` when it does
    /// not fit.
    pub fn checked_mul_int(self, m: u128) -> (r: Option<Fixed>)
        requires
            m < I128_MIN_MAG,
        ensures
            match r {
                Some(f) => f.v() == self.v() * m,
                None => !fits_i128(self.v() * m),
            },
    {
        proof {
            assert((self.v() * (m as int)) / 1int == self.v() * (m as int)) by (nonlinear_arith);
        }
        self.mul_u128_div_floor(m, Fixed { bits: 1 })
    }

    /// Fixed-point quotient, rounded toward negative infinity; `None` when
    /// the exact rounded result does not fit.  The divisor must be positive.
    pub fn div_floor(self, other: Fixed) -> (r: Option<Fixed>)
        requires
            other.v() > 0,
        ensures
            match r {
                Some(f) => f.v() == div_bits(self.v(), other.v()),
                None => !fits_i128(div_bits(self.v(), other.v())),
            },
    {
        self.mul_u128_div_floor(SCALE, other)
    }
}

/// A product with a zero factor floors to zero.
pub proof fn lemma_mul_bits_zero(x: int)
    ensures
        mul_bits(0, x) == 0,
{
    assert(0 * x == 0) by (nonlinear_arith);
    vstd::arithmetic::div_mod::lemma_div_of0(SCALE as int);
}

/// Magnitude of an `i128`, covering `i128::MIN`.
fn mag_of(x: i128) -> (m: u128)
    ensures
        m == iabs(x as int),
{
    if x >= 0 {
        x as u128
    } else if x == i128::MIN {
        I128_MIN_MAG
    } else {
        (-x) as u128
    }
}

proof fn lemma_div_bounds_nonneg(x: int, d: int)
    requires
        x >= 0,
        d > 0,
    ensures
        0 <= x / d <= x,
{
    lemma_fundamental_div_mod(x, d);
    if x / d < 0 {
        lemma_mul_inequality(x / d, -1, d);
    }
    if x / d > x {
        lemma_mul_inequality(x + 1, x / d, d);
    }
}

/// The magnitude of a product is the product of the magnitudes.
proof fn lemma_mag_product(a: int, b: int, ma: int, mb: int)
    requires
        ma == iabs(a),
        mb == iabs(b),
    ensures
        ma * mb == iabs(a * b),
        a * b > 0 <==> (a > 0 && b > 0) || (a < 0 && b < 0),
        a * b < 0 <==> (a > 0 && b < 0) || (a < 0 && b > 0),
{
    assert(ma * mb == iabs(a * b) && (a * b > 0 <==> (a > 0 && b > 0) || (a < 0 && b < 0)) && (a
        * b < 0 <==> (a > 0 && b < 0) || (a < 0 && b > 0))) by (nonlinear_arith)
        requires
            ma == iabs(a),
            mb == iabs(b),
    ;
}

/// 128x128 -> 256 bit unsigned multiplication: `hi * 2^128 + lo == a * b`.
fn wide_mul(a: u128, b: u128) -> (r: (u128, u128))
    ensures
        r.0 * (LIMB * LIMB) + r.1 == a * b,
{
    let a1 = a / 18446744073709551616u128;
    let a0 = a % 18446744073709551616u128;
    let b1 = b / 18446744073709551616u128;
    let b0 = b % 18446744073709551616u128;
    proof {
        lemma_fundamental_div_mod(a as int, LIMB as int);
        lemma_fundamental_div_mod(b as int, LIMB as int);
        assert(a1 < LIMB && b1 < LIMB) by (nonlinear_arith)
            requires
                a1 == a as int / LIMB as int,
                b1 == b as int / LIMB as int,
                a <= u128::MAX,
                b <= u128::MAX,
                u128::MAX < LIMB * LIMB,
        ;
        lemma_limb_products(a1 as int, a0 as int, b1 as int, b0 as int);
    }
    let p00 = a0 * b0;
    let p01 = a0 * b1;
    let p10 = a1 * b0;
    let p11 = a1 * b1;
    let p00_hi = p00 / 18446744073709551616u128;
    let p00_lo = p00 % 18446744073709551616u128;
    proof {
        lemma_fundamental_div_mod(p00 as int, LIMB as int);
        lemma_fundamental_div_mod(p01 as int, LIMB as int);
        lemma_fundamental_div_mod(p10 as int, LIMB as int);
    }
    let mid = p00_hi + (p01 % 18446744073709551616u128) + (p10 % 18446744073709551616u128);
    proof {
        lemma_fundamental_div_mod(mid as int, LIMB as int);
    }
    let lo = (mid % 18446744073709551616u128) * 18446744073709551616u128 + p00_lo;
    let hi = p11 + (p01 / 18446744073709551616u128) + (p10 / 18446744073709551616u128) + (mid
        / 18446744073709551616u128);
    proof {
        lemma_wide_mul_recompose(
            a as int,
            b as int,
            a1 as int,
            a0 as int,
            b1 as int,
            b0 as int,
            p00 as int,
            p01 as int,
            p10 as int,
            p11 as int,
            p00_hi as int,
            p00_lo as int,
            mid as int,
            lo as int,
            hi as int,
        );
    }
    (hi, lo)
}

/// Bounds of the four partial products of a limb decomposition.
proof fn lemma_limb_products(a1: int, a0: int, b1: int, b0: int)
    requires
        0 <= a1 < LIMB,
        0 <= a0 < LIMB,
        0 <= b1 < LIMB,
        0 <= b0 < LIMB,
    ensures
        0 <= a0 * b0 <= (LIMB - 1) * (LIMB - 1),
        0 <= a0 * b1 <= (LIMB - 1) * (LIMB - 1),
        0 <= a1 * b0 <= (LIMB - 1) * (LIMB - 1),
        0 <= a1 * b1 <= (LIMB - 1) * (LIMB - 1),
        (LIMB - 1) * (LIMB - 1) < LIMB * LIMB,
{
    assert(0 <= a0 * b0 <= (LIMB - 1) * (LIMB - 1) && 0 <= a0 * b1 <= (LIMB - 1) * (LIMB - 1) && 0
        <= a1 * b0 <= (LIMB - 1) * (LIMB - 1) && 0 <= a1 * b1 <= (LIMB - 1) * (LIMB - 1) && (LIMB
        - 1) * (LIMB - 1) < LIMB * LIMB) by (nonlinear_arith)
        requires
            0 <= a1 < LIMB,
            0 <= a0 < LIMB,
            0 <= b1 < LIMB,
            0 <= b0 < LIMB,
    ;
}

/// Algebra of the carry chain in `wide_mul`.
proof fn lemma_wide_mul_recompose(
    a: int,
    b: int,
    a1: int,
    a0: int,
    b1: int,
    b0: int,
    p00: int,
    p01: int,
    p10: int,
    p11: int,
    p00_hi: int,
    p00_lo: int,
    mid: int,
    lo: int,
    hi: int,
)
    requires
        a == a1 * LIMB + a0,
        b == b1 * LIMB + b0,
        p00 == a0 * b0,
        p01 == a0 * b1,
        p10 == a1 * b0,
        p11 == a1 * b1,
        p00 == (p00 / LIMB as int) * LIMB + p00 % LIMB as int,
        p00_hi == p00 / LIMB as int,
        p00_lo == p00 % LIMB as int,
        mid == p00_hi + p01 % LIMB as int + p10 % LIMB as int,
        lo == (mid % LIMB as int) * LIMB + p00_lo,
        hi == p11 + p01 / LIMB as int + p10 / LIMB as int + mid / LIMB as int,
    ensures
        hi * (LIMB * LIMB) + lo == a * b,
{
    lemma_fundamental_div_mod(p01, LIMB as int);
    lemma_fundamental_div_mod(p10, LIMB as int);
    lemma_fundamental_div_mod(mid, LIMB as int);
    assert(hi * (LIMB * LIMB) + lo == a * b) by (nonlinear_arith)
        requires
            a == a1 * LIMB + a0,
            b == b1 * LIMB + b0,
            p00 == a0 * b0,
            p01 == a0 * b1,
            p10 == a1 * b0,
            p11 == a1 * b1,
            p00 == p00_hi * LIMB + p00_lo,
            p01 == (p01 / LIMB as int) * LIMB + p01 % LIMB as int,
            p10 == (p10 / LIMB as int) * LIMB + p10 % LIMB as int,
            mid == p00_hi + p01 % LIMB as int + p10 % LIMB as int,
            mid == (mid / LIMB as int) * LIMB + mid % LIMB as int,
            lo == (mid % LIMB as int) * LIMB + p00_lo,
            hi == p11 + p01 / LIMB as int + p10 / LIMB as int + mid / LIMB as int,
    ;
}

/// 256 / 128 bit unsigned long division.  Requires the quotient to fit in
/// a `u128`, which the caller establishes by checking `n_hi < d`.
fn wide_div(n_hi: u128, n_lo: u128, d: u128) -> (r: (u128, u128))
    requires
        0 < d < I128_MIN_MAG,
        n_hi < d,
    ensures
        r.0 * d + r.1 == n_hi * (LIMB * LIMB) + n_lo,
        r.1 < d,
{
    let mut rem: u128 = n_hi;
    let mut quot: u128 = 0;
    let mut sh: u128 = n_lo;
    let ghost full: int = n_hi * (LIMB * LIMB) + n_lo;
    let mut i: usize = 0;
    proof {
        lemma_pow2_ground();
        assert(full / p2(128) == n_hi && full % p2(128) == n_lo) by {
            lemma_fundamental_div_mod_converse(full, p2(128), n_hi as int, n_lo as int);
        }
    }
    while i < 128
        invariant
            0 < d < I128_MIN_MAG,
            i <= 128,
            full == n_hi * (LIMB * LIMB) + n_lo,
            0 <= full,
            quot * d + rem == full / p2((128 - i) as nat),
            rem < d,
            quot < p2(i as nat),
            sh == (full % p2((128 - i) as nat)) * p2(i as nat),
        decreases 128 - i,
    {
        let ghost m: nat = (128 - i) as nat;
        proof {
            lemma_shift_step(full, m, sh as int, i as nat);
        }
        let bit: u128 = sh / 170141183460469231731687303715884105728u128;
        sh = (sh % 170141183460469231731687303715884105728u128) * 2;
        let r2: u128 = rem * 2 + bit;
        proof {
            lemma_div_step(full, m, quot as int, rem as int, d as int, bit as int);
            lemma_pow2_adds(i as nat, 1);
            lemma2_to64();
            assert(p2((i + 1) as nat) == p2(i as nat) * 2) by (nonlinear_arith)
                requires
                    p2((i + 1) as nat) == p2(i as nat) * p2(1),
                    p2(1) == 2,
            ;
            if i + 1 < 128 {
                lemma_pow2_strictly_increases((i + 1) as nat, 128);
            }
            lemma_pow2_ground();
            assert(quot * 2 + 1 < LIMB * LIMB) by (nonlinear_arith)
                requires
                    quot < p2(i as nat),
                    p2((i + 1) as nat) == p2(i as nat) * 2,
                    p2((i + 1) as nat) <= p2(128),
                    p2(128) == LIMB * LIMB,
            ;
            assert(LIMB * LIMB - 1 == u128::MAX) by (nonlinear_arith);
        }
        if r2 >= d {
            rem = r2 - d;
            quot = quot * 2 + 1;
        } else {
            rem = r2;
            quot = quot * 2;
        }
        i = i + 1;
    }
    proof {
        lemma_pow2_ground();
        assert(full / 1int == full) by (nonlinear_arith);
    }
    (quot, rem)
}

/// `2^n` as a mathematical integer.
pub open spec fn p2(n: nat) -> int {
    pow2(n) as int
}

/// Ground values of the powers of two that the division proofs need.
proof fn lemma_pow2_ground()
    ensures
        p2(0) == 1,
        p2(48) == SCALE,
        p2(63) * p2(64) == I128_MIN_MAG,
        p2(127) == I128_MIN_MAG,
        p2(128) == LIMB * LIMB,
        p2(64) == LIMB,
{
    lemma2_to64();
    lemma2_to64_rest();
    lemma_pow2_adds(63, 64);
    lemma_pow2_adds(64, 64);
    assert(0x8000000000000000u128 * 0x10000000000000000u128 == I128_MIN_MAG) by (nonlinear_arith);
    assert(0x10000000000000000u128 * 0x10000000000000000u128 == LIMB * LIMB) by (nonlinear_arith);
}

/// One step of the shift register: peeling the top bit of the unprocessed
/// part of the dividend.
proof fn lemma_shift_step(full: int, m: nat, sh: int, i: nat)
    requires
        m >= 1,
        m + i == 128,
        full >= 0,
        sh == (full % p2(m)) * p2(i),
    ensures
        sh / I128_MIN_MAG as int == (full / p2((m - 1) as nat)) % 2,
        (sh % I128_MIN_MAG as int) * 2 == (full % p2((m - 1) as nat)) * p2(i + 1),
        full / p2((m - 1) as nat) == 2 * (full / p2(m)) + (full / p2((m - 1) as nat))
            % 2,
        0 <= (full % p2(m)) * p2(i) < I128_MIN_MAG as int * 2,
        (full / p2((m - 1) as nat)) % 2 <= 1,
{
    let pm1 = p2((m - 1) as nat);
    let pi = p2(i);
    lemma_pow2_pos(m);
    lemma_pow2_pos((m - 1) as nat);
    lemma_pow2_pos(i);
    lemma_pow2_adds(i, (m - 1) as nat);
    lemma_pow2_adds((m - 1) as nat, 1);
    lemma_pow2_adds(i, 1);
    lemma2_to64();
    assert(p2(m) == pm1 * 2) by (nonlinear_arith)
        requires
            p2(m) == p2((m - 1) as nat) * p2(1),
            pm1 == p2((m - 1) as nat),
            p2(1) == 2,
    ;
    assert(p2((i + 1) as nat) == pi * 2) by (nonlinear_arith)
        requires
            p2((i + 1) as nat) == p2(i) * p2(1),
            pi == p2(i),
            p2(1) == 2,
    ;
    assert(pi * pm1 == p2((i + (m - 1)) as nat));
    lemma_pow2_ground();
    assert(i + (m - 1) == 127);
    assert(p2((i + (m - 1)) as nat) == I128_MIN_MAG);
    lemma_fundamental_div_mod(full, p2(m));
    lemma_fundamental_div_mod(full % p2(m), pm1);
    let a = full % p2(m);
    let b = (full % p2(m)) / pm1;
    let c = (full % p2(m)) % pm1;
    assert(0 <= b <= 1) by (nonlinear_arith)
        requires
            a == b * pm1 + c,
            0 <= c < pm1,
            0 <= a < 2 * pm1,
            pm1 > 0,
    ;
    assert(sh == (b * pm1 + c) * pi == b * (pm1 * pi) + c * pi) by (nonlinear_arith)
        requires
            sh == a * pi,
            a == b * pm1 + c,
    ;
    assert(0 <= c * pi < pm1 * pi) by (nonlinear_arith)
        requires
            0 <= c < pm1,
            pi > 0,
    ;
    assert(pm1 * pi == I128_MIN_MAG as int) by (nonlinear_arith)
        requires
            pi * pm1 == I128_MIN_MAG as int,
    ;
    assert(sh == b * (I128_MIN_MAG as int) + c * pi) by (nonlinear_arith)
        requires
            sh == b * (pm1 * pi) + c * pi,
            pm1 * pi == I128_MIN_MAG as int,
    ;
    lemma_fundamental_div_mod_converse(sh, I128_MIN_MAG as int, b, c * pi);
    assert(sh / I128_MIN_MAG as int == b);
    assert(sh % I128_MIN_MAG as int == c * pi);
    assert((c * pi) * 2 == c * p2((i + 1) as nat)) by (nonlinear_arith)
        requires
            p2((i + 1) as nat) == 2 * pi,
    ;
    assert(p2((i + 1) as nat) == 2 * pi);
    // full / pm1 == 2 * (full / (2*pm1)) + b, and b == (full / pm1) % 2
    let q = full / p2(m);
    assert(full == q * (2 * pm1) + b * pm1 + c) by (nonlinear_arith)
        requires
            full == p2(m) * q + a,
            a == b * pm1 + c,
            p2(m) == pm1 * 2,
    ;
    assert(full == (2 * q + b) * pm1 + c) by (nonlinear_arith)
        requires
            full == q * (2 * pm1) + b * pm1 + c,
    ;
    lemma_fundamental_div_mod_converse(full, pm1, 2 * q + b, c);
    assert(full / pm1 == 2 * q + b);
    assert((2 * q + b) % 2 == b) by (nonlinear_arith)
        requires
            0 <= b <= 1,
    ;
    assert(c == full % p2(m) % pm1);
    assert((full % p2(m)) % pm1 == full % pm1) by {
        lemma_mod_mod_pow(full, m);
    }
    assert(sh % I128_MIN_MAG as int == (full % pm1) * pi);
    assert((full % pm1) * pi * 2 == (full % pm1) * p2((i + 1) as nat)) by (nonlinear_arith)
        requires
            p2((i + 1) as nat) == 2 * pi,
    ;
    assert(0 <= sh < I128_MIN_MAG as int * 2) by (nonlinear_arith)
        requires
            sh == b * (pm1 * pi) + c * pi,
            0 <= b <= 1,
            0 <= c * pi < pm1 * pi,
            pm1 * pi == I128_MIN_MAG as int,
    ;
}

/// `x % 2^m % 2^(m-1) == x % 2^(m-1)` for `m >= 1`.
proof fn lemma_mod_mod_pow(x: int, m: nat)
    requires
        m >= 1,
        x >= 0,
    ensures
        (x % p2(m)) % p2((m - 1) as nat) == x % p2((m - 1) as nat),
{
    let pm1 = p2((m - 1) as nat);
    lemma_pow2_pos((m - 1) as nat);
    lemma_pow2_adds((m - 1) as nat, 1);
    lemma2_to64();
    assert(p2(m) == 2 * pm1) by (nonlinear_arith)
        requires
            p2(m) == p2((m - 1) as nat) * p2(1),
            pm1 == p2((m - 1) as nat),
            p2(1) == 2,
    ;
    lemma_fundamental_div_mod(x, p2(m));
    lemma_fundamental_div_mod(x % p2(m), pm1);
    let q = x / p2(m);
    let r = x % p2(m);
    let b = r / pm1;
    let c = r % pm1;
    assert(x == (2 * q + b) * pm1 + c) by (nonlinear_arith)
        requires
            x == q * (2 * pm1) + r,
            r == b * pm1 + c,
    ;
    lemma_fundamental_div_mod_converse(x, pm1, 2 * q + b, c);
}

/// One step of the quotient recurrence in the long division loop.
proof fn lemma_div_step(full: int, m: nat, quot: int, rem: int, d: int, bit: int)
    requires
        m >= 1,
        d > 0,
        0 <= rem < d,
        0 <= bit <= 1,
        quot * d + rem == full / p2(m),
        full / p2((m - 1) as nat) == 2 * (full / p2(m)) + bit,
    ensures
        (2 * quot) * d + (2 * rem + bit) == full / p2((m - 1) as nat),
        (2 * quot + 1) * d + (2 * rem + bit - d) == full / p2((m - 1) as nat),
{
    assert((2 * quot) * d + (2 * rem + bit) == 2 * (quot * d + rem) + bit && (2 * quot + 1) * d + (2
        * rem + bit - d) == 2 * (quot * d + rem) + bit) by (nonlinear_arith);
}

/// Signed floor division of a 256-bit magnitude by a positive divisor,
/// producing an `i128` when the exact floored quotient fits.  The ghost
/// argument carries the signed numerator `p`, whose magnitude must equal
/// `hi * 2^128 + lo` and whose sign is `neg`.
fn wide_signed_floor_div(neg: bool, hi: u128, lo: u128, d: u128, Ghost(p): Ghost<int>) -> (r:
    Option<Fixed>)
    requires
        0 < d < I128_MIN_MAG,
        iabs(p) == hi * (LIMB * LIMB) + lo,
        p < 0 ==> neg,
        p > 0 ==> !neg,
    ensures
        match r {
            Some(f) => f.v() == p / (d as int),
            None => !fits_i128(p / (d as int)),
        },
{
    if hi >= d {
        proof {
            lemma_quotient_huge(p, d as int, hi as int, lo as int);
        }
        return None;
    }
    let (q, rem) = wide_div(hi, lo, d);
    proof {
        lemma_signed_floor(p, d as int, q as int, rem as int);
    }
    proof {
        if iabs(p) == 0 {
            assert(q * d + rem == 0) by (nonlinear_arith)
                requires
                    q * d + rem == iabs(p),
                    iabs(p) == 0,
            ;
            assert(q == 0 && rem == 0) by (nonlinear_arith)
                requires
                    q * d + rem == 0,
                    q >= 0,
                    rem >= 0,
                    d > 0,
            ;
        }
    }
    if !neg {
        if q <= 170141183460469231731687303715884105727u128 {
            Some(Fixed { bits: q as i128 })
        } else {
            None
        }
    } else {
        let bump: u128 = if rem != 0 {
            1
        } else {
            0
        };
        if q > I128_MIN_MAG - bump {
            None
        } else {
            let m = q + bump;
            if m <= 170141183460469231731687303715884105727u128 {
                Some(Fixed { bits: -(m as i128) })
            } else {
                Some(Fixed { bits: i128::MIN })
            }
        }
    }
}

/// When the top 128 bits of the magnitude reach the divisor, the quotient
/// magnitude reaches `2^128` and cannot fit an `i128` either way.
proof fn lemma_quotient_huge(p: int, d: int, hi: int, lo: int)
    requires
        d > 0,
        iabs(p) == hi * (LIMB * LIMB) + lo,
        hi >= d,
        lo >= 0,
    ensures
        !fits_i128(p / d),
{
    let mag = iabs(p);
    assert(mag >= d * (LIMB * LIMB)) by (nonlinear_arith)
        requires
            mag == hi * (LIMB * LIMB) + lo,
            hi >= d,
            lo >= 0,
    ;
    if p >= 0 {
        // p / d >= 2^128
        lemma_fundamental_div_mod(p, d);
        assert(p / d >= LIMB * LIMB) by (nonlinear_arith)
            requires
                p == d * (p / d) + p % d,
                0 <= p % d < d,
                p >= d * (LIMB * LIMB),
                d > 0,
        ;
        assert(LIMB * LIMB > i128::MAX) by (nonlinear_arith);
    } else {
        lemma_fundamental_div_mod(p, d);
        assert(p / d <= -(LIMB * LIMB) + 1) by (nonlinear_arith)
            requires
                p == d * (p / d) + p % d,
                0 <= p % d < d,
                p <= -(d * (LIMB * LIMB)),
                d > 0,
        ;
        assert(-(LIMB * LIMB) + 1 < i128::MIN) by (nonlinear_arith);
    }
}

/// Relates the unsigned quotient and remainder of the magnitude to the
/// Euclidean quotient of the signed numerator.
proof fn lemma_signed_floor(p: int, d: int, q: int, rem: int)
    requires
        d > 0,
        q >= 0,
        0 <= rem < d,
        q * d + rem == iabs(p),
    ensures
        p >= 0 ==> p / d == q,
        p < 0 && rem == 0 ==> p / d == -q,
        p < 0 && rem != 0 ==> p / d == -(q + 1),
{
    if p >= 0 {
        assert(p == q * d + rem);
        lemma_fundamental_div_mod_converse(p, d, q, rem);
    } else {
        assert(p == -(q * d + rem));
        if rem == 0 {
            assert(p == (-q) * d + 0) by (nonlinear_arith)
                requires
                    p == -(q * d + rem),
                    rem == 0,
            ;
            lemma_fundamental_div_mod_converse(p, d, -q, 0);
        } else {
            assert(p == (-(q + 1)) * d + (d - rem)) by (nonlinear_arith)
                requires
                    p == -(q * d + rem),
            ;
            lemma_fundamental_div_mod_converse(p, d, -(q + 1), d - rem);
        }
    }
}

} // verus!
