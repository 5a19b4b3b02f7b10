//! Fixed-point numeric formats: W total bits (including sign), F of them
//! fractional, stored as scaled two's-complement bits.
//!
//! Conversion from an exact rational strips the sign, takes the integer part
//! directly, runs restoring binary long division on the fractional remainder
//! for F+1 bits, rounds half-up on the extra bit, and reapplies the sign; it
//! rejects magnitudes whose integer part exceeds the format's capacity.
//! Arithmetic saturates at the format's bounds and truncates extra
//! fractional bits toward zero.

use vstd::arithmetic::div_mod::{
    lemma_fundamental_div_mod, lemma_fundamental_div_mod_converse_div,
};
use vstd::arithmetic::power2::{lemma_pow2_adds, lemma_pow2_pos, lemma_pow2_strictly_increases, pow2};
use vstd::prelude::*;

use crate::number::{FractalNumber, FromRational, MandelbrotNumber};
use crate::rational::Rational;

verus! {

/// A fixed-point value: `bits / 2^F`, with `bits` held in W-bit
/// two's-complement range.
#[derive(Clone, Copy, Debug)]
pub struct FixedPoint<const W: u32, const F: u32> {
    bits: i32,
}

/// 16-bit format with 5 fractional bits.
pub type I11F5 = FixedPoint<16, 5>;

/// 16-bit format with 3 fractional bits.
pub type I13F3 = FixedPoint<16, 3>;

/// 16-bit format with 1 fractional bit.
pub type I15F1 = FixedPoint<16, 1>;

/// 32-bit format with 10 fractional bits.
pub type I22F10 = FixedPoint<32, 10>;

/// 32-bit format with 12 fractional bits.
pub type I20F12 = FixedPoint<32, 12>;

/// Compute a small power of two.
fn pow2_exec(e: u32) -> (r: u64)
    requires
        e <= 62,
    ensures
        r as int == pow2(e as nat),
{
    proof {
        vstd::arithmetic::power2::lemma2_to64();
    }
    let mut r: u64 = 1;
    let mut k: u32 = 0;
    while k < e
        invariant
            k <= e <= 62,
            r as int == pow2(k as nat),
        decreases e - k,
    {
        proof {
            lemma_pow2_strictly_increases(k as nat, 62);
            vstd::arithmetic::power2::lemma2_to64_rest();
            assert(pow2(k as nat + 1) == pow2(k as nat) * 2) by {
                lemma_pow2_adds(k as nat, 1);
                vstd::arithmetic::power2::lemma2_to64();
            }
        }
        r = r * 2;
        k = k + 1;
    }
    r
}

impl<const W: u32, const F: u32> FixedPoint<W, F> {
    /// The stored bits, as a mathematical integer.
    pub closed spec fn sbits(self) -> int {
        self.bits as int
    }

    /// Are the format's parameters usable? The integer part needs at least
    /// three bits plus sign so the escape bound "four" is representable.
    pub open spec fn params_ok() -> bool {
        &&& W <= 32
        &&& 1 <= F
        &&& F <= 28
        &&& F + 4 <= W
    }

    /// Largest representable bit value.
    pub open spec fn max_bits() -> int {
        pow2((W - 1) as nat) - 1
    }

    /// Smallest representable bit value.
    pub open spec fn min_bits() -> int {
        -(pow2((W - 1) as nat) as int)
    }

    /// Saturate a bit value into the representable range.
    pub open spec fn clamp_spec(x: int) -> int {
        if x > Self::max_bits() {
            Self::max_bits()
        } else if x < Self::min_bits() {
            Self::min_bits()
        } else {
            x
        }
    }

    /// The fixed-point value with the given bits (spec-level constructor).
    pub closed spec fn fp(bits: int) -> Self {
        FixedPoint { bits: bits as i32 }
    }

    /// The rounded magnitude of `n/d` in bits: the F+1-bit truncation of the
    /// scaled fraction, rounded half-up on the extra bit.
    pub open spec fn conv_mag(n: int, d: int) -> int {
        ((n * pow2((F + 1) as nat)) / d + 1) / 2
    }

    /// What conversion from an exact rational returns.
    pub open spec fn conv_spec(r: Rational) -> Option<Self> {
        if Self::params_ok() {
            let a = if r.n() < 0 {
                -r.n()
            } else {
                r.n()
            };
            let mag = Self::conv_mag(a, r.d());
            if mag <= Self::max_bits() {
                Some(Self::fp(if r.n() < 0 {
                    -mag
                } else {
                    mag
                }))
            } else {
                None
            }
        } else {
            None
        }
    }

    /// The stored bits.
    pub fn to_bits(&self) -> (r: i32)
        ensures
            r as int == self.sbits(),
    {
        self.bits
    }

    /// Build a value directly from stored bits.
    pub fn from_bits(bits: i32) -> (r: Self)
        ensures
            r.sbits() == bits as int,
    {
        FixedPoint { bits }
    }

    /// Saturate a 64-bit intermediate into the representable range.
    fn clamp(x: i64) -> (r: Self)
        requires
            Self::params_ok(),
        ensures
            r.sbits() == Self::clamp_spec(x as int),
            r.valid(),
    {
        proof {
            lemma_pow2_strictly_increases((W - 1) as nat, 32);
            vstd::arithmetic::power2::lemma2_to64();
            lemma_pow2_pos((W - 1) as nat);
        }
        let bound: u64 = pow2_exec(W - 1);
        let maxb: i64 = (bound - 1) as i64;
        let minb: i64 = -(bound as i64);
        if x > maxb {
            FixedPoint { bits: maxb as i32 }
        } else if x < minb {
            FixedPoint { bits: minb as i32 }
        } else {
            FixedPoint { bits: x as i32 }
        }
    }
}

impl<const W: u32, const F: u32> FromRational for FixedPoint<W, F> {
    /// Conversion rounds the magnitude to F bits (half-up on the extra
    /// division bit) and fails exactly when the result exceeds capacity.
    open spec fn from_rational_spec(r: Rational) -> Option<Self> {
        Self::conv_spec(r)
    }

    open spec fn valid(self) -> bool {
        &&& Self::params_ok()
        &&& Self::min_bits() <= self.sbits() <= Self::max_bits()
    }

    fn from_bigrational(value: &Rational) -> (res: Result<Self, String>)
        ensures
            res matches Err(e) ==> (e@ == "truncated rational"@ || e@
                == "unusable fixed-point parameters"@),
    {
        if !(W <= 32 && 1 <= F && F <= 28 && F + 4 <= W) {
            return Err("unusable fixed-point parameters".to_owned());
        }
        proof {
            lemma_pow2_strictly_increases((W - 1) as nat, 32);
            lemma_pow2_strictly_increases((F + 1) as nat, 33);
            vstd::arithmetic::power2::lemma2_to64();
            vstd::arithmetic::power2::lemma2_to64_rest();
            lemma_pow2_pos((F + 1) as nat);
            lemma_pow2_pos(F as nat);
            lemma_pow2_pos((W - 1) as nat);
        }
        // To make it easier to reason about fractions and numbers, do
        // everything as "positive", then negate.
        let negative = value.is_negative();
        let n = value.numer();
        let d = value.denom() as u64;
        let a: u64 = if negative {
            (-n) as u64
        } else {
            n as u64
        };

        let whole: u64 = a / d;
        let rem: u64 = a % d;
        proof {
            lemma_fundamental_div_mod(a as int, d as int);
            lemma_fundamental_div_mod_converse_div(rem as int, d as int, 0, rem as int);
            assert(rem as int / d as int == 0);
        }

        // Restoring binary long division on the fractional remainder, one
        // more bit of precision than the format keeps.
        let mut acc: u64 = 0;
        let mut r: u128 = rem as u128;
        let mut i: u32 = 0;
        while i < F + 1
            invariant
                Self::params_ok(),
                1 <= d,
                rem < d,
                i <= F + 1 <= 33,
                acc as int == (rem * pow2(i as nat)) / d as int,
                r as int == rem * pow2(i as nat) - acc * d,
                r < d as u128,
                acc < pow2(i as nat),
            decreases F + 1 - i,
        {
            proof {
                lemma_pow2_adds(i as nat, 1);
                vstd::arithmetic::power2::lemma2_to64();
                lemma_pow2_strictly_increases(i as nat, 34);
                vstd::arithmetic::power2::lemma2_to64_rest();
                assert(rem * pow2((i + 1) as nat) == (rem * pow2(i as nat)) * 2)
                    by (nonlinear_arith)
                    requires
                        pow2((i + 1) as nat) == pow2(i as nat) * 2,
                ;
                assert(acc * 2 * d == acc * d * 2) by (nonlinear_arith);
                assert((acc * 2 + 1) * d == acc * d * 2 + d) by (nonlinear_arith);
            }
            let r2 = r * 2;
            if r2 >= d as u128 {
                acc = acc * 2 + 1;
                r = r2 - d as u128;
            } else {
                acc = acc * 2;
                r = r2;
            }
            proof {
                lemma_fundamental_div_mod_converse_div(
                    rem * pow2((i + 1) as nat),
                    d as int,
                    acc as int,
                    r as int,
                );
                assert(acc < pow2((i + 1) as nat)) by (nonlinear_arith)
                    requires
                        acc * (d as int) <= rem * pow2((i + 1) as nat),
                        rem < d,
                        d >= 1,
                        pow2((i + 1) as nat) >= 1,
                ;
            }
            i = i + 1;
        }

        // We kept an extra bit of precision so we can round half-up.
        let fracbits: u64 = (acc + 1) / 2;
        let pf: u64 = pow2_exec(F);
        proof {
            assert(whole * pf <= 0xffff_ffff_ffff_ffff * 0x1000_0000) by (nonlinear_arith)
                requires
                    whole <= 0xffff_ffff_ffff_ffffu64,
                    1 <= pf <= 0x1000_0000,
            ;
        }
        let mag: u128 = whole as u128 * pf as u128 + fracbits as u128;

        proof {
            // The separately computed whole and fractional parts together
            // are the rounded magnitude of the whole value.
            let p1 = pow2((F + 1) as nat) as int;
            let x = (a * p1) / d as int;
            assert(a * p1 == (whole * p1) * d + rem * p1) by (nonlinear_arith)
                requires
                    a == whole * d + rem,
            ;
            assert(rem * p1 == acc * d + r);
            assert(a * p1 == (whole * p1 + acc) * d + r) by (nonlinear_arith)
                requires
                    a * p1 == (whole * p1) * d + rem * p1,
                    rem * p1 == acc * d + r,
            ;
            lemma_fundamental_div_mod_converse_div(a as int * p1, d as int, whole * p1 + acc, r as int);
            assert(x == whole * p1 + acc);
            let q1 = (acc + 1) / 2;
            let r1 = (acc + 1) % 2;
            lemma_fundamental_div_mod(acc as int + 1, 2);
            assert(p1 == pow2(F as nat) * 2) by {
                lemma_pow2_adds(F as nat, 1);
                vstd::arithmetic::power2::lemma2_to64();
            }
            assert(x + 1 == (whole * pow2(F as nat) + q1) * 2 + r1) by (nonlinear_arith)
                requires
                    x == whole * (pow2(F as nat) * 2) + acc,
                    acc + 1 == q1 * 2 + r1,
            ;
            lemma_fundamental_div_mod_converse_div(
                x + 1,
                2,
                whole * pow2(F as nat) + q1,
                r1,
            );
            assert(mag as int == Self::conv_mag(a as int, d as int));
        }

        let bound: u64 = pow2_exec(W - 1);
        let maxb: u64 = bound - 1;
        if mag > maxb as u128 {
            return Err("truncated rational".to_owned());
        }
        let m = mag as u64;
        let bits: i32 = if negative {
            -(m as i32)
        } else {
            m as i32
        };
        Ok(FixedPoint { bits })
    }
}

impl<const W: u32, const F: u32> FractalNumber for FixedPoint<W, F> {
    open spec fn fmt_ok() -> bool {
        Self::params_ok()
    }

    open spec fn from_i32_spec(i: int) -> Self {
        Self::fp(Self::clamp_spec(i * pow2(F as nat)))
    }

    open spec fn add_spec(a: Self, b: Self) -> Self {
        Self::fp(Self::clamp_spec(a.sbits() + b.sbits()))
    }

    open spec fn sub_spec(a: Self, b: Self) -> Self {
        Self::fp(Self::clamp_spec(a.sbits() - b.sbits()))
    }

    /// The product's extra fractional bits are truncated toward zero.
    open spec fn mul_spec(a: Self, b: Self) -> Self {
        let p = a.sbits() * b.sbits();
        let q = if p >= 0 {
            p / pow2(F as nat) as int
        } else {
            -((-p) / pow2(F as nat) as int)
        };
        Self::fp(Self::clamp_spec(q))
    }

    /// The quotient is truncated toward zero.
    open spec fn div_spec(a: Self, b: Self) -> Self {
        let p = a.sbits() * pow2(F as nat);
        let q = if (p >= 0) == (b.sbits() >= 0) {
            Self::abs_spec(p) / Self::abs_spec(b.sbits())
        } else {
            -(Self::abs_spec(p) / Self::abs_spec(b.sbits()))
        };
        Self::fp(Self::clamp_spec(q))
    }

    open spec fn lt_spec(a: Self, b: Self) -> bool {
        a.sbits() < b.sbits()
    }

    open spec fn is_zero_spec(self) -> bool {
        self.sbits() == 0
    }

    /// Fixed-point arithmetic saturates by design and never degrades.
    open spec fn degraded_spec(self) -> bool {
        false
    }

    fn from_i32(i: i32) -> (r: Self) {
        proof {
            lemma_pow2_strictly_increases(F as nat, 32);
            vstd::arithmetic::power2::lemma2_to64();
            lemma_pow2_pos(F as nat);
            assert(i * pow2(F as nat) <= i32::MAX * pow2(F as nat) && i * pow2(F as nat)
                >= i32::MIN * pow2(F as nat)) by (nonlinear_arith)
                requires
                    i32::MIN <= i <= i32::MAX,
                    pow2(F as nat) >= 1,
            ;
            assert(i != 0 ==> (i * pow2(F as nat) >= pow2(F as nat) || i * pow2(F as nat) <= -pow2(
                F as nat,
            ))) by (nonlinear_arith)
                requires
                    pow2(F as nat) >= 1,
            ;
            lemma_pow2_pos((W - 1) as nat);
        }
        let pf = pow2_exec(F);
        let r = Self::clamp(i as i64 * pf as i64);
        proof {
            if i == 0 {
                assert(r.sbits() == 0);
            } else {
                assert(r.sbits() != 0);
            }
        }
        r
    }

    fn add(self, o: Self) -> (r: Self) {
        Self::clamp(self.bits as i64 + o.bits as i64)
    }

    fn sub(self, o: Self) -> (r: Self) {
        Self::clamp(self.bits as i64 - o.bits as i64)
    }

    fn mul(self, o: Self) -> (r: Self) {
        proof {
            lemma_pow2_pos(F as nat);
            lemma_pow2_strictly_increases(F as nat, 32);
            vstd::arithmetic::power2::lemma2_to64();
        }
        proof {
            assert(-0x4000_0000_0000_0000 <= self.sbits() * o.sbits() <= 0x4000_0000_0000_0000)
                by (nonlinear_arith)
                requires
                    -0x8000_0000 <= self.sbits() <= 0x7fff_ffff,
                    -0x8000_0000 <= o.sbits() <= 0x7fff_ffff,
            ;
        }
        let p: i64 = self.bits as i64 * o.bits as i64;
        let pf: u64 = pow2_exec(F);
        let q: i64 = if p >= 0 {
            ((p as u64) / pf) as i64
        } else {
            -((((-p) as u64) / pf) as i64)
        };
        proof {
            assert(p >= 0 ==> p as int / pf as int <= p) by (nonlinear_arith)
                requires
                    pf >= 1,
            ;
            assert(p < 0 ==> (-p) as int / pf as int <= -p) by (nonlinear_arith)
                requires
                    pf >= 1,
            ;
        }
        Self::clamp(q)
    }

    fn div(self, o: Self) -> (r: Self) {
        proof {
            lemma_pow2_pos(F as nat);
            lemma_pow2_strictly_increases(F as nat, 32);
            vstd::arithmetic::power2::lemma2_to64();
        }
        let pf: u64 = pow2_exec(F);
        proof {
            assert(-0x1000_0000_0000_0000 <= self.sbits() * pf <= 0x1000_0000_0000_0000)
                by (nonlinear_arith)
                requires
                    -0x8000_0000 <= self.sbits() <= 0x7fff_ffff,
                    1 <= pf <= 0x1000_0000,
            ;
        }
        let p: i64 = self.bits as i64 * pf as i64;
        let pa: u64 = if p >= 0 {
            p as u64
        } else {
            (-p) as u64
        };
        let ba: u64 = if o.bits >= 0 {
            o.bits as u64
        } else {
            (-(o.bits as i64)) as u64
        };
        let qa: u64 = pa / ba;
        let q: i64 = if (p >= 0) == (o.bits >= 0) {
            qa as i64
        } else {
            -(qa as i64)
        };
        proof {
            assert(qa <= pa) by (nonlinear_arith)
                requires
                    ba >= 1,
                    qa == pa as int / ba as int,
                    pa >= 0,
            ;
        }
        Self::clamp(q)
    }

    fn lt(&self, o: &Self) -> (r: bool) {
        self.bits < o.bits
    }

    fn is_zero(&self) -> (r: bool) {
        self.bits == 0
    }

    fn is_degraded(&self) -> (r: bool) {
        false
    }
}

impl<const W: u32, const F: u32> FixedPoint<W, F> {
    /// Magnitude of a bit value.
    pub open spec fn abs_spec(x: int) -> int {
        if x >= 0 {
            x
        } else {
            -x
        }
    }
}

impl<const W: u32, const F: u32> MandelbrotNumber for FixedPoint<W, F> {

}

} // verus!

verus! {

/// Converting the exact rational zero into a usable fixed-point format
/// yields the format's own additive identity: the rounded magnitude of
/// zero is zero bits.
pub proof fn lemma_zero_converts_to_zero<const W: u32, const F: u32>(r: Rational)
    requires
        r.wf(),
        r.spec_is_zero(),
        FixedPoint::<W, F>::params_ok(),
    ensures
        <FixedPoint<W, F> as FromRational>::from_rational_spec(r) matches Some(v)
            && v.is_zero_spec(),
{
    lemma_pow2_pos((F + 1) as nat);
    lemma_pow2_pos((W - 1) as nat);
    lemma_fundamental_div_mod_converse_div(0, r.d(), 0, 0);
    assert(0 * pow2((F + 1) as nat) == 0);
    assert(FixedPoint::<W, F>::conv_mag(0, r.d()) == (0 + 1) / 2);
    assert(FixedPoint::<W, F>::conv_mag(0, r.d()) == 0);
}

} // verus!

verus! {

/// When the fractional bits suffice — the scaled magnitude a·2^F/d is an
/// integer — conversion is exact: the rounding step changes nothing.
pub proof fn lemma_fixed_exact_when_representable<const W: u32, const F: u32>(a: int, d: int)
    requires
        FixedPoint::<W, F>::params_ok(),
        0 <= a,
        1 <= d,
        (a * pow2(F as nat)) % d == 0,
    ensures
        FixedPoint::<W, F>::conv_mag(a, d) == (a * pow2(F as nat)) / d,
{
    let p = pow2(F as nat) as int;
    let k = (a * p) / d;
    lemma_fundamental_div_mod(a * p, d);
    assert(a * p == k * d);
    assert(pow2((F + 1) as nat) == p * 2) by {
        lemma_pow2_adds(F as nat, 1);
        vstd::arithmetic::power2::lemma2_to64();
    }
    assert(a * pow2((F + 1) as nat) == (2 * k) * d + 0) by (nonlinear_arith)
        requires
            pow2((F + 1) as nat) == p * 2,
            a * p == k * d,
    ;
    lemma_fundamental_div_mod_converse_div(a * pow2((F + 1) as nat), d, 2 * k, 0);
    lemma_fundamental_div_mod_converse_div(2 * k + 1, 2, k, 1);
}

/// A small integer converts into a usable fixed-point format whenever its
/// scaled magnitude fits the capacity.
pub proof fn lemma_fixed_int_converts<const W: u32, const F: u32>(r: Rational, k: int)
    requires
        FixedPoint::<W, F>::params_ok(),
        r.wf(),
        0 <= k,
        r.n() == k || r.n() == -k,
        r.d() == 1,
        k * pow2(F as nat) <= FixedPoint::<W, F>::max_bits(),
    ensures
        <FixedPoint<W, F> as FromRational>::from_rational_spec(r) is Some,
{
    lemma_pow2_pos(F as nat);
    lemma_pow2_pos((F + 1) as nat);
    vstd::arithmetic::div_mod::lemma_fundamental_div_mod_converse_mod(k * pow2(F as nat), 1, k
        * pow2(F as nat), 0);
    lemma_fixed_exact_when_representable::<W, F>(k, 1);
    lemma_fundamental_div_mod_converse_div(k * pow2(F as nat), 1, k * pow2(F as nat), 0);
    assert(FixedPoint::<W, F>::conv_mag(k, 1) == k * pow2(F as nat));
}

} // verus!
