//! Exact rational numbers over machine-width integers.
//!
//! A `Rational` holds a 64-bit numerator and a positive 64-bit denominator.
//! Arithmetic is computed exactly in 128-bit intermediates — cross products of
//! 64-bit components always fit — and is exact whenever the result's
//! components fit 64 bits again, reducing by the greatest common divisor when
//! they do not; a result that does not fit even reduced collapses to a single
//! saturation sentinel, so every operation is total. The sentinel poisons:
//! every operation on it yields it again, so an overflow anywhere in a
//! computation is visible in the final value, and an evaluator can abort or
//! discard the affected pixel instead of delivering a wrong result.
//!
//! Bounding the components at 64 bits is a deliberate narrowing of the
//! arbitrary-precision pair the design calls for: it keeps every operation a
//! few machine instructions with a fully verified exactness story (see
//! `lemma_add_exact` and friends — the result denotes the true rational
//! unless it saturates), at the price that a long Newton orbit can outgrow
//! the range and saturate where an arbitrary-precision oracle would keep
//! going — but never to a silently wrong value: the poisoning sentinel makes
//! the loss detectable, and the evaluators abort or leave such pixels
//! unresolved. Within range — which covers the window coordinates, the
//! symbolic polynomial expansion, and short orbits — the format is a true
//! ground-truth oracle; a verified arbitrary-precision integer would lift
//! the bound and is left out of scope here.

use vstd::prelude::*;

verus! {

/// Largest magnitude a numerator or denominator may take.
pub open spec fn rat_limit() -> int {
    i64::MAX as int
}

/// Does a mathematical integer fit the allowed numerator/denominator range?
pub open spec fn rat_fits(x: int) -> bool {
    -rat_limit() <= x <= rat_limit()
}

/// An exact rational: `num / den`, with `den > 0`.
#[derive(Clone, Copy, Debug)]
pub struct Rational {
    num: i64,
    den: i64,
}

/// Euclid's greatest common divisor, on nonnegative integers.
pub open spec fn gcd(a: int, b: int) -> int
    recommends
        0 <= a,
        0 <= b,
    decreases b,
{
    if b <= 0 {
        a
    } else {
        gcd(b, a % b)
    }
}

/// The divisor Euclid's algorithm returns lies between 1 and the second
/// argument, whenever that argument is positive.
pub proof fn lemma_gcd_bounds(a: int, b: int)
    requires
        0 <= a,
        1 <= b,
    ensures
        1 <= gcd(a, b) <= b,
    decreases b,
{
    vstd::arithmetic::div_mod::lemma_mod_bound(a, b);
    let r = a % b;
    if r == 0 {
        assert(gcd(a, b) == gcd(b, 0));
    } else {
        lemma_gcd_bounds(b, r);
    }
}

/// Compute the greatest common divisor.
fn gcd_exec(a: u128, b: u128) -> (g: u128)
    ensures
        g as int == gcd(a as int, b as int),
    decreases b,
{
    let mut x = a;
    let mut y = b;
    while y != 0
        invariant
            gcd(x as int, y as int) == gcd(a as int, b as int),
        decreases y,
    {
        let r = x % y;
        x = y;
        y = r;
    }
    x
}

/// Products of two in-range components fit an `i128`.
proof fn lemma_prod_bound(a: int, b: int)
    requires
        rat_fits(a),
        -rat_limit() <= b <= rat_limit(),
    ensures
        -(rat_limit() * rat_limit()) <= a * b <= rat_limit() * rat_limit(),
{
    assert(-(rat_limit() * rat_limit()) <= a * b <= rat_limit() * rat_limit())
        by (nonlinear_arith)
        requires
            -rat_limit() <= a <= rat_limit(),
            -rat_limit() <= b <= rat_limit(),
    ;
}

/// The components of a spec-constructed rational are the ones given,
/// whenever they are in range.
pub broadcast proof fn lemma_rat_components(n: int, d: int)
    requires
        rat_fits(n),
        rat_fits(d),
    ensures
        (#[trigger] Rational::rat(n, d)).n() == n,
        (Rational::rat(n, d)).d() == d,
{
}

/// Normalized results are well-formed.
pub proof fn lemma_norm_wf(n: int, d: int)
    requires
        1 <= d,
    ensures
        Rational::norm(n, d).wf(),
{
    if rat_fits(n) && rat_fits(d) {
    } else {
        let m = if n >= 0 {
            n
        } else {
            -n
        };
        lemma_gcd_bounds(m, d);
        let g = gcd(m, d);
        vstd::arithmetic::div_mod::lemma_fundamental_div_mod(m, g);
        vstd::arithmetic::div_mod::lemma_fundamental_div_mod(d, g);
        let mr = m / g;
        let dr = d / g;
        assert(mr >= 0) by (nonlinear_arith)
            requires
                m == mr * g + m % g,
                0 <= m % g < g,
                m >= 0,
                g >= 1,
        ;
        assert(dr >= 1) by (nonlinear_arith)
            requires
                d == dr * g + d % g,
                0 <= d % g <= g - 1,
                g <= d,
                g >= 1,
        ;
    }
}

/// Results of the spec-level operations are well-formed.
pub broadcast proof fn lemma_spec_add_wf(a: Rational, b: Rational)
    requires
        a.wf(),
        b.wf(),
    ensures
        (#[trigger] Rational::spec_add(a, b)).wf(),
{
    lemma_rat_components(rat_limit(), 1);
    if !a.spec_is_sat() && !b.spec_is_sat() {
        assert(a.d() * b.d() >= 1) by (nonlinear_arith)
            requires
                a.d() >= 1,
                b.d() >= 1,
        ;
        lemma_norm_wf(a.n() * b.d() + b.n() * a.d(), a.d() * b.d());
    }
}

/// Results of the spec-level operations are well-formed.
pub broadcast proof fn lemma_spec_sub_wf(a: Rational, b: Rational)
    requires
        a.wf(),
        b.wf(),
    ensures
        (#[trigger] Rational::spec_sub(a, b)).wf(),
{
    lemma_rat_components(rat_limit(), 1);
    if !a.spec_is_sat() && !b.spec_is_sat() {
        assert(a.d() * b.d() >= 1) by (nonlinear_arith)
            requires
                a.d() >= 1,
                b.d() >= 1,
        ;
        lemma_norm_wf(a.n() * b.d() - b.n() * a.d(), a.d() * b.d());
    }
}

/// Results of the spec-level operations are well-formed.
pub broadcast proof fn lemma_spec_mul_wf(a: Rational, b: Rational)
    requires
        a.wf(),
        b.wf(),
    ensures
        (#[trigger] Rational::spec_mul(a, b)).wf(),
{
    lemma_rat_components(rat_limit(), 1);
    if !a.spec_is_sat() && !b.spec_is_sat() {
        assert(a.d() * b.d() >= 1) by (nonlinear_arith)
            requires
                a.d() >= 1,
                b.d() >= 1,
        ;
        lemma_norm_wf(a.n() * b.n(), a.d() * b.d());
    }
}

/// Results of the spec-level operations are well-formed.
pub broadcast proof fn lemma_spec_div_wf(a: Rational, b: Rational)
    requires
        a.wf(),
        b.wf(),
        !b.spec_is_zero(),
    ensures
        (#[trigger] Rational::spec_div(a, b)).wf(),
{
    lemma_rat_components(rat_limit(), 1);
    if !a.spec_is_sat() && !b.spec_is_sat() {
        assert(a.d() * b.n() != 0) by (nonlinear_arith)
            requires
                a.d() >= 1,
                b.n() != 0,
        ;
        let d0 = a.d() * b.n();
        if d0 < 0 {
            lemma_norm_wf(-(a.n() * b.d()), -d0);
        } else {
            lemma_norm_wf(a.n() * b.d(), d0);
        }
    }
}

impl Rational {
    /// Numerator, as a mathematical integer.
    pub closed spec fn n(self) -> int {
        self.num as int
    }

    /// Denominator, as a mathematical integer.
    pub closed spec fn d(self) -> int {
        self.den as int
    }

    /// Well-formed: denominator positive, both components in range.
    pub open spec fn wf(self) -> bool {
        &&& 1 <= self.d() <= rat_limit()
        &&& rat_fits(self.n())
    }

    /// The rational with the given components (spec-level constructor).
    pub closed spec fn rat(n: int, d: int) -> Rational {
        Rational { num: n as i64, den: d as i64 }
    }

    /// The saturation value that out-of-range results collapse to.
    pub open spec fn sat() -> Rational {
        Self::rat(rat_limit(), 1)
    }

    /// Is this the overflow sentinel? The sentinel poisons: every operation
    /// with a saturated operand is saturated, so an overflow anywhere in a
    /// computation is visible in its result instead of silently feeding
    /// wrong components onward.
    pub open spec fn spec_is_sat(self) -> bool {
        self == Self::sat()
    }

    /// Is this the overflow sentinel?
    pub fn is_sat(&self) -> (r: bool)
        ensures
            r == self.spec_is_sat(),
    {
        proof {
            lemma_rat_components(rat_limit(), 1);
        }
        self.num == i64::MAX && self.den == 1
    }

    /// Bring an exact result back into range: keep it as it is when its
    /// components fit, otherwise reduce by the greatest common divisor of
    /// the magnitudes, and saturate only if it still does not fit.
    pub open spec fn norm(n: int, d: int) -> Rational {
        if rat_fits(n) && rat_fits(d) {
            Self::rat(n, d)
        } else {
            let m = if n >= 0 {
                n
            } else {
                -n
            };
            let g = gcd(m, d);
            let mr = m / g;
            let dr = d / g;
            if mr <= rat_limit() && dr <= rat_limit() {
                Self::rat(
                    if n >= 0 {
                        mr
                    } else {
                        -mr
                    },
                    dr,
                )
            } else {
                Self::sat()
            }
        }
    }

    /// Semantic equality: both sides denote the same rational number.
    pub open spec fn same_value(self, o: Rational) -> bool {
        self.n() * o.d() == o.n() * self.d()
    }

    /// Is this the rational number zero?
    pub open spec fn spec_is_zero(self) -> bool {
        self.n() == 0
    }

    /// Spec-level addition.
    pub open spec fn spec_add(a: Rational, b: Rational) -> Rational {
        if a.spec_is_sat() || b.spec_is_sat() {
            Self::sat()
        } else {
            Self::norm(a.n() * b.d() + b.n() * a.d(), a.d() * b.d())
        }
    }

    /// Spec-level subtraction.
    pub open spec fn spec_sub(a: Rational, b: Rational) -> Rational {
        if a.spec_is_sat() || b.spec_is_sat() {
            Self::sat()
        } else {
            Self::norm(a.n() * b.d() - b.n() * a.d(), a.d() * b.d())
        }
    }

    /// Spec-level multiplication.
    pub open spec fn spec_mul(a: Rational, b: Rational) -> Rational {
        if a.spec_is_sat() || b.spec_is_sat() {
            Self::sat()
        } else {
            Self::norm(a.n() * b.n(), a.d() * b.d())
        }
    }

    /// Spec-level division; the divisor must not be zero.
    pub open spec fn spec_div(a: Rational, b: Rational) -> Rational {
        if a.spec_is_sat() || b.spec_is_sat() {
            Self::sat()
        } else {
            let n0 = a.n() * b.d();
            let d0 = a.d() * b.n();
            let n = if d0 < 0 {
                -n0
            } else {
                n0
            };
            let d = if d0 < 0 {
                -d0
            } else {
                d0
            };
            Self::norm(n, d)
        }
    }

    /// Spec-level strict order on the denoted rational numbers.
    pub open spec fn spec_lt(a: Rational, b: Rational) -> bool {
        a.n() * b.d() < b.n() * a.d()
    }

    /// The rational `i / 1`.
    pub open spec fn spec_from_int(i: int) -> Rational {
        Self::rat(i, 1)
    }

    /// Build the rational `n / d`; the sign moves to the numerator.
    pub fn new(n: i64, d: i64) -> (r: Rational)
        requires
            d != 0,
            d != i64::MIN,
            n != i64::MIN,
        ensures
            r.wf(),
            r.same_value(Self::rat(n as int, d as int)),
            d > 0 ==> r == Self::rat(n as int, d as int),
    {
        let r = if d < 0 {
            Rational { num: -n, den: -d }
        } else {
            Rational { num: n, den: d }
        };
        proof {
            assert(r.n() * d == n as int * r.d()) by (nonlinear_arith)
                requires
                    (d > 0 && r.n() == n as int && r.d() == d as int) || (d < 0 && r.n() == -(
                    n as int) && r.d() == -(d as int)),
            ;
        }
        r
    }

    /// The rational denoting the given integer.
    pub fn from_integer(i: i64) -> (r: Rational)
        requires
            i != i64::MIN,
        ensures
            r.wf(),
            r == Self::spec_from_int(i as int),
    {
        Rational { num: i, den: 1 }
    }

    /// The numerator.
    pub fn numer(&self) -> (r: i64)
        ensures
            r as int == self.n(),
    {
        self.num
    }

    /// The denominator.
    pub fn denom(&self) -> (r: i64)
        ensures
            r as int == self.d(),
    {
        self.den
    }

    /// Bring a 128-bit exact result back to components: exact when it fits,
    /// reduced by the greatest common divisor when it does not, saturated
    /// only if it still does not fit.
    fn normalize(n: i128, d: i128) -> (r: Rational)
        requires
            d > 0,
            n != i128::MIN,
        ensures
            r == Self::norm(n as int, d as int),
            r.wf(),
    {
        let lim: i128 = i64::MAX as i128;
        if -lim <= n && n <= lim && d <= lim {
            return Rational { num: n as i64, den: d as i64 };
        }
        let m: u128 = if n >= 0 {
            n as u128
        } else {
            (-n) as u128
        };
        let dd: u128 = d as u128;
        let g: u128 = gcd_exec(m, dd);
        proof {
            lemma_gcd_bounds(m as int, dd as int);
            vstd::arithmetic::div_mod::lemma_fundamental_div_mod(dd as int, g as int);
            assert(dd as int / g as int >= 1) by (nonlinear_arith)
                requires
                    dd as int == ((dd as int) / (g as int)) * (g as int) + (dd as int) % (
                    g as int),
                    0 <= (dd as int) % (g as int) <= (g as int) - 1,
                    g <= dd,
                    g >= 1,
            ;
        }
        let mr: u128 = m / g;
        let dr: u128 = dd / g;
        if mr <= i64::MAX as u128 && dr <= i64::MAX as u128 {
            let num: i64 = if n >= 0 {
                mr as i64
            } else {
                -(mr as i64)
            };
            Rational { num, den: dr as i64 }
        } else {
            Rational { num: i64::MAX, den: 1 }
        }
    }

    /// Exact addition; an out-of-range result is reduced, then saturated.
    pub fn add(self, o: Rational) -> (r: Rational)
        requires
            self.wf(),
            o.wf(),
        ensures
            r == Self::spec_add(self, o),
            r.wf(),
    {
        if self.is_sat() || o.is_sat() {
            proof {
                lemma_rat_components(rat_limit(), 1);
            }
            return Rational { num: i64::MAX, den: 1 };
        }
        proof {
            lemma_prod_bound(self.n(), o.d());
            lemma_prod_bound(o.n(), self.d());
            lemma_prod_bound(self.d(), o.d());
        }
        let x = self.num as i128 * o.den as i128;
        let y = o.num as i128 * self.den as i128;
        let d = self.den as i128 * o.den as i128;
        proof {
            assert(d > 0) by (nonlinear_arith)
                requires
                    self.d() > 0,
                    o.d() > 0,
                    d as int == self.d() * o.d(),
            ;
        }
        proof {
            assert(x + y > i128::MIN) by (nonlinear_arith)
                requires
                    -(rat_limit() * rat_limit()) <= x <= rat_limit() * rat_limit(),
                    -(rat_limit() * rat_limit()) <= y <= rat_limit() * rat_limit(),
                    rat_limit() == i64::MAX,
            ;
        }
        Self::normalize(x + y, d)
    }

    /// Exact subtraction; an out-of-range result is reduced, then saturated.
    pub fn sub(self, o: Rational) -> (r: Rational)
        requires
            self.wf(),
            o.wf(),
        ensures
            r == Self::spec_sub(self, o),
            r.wf(),
    {
        if self.is_sat() || o.is_sat() {
            proof {
                lemma_rat_components(rat_limit(), 1);
            }
            return Rational { num: i64::MAX, den: 1 };
        }
        proof {
            lemma_prod_bound(self.n(), o.d());
            lemma_prod_bound(o.n(), self.d());
            lemma_prod_bound(self.d(), o.d());
        }
        let x = self.num as i128 * o.den as i128;
        let y = o.num as i128 * self.den as i128;
        let d = self.den as i128 * o.den as i128;
        proof {
            assert(d > 0) by (nonlinear_arith)
                requires
                    self.d() > 0,
                    o.d() > 0,
                    d as int == self.d() * o.d(),
            ;
        }
        proof {
            assert(x - y > i128::MIN) by (nonlinear_arith)
                requires
                    -(rat_limit() * rat_limit()) <= x <= rat_limit() * rat_limit(),
                    -(rat_limit() * rat_limit()) <= y <= rat_limit() * rat_limit(),
                    rat_limit() == i64::MAX,
            ;
        }
        Self::normalize(x - y, d)
    }

    /// Exact multiplication; an out-of-range result is reduced, then saturated.
    pub fn mul(self, o: Rational) -> (r: Rational)
        requires
            self.wf(),
            o.wf(),
        ensures
            r == Self::spec_mul(self, o),
            r.wf(),
    {
        if self.is_sat() || o.is_sat() {
            proof {
                lemma_rat_components(rat_limit(), 1);
            }
            return Rational { num: i64::MAX, den: 1 };
        }
        proof {
            lemma_prod_bound(self.n(), o.n());
            lemma_prod_bound(self.d(), o.d());
        }
        let n = self.num as i128 * o.num as i128;
        let d = self.den as i128 * o.den as i128;
        proof {
            assert(d > 0) by (nonlinear_arith)
                requires
                    self.d() > 0,
                    o.d() > 0,
                    d as int == self.d() * o.d(),
            ;
        }
        proof {
            assert(n > i128::MIN) by (nonlinear_arith)
                requires
                    -(rat_limit() * rat_limit()) <= n <= rat_limit() * rat_limit(),
                    rat_limit() == i64::MAX,
            ;
        }
        Self::normalize(n, d)
    }

    /// Exact division by a nonzero divisor; an out-of-range result is
    /// reduced, then saturated.
    pub fn div(self, o: Rational) -> (r: Rational)
        requires
            self.wf(),
            o.wf(),
            !o.spec_is_zero(),
        ensures
            r == Self::spec_div(self, o),
            r.wf(),
    {
        if self.is_sat() || o.is_sat() {
            proof {
                lemma_rat_components(rat_limit(), 1);
            }
            return Rational { num: i64::MAX, den: 1 };
        }
        proof {
            lemma_prod_bound(self.n(), o.d());
            lemma_prod_bound(self.d(), o.n());
        }
        let n0 = self.num as i128 * o.den as i128;
        let d0 = self.den as i128 * o.num as i128;
        proof {
            assert(d0 != 0) by (nonlinear_arith)
                requires
                    self.d() > 0,
                    o.n() != 0,
                    d0 as int == self.d() * o.n(),
            ;
        }
        proof {
            assert(n0 > i128::MIN && -n0 > i128::MIN) by (nonlinear_arith)
                requires
                    -(rat_limit() * rat_limit()) <= n0 <= rat_limit() * rat_limit(),
                    rat_limit() == i64::MAX,
            ;
        }
        if d0 < 0 {
            Self::normalize(-n0, -d0)
        } else {
            Self::normalize(n0, d0)
        }
    }

    /// Strict order on the denoted rational numbers.
    pub fn lt(&self, o: &Rational) -> (r: bool)
        requires
            self.wf(),
            o.wf(),
        ensures
            r == Self::spec_lt(*self, *o),
    {
        proof {
            lemma_prod_bound(self.n(), o.d());
            lemma_prod_bound(o.n(), self.d());
        }
        let x = self.num as i128 * o.den as i128;
        let y = o.num as i128 * self.den as i128;
        x < y
    }

    /// Semantic equality on the denoted rational numbers.
    pub fn eq_value(&self, o: &Rational) -> (r: bool)
        requires
            self.wf(),
            o.wf(),
        ensures
            r == self.same_value(*o),
    {
        proof {
            lemma_prod_bound(self.n(), o.d());
            lemma_prod_bound(o.n(), self.d());
        }
        let x = self.num as i128 * o.den as i128;
        let y = o.num as i128 * self.den as i128;
        x == y
    }

    /// Is this the rational number zero?
    pub fn is_zero(&self) -> (r: bool)
        ensures
            r == self.spec_is_zero(),
    {
        self.num == 0
    }

    /// Is the denoted number negative?
    pub fn is_negative(&self) -> (r: bool)
        requires
            self.wf(),
        ensures
            r == (self.n() < 0),
    {
        self.num < 0
    }

    /// Negation; always exact for well-formed values.
    pub fn neg(self) -> (r: Rational)
        requires
            self.wf(),
        ensures
            r.wf(),
            r == Self::rat(-self.n(), self.d()),
    {
        Rational { num: -self.num, den: self.den }
    }
}

} // verus!

verus! {

/// Euclid's divisor divides both of its arguments.
pub proof fn lemma_gcd_divides(a: int, b: int)
    requires
        0 <= a,
        0 <= b,
        a > 0 || b > 0,
    ensures
        1 <= gcd(a, b),
        a % gcd(a, b) == 0,
        b % gcd(a, b) == 0,
    decreases b,
{
    if b == 0 {
        vstd::arithmetic::div_mod::lemma_mod_self_0(a);
        vstd::arithmetic::div_mod::lemma_fundamental_div_mod_converse_mod(0, a, 0, 0);
    } else {
        vstd::arithmetic::div_mod::lemma_mod_bound(a, b);
        lemma_gcd_divides(b, a % b);
        let g = gcd(b, a % b);
        vstd::arithmetic::div_mod::lemma_fundamental_div_mod(a, b);
        vstd::arithmetic::div_mod::lemma_fundamental_div_mod(b, g);
        vstd::arithmetic::div_mod::lemma_fundamental_div_mod(a % b, g);
        let q = a / b;
        let bq = b / g;
        let rq = (a % b) / g;
        assert(a == (q * bq + rq) * g + 0) by (nonlinear_arith)
            requires
                a == b * q + a % b,
                b == g * bq + b % g,
                a % b == g * rq + (a % b) % g,
                b % g == 0,
                (a % b) % g == 0,
        ;
        vstd::arithmetic::div_mod::lemma_fundamental_div_mod_converse_mod(a, g, q * bq + rq, 0);
    }
}

/// Unless it saturates, normalization preserves the denoted rational
/// number: the result and n/d agree under cross multiplication.
pub proof fn lemma_norm_same_value(n: int, d: int)
    requires
        1 <= d,
    ensures
        Rational::norm(n, d) == Rational::sat() || Rational::norm(n, d).n() * d == n
            * Rational::norm(n, d).d(),
{
    if rat_fits(n) && rat_fits(d) {
        lemma_rat_components(n, d);
    } else {
        let m = if n >= 0 {
            n
        } else {
            -n
        };
        lemma_gcd_divides(m, d);
        lemma_gcd_bounds(m, d);
        let g = gcd(m, d);
        let mr = m / g;
        let dr = d / g;
        vstd::arithmetic::div_mod::lemma_fundamental_div_mod(m, g);
        vstd::arithmetic::div_mod::lemma_fundamental_div_mod(d, g);
        if mr <= rat_limit() && dr <= rat_limit() {
            assert(mr >= 0) by (nonlinear_arith)
                requires
                    m == g * mr + m % g,
                    m % g == 0,
                    m >= 0,
                    g >= 1,
            ;
            assert(dr >= 1) by (nonlinear_arith)
                requires
                    d == g * dr + d % g,
                    d % g == 0,
                    g <= d,
                    g >= 1,
            ;
            lemma_rat_components(
                if n >= 0 {
                    mr
                } else {
                    -mr
                },
                dr,
            );
            assert((if n >= 0 {
                mr
            } else {
                -mr
            }) * d == n * dr) by (nonlinear_arith)
                requires
                    m == g * mr + m % g,
                    d == g * dr + d % g,
                    m % g == 0,
                    d % g == 0,
                    n >= 0 ==> m == n,
                    n < 0 ==> m == -n,
            ;
        }
    }
}

/// Unless it saturates, addition is exact: the result denotes the
/// mathematical sum of the two rationals.
pub proof fn lemma_add_exact(a: Rational, b: Rational)
    requires
        a.wf(),
        b.wf(),
    ensures
        Rational::spec_add(a, b) == Rational::sat() || Rational::spec_add(a, b).n() * (a.d()
            * b.d()) == (a.n() * b.d() + b.n() * a.d()) * Rational::spec_add(a, b).d(),
{
    if !a.spec_is_sat() && !b.spec_is_sat() {
        assert(a.d() * b.d() >= 1) by (nonlinear_arith)
            requires
                a.d() >= 1,
                b.d() >= 1,
        ;
        lemma_norm_same_value(a.n() * b.d() + b.n() * a.d(), a.d() * b.d());
    }
}

/// Unless it saturates, subtraction is exact: the result denotes the
/// mathematical difference of the two rationals.
pub proof fn lemma_sub_exact(a: Rational, b: Rational)
    requires
        a.wf(),
        b.wf(),
    ensures
        Rational::spec_sub(a, b) == Rational::sat() || Rational::spec_sub(a, b).n() * (a.d()
            * b.d()) == (a.n() * b.d() - b.n() * a.d()) * Rational::spec_sub(a, b).d(),
{
    if !a.spec_is_sat() && !b.spec_is_sat() {
        assert(a.d() * b.d() >= 1) by (nonlinear_arith)
            requires
                a.d() >= 1,
                b.d() >= 1,
        ;
        lemma_norm_same_value(a.n() * b.d() - b.n() * a.d(), a.d() * b.d());
    }
}

/// Unless it saturates, division by a nonzero rational is exact: the
/// result denotes the mathematical quotient of the two rationals.
pub proof fn lemma_div_exact(a: Rational, b: Rational)
    requires
        a.wf(),
        b.wf(),
        !b.spec_is_zero(),
    ensures
        Rational::spec_div(a, b) == Rational::sat() || Rational::spec_div(a, b).n() * (a.d()
            * b.n()) == (a.n() * b.d()) * Rational::spec_div(a, b).d(),
{
    if !a.spec_is_sat() && !b.spec_is_sat() {
        let n0 = a.n() * b.d();
        let d0 = a.d() * b.n();
        assert(d0 != 0) by (nonlinear_arith)
            requires
                a.d() >= 1,
                b.n() != 0,
                d0 == a.d() * b.n(),
        ;
        if d0 < 0 {
            lemma_norm_same_value(-n0, -d0);
            let r = Rational::norm(-n0, -d0);
            if r != Rational::sat() {
                assert(r.n() * d0 == n0 * r.d()) by (nonlinear_arith)
                    requires
                        r.n() * (-d0) == (-n0) * r.d(),
                ;
            }
        } else {
            lemma_norm_same_value(n0, d0);
        }
    }
}

/// Unless it saturates, multiplication is exact: the result denotes the
/// mathematical product of the two rationals.
pub proof fn lemma_mul_exact(a: Rational, b: Rational)
    requires
        a.wf(),
        b.wf(),
    ensures
        Rational::spec_mul(a, b) == Rational::sat() || Rational::spec_mul(a, b).n() * (a.d()
            * b.d()) == (a.n() * b.n()) * Rational::spec_mul(a, b).d(),
{
    if !a.spec_is_sat() && !b.spec_is_sat() {
        assert(a.d() * b.d() >= 1) by (nonlinear_arith)
            requires
                a.d() >= 1,
                b.d() >= 1,
        ;
        lemma_norm_same_value(a.n() * b.n(), a.d() * b.d());
    }
}

} // verus!
