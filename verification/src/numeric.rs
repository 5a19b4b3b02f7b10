//! Complex number implementation.
//! A little more granular than a general-purpose library, because the
//! evaluators are only interested in certain operations.

use vstd::prelude::*;

use crate::number::{FractalNumber, MandelbrotNumber};

verus! {

/// A complex number over a numeric format.
#[derive(Copy, Clone, Debug)]
pub struct Complex<N> {
    pub re: N,
    pub im: N,
}

impl<N: FractalNumber> Complex<N> {
    /// Both components are well-formed values of the format.
    pub open spec fn valid(self) -> bool {
        self.re.valid() && self.im.valid()
    }

    /// What `add` returns: componentwise addition.
    pub open spec fn add_spec(self, rhs: Complex<N>) -> Complex<N> {
        Complex { re: N::add_spec(self.re, rhs.re), im: N::add_spec(self.im, rhs.im) }
    }

    /// What `sub` returns: componentwise subtraction.
    pub open spec fn sub_spec(self, rhs: Complex<N>) -> Complex<N> {
        Complex { re: N::sub_spec(self.re, rhs.re), im: N::sub_spec(self.im, rhs.im) }
    }

    /// What `mul` returns: (a + ib)(c + id) = (ac - bd) + i(ad + bc).
    pub open spec fn mul_spec(self, rhs: Complex<N>) -> Complex<N> {
        let (a, b) = (self.re, self.im);
        let (c, d) = (rhs.re, rhs.im);
        Complex {
            re: N::sub_spec(N::mul_spec(a, c), N::mul_spec(b, d)),
            im: N::add_spec(N::mul_spec(a, d), N::mul_spec(b, c)),
        }
    }

    /// The squared magnitude in the format's own arithmetic: re² + im².
    pub open spec fn mag_sq_spec(self) -> N {
        N::add_spec(N::mul_spec(self.re, self.re), N::mul_spec(self.im, self.im))
    }

    /// What `div` returns: the standard quotient formula, both components
    /// divided by the divisor's squared magnitude.
    pub open spec fn div_spec(self, rhs: Complex<N>) -> Complex<N> {
        let (a, b) = (self.re, self.im);
        let (c, d) = (rhs.re, rhs.im);
        let m = rhs.mag_sq_spec();
        Complex {
            re: N::div_spec(N::add_spec(N::mul_spec(a, c), N::mul_spec(b, d)), m),
            im: N::div_spec(N::sub_spec(N::mul_spec(b, c), N::mul_spec(a, d)), m),
        }
    }

    /// What `near` reports: the squared distance between `self` and `rhs` is
    /// strictly below `nb`'s squared magnitude divided by `threshold`.
    pub open spec fn near_spec(self, rhs: Complex<N>, nb: Complex<N>, threshold: N) -> bool {
        let nearby = N::div_spec(nb.mag_sq_spec(), threshold);
        let dre = N::sub_spec(self.re, rhs.re);
        let dim = N::sub_spec(self.im, rhs.im);
        let distance = N::add_spec(N::mul_spec(dre, dre), N::mul_spec(dim, dim));
        N::lt_spec(distance, nearby)
    }

    /// Componentwise addition.
    pub fn add(self, rhs: Complex<N>) -> (r: Complex<N>)
        requires
            N::fmt_ok(),
            self.valid(),
            rhs.valid(),
        ensures
            r == self.add_spec(rhs),
            r.valid(),
    {
        Complex { re: self.re.add(rhs.re), im: self.im.add(rhs.im) }
    }

    /// Componentwise subtraction.
    pub fn sub(self, rhs: Complex<N>) -> (r: Complex<N>)
        requires
            N::fmt_ok(),
            self.valid(),
            rhs.valid(),
        ensures
            r == self.sub_spec(rhs),
            r.valid(),
    {
        Complex { re: self.re.sub(rhs.re), im: self.im.sub(rhs.im) }
    }

    /// Full complex product.
    pub fn mul(self, rhs: Complex<N>) -> (r: Complex<N>)
        requires
            N::fmt_ok(),
            self.valid(),
            rhs.valid(),
        ensures
            r == self.mul_spec(rhs),
            r.valid(),
    {
        let (a, b) = (self.re, self.im);
        let (c, d) = (rhs.re, rhs.im);
        let re: N = (a.mul(c)).sub(b.mul(d));
        let im: N = (a.mul(d)).add(b.mul(c));
        Complex { re, im }
    }

    /// The squared magnitude in the format's own arithmetic.
    pub fn mag_sq(self) -> (r: N)
        requires
            N::fmt_ok(),
            self.valid(),
        ensures
            r == self.mag_sq_spec(),
            r.valid(),
    {
        (self.re.mul(self.re)).add(self.im.mul(self.im))
    }

    /// Complex division; the divisor's squared magnitude (as computed by the
    /// format) must not be the format's zero.
    pub fn div(self, rhs: Complex<N>) -> (r: Complex<N>)
        requires
            N::fmt_ok(),
            self.valid(),
            rhs.valid(),
            !rhs.mag_sq_spec().is_zero_spec(),
        ensures
            r == self.div_spec(rhs),
            r.valid(),
    {
        let (a, b) = (self.re, self.im);
        let (c, d) = (rhs.re, rhs.im);
        let m: N = (c.mul(c)).add(d.mul(d));
        let re: N = ((a.mul(c)).add(b.mul(d))).div(m);
        let im: N = ((b.mul(c)).sub(a.mul(d))).div(m);
        Complex { re, im }
    }

    /// Reports if two complex numbers are near each other.
    ///
    /// Near is defined as: if the squared distance between the two is less
    /// than the squared magnitude of `nb` divided by `threshold`, then the
    /// numbers are near. It's defined this way — relative to a reference
    /// magnitude rather than an absolute epsilon — so the same test works
    /// across formats and scales; `nb` should be similar to `self` and
    /// `rhs`, ideally the larger of the two.
    pub fn near(&self, rhs: Complex<N>, nb: Complex<N>, threshold: N) -> (r: bool)
        requires
            N::fmt_ok(),
            self.valid(),
            rhs.valid(),
            nb.valid(),
            threshold.valid(),
            !threshold.is_zero_spec(),
        ensures
            r == self.near_spec(rhs, nb, threshold),
    {
        let nearby = ((nb.re.mul(nb.re)).add(nb.im.mul(nb.im))).div(threshold);
        let dre = self.re.sub(rhs.re);
        let dim = self.im.sub(rhs.im);
        let distance = (dre.mul(dre)).add(dim.mul(dim));
        distance.lt(&nearby)
    }
}

impl<N: MandelbrotNumber> Complex<N> {
    /// What `square` returns: (a+bi)² = (a²-b²) + 2abi, using three
    /// multiplications.
    pub open spec fn square_spec(self) -> Complex<N> {
        Complex {
            re: N::sub_spec(N::mul_spec(self.re, self.re), N::mul_spec(self.im, self.im)),
            im: N::mul_spec(N::from_i32_spec(2), N::mul_spec(self.re, self.im)),
        }
    }

    /// Squares the given number.
    /// This takes fewer multiplications than a generic complex product.
    pub fn square(self) -> (r: Self)
        requires
            N::fmt_ok(),
            self.valid(),
        ensures
            r == self.square_spec(),
            r.valid(),
    {
        // (a+bi)^2 = (a^2-b^2) + 2abi
        let re = (self.re.mul(self.re)).sub(self.im.mul(self.im));
        let im = N::two().mul(self.re.mul(self.im));
        Complex { re, im }
    }
}

} // verus!
