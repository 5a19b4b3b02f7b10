//! The numeric format contract: the minimal operation set a representation
//! must implement so the evaluators can run over it unchanged.
//!
//! Every operation's executable behaviour is pinned to a spec-level
//! counterpart that each format defines, so an evaluator's contract states
//! its result exactly in terms of the chosen format's own semantics.

use vstd::prelude::*;

use crate::rational::Rational;

verus! {

broadcast use {crate::rational::lemma_rat_components, crate::rational::lemma_spec_add_wf, crate::rational::lemma_spec_sub_wf, crate::rational::lemma_spec_mul_wf, crate::rational::lemma_spec_div_wf};

/// A numeric type that can be converted from an exact rational.
///
/// This is provided as a distinct trait because the conversion is the one
/// fallible operation: a value may lie outside the format's representable
/// range.
pub trait FromRational: Sized {
    /// What the conversion returns: `None` exactly when the value is out of
    /// the format's range.
    spec fn from_rational_spec(r: Rational) -> Option<Self>;

    /// Well-formedness of a single value of the format.
    spec fn valid(self) -> bool;

    /// Convert an exact rational into this format, rounding per the format's
    /// own policy; fails exactly on out-of-range values.
    fn from_bigrational(r: &Rational) -> (res: Result<Self, String>)
        requires
            r.wf(),
        ensures
            match res {
                Ok(v) => Self::from_rational_spec(*r) == Some(v) && v.valid(),
                Err(_) => Self::from_rational_spec(*r) is None,
            },
    ;
}

/// A numeric type that the fractal evaluators can run over.
///
/// The operations are total over valid values; how a format rounds, clamps
/// or saturates is part of its own `*_spec` definitions, which these
/// executable methods are proved to match.
pub trait FractalNumber: Sized + Copy + FromRational {
    /// Is the format itself usable? (A parametrized format may be
    /// instantiated with unusable parameters; everything below is promised
    /// only for usable formats.)
    spec fn fmt_ok() -> bool;

    /// What `from_i32` returns.
    spec fn from_i32_spec(i: int) -> Self;

    /// What `add` returns.
    spec fn add_spec(a: Self, b: Self) -> Self;

    /// What `sub` returns.
    spec fn sub_spec(a: Self, b: Self) -> Self;

    /// What `mul` returns.
    spec fn mul_spec(a: Self, b: Self) -> Self;

    /// What `div` returns.
    spec fn div_spec(a: Self, b: Self) -> Self;

    /// What `lt` returns.
    spec fn lt_spec(a: Self, b: Self) -> bool;

    /// Is this value the format's zero?
    spec fn is_zero_spec(self) -> bool;

    /// Has this value been lost to the format's overflow handling? Formats
    /// whose arithmetic is total by design (saturating posits, clamping
    /// fixed point) never report degradation; the exact oracle reports its
    /// poisoning overflow sentinel, so an evaluator can abort rather than
    /// deliver a wrong result.
    spec fn degraded_spec(self) -> bool;

    /// Construct the format's representation of a small integer constant.
    fn from_i32(i: i32) -> (r: Self)
        requires
            Self::fmt_ok(),
        ensures
            r == Self::from_i32_spec(i as int),
            r.valid(),
            r.is_zero_spec() == (i == 0),
    ;

    /// Addition in the format.
    fn add(self, o: Self) -> (r: Self)
        requires
            Self::fmt_ok(),
            self.valid(),
            o.valid(),
        ensures
            r == Self::add_spec(self, o),
            r.valid(),
    ;

    /// Subtraction in the format.
    fn sub(self, o: Self) -> (r: Self)
        requires
            Self::fmt_ok(),
            self.valid(),
            o.valid(),
        ensures
            r == Self::sub_spec(self, o),
            r.valid(),
    ;

    /// Multiplication in the format.
    fn mul(self, o: Self) -> (r: Self)
        requires
            Self::fmt_ok(),
            self.valid(),
            o.valid(),
        ensures
            r == Self::mul_spec(self, o),
            r.valid(),
    ;

    /// Division in the format; the divisor must not be the format's zero.
    fn div(self, o: Self) -> (r: Self)
        requires
            Self::fmt_ok(),
            self.valid(),
            o.valid(),
            !o.is_zero_spec(),
        ensures
            r == Self::div_spec(self, o),
            r.valid(),
    ;

    /// Strict order consistent with magnitude comparison.
    fn lt(&self, o: &Self) -> (r: bool)
        requires
            Self::fmt_ok(),
            self.valid(),
            o.valid(),
        ensures
            r == Self::lt_spec(*self, *o),
    ;

    /// Is this value the format's zero?
    fn is_zero(&self) -> (r: bool)
        requires
            Self::fmt_ok(),
            self.valid(),
        ensures
            r == self.is_zero_spec(),
    ;

    /// Has this value been lost to the format's overflow handling?
    fn is_degraded(&self) -> (r: bool)
        requires
            Self::fmt_ok(),
            self.valid(),
        ensures
            r == self.degraded_spec(),
    ;
}

/// A numeric type that can be used for the Mandelbrot fractal: the evaluator
/// needs the constants zero (to seed the iteration), two (for the fast
/// complex square) and four (for the escape bound).
pub trait MandelbrotNumber: FractalNumber {
    /// Provides this type's representation of zero.
    fn zero() -> (r: Self)
        requires
            Self::fmt_ok(),
        ensures
            r == Self::from_i32_spec(0),
            r.valid(),
            r.is_zero_spec(),
    {
        Self::from_i32(0)
    }

    /// Provides this type's representation of two.
    fn two() -> (r: Self)
        requires
            Self::fmt_ok(),
        ensures
            r == Self::from_i32_spec(2),
            r.valid(),
        {
        Self::from_i32(2)
    }

    /// Provides this type's representation of four.
    fn four() -> (r: Self)
        requires
            Self::fmt_ok(),
        ensures
            r == Self::from_i32_spec(4),
            r.valid(),
    {
        Self::from_i32(4)
    }
}

impl FromRational for Rational {
    /// The exact format: conversion is the identity and never fails.
    open spec fn from_rational_spec(r: Rational) -> Option<Self> {
        Some(r)
    }

    open spec fn valid(self) -> bool {
        self.wf()
    }

    fn from_bigrational(r: &Rational) -> (res: Result<Self, String>) {
        Ok(*r)
    }
}

impl FractalNumber for Rational {
    open spec fn fmt_ok() -> bool {
        true
    }

    open spec fn from_i32_spec(i: int) -> Self {
        Rational::spec_from_int(i)
    }

    open spec fn add_spec(a: Self, b: Self) -> Self {
        Rational::spec_add(a, b)
    }

    open spec fn sub_spec(a: Self, b: Self) -> Self {
        Rational::spec_sub(a, b)
    }

    open spec fn mul_spec(a: Self, b: Self) -> Self {
        Rational::spec_mul(a, b)
    }

    open spec fn div_spec(a: Self, b: Self) -> Self {
        Rational::spec_div(a, b)
    }

    open spec fn lt_spec(a: Self, b: Self) -> bool {
        Rational::spec_lt(a, b)
    }

    open spec fn is_zero_spec(self) -> bool {
        self.spec_is_zero()
    }

    /// The exact oracle's one degraded value is its overflow sentinel.
    open spec fn degraded_spec(self) -> bool {
        self.spec_is_sat()
    }

    fn from_i32(i: i32) -> (r: Self) {
        Rational::from_integer(i as i64)
    }

    fn add(self, o: Self) -> (r: Self) {
        Rational::add(self, o)
    }

    fn sub(self, o: Self) -> (r: Self) {
        Rational::sub(self, o)
    }

    fn mul(self, o: Self) -> (r: Self) {
        Rational::mul(self, o)
    }

    fn div(self, o: Self) -> (r: Self) {
        Rational::div(self, o)
    }

    fn lt(&self, o: &Self) -> (r: bool) {
        Rational::lt(self, o)
    }

    fn is_zero(&self) -> (r: bool) {
        Rational::is_zero(self)
    }

    fn is_degraded(&self) -> (r: bool) {
        Rational::is_sat(self)
    }
}

impl MandelbrotNumber for Rational {

}

} // verus!

verus! {

/// Converting the exact rational zero into the exact format yields the
/// format's own additive identity (the conversion is the identity, so any
/// representation of zero stays a representation of zero).
pub proof fn lemma_zero_converts_to_zero_exact(r: Rational)
    requires
        r.wf(),
        r.spec_is_zero(),
    ensures
        <Rational as FromRational>::from_rational_spec(r) matches Some(v) && v.is_zero_spec(),
{
}

} // verus!
