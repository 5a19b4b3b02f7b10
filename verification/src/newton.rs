//! Implementation of the root-basin (Newton) fractal.
//!
//! The target polynomial is built once per request from a list of complex
//! roots and a leading coefficient, by symbolically expanding the product of
//! (z − root) terms scaled by the coefficient using exact-rational
//! arithmetic, then differentiated term-by-term via the power rule. Both
//! polynomial and derivative are compiled once into coefficient tables over
//! the chosen format; per pixel, Newton iteration runs until the residual is
//! within a magnitude-relative threshold, and a sequential post-pass
//! clusters the landing points into root indices.

use vstd::prelude::*;

use crate::coords::{coord_spec, make_range, step_spec};
use crate::fixedpoint::{I11F5, I20F12};
use crate::mandelbrot::{coords_ok, xcoord, ycoord};
use crate::number::FractalNumber;
use crate::posit::{P16, P32};
use crate::numeric::Complex;
use crate::rational::Rational;
use crate::{CancelContext, CommonParams, Zero, ZeroVector};

verus! {

broadcast use {crate::rational::lemma_rat_components, crate::rational::lemma_spec_add_wf, crate::rational::lemma_spec_sub_wf, crate::rational::lemma_spec_mul_wf, crate::rational::lemma_spec_div_wf};

/// Parameters for the Newton fractal: a polynomial factored as a set of
/// zero terms (z − c) and a multiplier across all those terms, that is
/// k(z−c₁)(z−c₂)(z−c₃)…, plus an iteration budget.
pub struct NewtonParams {
    pub iters: usize,
    pub zeros: Vec<Complex<Rational>>,
    pub coefficient: Complex<Rational>,
}

/// The exact-rational zero complex.
pub open spec fn zero_c() -> Complex<Rational> {
    Complex { re: Rational::spec_from_int(0), im: Rational::spec_from_int(0) }
}

/// The exact-rational one complex.
pub open spec fn one_c() -> Complex<Rational> {
    Complex { re: Rational::spec_from_int(1), im: Rational::spec_from_int(0) }
}

/// A coefficient, or the zero complex out of range.
pub open spec fn coeff_at(s: Seq<Complex<Rational>>, i: int) -> Complex<Rational> {
    if 0 <= i < s.len() {
        s[i]
    } else {
        zero_c()
    }
}

/// Coefficients of p(z)·(z − c), from coefficients of p.
pub open spec fn mul_root_spec(s: Seq<Complex<Rational>>, c: Complex<Rational>) -> Seq<
    Complex<Rational>,
> {
    Seq::new(s.len() + 1, |i: int| coeff_at(s, i - 1).sub_spec(c.mul_spec(coeff_at(s, i))))
}

/// Coefficients of k·p(z), from coefficients of p.
pub open spec fn scale_spec(s: Seq<Complex<Rational>>, k: Complex<Rational>) -> Seq<
    Complex<Rational>,
> {
    Seq::new(s.len(), |i: int| s[i].mul_spec(k))
}

/// Scalar multiplication of a complex coefficient.
pub open spec fn scalar_mul_spec(c: Complex<Rational>, k: Rational) -> Complex<Rational> {
    Complex { re: Rational::spec_mul(c.re, k), im: Rational::spec_mul(c.im, k) }
}

/// Coefficients of p′(z) by the power rule: the i-th derivative coefficient
/// is (i+1) times the (i+1)-th of p.
pub open spec fn derive_spec(s: Seq<Complex<Rational>>) -> Seq<Complex<Rational>> {
    if s.len() == 0 {
        Seq::empty()
    } else {
        Seq::new((s.len() - 1) as nat, |i: int| scalar_mul_spec(s[i + 1], Rational::spec_from_int(i + 1)))
    }
}

/// Expansion of the product of (z − root) factors, highest root last.
pub open spec fn expand_spec(zeros: Seq<Complex<Rational>>) -> Seq<Complex<Rational>>
    decreases zeros.len(),
{
    if zeros.len() == 0 {
        seq![one_c()]
    } else {
        mul_root_spec(expand_spec(zeros.drop_last()), zeros.last())
    }
}

/// The full symbolic build: expand the factors, then distribute the leading
/// coefficient across all terms.
pub open spec fn build_spec(zeros: Seq<Complex<Rational>>, k: Complex<Rational>) -> Seq<
    Complex<Rational>,
> {
    scale_spec(expand_spec(zeros), k)
}

/// The expansion of n factors has n+1 coefficients.
pub proof fn lemma_expand_len(zeros: Seq<Complex<Rational>>)
    ensures
        expand_spec(zeros).len() == zeros.len() + 1,
    decreases zeros.len(),
{
    if zeros.len() > 0 {
        lemma_expand_len(zeros.drop_last());
    }
}

/// Are a polynomial's coefficients all well-formed?
pub open spec fn poly_valid(s: Seq<Complex<Rational>>) -> bool {
    forall|i: int| 0 <= i < s.len() ==> (#[trigger] s[i]).valid()
}

/// A polynomial over exact rationals, held as a dense coefficient table:
/// entry i is the coefficient of zⁱ.
pub struct Polynomial {
    coeffs: Vec<Complex<Rational>>,
}

impl Polynomial {
    /// The coefficient table.
    pub closed spec fn view(&self) -> Seq<Complex<Rational>> {
        self.coeffs@
    }

    /// Build directly from a coefficient table, lowest power first.
    pub fn from_coeffs(coeffs: Vec<Complex<Rational>>) -> (r: Polynomial)
        ensures
            r@ == coeffs@,
    {
        Polynomial { coeffs }
    }

    /// The coefficient table, by reference.
    pub fn coeffs(&self) -> (r: &Vec<Complex<Rational>>)
        ensures
            r@ == self@,
    {
        &self.coeffs
    }

    /// The constant polynomial 1.
    pub fn one() -> (r: Polynomial)
        ensures
            r@ =~= seq![one_c()],
            poly_valid(r@),
    {
        let one = Complex { re: Rational::from_integer(1), im: Rational::from_integer(0) };
        let mut coeffs: Vec<Complex<Rational>> = Vec::new();
        coeffs.push(one);
        Polynomial { coeffs }
    }

    /// Multiply by a monic factor (z − c).
    pub fn mul_root(&self, c: &Complex<Rational>) -> (r: Polynomial)
        requires
            poly_valid(self@),
            c.valid(),
            self@.len() < usize::MAX,
        ensures
            r@ == mul_root_spec(self@, *c),
            poly_valid(r@),
    {
        let zero = Complex { re: Rational::from_integer(0), im: Rational::from_integer(0) };
        let n = self.coeffs.len();
        let mut out: Vec<Complex<Rational>> = Vec::new();
        let mut i: usize = 0;
        while i <= n
            invariant
                n == self@.len(),
                poly_valid(self@),
                c.valid(),
                zero == zero_c(),
                i <= n + 1,
                n < usize::MAX,
                out.len() == i,
                forall|j: int| 0 <= j < i ==> out[j] == mul_root_spec(self@, *c)[j],
                forall|j: int| 0 <= j < i ==> (#[trigger] out[j]).valid(),
            decreases n + 1 - i,
        {
            let lower: Complex<Rational> = if i >= 1 {
                self.coeffs[i - 1]
            } else {
                zero
            };
            let here: Complex<Rational> = if i < n {
                self.coeffs[i]
            } else {
                zero
            };
            let v = lower.sub(c.mul(here));
            out.push(v);
            i = i + 1;
        }
        Polynomial { coeffs: out }
    }

    /// Distribute a complex coefficient across all terms.
    pub fn scale(&self, k: &Complex<Rational>) -> (r: Polynomial)
        requires
            poly_valid(self@),
            k.valid(),
        ensures
            r@ == scale_spec(self@, *k),
            poly_valid(r@),
    {
        let n = self.coeffs.len();
        let mut out: Vec<Complex<Rational>> = Vec::new();
        let mut i: usize = 0;
        while i < n
            invariant
                n == self@.len(),
                poly_valid(self@),
                k.valid(),
                i <= n,
                out.len() == i,
                forall|j: int| 0 <= j < i ==> out[j] == scale_spec(self@, *k)[j],
                forall|j: int| 0 <= j < i ==> (#[trigger] out[j]).valid(),
            decreases n - i,
        {
            let v = self.coeffs[i].mul(*k);
            out.push(v);
            i = i + 1;
        }
        Polynomial { coeffs: out }
    }

    /// Take the first derivative of this polynomial, term by term.
    pub fn derive(&self) -> (r: Polynomial)
        requires
            poly_valid(self@),
            self@.len() <= i64::MAX,
        ensures
            r@ == derive_spec(self@),
            poly_valid(r@),
    {
        let n = self.coeffs.len();
        let mut out: Vec<Complex<Rational>> = Vec::new();
        if n == 0 {
            proof {
                assert(out@ =~= derive_spec(self@));
            }
            return Polynomial { coeffs: out };
        }
        let mut i: usize = 0;
        while i < n - 1
            invariant
                n == self@.len(),
                1 <= n <= i64::MAX,
                poly_valid(self@),
                i <= n - 1,
                out.len() == i,
                forall|j: int| 0 <= j < i ==> out[j] == derive_spec(self@)[j],
                forall|j: int| 0 <= j < i ==> (#[trigger] out[j]).valid(),
            decreases n - i,
        {
            let power = Rational::from_integer((i + 1) as i64);
            let c = self.coeffs[i + 1];
            let v = Complex { re: c.re.mul(power), im: c.im.mul(power) };
            out.push(v);
            i = i + 1;
        }
        Polynomial { coeffs: out }
    }

    /// Expand k(z−c₁)(z−c₂)… symbolically in exact-rational arithmetic.
    pub fn build(zeros: &Vec<Complex<Rational>>, coefficient: &Complex<Rational>) -> (r: Polynomial)
        requires
            poly_valid(zeros@),
            coefficient.valid(),
            zeros@.len() < usize::MAX,
        ensures
            r@ == build_spec(zeros@, *coefficient),
            poly_valid(r@),
    {
        let mut acc = Polynomial::one();
        let mut i: usize = 0;
        while i < zeros.len()
            invariant
                poly_valid(zeros@),
                coefficient.valid(),
                zeros@.len() < usize::MAX,
                i <= zeros.len(),
                acc@ == expand_spec(zeros@.subrange(0, i as int)),
                poly_valid(acc@),
                acc@.len() == i + 1,
            decreases zeros.len() - i,
        {
            let z = zeros[i];
            let next = acc.mul_root(&z);
            proof {
                let pre = zeros@.subrange(0, i as int + 1);
                assert(pre.drop_last() =~= zeros@.subrange(0, i as int));
                assert(pre.last() == zeros@[i as int]);
            }
            acc = next;
            i = i + 1;
        }
        proof {
            assert(zeros@.subrange(0, zeros@.len() as int) =~= zeros@);
        }
        acc.scale(coefficient)
    }
}

/// The zero complex of an arbitrary format.
pub open spec fn czero<N: FractalNumber>() -> Complex<N> {
    Complex { re: N::from_i32_spec(0), im: N::from_i32_spec(0) }
}

/// Horner evaluation of a coefficient table at z, in the format's own
/// arithmetic: p(z) = c₀ + z·(c₁ + z·(c₂ + …)).
///
/// Horner's rule is this library's fixed evaluation order. In an inexact
/// format it can round differently from summing k·zᵖ term by term; over
/// the exact rationals the two denote the same value. The contracts below
/// pin Horner exactly, so the order is part of the specification rather
/// than an accident of the code.
pub open spec fn horner_spec<N: FractalNumber>(s: Seq<Complex<N>>, z: Complex<N>) -> Complex<N>
    decreases s.len(),
{
    if s.len() == 0 {
        czero::<N>()
    } else {
        horner_spec(s.subrange(1, s.len() as int), z).mul_spec(z).add_spec(s[0])
    }
}

/// Componentwise conversion of an exact complex coefficient.
pub open spec fn conv_complex_spec<N: FractalNumber>(c: Complex<Rational>) -> Option<Complex<N>> {
    if N::from_rational_spec(c.re) is Some && N::from_rational_spec(c.im) is Some {
        Some(
            Complex {
                re: N::from_rational_spec(c.re)->Some_0,
                im: N::from_rational_spec(c.im)->Some_0,
            },
        )
    } else {
        None
    }
}

/// Do all coefficients convert into the format?
pub open spec fn compile_ok<N: FractalNumber>(s: Seq<Complex<Rational>>) -> bool {
    forall|i: int| 0 <= i < s.len() ==> (#[trigger] conv_complex_spec::<N>(s[i])) is Some
}

/// The converted coefficient table.
pub open spec fn compiled_spec<N: FractalNumber>(s: Seq<Complex<Rational>>) -> Seq<Complex<N>> {
    Seq::new(s.len(), |i: int| conv_complex_spec::<N>(s[i])->Some_0)
}

/// A polynomial compiled into a numeric format: coefficients converted
/// once, not per pixel.
pub struct CompiledPoly<N> {
    coeffs: Vec<Complex<N>>,
}

impl<N: FractalNumber> CompiledPoly<N> {
    /// The converted coefficient table.
    pub closed spec fn view(&self) -> Seq<Complex<N>> {
        self.coeffs@
    }

    /// All coefficients are well-formed format values.
    pub open spec fn all_valid(&self) -> bool {
        forall|i: int| 0 <= i < self@.len() ==> (#[trigger] self@[i]).valid()
    }

    /// Evaluate at z by Horner's rule.
    pub fn eval(&self, z: &Complex<N>) -> (r: Complex<N>)
        requires
            N::fmt_ok(),
            self.all_valid(),
            z.valid(),
        ensures
            r == horner_spec(self@, *z),
            r.valid(),
    {
        let n = self.coeffs.len();
        let mut acc: Complex<N> = Complex { re: N::from_i32(0), im: N::from_i32(0) };
        let mut i: usize = n;
        while i > 0
            invariant
                N::fmt_ok(),
                self.all_valid(),
                z.valid(),
                n == self@.len(),
                0 <= i <= n,
                acc.valid(),
                acc == horner_spec(self@.subrange(i as int, n as int), *z),
            decreases i,
        {
            i = i - 1;
            acc = acc.mul(*z).add(self.coeffs[i]);
            proof {
                let tail = self@.subrange(i as int, n as int);
                assert(tail.subrange(1, tail.len() as int) =~= self@.subrange(
                    i as int + 1,
                    n as int,
                ));
                assert(tail[0] == self@[i as int]);
            }
        }
        proof {
            assert(self@.subrange(0, n as int) =~= self@);
        }
        acc
    }
}

impl Polynomial {
    /// Compile this polynomial into a numeric format, converting each
    /// coefficient once, not per pixel; fails exactly when some coefficient
    /// is out of the format's range. The compiled table evaluates by
    /// Horner's rule (see [`horner_spec`]).
    pub fn evaluator<N: FractalNumber>(&self) -> (res: Result<CompiledPoly<N>, String>)
        requires
            N::fmt_ok(),
            poly_valid(self@),
        ensures
            match res {
                Ok(cp) => compile_ok::<N>(self@) && cp@ == compiled_spec::<N>(self@)
                    && cp.all_valid(),
                Err(_) => !compile_ok::<N>(self@),
            },
    {
        let n = self.coeffs.len();
        let mut out: Vec<Complex<N>> = Vec::new();
        let mut i: usize = 0;
        while i < n
            invariant
                N::fmt_ok(),
                poly_valid(self@),
                n == self@.len(),
                0 <= i <= n,
                out.len() == i,
                forall|j: int|
                    0 <= j < i ==> (#[trigger] conv_complex_spec::<N>(self@[j])) is Some,
                forall|j: int| 0 <= j < i ==> out[j] == conv_complex_spec::<N>(self@[j])->Some_0,
                forall|j: int| 0 <= j < i ==> (#[trigger] out[j]).valid(),
            decreases n - i,
        {
            let c = &self.coeffs[i];
            let re = match N::from_bigrational(&c.re) {
                Ok(v) => v,
                Err(e) => {
                    proof {
                        assert(conv_complex_spec::<N>(self@[i as int]) is None);
                    }
                    return Err(e);
                },
            };
            let im = match N::from_bigrational(&c.im) {
                Ok(v) => v,
                Err(e) => {
                    proof {
                        assert(conv_complex_spec::<N>(self@[i as int]) is None);
                    }
                    return Err(e);
                },
            };
            out.push(Complex { re, im });
            i = i + 1;
        }
        proof {
            assert(out@ =~= compiled_spec::<N>(self@));
        }
        Ok(CompiledPoly { coeffs: out })
    }
}

/// One Newton search from index i: stop unconverged if the derivative is
/// exactly zero, report convergence when |f(z)|² is within the
/// magnitude-relative threshold of zero, else step z ← z − f(z)/f′(z).
pub open spec fn newton_from<N: FractalNumber>(
    p: Seq<Complex<N>>,
    pp: Seq<Complex<N>>,
    z: Complex<N>,
    i: nat,
    limit: nat,
) -> Option<(Complex<N>, usize)>
    decreases limit - i,
{
    if i >= limit {
        None
    } else {
        let fz = horner_spec(p, z);
        let fpz = horner_spec(pp, z);
        if fpz.mag_sq_spec().is_zero_spec() {
            None
        } else if fz.near_spec(czero::<N>(), z, N::from_i32_spec(1024)) {
            Some((z, i as usize))
        } else {
            newton_from(p, pp, z.sub_spec(fz.div_spec(fpz)), (i + 1) as nat, limit)
        }
    }
}

/// What the per-pixel Newton evaluator returns for a starting point.
pub open spec fn find_zero_spec<N: FractalNumber>(
    p: Seq<Complex<N>>,
    pp: Seq<Complex<N>>,
    start: Complex<N>,
    limit: nat,
) -> Option<(Complex<N>, usize)> {
    newton_from(p, pp, start, 0, limit)
}

/// Evaluate one pixel: iterate z ← z − f(z)/f′(z) from the pixel's
/// coordinate, declaring convergence when |f(z)|² is within a
/// magnitude-relative threshold of zero; a pixel whose derivative is
/// exactly zero, or whose budget runs out, is unconverged.
pub fn find_zero<N: FractalNumber>(
    x: &N,
    y: &N,
    limit: usize,
    p: &CompiledPoly<N>,
    pp: &CompiledPoly<N>,
) -> (r: Option<(Complex<N>, usize)>)
    requires
        N::fmt_ok(),
        x.valid(),
        y.valid(),
        p.all_valid(),
        pp.all_valid(),
    ensures
        r == find_zero_spec(p@, pp@, Complex { re: *x, im: *y }, limit as nat),
        r matches Some(zi) ==> zi.0.valid(),
{
    let mut z: Complex<N> = Complex { re: *x, im: *y };
    let ghost start = z;

    let zero: Complex<N> = Complex { re: N::from_i32(0), im: N::from_i32(0) };

    let mut i: usize = 0;
    while i < limit
        invariant
            N::fmt_ok(),
            p.all_valid(),
            pp.all_valid(),
            zero == czero::<N>(),
            zero.valid(),
            z.valid(),
            start == (Complex { re: *x, im: *y }),
            0 <= i <= limit,
            newton_from(p@, pp@, start, 0, limit as nat) == newton_from(
                p@,
                pp@,
                z,
                i as nat,
                limit as nat,
            ),
        decreases limit - i,
    {
        let fz = p.eval(&z);
        let fpz = pp.eval(&z);
        let fpz_mag = fpz.mag_sq();
        if fpz_mag.is_zero() {
            return None;
        }
        let del = fz.div(fpz);
        let threshold = N::from_i32(1024);
        if fz.near(zero, z, threshold) {
            return Some((z, i));
        }
        z = z.sub(del);
        i = i + 1;
    }
    None
}

/// The clustering threshold used to match a landing point against the
/// request's registry of discovered roots.
pub open spec fn cluster_threshold<N: FractalNumber>() -> N {
    N::from_i32_spec(512)
}

/// Scan the registry from index k for the first entry near z.
pub open spec fn find_match<N: FractalNumber>(reg: Seq<Complex<N>>, z: Complex<N>, k: int) -> Option<
    int,
>
    decreases reg.len() - k,
{
    if k < 0 || k >= reg.len() {
        None
    } else if reg[k].near_spec(z, z, cluster_threshold::<N>()) {
        Some(k)
    } else {
        find_match(reg, z, k + 1)
    }
}

/// The clustering pass over the first n entries: each converged point is
/// matched against the registry of roots discovered so far (first match
/// wins); unmatched points append a new registry entry, so first-seen roots
/// get the lowest indices.
pub open spec fn cluster_state<N: FractalNumber>(
    items: Seq<Option<(Complex<N>, usize)>>,
    n: int,
) -> (Seq<Option<Zero>>, Seq<Complex<N>>)
    decreases n,
{
    if n <= 0 {
        (Seq::empty(), Seq::empty())
    } else {
        let prev = cluster_state(items, n - 1);
        let out = prev.0;
        let reg = prev.1;
        match items[n - 1] {
            None => (out.push(None), reg),
            Some(zi) => match find_match(reg, zi.0, 0) {
                Some(k) => (out.push(Some(Zero { count: zi.1, zero: k as usize })), reg),
                None => (
                    out.push(Some(Zero { count: zi.1, zero: reg.len() as usize })),
                    reg.push(zi.0),
                ),
            },
        }
    }
}

/// Every converged entry carries a well-formed landing point.
pub open spec fn entries_valid<N: FractalNumber>(items: Seq<Option<(Complex<N>, usize)>>) -> bool {
    forall|i: int|
        0 <= i < items.len() ==> ((#[trigger] items[i]) matches Some(zi) ==> zi.0.valid())
}

/// The sequential post-pass: cluster the landing points of a finished
/// result grid into root indices by the magnitude-relative near predicate.
/// First match wins; first-seen roots get the lowest index; unmatched
/// points append a new registry entry. Runs strictly after all per-pixel
/// work.
pub fn cluster_zeros<N: FractalNumber>(zeros: &Vec<Option<(Complex<N>, usize)>>) -> (res:
    ZeroVector)
    requires
        N::fmt_ok(),
        entries_valid(zeros@),
        zeros@.len() <= usize::MAX,
    ensures
        res@ == cluster_state(zeros@, zeros@.len() as int).0,
        res@.len() == zeros@.len(),
{
    let n = zeros.len();
    let mut out: Vec<Option<Zero>> = Vec::new();
    let mut registry: Vec<Complex<N>> = Vec::new();
    let mut i: usize = 0;
    while i < n
        invariant
            N::fmt_ok(),
            entries_valid(zeros@),
            n == zeros@.len(),
            0 <= i <= n,
            out@ == cluster_state(zeros@, i as int).0,
            registry@ == cluster_state(zeros@, i as int).1,
            forall|j: int| 0 <= j < registry@.len() ==> (#[trigger] registry@[j]).valid(),
            out.len() == i,
            registry.len() <= i,
        decreases n - i,
    {
        match &zeros[i] {
            None => {
                out.push(None);
            },
            Some(zi) => {
                let z = zi.0;
                let count = zi.1;
                let threshold = N::from_i32(512);
                let mut k: usize = 0;
                let mut found: Option<usize> = None;
                while found.is_none() && k < registry.len()
                    invariant
                        N::fmt_ok(),
                        z.valid(),
                        threshold == cluster_threshold::<N>(),
                        threshold.valid(),
                        !threshold.is_zero_spec(),
                        forall|j: int|
                            0 <= j < registry@.len() ==> (#[trigger] registry@[j]).valid(),
                        0 <= k <= registry@.len(),
                        match found {
                            None => find_match(registry@, z, 0) == find_match(
                                registry@,
                                z,
                                k as int,
                            ),
                            Some(f) => find_match(registry@, z, 0) == Some(f as int),
                        },
                    decreases registry.len() - k,
                {
                    if registry[k].near(z, z, threshold) {
                        found = Some(k);
                    }
                    k = k + 1;
                }
                proof {
                    if found is None {
                        assert(find_match(registry@, z, 0) is None);
                    }
                }
                match found {
                    Some(k) => {
                        out.push(Some(Zero { count, zero: k }));
                    },
                    None => {
                        let nz = registry.len();
                        registry.push(z);
                        out.push(Some(Zero { count, zero: nz }));
                    },
                }
            },
        }
        i = i + 1;
    }
    out
}

/// The Newton result for a pixel, as converted format values.
pub open spec fn npixel<N: FractalNumber>(
    params: CommonParams,
    p: Seq<Complex<N>>,
    pp: Seq<Complex<N>>,
    row: int,
    col: int,
    iters: nat,
) -> Option<(Complex<N>, usize)> {
    find_zero_spec(
        p,
        pp,
        Complex {
            re: N::from_rational_spec(xcoord(params, col))->Some_0,
            im: N::from_rational_spec(ycoord(params, row))->Some_0,
        },
        iters,
    )
}

/// Row `row` of the landing-point grid holds exactly its pixels' results.
pub open spec fn nrow_done<N: FractalNumber>(
    grid: Seq<Option<(Complex<N>, usize)>>,
    params: CommonParams,
    p: Seq<Complex<N>>,
    pp: Seq<Complex<N>>,
    row: int,
    iters: nat,
) -> bool {
    forall|col: int|
        0 <= col < params.size.width ==> grid[#[trigger] (row * params.size.width + col)] == npixel(
            params,
            p,
            pp,
            row,
            col,
            iters,
        )
}

/// Row `row` of the grid was skipped: every entry unresolved.
pub open spec fn nrow_blank<T>(grid: Seq<Option<T>>, params: CommonParams, row: int) -> bool {
    forall|col: int|
        0 <= col < params.size.width ==> grid[#[trigger] (row * params.size.width + col)] is None
}

/// The complete landing-point grid in row-major order.
pub open spec fn newton_grid_spec<N: FractalNumber>(
    params: CommonParams,
    p: Seq<Complex<N>>,
    pp: Seq<Complex<N>>,
    iters: nat,
) -> Seq<Option<(Complex<N>, usize)>> {
    Seq::new(
        (params.size.width * params.size.height) as nat,
        |k: int|
            npixel(
                params,
                p,
                pp,
                k / (params.size.width as int),
                k % (params.size.width as int),
                iters,
            ),
    )
}

/// A row's completed or blank status only depends on its own entries, so it
/// survives appending later rows.
proof fn lemma_nprefix_rows_preserved<N: FractalNumber>(
    prefix: Seq<Option<(Complex<N>, usize)>>,
    whole: Seq<Option<(Complex<N>, usize)>>,
    params: CommonParams,
    p: Seq<Complex<N>>,
    pp: Seq<Complex<N>>,
    r: int,
    iters: nat,
)
    requires
        0 <= r,
        (r + 1) * params.size.width <= prefix.len(),
        whole.len() >= prefix.len(),
        whole.subrange(0, prefix.len() as int) == prefix,
    ensures
        nrow_done(prefix, params, p, pp, r, iters) ==> nrow_done(whole, params, p, pp, r, iters),
        nrow_blank(prefix, params, r) ==> nrow_blank(whole, params, r),
{
    assert(r * params.size.width + params.size.width == (r + 1) * params.size.width)
        by (nonlinear_arith);
    assert forall|col: int| 0 <= col < params.size.width implies whole[#[trigger] (r
        * params.size.width + col)] == prefix[r * params.size.width + col] by {
        assert(r * params.size.width >= 0) by (nonlinear_arith)
            requires
                r >= 0,
                params.size.width >= 0,
        ;
        assert(prefix[r * params.size.width + col] == whole.subrange(0, prefix.len() as int)[r
            * params.size.width + col]);
    }
}

/// Computes the clustered root indices in the given window, row by row,
/// polling the cancellation context before each row, then running the
/// sequential clustering post-pass over the finished grid.
///
/// Cancellation and conversion failure behave as in the escape-time
/// evaluator: a coordinate outside the format's range aborts the request,
/// and cancellation observed at the end reports cancellation rather than a
/// partial image. When the context never cancels, the result is exactly the
/// clustering of the complete row-major landing-point grid.
#[verifier::spinoff_prover]
#[verifier::rlimit(60)]
pub fn evaluate_rows<N: FractalNumber, C: CancelContext>(
    ctx: &C,
    params: &CommonParams,
    p: &CompiledPoly<N>,
    pp: &CompiledPoly<N>,
    iterations: usize,
) -> (res: Result<ZeroVector, String>)
    requires
        N::fmt_ok(),
        params.wf(),
        p.all_valid(),
        pp.all_valid(),
    ensures
        res is Ok ==> res->Ok_0.len() == params.size.width * params.size.height,
        res is Ok ==> coords_ok::<N>(*params),
        !coords_ok::<N>(*params) ==> res is Err,
        coords_ok::<N>(*params) && res is Err ==> res->Err_0@ == "canceled"@,
        coords_ok::<N>(*params) && !ctx.spec_may_cancel() ==> res is Ok && res->Ok_0@
            == cluster_state(
            newton_grid_spec(*params, p@, pp@, iterations as nat),
            (params.size.width * params.size.height) as int,
        ).0,
{
    let size = params.size;
    let xs: Vec<N> = match make_range(&params.x.start, &params.x.end, size.width) {
        Ok(v) => v,
        Err(e) => {
            proof {
                let wi = choose|i: int|
                    0 <= i < size.width && (#[trigger] N::from_rational_spec(
                        coord_spec(
                            params.x.start,
                            step_spec(params.x.start, params.x.end, size.width as int),
                            i as nat,
                        ),
                    )) is None;
                assert(N::from_rational_spec(xcoord(*params, wi)) is None);
            }
            return Err(e);
        },
    };
    let ys: Vec<N> = match make_range(&params.y.start, &params.y.end, size.height) {
        Ok(v) => v,
        Err(e) => {
            proof {
                let wr = choose|r: int|
                    0 <= r < size.height && (#[trigger] N::from_rational_spec(
                        coord_spec(
                            params.y.start,
                            step_spec(params.y.start, params.y.end, size.height as int),
                            r as nat,
                        ),
                    )) is None;
                assert(N::from_rational_spec(ycoord(*params, wr)) is None);
            }
            return Err(e);
        },
    };
    proof {
        assert(coords_ok::<N>(*params));
    }

    let mut zgrid: Vec<Option<(Complex<N>, usize)>> = Vec::new();
    let mut row: usize = 0;
    while row < size.height
        invariant
            N::fmt_ok(),
            params.wf(),
            size == params.size,
            p.all_valid(),
            pp.all_valid(),
            xs.len() == size.width,
            ys.len() == size.height,
            forall|i: int|
                0 <= i < size.width ==> #[trigger] N::from_rational_spec(xcoord(*params, i))
                    == Some(xs[i]),
            forall|r: int|
                0 <= r < size.height ==> #[trigger] N::from_rational_spec(ycoord(*params, r))
                    == Some(ys[r]),
            forall|i: int| 0 <= i < size.width ==> (#[trigger] xs[i]).valid(),
            forall|r: int| 0 <= r < size.height ==> (#[trigger] ys[r]).valid(),
            0 <= row <= size.height,
            zgrid.len() == row * size.width,
            entries_valid(zgrid@),
            forall|r: int|
                0 <= r < row ==> nrow_done(zgrid@, *params, p@, pp@, r, iterations as nat)
                    || nrow_blank(zgrid@, *params, r),
            !ctx.spec_may_cancel() ==> forall|r: int|
                0 <= r < row ==> nrow_done(zgrid@, *params, p@, pp@, r, iterations as nat),
        decreases size.height - row,
    {
        let ghost old_grid = zgrid@;
        proof {
            assert((row + 1) * size.width == row * size.width + size.width) by (nonlinear_arith);
            assert((row + 1) * size.width <= size.height * size.width) by (nonlinear_arith)
                requires
                    row < size.height,
                    size.width >= 0,
            ;
            assert(size.height * size.width == size.width * size.height) by (nonlinear_arith);
        }
        if ctx.is_canceled() {
            // Newly eligible rows are skipped once cancellation is observed.
            let mut col: usize = 0;
            while col < size.width
                invariant
                    0 <= col <= size.width,
                    zgrid.len() == row * size.width + col,
                    zgrid@.subrange(0, (row * size.width) as int) == old_grid,
                    entries_valid(old_grid),
                    forall|k: int|
                        row * size.width <= k < row * size.width + col ==> zgrid@[k] is None,
                decreases size.width - col,
            {
                zgrid.push(None);
                col = col + 1;
            }
            proof {
                assert forall|r: int|
                    0 <= r < row implies nrow_done(zgrid@, *params, p@, pp@, r, iterations as nat)
                    || nrow_blank(zgrid@, *params, r) by {
                    assert((r + 1) * size.width <= row * size.width) by (nonlinear_arith)
                        requires
                            r < row,
                            size.width >= 0,
                    ;
                    lemma_nprefix_rows_preserved(
                        old_grid,
                        zgrid@,
                        *params,
                        p@,
                        pp@,
                        r,
                        iterations as nat,
                    );
                }
                assert(nrow_blank(zgrid@, *params, row as int));
                assert forall|k: int| 0 <= k < zgrid@.len() implies ((#[trigger] zgrid@[k])
                    matches Some(zi) ==> zi.0.valid()) by {
                    if k < old_grid.len() {
                        assert(zgrid@[k] == old_grid[k]);
                    }
                }
            }
        } else {
            let y = ys[row];
            let mut col: usize = 0;
            while col < size.width
                invariant
                    N::fmt_ok(),
                    params.wf(),
                    size == params.size,
                    p.all_valid(),
                    pp.all_valid(),
                    xs.len() == size.width,
                    forall|i: int|
                        0 <= i < size.width ==> #[trigger] N::from_rational_spec(xcoord(*params, i))
                            == Some(xs[i]),
                    forall|i: int| 0 <= i < size.width ==> (#[trigger] xs[i]).valid(),
                    y.valid(),
                    Some(y) == N::from_rational_spec(ycoord(*params, row as int)),
                    0 <= col <= size.width,
                    zgrid.len() == row * size.width + col,
                    zgrid@.subrange(0, (row * size.width) as int) == old_grid,
                    entries_valid(old_grid),
                    forall|k: int|
                        0 <= k < col ==> zgrid@[row * size.width + k] == npixel(
                            *params,
                            p@,
                            pp@,
                            row as int,
                            k,
                            iterations as nat,
                        ),
                    forall|k: int|
                        row * size.width <= k < row * size.width + col ==> ((#[trigger] zgrid@[k])
                            matches Some(zi) ==> zi.0.valid()),
                decreases size.width - col,
            {
                let x = xs[col];
                let r = find_zero(&x, &y, iterations, p, pp);
                proof {
                    assert(npixel(*params, p@, pp@, row as int, col as int, iterations as nat)
                        == find_zero_spec(p@, pp@, Complex { re: x, im: y }, iterations as nat));
                }
                zgrid.push(r);
                col = col + 1;
            }
            proof {
                assert forall|r: int|
                    0 <= r < row implies nrow_done(zgrid@, *params, p@, pp@, r, iterations as nat)
                    || nrow_blank(zgrid@, *params, r) by {
                    assert((r + 1) * size.width <= row * size.width) by (nonlinear_arith)
                        requires
                            r < row,
                            size.width >= 0,
                    ;
                    lemma_nprefix_rows_preserved(
                        old_grid,
                        zgrid@,
                        *params,
                        p@,
                        pp@,
                        r,
                        iterations as nat,
                    );
                }
                assert forall|r: int|
                    !ctx.spec_may_cancel() && 0 <= r < row implies nrow_done(
                    zgrid@,
                    *params,
                    p@,
                    pp@,
                    r,
                    iterations as nat,
                ) by {
                    assert((r + 1) * size.width <= row * size.width) by (nonlinear_arith)
                        requires
                            r < row,
                            size.width >= 0,
                    ;
                    lemma_nprefix_rows_preserved(
                        old_grid,
                        zgrid@,
                        *params,
                        p@,
                        pp@,
                        r,
                        iterations as nat,
                    );
                }
                assert(nrow_done(zgrid@, *params, p@, pp@, row as int, iterations as nat));
                assert forall|k: int| 0 <= k < zgrid@.len() implies ((#[trigger] zgrid@[k])
                    matches Some(zi) ==> zi.0.valid()) by {
                    if k < old_grid.len() {
                        assert(zgrid@[k] == old_grid[k]);
                    }
                }
            }
        }
        row = row + 1;
    }

    if ctx.is_canceled() {
        return Err("canceled".to_owned());
    }

    proof {
        assert(size.height * size.width == size.width * size.height) by (nonlinear_arith);
        if !ctx.spec_may_cancel() {
            let w = size.width as int;
            let h = size.height as int;
            let g = newton_grid_spec(*params, p@, pp@, iterations as nat);
            assert forall|k: int| 0 <= k < w * h implies zgrid@[k] == g[k] by {
                vstd::arithmetic::div_mod::lemma_fundamental_div_mod(k, w);
                vstd::arithmetic::div_mod::lemma_mod_bound(k, w);
                let r = k / w;
                let c = k % w;
                assert(r >= 0) by (nonlinear_arith)
                    requires
                        k == r * w + c,
                        k >= 0,
                        0 <= c < w,
                ;
                assert(r < h) by (nonlinear_arith)
                    requires
                        k == r * w + c,
                        k < w * h,
                        0 <= c < w,
                        w >= 1,
                ;
                assert(nrow_done(zgrid@, *params, p@, pp@, r, iterations as nat));
                assert(zgrid@[r * w + c] == npixel(*params, p@, pp@, r, c, iterations as nat));
            }
            assert(zgrid@ =~= g);
        }
    }
    let out = cluster_zeros(&zgrid);
    Ok(out)
}

/// Validity of Newton parameters: well-formed roots and coefficient, and a
/// root count the expansion can hold.
pub open spec fn nparams_wf(params: NewtonParams) -> bool {
    &&& poly_valid(params.zeros@)
    &&& params.coefficient.valid()
    &&& params.zeros@.len() < i32::MAX
}

/// A Newton evaluator compiled for one numeric format: the target
/// polynomial and its derivative as converted coefficient tables, plus the
/// iteration budget.
pub struct NewtonEvaluator<N> {
    p: CompiledPoly<N>,
    p_prime: CompiledPoly<N>,
    iters: usize,
}

impl<N: FractalNumber> NewtonEvaluator<N> {
    /// The compiled polynomial's coefficients.
    pub closed spec fn p_view(&self) -> Seq<Complex<N>> {
        self.p@
    }

    /// The compiled derivative's coefficients.
    pub closed spec fn p_prime_view(&self) -> Seq<Complex<N>> {
        self.p_prime@
    }

    /// The iteration budget.
    pub closed spec fn iters_view(&self) -> usize {
        self.iters
    }

    /// Both coefficient tables are well-formed.
    pub closed spec fn all_valid(&self) -> bool {
        &&& self.p.all_valid()
        &&& self.p_prime.all_valid()
    }

    /// Build the evaluator from factored parameters: symbolically expand the
    /// polynomial in exact-rational arithmetic, differentiate it, and compile
    /// both into the format. Fails when no roots are given or when a
    /// coefficient is outside the format's range.
    pub fn try_from(params: &NewtonParams) -> (res: Result<Self, String>)
        requires
            N::fmt_ok(),
            nparams_wf(*params),
        ensures
            match res {
                Ok(ev) => {
                    &&& params.zeros@.len() > 0
                    &&& compile_ok::<N>(build_spec(params.zeros@, params.coefficient))
                    &&& compile_ok::<N>(derive_spec(build_spec(params.zeros@, params.coefficient)))
                    &&& ev.p_view() == compiled_spec::<N>(
                        build_spec(params.zeros@, params.coefficient),
                    )
                    &&& ev.p_prime_view() == compiled_spec::<N>(
                        derive_spec(build_spec(params.zeros@, params.coefficient)),
                    )
                    &&& ev.all_valid()
                    &&& ev.iters_view() == params.iters
                },
                Err(_) => {
                    ||| params.zeros@.len() == 0
                    ||| !compile_ok::<N>(build_spec(params.zeros@, params.coefficient))
                    ||| !compile_ok::<N>(derive_spec(build_spec(params.zeros@, params.coefficient)))
                },
            },
    {
        if params.zeros.len() == 0 {
            return Err("no zeros given".to_owned());
        }
        let p_exact = Polynomial::build(&params.zeros, &params.coefficient);
        proof {
            lemma_expand_len(params.zeros@);
        }
        let p_prime_exact = p_exact.derive();
        let p = match p_exact.evaluator::<N>() {
            Ok(v) => v,
            Err(e) => {
                return Err(e);
            },
        };
        let p_prime = match p_prime_exact.evaluator::<N>() {
            Ok(v) => v,
            Err(e) => {
                return Err(e);
            },
        };
        Ok(NewtonEvaluator { p, p_prime, iters: params.iters })
    }

    /// Build the evaluator from an already-expanded polynomial.
    pub fn from_polynomial(poly: &Polynomial, iters: usize) -> (res: Result<Self, String>)
        requires
            N::fmt_ok(),
            poly_valid(poly@),
            poly@.len() <= i64::MAX,
        ensures
            match res {
                Ok(ev) => {
                    &&& compile_ok::<N>(poly@)
                    &&& compile_ok::<N>(derive_spec(poly@))
                    &&& ev.p_view() == compiled_spec::<N>(poly@)
                    &&& ev.p_prime_view() == compiled_spec::<N>(derive_spec(poly@))
                    &&& ev.all_valid()
                    &&& ev.iters_view() == iters
                },
                Err(_) => {
                    ||| !compile_ok::<N>(poly@)
                    ||| !compile_ok::<N>(derive_spec(poly@))
                },
            },
    {
        let p_prime_exact = poly.derive();
        let p = match poly.evaluator::<N>() {
            Ok(v) => v,
            Err(e) => {
                return Err(e);
            },
        };
        let p_prime = match p_prime_exact.evaluator::<N>() {
            Ok(v) => v,
            Err(e) => {
                return Err(e);
            },
        };
        Ok(NewtonEvaluator { p, p_prime, iters })
    }

    /// Run the evaluator over a window.
    pub fn evaluate<C: CancelContext>(&self, ctx: &C, params: &CommonParams) -> (res: Result<
        ZeroVector,
        String,
    >)
        requires
            N::fmt_ok(),
            params.wf(),
            self.all_valid(),
        ensures
            res is Ok ==> res->Ok_0.len() == params.size.width * params.size.height,
            res is Ok ==> coords_ok::<N>(*params),
            !coords_ok::<N>(*params) ==> res is Err,
            coords_ok::<N>(*params) && res is Err ==> res->Err_0@ == "canceled"@,
            coords_ok::<N>(*params) && !ctx.spec_may_cancel() ==> res is Ok && res->Ok_0@
                == cluster_state(
                newton_grid_spec(*params, self.p_view(), self.p_prime_view(), self.iters_view() as nat),
                (params.size.width * params.size.height) as int,
            ).0,
    {
        evaluate_rows(ctx, params, &self.p, &self.p_prime, self.iters)
    }
}

/// The coefficient table of the default target polynomial z³ − 1.
pub open spec fn default_poly_spec() -> Seq<Complex<Rational>> {
    seq![
        Complex { re: Rational::spec_from_int(-1), im: Rational::spec_from_int(0) },
        zero_c(),
        zero_c(),
        one_c(),
    ]
}

/// The default target polynomial z³ − 1, as an exact coefficient table.
pub fn default_poly() -> (r: Polynomial)
    ensures
        r@ =~= default_poly_spec(),
        r@.len() == 4,
        r@[0] == (Complex { re: Rational::spec_from_int(-1), im: Rational::spec_from_int(0) }),
        r@[1] == zero_c(),
        r@[2] == zero_c(),
        r@[3] == one_c(),
        poly_valid(r@),
{
    let mut coeffs: Vec<Complex<Rational>> = Vec::new();
    coeffs.push(Complex { re: Rational::from_integer(-1), im: Rational::from_integer(0) });
    coeffs.push(Complex { re: Rational::from_integer(0), im: Rational::from_integer(0) });
    coeffs.push(Complex { re: Rational::from_integer(0), im: Rational::from_integer(0) });
    coeffs.push(Complex { re: Rational::from_integer(1), im: Rational::from_integer(0) });
    Polynomial::from_coeffs(coeffs)
}

/// The default polynomial and its derivative compile into any usable
/// fixed-point format whose capacity covers the coefficient three: every
/// coefficient of z³ − 1 and of 3z² is a small integer.
pub proof fn lemma_default_poly_compiles_fixed<const W: u32, const F: u32>()
    requires
        crate::fixedpoint::FixedPoint::<W, F>::params_ok(),
        3 * vstd::arithmetic::power2::pow2(F as nat) <= crate::fixedpoint::FixedPoint::<
            W,
            F,
        >::max_bits(),
    ensures
        compile_ok::<crate::fixedpoint::FixedPoint<W, F>>(default_poly_spec()),
        compile_ok::<crate::fixedpoint::FixedPoint<W, F>>(derive_spec(default_poly_spec())),
{
    let r0 = Rational::spec_from_int(0);
    let r1 = Rational::spec_from_int(1);
    let rm1 = Rational::spec_from_int(-1);
    let r3 = Rational::spec_from_int(3);
    vstd::arithmetic::power2::lemma_pow2_pos(F as nat);
    assert(0 * vstd::arithmetic::power2::pow2(F as nat) == 0);
    assert(1 * vstd::arithmetic::power2::pow2(F as nat) <= 3 * vstd::arithmetic::power2::pow2(
        F as nat,
    )) by (nonlinear_arith)
        requires
            vstd::arithmetic::power2::pow2(F as nat) >= 1,
    ;
    crate::fixedpoint::lemma_fixed_int_converts::<W, F>(r0, 0);
    crate::fixedpoint::lemma_fixed_int_converts::<W, F>(r1, 1);
    crate::fixedpoint::lemma_fixed_int_converts::<W, F>(rm1, 1);
    crate::fixedpoint::lemma_fixed_int_converts::<W, F>(r3, 3);
    assert forall|i: int| 0 <= i < default_poly_spec().len() implies (
    #[trigger] conv_complex_spec::<crate::fixedpoint::FixedPoint<W, F>>(
        default_poly_spec()[i],
    )) is Some by {}
    let d = derive_spec(default_poly_spec());
    assert(Rational::spec_mul(r0, r1) == r0);
    assert(Rational::spec_mul(r0, Rational::spec_from_int(2)) == r0);
    assert(Rational::spec_mul(r0, r3) == r0);
    assert(Rational::spec_mul(r1, r3) == r3);
    assert(d.len() == 3);
    assert(d[0] == (Complex { re: r0, im: r0 }));
    assert(d[1] == (Complex { re: r0, im: r0 }));
    assert(d[2] == (Complex { re: r3, im: r0 }));
    assert forall|i: int| 0 <= i < d.len() implies (#[trigger] conv_complex_spec::<
        crate::fixedpoint::FixedPoint<W, F>,
    >(d[i])) is Some by {}
}

} // verus!

verus! {

/// Is the named format one this library can run the Newton evaluator over
/// itself?
pub open spec fn known_format(name: Seq<char>) -> bool {
    ||| name == "P32"@
    ||| name == "P16"@
    ||| name == "I20F12"@
    ||| name == "I11F5"@
    ||| name == "Rational64"@
}

/// List the numeric formats that are valid for rendering.
pub fn formats() -> (r: Vec<&'static str>)
    ensures
        r@.len() == 5,
        r@[0]@ == "P32"@,
        r@[1]@ == "P16"@,
        r@[2]@ == "I20F12"@,
        r@[3]@ == "I11F5"@,
        r@[4]@ == "Rational64"@,
{
    let mut v: Vec<&'static str> = Vec::new();
    v.push("P32");
    v.push("P16");
    v.push("I20F12");
    v.push("I11F5");
    v.push("Rational64");
    v
}

/// What computing the default polynomial over format N delivers when
/// nothing cancels it: the clustering of the complete row-major grid of
/// Newton landing points for z³ − 1 compiled into N.
pub open spec fn default_compute_spec<N: FractalNumber>(
    params: CommonParams,
    iters: nat,
) -> Seq<Option<Zero>> {
    cluster_state(
        newton_grid_spec(
            params,
            compiled_spec::<N>(default_poly_spec()),
            compiled_spec::<N>(derive_spec(default_poly_spec())),
            iters,
        ),
        (params.size.width * params.size.height) as int,
    ).0
}

/// Computes the clustered root indices for the default target polynomial
/// z³ − 1 in the given window, with the format named in the request,
/// failing on an unknown format name. An orbit the exact oracle loses to
/// overflow poisons and simply never converges: its pixel stays
/// unresolved, never a wrong root index.
pub fn compute<C: CancelContext>(ctx: &C, params: &CommonParams, iterations: usize) -> (res: Result<
    ZeroVector,
    String,
>)
    requires
        params.wf(),
    ensures
        !known_format(params.numeric@) ==> (res matches Err(e) && e@ == "unknown numeric format"@),
        res is Ok ==> known_format(params.numeric@),
        res is Ok ==> res->Ok_0.len() == params.size.width * params.size.height,
        !ctx.spec_may_cancel() && params.numeric@ == "P32"@ ==> (res matches Ok(v) && v@
            == default_compute_spec::<P32>(*params, iterations as nat)),
        !ctx.spec_may_cancel() && params.numeric@ == "P16"@ ==> (res matches Ok(v) && v@
            == default_compute_spec::<P16>(*params, iterations as nat)),
        !ctx.spec_may_cancel() && params.numeric@ == "Rational64"@ ==> (res matches Ok(v) && v@
            == default_compute_spec::<Rational>(*params, iterations as nat)),
        !ctx.spec_may_cancel() && params.numeric@ == "I20F12"@ && coords_ok::<I20F12>(*params) ==> (
        res matches Ok(v) && v@ == default_compute_spec::<I20F12>(*params, iterations as nat)),
        !ctx.spec_may_cancel() && params.numeric@ == "I11F5"@ && coords_ok::<I11F5>(*params) ==> (
        res matches Ok(v) && v@ == default_compute_spec::<I11F5>(*params, iterations as nat)),
{
    proof {
        reveal_strlit("P32");
        reveal_strlit("P16");
        reveal_strlit("I20F12");
        reveal_strlit("I11F5");
        reveal_strlit("Rational64");
        reveal_strlit("unknown numeric format");
        assert("P32"@.len() == 3);
        assert("P16"@.len() == 3);
        assert("I20F12"@.len() == 6);
        assert("I11F5"@.len() == 5);
        assert("Rational64"@.len() == 10);
        assert("P32"@ != "P16"@) by {
            assert("P32"@[1] != "P16"@[1]);
        }
    }
    let poly = default_poly();
    let fmt = &params.numeric;
    if fmt.eq(&"P32".to_owned()) {
        proof {
            assert forall|i: int| 0 <= i < poly@.len() implies (#[trigger] conv_complex_spec::<
                P32,
            >(poly@[i])) is Some by {}
            assert forall|i: int| 0 <= i < derive_spec(poly@).len() implies (
            #[trigger] conv_complex_spec::<P32>(derive_spec(poly@)[i])) is Some by {}
            assert forall|i: int| 0 <= i < params.size.width implies (
            #[trigger] <P32 as crate::number::FromRational>::from_rational_spec(
                xcoord(*params, i),
            )) is Some by {}
            assert forall|r: int| 0 <= r < params.size.height implies (
            #[trigger] <P32 as crate::number::FromRational>::from_rational_spec(
                ycoord(*params, r),
            )) is Some by {}
            assert(poly@ == default_poly_spec());
        }
        let ev = NewtonEvaluator::<P32>::from_polynomial(&poly, iterations)?;
        ev.evaluate(ctx, params)
    } else if fmt.eq(&"P16".to_owned()) {
        proof {
            assert forall|i: int| 0 <= i < poly@.len() implies (#[trigger] conv_complex_spec::<
                P16,
            >(poly@[i])) is Some by {}
            assert forall|i: int| 0 <= i < derive_spec(poly@).len() implies (
            #[trigger] conv_complex_spec::<P16>(derive_spec(poly@)[i])) is Some by {}
            assert forall|i: int| 0 <= i < params.size.width implies (
            #[trigger] <P16 as crate::number::FromRational>::from_rational_spec(
                xcoord(*params, i),
            )) is Some by {}
            assert forall|r: int| 0 <= r < params.size.height implies (
            #[trigger] <P16 as crate::number::FromRational>::from_rational_spec(
                ycoord(*params, r),
            )) is Some by {}
            assert(poly@ == default_poly_spec());
        }
        let ev = NewtonEvaluator::<P16>::from_polynomial(&poly, iterations)?;
        ev.evaluate(ctx, params)
    } else if fmt.eq(&"I20F12".to_owned()) {
        proof {
            vstd::arithmetic::power2::lemma2_to64();
            lemma_default_poly_compiles_fixed::<32, 12>();
            assert(poly@ == default_poly_spec());
        }
        let ev = NewtonEvaluator::<I20F12>::from_polynomial(&poly, iterations)?;
        ev.evaluate(ctx, params)
    } else if fmt.eq(&"I11F5".to_owned()) {
        proof {
            vstd::arithmetic::power2::lemma2_to64();
            lemma_default_poly_compiles_fixed::<16, 5>();
            assert(poly@ == default_poly_spec());
        }
        let ev = NewtonEvaluator::<I11F5>::from_polynomial(&poly, iterations)?;
        ev.evaluate(ctx, params)
    } else if fmt.eq(&"Rational64".to_owned()) {
        proof {
            assert forall|i: int| 0 <= i < poly@.len() implies (#[trigger] conv_complex_spec::<
                Rational,
            >(poly@[i])) is Some by {}
            assert forall|i: int| 0 <= i < derive_spec(poly@).len() implies (
            #[trigger] conv_complex_spec::<Rational>(derive_spec(poly@)[i])) is Some by {}
            assert forall|i: int| 0 <= i < params.size.width implies (
            #[trigger] <Rational as crate::number::FromRational>::from_rational_spec(
                xcoord(*params, i),
            )) is Some by {}
            assert forall|r: int| 0 <= r < params.size.height implies (
            #[trigger] <Rational as crate::number::FromRational>::from_rational_spec(
                ycoord(*params, r),
            )) is Some by {}
            assert(poly@ == default_poly_spec());
        }
        let ev = NewtonEvaluator::<Rational>::from_polynomial(&poly, iterations)?;
        ev.evaluate(ctx, params)
    } else {
        Err("unknown numeric format".to_owned())
    }
}

} // verus!

verus! {

/// A budget of zero yields "unconverged" for every pixel, in every format:
/// no convergence check ever runs.
pub proof fn lemma_zero_budget_unconverged<N: FractalNumber>(
    p: Seq<Complex<N>>,
    pp: Seq<Complex<N>>,
    start: Complex<N>,
)
    ensures
        find_zero_spec(p, pp, start, 0) is None,
{
}

} // verus!
