//! Tests for the evaluators: escape-time iteration, Newton root basins and
//! their clustering post-pass, the coordinate generator, the format
//! registry, and row-granular cancellation.

use std::cell::Cell;

use fractal_farlands::fixedpoint::I11F5;
use fractal_farlands::mandelbrot;
use fractal_farlands::newton;
use fractal_farlands::number::FromRational;
use fractal_farlands::numeric::Complex;
use fractal_farlands::posit::P32;
use fractal_farlands::rational::Rational;
use fractal_farlands::{
    AxisRange, CancelContext, CommonParams, FractalParams, NeverCancel, Size, Zero,
};

fn rat(n: i64, d: i64) -> Rational {
    Rational::new(n, d)
}

fn common(numeric: &str, width: usize, height: usize, x0: i64, x1: i64, y0: i64, y1: i64) -> CommonParams {
    CommonParams {
        size: Size { width, height },
        x: AxisRange { start: rat(x0, 1), end: rat(x1, 1) },
        y: AxisRange { start: rat(y0, 1), end: rat(y1, 1) },
        numeric: numeric.to_owned(),
    }
}

/// A cancellation context that reports cancellation after a set number of
/// polls, counting how many polls it let proceed: each "not cancelled"
/// answer lets one more row be dispatched.
struct CancelAfter {
    polls: Cell<usize>,
    proceeded: Cell<usize>,
    after: usize,
}

impl CancelContext for CancelAfter {
    fn is_canceled(&self) -> bool {
        let n = self.polls.get();
        self.polls.set(n + 1);
        if n < self.after {
            self.proceeded.set(self.proceeded.get() + 1);
            false
        } else {
            true
        }
    }
}

#[test]
fn test_budget_zero_is_bounded_everywhere() {
    // Budget 0 yields "bounded/unconverged" for every pixel, in every format.
    let params = common("Rational64", 3, 3, -2, 2, -2, 2);
    let grid = mandelbrot::evaluate_rows::<Rational, _>(&NeverCancel(), &params, 0).unwrap();
    assert_eq!(grid.len(), 9);
    assert!(grid.iter().all(|px| px.is_none()));

    let grid = mandelbrot::evaluate_rows::<P32, _>(&NeverCancel(), &params, 0).unwrap();
    assert!(grid.iter().all(|px| px.is_none()));

    let grid = mandelbrot::evaluate_rows::<I11F5, _>(&NeverCancel(), &params, 0).unwrap();
    assert!(grid.iter().all(|px| px.is_none()));

    let zeros = newton::compute(&NeverCancel(), &params, 0).unwrap();
    assert!(zeros.iter().all(|px| px.is_none()));
}

#[test]
fn test_escape_origin_and_three() {
    // (0,0) never escapes within any finite budget; (3,0) escapes at index
    // 0 for every format whose range covers 9.
    let zero_r = rat(0, 1);
    let three_r = rat(3, 1);

    let origin = mandelbrot::escape::<Rational>(&zero_r, &zero_r, 500);
    assert!(origin.is_none());
    let three = mandelbrot::escape::<Rational>(&three_r, &zero_r, 500).unwrap();
    assert_eq!(three.count, 0);
    assert!(three.z_magnitude_squared.eq_value(&rat(9, 1)));

    let zero_p = P32::from_bigrational(&zero_r).unwrap();
    let three_p = P32::from_bigrational(&three_r).unwrap();
    assert!(mandelbrot::escape::<P32>(&zero_p, &zero_p, 500).is_none());
    assert_eq!(mandelbrot::escape::<P32>(&three_p, &zero_p, 500).unwrap().count, 0);

    let zero_f = I11F5::from_bigrational(&zero_r).unwrap();
    let three_f = I11F5::from_bigrational(&three_r).unwrap();
    assert!(mandelbrot::escape::<I11F5>(&zero_f, &zero_f, 500).is_none());
    assert_eq!(mandelbrot::escape::<I11F5>(&three_f, &zero_f, 500).unwrap().count, 0);
}

#[test]
fn test_escape_known_count() {
    // c = 1: z runs 0, 1, 2; |z|² crosses four at the check after the
    // second update, 0-based index 1.
    let one = rat(1, 1);
    let zero = rat(0, 1);
    let e = mandelbrot::escape::<Rational>(&one, &zero, 10).unwrap();
    assert_eq!(e.count, 1);
    assert!(e.z_magnitude_squared.eq_value(&rat(4, 1)));
}

#[test]
fn test_mandelbrot_compute_formats() {
    let names = mandelbrot::formats();
    assert_eq!(names, vec!["P32", "P16", "P8", "I11F5", "Rational64"]);

    let params = common("Rational64", 2, 2, -2, 2, -2, 2);
    match mandelbrot::compute(&NeverCancel(), &params, 5).unwrap() {
        mandelbrot::EscapeGrid::Exact(g) => assert_eq!(g.len(), 4),
        _ => panic!("wrong grid variant"),
    }

    let params = common("P32", 2, 2, -2, 2, -2, 2);
    match mandelbrot::compute(&NeverCancel(), &params, 5).unwrap() {
        mandelbrot::EscapeGrid::Posit32(g) => assert_eq!(g.len(), 4),
        _ => panic!("wrong grid variant"),
    }

    let params = common("P16", 2, 2, -2, 2, -2, 2);
    match mandelbrot::compute(&NeverCancel(), &params, 5).unwrap() {
        mandelbrot::EscapeGrid::Posit16(g) => assert_eq!(g.len(), 4),
        _ => panic!("wrong grid variant"),
    }

    let params = common("P8", 2, 2, -2, 2, -2, 2);
    match mandelbrot::compute(&NeverCancel(), &params, 5).unwrap() {
        mandelbrot::EscapeGrid::Posit8(g) => assert_eq!(g.len(), 4),
        _ => panic!("wrong grid variant"),
    }

    let params = common("f512", 2, 2, -2, 2, -2, 2);
    assert_eq!(
        mandelbrot::compute(&NeverCancel(), &params, 5).err().unwrap(),
        "unknown numeric format"
    );
}

#[test]
fn test_newton_formats() {
    let names = newton::formats();
    assert_eq!(names, vec!["P32", "P16", "I20F12", "I11F5", "Rational64"]);

    let params = common("nosuch", 2, 2, -2, 2, -2, 2);
    assert_eq!(
        newton::compute(&NeverCancel(), &params, 5).err().unwrap(),
        "unknown numeric format"
    );
}

#[test]
fn test_newton_default_poly_converges() {
    // z³−1 over the exact oracle: the pixel exactly at the real root 1
    // converges immediately to root index 0.
    let params = common("Rational64", 2, 1, 1, 9, 0, 2);
    let zeros = newton::compute(&NeverCancel(), &params, 8).unwrap();
    assert_eq!(zeros.len(), 2);
    assert_eq!(zeros[0], Some(Zero { count: 0, zero: 0 }));
}

#[test]
fn test_root_clustering_oracle() {
    // Root-basin clustering under the exact-rational oracle, run
    // single-threaded in row-major order: pixels landing exactly on the
    // two roots of (z−1)(z−2) get distinct indices in first-discovery
    // order.
    let nparams = newton::NewtonParams {
        iters: 5,
        zeros: vec![
            Complex { re: rat(1, 1), im: rat(0, 1) },
            Complex { re: rat(2, 1), im: rat(0, 1) },
        ],
        coefficient: Complex { re: rat(1, 1), im: rat(0, 1) },
    };
    let ev = newton::NewtonEvaluator::<Rational>::try_from(&nparams).unwrap();

    // xs = [1, 2]: one pixel per root, row-major.
    let params = common("Rational64", 2, 1, 1, 3, 0, 2);
    let out = ev.evaluate(&NeverCancel(), &params).unwrap();
    assert_eq!(out.len(), 2);
    assert_eq!(out[0], Some(Zero { count: 0, zero: 0 }));
    assert_eq!(out[1], Some(Zero { count: 0, zero: 1 }));

    // xs = [1, 1 + 1/1000]: two pixels converging to points closer than
    // the relative threshold share the first-seen index.
    let near_params = CommonParams {
        size: Size { width: 2, height: 1 },
        x: AxisRange { start: rat(1, 1), end: rat(1002, 1000) },
        y: AxisRange { start: rat(0, 1), end: rat(2, 1) },
        numeric: "Rational64".to_owned(),
    };
    let out = ev.evaluate(&NeverCancel(), &near_params).unwrap();
    assert_eq!(out.len(), 2);
    assert_eq!(out[0].unwrap().zero, 0);
    assert_eq!(out[1].unwrap().zero, 0);
}

#[test]
fn test_cluster_zeros_direct() {
    // The clustering pass alone: near points share an index, far points
    // get fresh indices in first-discovery order, unresolved entries stay
    // unresolved.
    let z1 = Complex { re: rat(1, 1), im: rat(0, 1) };
    let z1b = Complex { re: rat(1001, 1000), im: rat(0, 1) };
    let z5 = Complex { re: rat(5, 1), im: rat(0, 1) };
    let grid = vec![Some((z1, 3usize)), Some((z1b, 4usize)), None, Some((z5, 9usize))];
    let out = newton::cluster_zeros(&grid);
    assert_eq!(
        out,
        vec![
            Some(Zero { count: 3, zero: 0 }),
            Some(Zero { count: 4, zero: 0 }),
            None,
            Some(Zero { count: 9, zero: 1 }),
        ]
    );
}

#[test]
fn test_oracle_overflow_aborts_request() {
    // A long orbit over fractional coordinates outgrows the oracle's
    // component range; the poisoned orbit aborts the whole request rather
    // than delivering a wrong escape.
    let params = common("Rational64", 3, 3, -2, 2, -2, 2);
    let res = mandelbrot::compute(&NeverCancel(), &params, 50);
    assert_eq!(res.err().unwrap(), "arithmetic overflow");

    // The same window at integer coordinates stays in range and succeeds.
    let params = common("Rational64", 2, 2, -2, 2, -2, 2);
    assert!(mandelbrot::compute(&NeverCancel(), &params, 50).is_ok());
}

#[test]
fn test_oracle_overflow_unconverges_newton() {
    // Newton orbits that outgrow the oracle's range poison and never pass
    // the convergence test: such pixels stay unresolved rather than taking
    // a wrong root index, and the request still succeeds.
    let params = common("Rational64", 3, 3, -2, 2, -2, 2);
    let zeros = newton::compute(&NeverCancel(), &params, 50).unwrap();
    assert_eq!(zeros.len(), 9);
    // Any index that was assigned came from a genuinely converged orbit;
    // z³−1 has three roots, so no index can exceed two.
    for px in zeros.iter().flatten() {
        assert!(px.zero < 3);
    }
}

#[test]
fn test_conversion_failure_aborts_request() {
    // A region outside I11F5's range fails the whole request before any
    // row is evaluated, rather than delivering a partial result.
    let params = common("I11F5", 2, 2, 100_000, 100_004, -2, 2);
    let res = mandelbrot::compute(&NeverCancel(), &params, 5);
    assert!(res.is_err());
    assert_ne!(res.err().unwrap(), "canceled");
}

#[test]
fn test_row_cancellation() {
    // Cancelling a 10,000-row job shortly after the first row completes
    // returns a cancellation error, and the poll counter shows materially
    // fewer than 10,000 rows were started.
    let params = common("Rational64", 1, 10_000, -2, 2, -2, 2);
    let ctx = CancelAfter { polls: Cell::new(0), proceeded: Cell::new(0), after: 1 };
    let res = mandelbrot::evaluate_rows::<Rational, _>(&ctx, &params, 16);
    assert_eq!(res.err().unwrap(), "canceled");
    // Every row was offered for dispatch, but almost none was started.
    assert!(ctx.polls.get() >= 10_000);
    assert!(ctx.proceeded.get() < 10_000 / 10);
}

#[test]
fn test_never_cancel_completes() {
    let params = common("Rational64", 4, 4, -2, 2, -2, 2);
    let grid = mandelbrot::evaluate_rows::<Rational, _>(&NeverCancel(), &params, 8).unwrap();
    assert_eq!(grid.len(), 16);
    // The window covers escaping and bounded points alike.
    assert!(grid.iter().any(|px| px.is_some()));
    assert!(grid.iter().any(|px| px.is_none()));
}

#[test]
fn test_coordinate_generation() {
    // Four steps from -2 to 2: the exact partition starts at -2 and
    // advances by 1 per pixel.
    let xs: Vec<Rational> =
        fractal_farlands::coords::make_range(&rat(-2, 1), &rat(2, 1), 4).unwrap();
    assert_eq!(xs.len(), 4);
    for (i, x) in xs.iter().enumerate() {
        assert!(x.eq_value(&rat(-2 + i as i64, 1)));
    }
}

#[test]
fn test_fractal_params_name() {
    assert_eq!(FractalParams::Mandelbrot { iters: 5 }.name(), "mandelbrot");
    assert_eq!(FractalParams::Newton { iters: 5 }.name(), "newton");
}

#[test]
fn test_complex_square_and_near() {
    let a = Complex { re: rat(1, 1), im: rat(2, 1) };
    let sq = a.square();
    // (1+2i)² = -3 + 4i
    assert!(sq.re.eq_value(&rat(-3, 1)));
    assert!(sq.im.eq_value(&rat(4, 1)));

    let b = Complex { re: rat(1, 1), im: rat(0, 1) };
    let c = Complex { re: rat(1001, 1000), im: rat(0, 1) };
    let far = Complex { re: rat(5, 1), im: rat(0, 1) };
    let threshold = rat(512, 1);
    assert!(b.near(c, c, threshold));
    assert!(!b.near(far, far, threshold));
}

#[test]
fn test_newton_p16_converges() {
    // The 16-bit posit can hold the real root of z³−1 exactly too.
    let params = common("P16", 2, 1, 1, 9, 0, 2);
    let zeros = newton::compute(&NeverCancel(), &params, 30).unwrap();
    assert_eq!(zeros[0], Some(Zero { count: 0, zero: 0 }));
}

#[test]
fn test_newton_posit_and_fixed_formats() {
    // A pixel exactly on the real root of z³−1 converges at once in the
    // approximate formats too; this exercises the posit arithmetic wrappers
    // end to end (a division or multiplication that handed back its
    // argument unchanged would not converge here).
    let params = common("P32", 2, 1, 1, 9, 0, 2);
    let zeros = newton::compute(&NeverCancel(), &params, 30).unwrap();
    assert_eq!(zeros[0], Some(Zero { count: 0, zero: 0 }));

    let params = common("I20F12", 2, 1, 1, 9, 0, 2);
    let zeros = newton::compute(&NeverCancel(), &params, 30).unwrap();
    assert_eq!(zeros[0], Some(Zero { count: 0, zero: 0 }));
}

#[test]
fn test_mandelbrot_escape_with_posit_arithmetic() {
    // c = 1 escapes at index 1 in every format that can hold small
    // integers; the posit run goes through the trusted arithmetic wrappers.
    let one_p = P32::from_bigrational(&rat(1, 1)).unwrap();
    let zero_p = P32::from_bigrational(&rat(0, 1)).unwrap();
    let e = mandelbrot::escape::<P32>(&one_p, &zero_p, 10).unwrap();
    assert_eq!(e.count, 1);
}
