//! Implementation of the escape-time (Mandelbrot) fractal, parameterized on
//! a numeric format.
//!
//! The evaluator iterates z ← z² + c from z = 0 and reports the first
//! 0-based index at which |z|² crosses four, together with the squared
//! magnitude at the crossing; a pixel whose budget runs out stays bounded.

use vstd::prelude::*;

use crate::coords::{coord_spec, make_range, step_spec};
use crate::fixedpoint::I11F5;
use crate::number::{FractalNumber, MandelbrotNumber};
use crate::numeric::Complex;
use crate::posit::{P16, P32, P8};
use crate::rational::Rational;
use crate::{CancelContext, CommonParams, Escape, EscapeVector};

verus! {

/// The iterated value: z₀ = 0, zᵢ₊₁ = zᵢ² + c, all in the format's own
/// arithmetic.
pub open spec fn mandel_z<N: MandelbrotNumber>(c: Complex<N>, i: nat) -> Complex<N>
    decreases i,
{
    if i == 0 {
        Complex { re: N::from_i32_spec(0), im: N::from_i32_spec(0) }
    } else {
        mandel_z(c, (i - 1) as nat).square_spec().add_spec(c)
    }
}

/// Does the iteration escape when checked at 0-based index i? The check
/// looks at the value after the i-th update.
pub open spec fn escapes_at<N: MandelbrotNumber>(c: Complex<N>, i: nat) -> bool {
    !N::lt_spec(mandel_z(c, i + 1).mag_sq_spec(), N::from_i32_spec(4))
}

/// The escape record produced when the check at index i fires.
pub open spec fn escape_record<N: MandelbrotNumber>(c: Complex<N>, i: nat) -> Escape<N> {
    Escape { count: i as usize, z_magnitude_squared: mandel_z(c, i + 1).mag_sq_spec() }
}

/// Search for the first escape index in [i, limit).
pub open spec fn escape_from<N: MandelbrotNumber>(c: Complex<N>, i: nat, limit: nat) -> Option<
    Escape<N>,
>
    decreases limit - i,
{
    if i >= limit {
        None
    } else if escapes_at(c, i) {
        Some(escape_record(c, i))
    } else {
        escape_from(c, (i + 1) as nat, limit)
    }
}

/// What the escape evaluator returns for constant c under the given budget:
/// the first escape in [0, limit), or bounded.
pub open spec fn escape_spec<N: MandelbrotNumber>(c: Complex<N>, limit: nat) -> Option<Escape<N>> {
    escape_from(c, 0, limit)
}

/// Evaluate one pixel: iterate z ← z² + c from zero, reporting the first
/// 0-based iteration index at which |z|² reaches four, or bounded if the
/// budget is exhausted.
pub fn escape<N: MandelbrotNumber>(x: &N, y: &N, limit: usize) -> (r: Option<Escape<N>>)
    requires
        N::fmt_ok(),
        x.valid(),
        y.valid(),
    ensures
        r == escape_spec(Complex { re: *x, im: *y }, limit as nat),
        r matches Some(e) ==> e.z_magnitude_squared.valid(),
{
    let mut z: Complex<N> = Complex { re: N::from_i32(0), im: N::from_i32(0) };
    let four: N = N::from_i32(4);
    let coord = Complex { re: *x, im: *y };
    let ghost c = coord;

    let mut i: usize = 0;
    while i < limit
        invariant
            N::fmt_ok(),
            coord == c,
            c == (Complex { re: *x, im: *y }),
            coord.valid(),
            z.valid(),
            four == N::from_i32_spec(4),
            four.valid(),
            0 <= i <= limit,
            z == mandel_z(c, i as nat),
            escape_from(c, 0, limit as nat) == escape_from(c, i as nat, limit as nat),
        decreases limit - i,
    {
        let sq = z.square();
        z = sq.add(coord);

        let z_magnitude_squared = z.mag_sq();

        // The escape condition is that the Cartesian distance from the zero
        // point of the complex plane is at least two; comparing |z|² to 2²
        // skips the square root.
        if !z_magnitude_squared.lt(&four) {
            proof {
                assert(z == mandel_z(c, (i + 1) as nat));
                assert(escapes_at(c, i as nat));
            }
            return Some(Escape { count: i, z_magnitude_squared });
        }
        proof {
            assert(z == mandel_z(c, (i + 1) as nat));
            assert(!escapes_at(c, i as nat));
        }
        i = i + 1;
    }
    None
}

/// The exact rational x coordinate of pixel column i.
pub open spec fn xcoord(params: CommonParams, i: int) -> Rational {
    coord_spec(
        params.x.start,
        step_spec(params.x.start, params.x.end, params.size.width as int),
        i as nat,
    )
}

/// The exact rational y coordinate of pixel row r.
pub open spec fn ycoord(params: CommonParams, r: int) -> Rational {
    coord_spec(
        params.y.start,
        step_spec(params.y.start, params.y.end, params.size.height as int),
        r as nat,
    )
}

/// Do all of the request's coordinates convert into the format?
pub open spec fn coords_ok<N: FractalNumber>(params: CommonParams) -> bool {
    &&& forall|i: int|
        0 <= i < params.size.width ==> (#[trigger] N::from_rational_spec(xcoord(params, i)))
            is Some
    &&& forall|r: int|
        0 <= r < params.size.height ==> (#[trigger] N::from_rational_spec(ycoord(params, r)))
            is Some
}

/// The constant c for a pixel, as converted format values.
pub open spec fn pixel_c<N: FractalNumber>(params: CommonParams, row: int, col: int) -> Complex<
    N,
> {
    Complex {
        re: N::from_rational_spec(xcoord(params, col))->Some_0,
        im: N::from_rational_spec(ycoord(params, row))->Some_0,
    }
}

/// Row `row` of the grid holds exactly the escape results of its pixels.
pub open spec fn row_done<N: MandelbrotNumber>(
    grid: Seq<Option<Escape<N>>>,
    params: CommonParams,
    row: int,
    iters: nat,
) -> bool {
    forall|col: int|
        0 <= col < params.size.width ==> grid[row * params.size.width + col] == escape_spec(
            #[trigger] pixel_c::<N>(params, row, col),
            iters,
        )
}

/// Row `row` of the grid was skipped: every entry unresolved.
pub open spec fn row_blank<N>(grid: Seq<Option<Escape<N>>>, params: CommonParams, row: int) -> bool {
    forall|col: int|
        0 <= col < params.size.width ==> grid[#[trigger] (row * params.size.width + col)] is None
}

/// Evaluate one full row: the pixels at the given x coordinates, all at
/// the same y coordinate. This is the unit of work a parallel driver fans
/// out across a pool; pixels within the row are evaluated sequentially.
pub fn eval_row<N: MandelbrotNumber>(xs: &Vec<N>, y: &N, limit: usize) -> (row: Vec<
    Option<Escape<N>>,
>)
    requires
        N::fmt_ok(),
        forall|i: int| 0 <= i < xs@.len() ==> (#[trigger] xs@[i]).valid(),
        y.valid(),
    ensures
        row@.len() == xs@.len(),
        forall|j: int|
            0 <= j < xs@.len() ==> row@[j] == escape_spec(
                Complex { re: #[trigger] xs@[j], im: *y },
                limit as nat,
            ),
        forall|j: int|
            0 <= j < xs@.len() ==> ((#[trigger] row@[j]) matches Some(e)
                ==> e.z_magnitude_squared.valid()),
{
    let n = xs.len();
    let mut row: Vec<Option<Escape<N>>> = Vec::new();
    let mut col: usize = 0;
    while col < n
        invariant
            N::fmt_ok(),
            n == xs@.len(),
            forall|i: int| 0 <= i < xs@.len() ==> (#[trigger] xs@[i]).valid(),
            y.valid(),
            0 <= col <= n,
            row@.len() == col,
            forall|j: int|
                0 <= j < col ==> row@[j] == escape_spec(
                    Complex { re: #[trigger] xs@[j], im: *y },
                    limit as nat,
                ),
            forall|j: int|
                0 <= j < col ==> ((#[trigger] row@[j]) matches Some(e)
                    ==> e.z_magnitude_squared.valid()),
        decreases n - col,
    {
        let x = xs[col];
        row.push(escape(&x, y, limit));
        col = col + 1;
    }
    row
}

/// Does some pixel's escape result carry a magnitude the format lost to
/// overflow? Only the exact oracle ever reports this; for it, a degraded
/// escape means the orbit outgrew the oracle's range and the reported
/// crossing cannot be trusted.
pub open spec fn overflow_witness<N: MandelbrotNumber>(params: CommonParams, iters: nat) -> bool {
    exists|row: int, col: int|
        #![trigger escape_spec(pixel_c::<N>(params, row, col), iters)]
        {
            &&& 0 <= row < params.size.height
            &&& 0 <= col < params.size.width
            &&& escape_spec(pixel_c::<N>(params, row, col), iters) is Some
            &&& escape_spec(
                pixel_c::<N>(params, row, col),
                iters,
            )->Some_0.z_magnitude_squared.degraded_spec()
        }
}

/// Computes the escape values in the given window, row by row, polling the
/// cancellation context before each row.
///
/// On success the grid is complete in row-major order, except that rows
/// whose dispatch observed cancellation are left unresolved; if cancellation
/// is still observed at the end, the whole call reports cancellation
/// instead of a partial image. A coordinate outside the format's range
/// aborts the whole request before any row is evaluated, and an orbit the
/// format loses to overflow (possible only in the exact oracle, whose
/// arithmetic poisons on overflow) aborts it too, rather than delivering a
/// wrong crossing.
pub fn evaluate_rows<N: MandelbrotNumber, C: CancelContext>(
    ctx: &C,
    params: &CommonParams,
    iterations: usize,
) -> (res: Result<EscapeVector<N>, String>)
    requires
        N::fmt_ok(),
        params.wf(),
    ensures
        res is Ok ==> res->Ok_0.len() == params.size.width * params.size.height,
        res is Ok ==> forall|row: int|
            0 <= row < params.size.height ==> row_done(
                res->Ok_0@,
                *params,
                row,
                iterations as nat,
            ) || row_blank(res->Ok_0@, *params, row),
        res is Ok ==> coords_ok::<N>(*params),
        !coords_ok::<N>(*params) ==> res is Err,
        coords_ok::<N>(*params) && res is Err ==> (res->Err_0@ == "canceled"@ || (res->Err_0@
            == "arithmetic overflow"@ && overflow_witness::<N>(*params, iterations as nat))),
        coords_ok::<N>(*params) && !ctx.spec_may_cancel() && res is Err ==> res->Err_0@
            == "arithmetic overflow"@ && overflow_witness::<N>(*params, iterations as nat),
        coords_ok::<N>(*params) && !ctx.spec_may_cancel() && res is Ok ==> forall|row: int|
            0 <= row < params.size.height ==> row_done(res->Ok_0@, *params, row, iterations as nat),
{
    let size = params.size;
    let xs: Vec<N> = match make_range(&params.x.start, &params.x.end, size.width) {
        Ok(v) => v,
        Err(e) => {
            proof {
                let wi = choose|i: int|
                    0 <= i < size.width && (#[trigger] N::from_rational_spec(
                        coord_spec(
                            params.x.start,
                            step_spec(params.x.start, params.x.end, size.width as int),
                            i as nat,
                        ),
                    )) is None;
                assert(N::from_rational_spec(xcoord(*params, wi)) is None);
            }
            return Err(e);
        },
    };
    let ys: Vec<N> = match make_range(&params.y.start, &params.y.end, size.height) {
        Ok(v) => v,
        Err(e) => {
            proof {
                let wr = choose|r: int|
                    0 <= r < size.height && (#[trigger] N::from_rational_spec(
                        coord_spec(
                            params.y.start,
                            step_spec(params.y.start, params.y.end, size.height as int),
                            r as nat,
                        ),
                    )) is None;
                assert(N::from_rational_spec(ycoord(*params, wr)) is None);
            }
            return Err(e);
        },
    };
    proof {
        assert(coords_ok::<N>(*params));
    }

    let mut output: EscapeVector<N> = Vec::new();
    let mut row: usize = 0;
    while row < size.height
        invariant
            N::fmt_ok(),
            params.wf(),
            size == params.size,
            xs.len() == size.width,
            ys.len() == size.height,
            forall|i: int|
                0 <= i < size.width ==> #[trigger] N::from_rational_spec(xcoord(*params, i))
                    == Some(xs[i]),
            forall|r: int|
                0 <= r < size.height ==> #[trigger] N::from_rational_spec(ycoord(*params, r))
                    == Some(ys[r]),
            forall|i: int| 0 <= i < size.width ==> (#[trigger] xs[i]).valid(),
            forall|r: int| 0 <= r < size.height ==> (#[trigger] ys[r]).valid(),
            0 <= row <= size.height,
            output.len() == row * size.width,
            forall|r: int|
                0 <= r < row ==> row_done(output@, *params, r, iterations as nat) || row_blank(
                    output@,
                    *params,
                    r,
                ),
            !ctx.spec_may_cancel() ==> forall|r: int|
                0 <= r < row ==> row_done(output@, *params, r, iterations as nat),
        decreases size.height - row,
    {
        let ghost old_output = output@;
        proof {
            assert((row + 1) * size.width == row * size.width + size.width) by (nonlinear_arith);
            assert((row + 1) * size.width <= size.height * size.width) by (nonlinear_arith)
                requires
                    row < size.height,
                    size.width >= 0,
            ;
            assert(size.height * size.width == size.width * size.height) by (nonlinear_arith);
        }
        if ctx.is_canceled() {
            // Newly eligible rows are skipped once cancellation is observed;
            // their entries stay unresolved.
            let mut col: usize = 0;
            while col < size.width
                invariant
                    0 <= col <= size.width,
                    output.len() == row * size.width + col,
                    output@.subrange(0, (row * size.width) as int) == old_output,
                    forall|k: int|
                        row * size.width <= k < row * size.width + col ==> output@[k] is None,
                decreases size.width - col,
            {
                output.push(None);
                col = col + 1;
            }
            proof {
                assert forall|r: int|
                    0 <= r < row implies row_done(output@, *params, r, iterations as nat)
                    || row_blank(output@, *params, r) by {
                    assert((r + 1) * size.width <= row * size.width) by (nonlinear_arith)
                        requires
                            r < row,
                            size.width >= 0,
                    ;
                    lemma_prefix_rows_preserved(old_output, output@, *params, r, iterations as nat);
                }
                assert forall|r: int|
                    !ctx.spec_may_cancel() && 0 <= r < row implies row_done(
                    output@,
                    *params,
                    r,
                    iterations as nat,
                ) by {
                    assert((r + 1) * size.width <= row * size.width) by (nonlinear_arith)
                        requires
                            r < row,
                            size.width >= 0,
                    ;
                    lemma_prefix_rows_preserved(old_output, output@, *params, r, iterations as nat);
                }
                assert(row_blank(output@, *params, row as int));
            }
        } else {
            let y = ys[row];
            let mut row_vals = eval_row(&xs, &y, iterations);
            proof {
                assert forall|k: int| 0 <= k < size.width implies row_vals@[k] == escape_spec(
                    #[trigger] pixel_c::<N>(*params, row as int, k),
                    iterations as nat,
                ) by {
                    assert(pixel_c::<N>(*params, row as int, k) == (Complex { re: xs@[k], im: y }));
                }
            }
            // A degraded magnitude means the format's arithmetic lost this
            // orbit: the reported crossing is meaningless, so the whole
            // request aborts instead of delivering it.
            let mut col: usize = 0;
            while col < size.width
                invariant
                    N::fmt_ok(),
                    params.wf(),
                    size == params.size,
                    row < size.height,
                    row_vals@.len() == size.width,
                    forall|k: int|
                        0 <= k < size.width ==> row_vals@[k] == escape_spec(
                            #[trigger] pixel_c::<N>(*params, row as int, k),
                            iterations as nat,
                        ),
                    forall|k: int|
                        0 <= k < size.width ==> ((#[trigger] row_vals@[k]) matches Some(e)
                            ==> e.z_magnitude_squared.valid()),
                    0 <= col <= size.width,
                decreases size.width - col,
            {
                let degraded = match &row_vals[col] {
                    Some(e) => e.z_magnitude_squared.is_degraded(),
                    None => false,
                };
                if degraded {
                    proof {
                        let wr: int = row as int;
                        let wc: int = col as int;
                        assert(escape_spec(pixel_c::<N>(*params, wr, wc), iterations as nat)
                            is Some);
                        assert(overflow_witness::<N>(*params, iterations as nat));
                    }
                    return Err("arithmetic overflow".to_owned());
                }
                col = col + 1;
            }
            output.append(&mut row_vals);
            proof {
                assert(output@.subrange(0, old_output.len() as int) =~= old_output);
                assert forall|r: int|
                    0 <= r < row implies row_done(output@, *params, r, iterations as nat)
                    || row_blank(output@, *params, r) by {
                    assert((r + 1) * size.width <= row * size.width) by (nonlinear_arith)
                        requires
                            r < row,
                            size.width >= 0,
                    ;
                    lemma_prefix_rows_preserved(old_output, output@, *params, r, iterations as nat);
                }
                assert forall|r: int|
                    !ctx.spec_may_cancel() && 0 <= r < row implies row_done(
                    output@,
                    *params,
                    r,
                    iterations as nat,
                ) by {
                    assert((r + 1) * size.width <= row * size.width) by (nonlinear_arith)
                        requires
                            r < row,
                            size.width >= 0,
                    ;
                    lemma_prefix_rows_preserved(old_output, output@, *params, r, iterations as nat);
                }
                assert(row_done(output@, *params, row as int, iterations as nat));
            }
        }
        row = row + 1;
    }

    proof {
        assert(size.height * size.width == size.width * size.height) by (nonlinear_arith);
    }
    if ctx.is_canceled() {
        Err("canceled".to_owned())
    } else {
        Ok(output)
    }
}

/// A row's completed or blank status only depends on its own entries, so it
/// survives appending later rows.
proof fn lemma_prefix_rows_preserved<N: MandelbrotNumber>(
    prefix: Seq<Option<Escape<N>>>,
    whole: Seq<Option<Escape<N>>>,
    params: CommonParams,
    r: int,
    iters: nat,
)
    requires
        0 <= r,
        (r + 1) * params.size.width <= prefix.len(),
        whole.len() >= prefix.len(),
        whole.subrange(0, prefix.len() as int) == prefix,
    ensures
        row_done(prefix, params, r, iters) ==> row_done(whole, params, r, iters),
        row_blank(prefix, params, r) ==> row_blank(whole, params, r),
{
    assert(r * params.size.width + params.size.width == (r + 1) * params.size.width)
        by (nonlinear_arith);
    assert forall|col: int| 0 <= col < params.size.width implies whole[#[trigger] (r
        * params.size.width + col)] == prefix[r * params.size.width + col] by {
        assert(r * params.size.width >= 0) by (nonlinear_arith)
            requires
                r >= 0,
                params.size.width >= 0,
        ;
        assert(prefix[r * params.size.width + col] == whole.subrange(0, prefix.len() as int)[r
            * params.size.width + col]);
    }
}

} // verus!

verus! {

/// The grid produced for a window: every row complete (per the pixel spec)
/// or skipped, at the right length.
pub open spec fn grid_ok<N: MandelbrotNumber>(
    g: Seq<Option<Escape<N>>>,
    params: CommonParams,
    iters: nat,
) -> bool {
    &&& g.len() == params.size.width * params.size.height
    &&& forall|row: int|
        0 <= row < params.size.height ==> row_done(g, params, row, iters) || row_blank(
            g,
            params,
            row,
        )
}

/// The grid with every row complete.
pub open spec fn grid_full<N: MandelbrotNumber>(
    g: Seq<Option<Escape<N>>>,
    params: CommonParams,
    iters: nat,
) -> bool {
    &&& g.len() == params.size.width * params.size.height
    &&& forall|row: int| 0 <= row < params.size.height ==> row_done(g, params, row, iters)
}

/// An escape grid in one of the formats this library can evaluate itself.
pub enum EscapeGrid {
    /// Evaluated over the exact rational oracle.
    Exact(EscapeVector<Rational>),
    /// Evaluated over 32-bit posits.
    Posit32(EscapeVector<P32>),
    /// Evaluated over 16-bit posits.
    Posit16(EscapeVector<P16>),
    /// Evaluated over 8-bit posits.
    Posit8(EscapeVector<P8>),
    /// Evaluated over the 16-bit fixed-point format with 5 fractional bits.
    Fix11F5(EscapeVector<I11F5>),
}

/// Is the named format one this library can evaluate itself?
pub open spec fn known_format(name: Seq<char>) -> bool {
    ||| name == "P32"@
    ||| name == "P16"@
    ||| name == "P8"@
    ||| name == "I11F5"@
    ||| name == "Rational64"@
}

/// List the numeric formats that are valid for rendering.
pub fn formats() -> (r: Vec<&'static str>)
    ensures
        r@.len() == 5,
        r@[0]@ == "P32"@,
        r@[1]@ == "P16"@,
        r@[2]@ == "P8"@,
        r@[3]@ == "I11F5"@,
        r@[4]@ == "Rational64"@,
{
    let mut v: Vec<&'static str> = Vec::new();
    v.push("P32");
    v.push("P16");
    v.push("P8");
    v.push("I11F5");
    v.push("Rational64");
    v
}

/// Computes the escape values in the given window with the format named in
/// the request, failing on an unknown format name.
pub fn compute<C: CancelContext>(ctx: &C, params: &CommonParams, iterations: usize) -> (res: Result<
    EscapeGrid,
    String,
>)
    requires
        params.wf(),
    ensures
        !known_format(params.numeric@) ==> (res matches Err(e) && e@ == "unknown numeric format"@),
        res is Ok ==> known_format(params.numeric@),
        res matches Ok(g) ==> match g {
            EscapeGrid::Exact(v) => params.numeric@ == "Rational64"@ && grid_ok(
                v@,
                *params,
                iterations as nat,
            ),
            EscapeGrid::Posit32(v) => params.numeric@ == "P32"@ && grid_ok(
                v@,
                *params,
                iterations as nat,
            ),
            EscapeGrid::Posit16(v) => params.numeric@ == "P16"@ && grid_ok(
                v@,
                *params,
                iterations as nat,
            ),
            EscapeGrid::Posit8(v) => params.numeric@ == "P8"@ && grid_ok(
                v@,
                *params,
                iterations as nat,
            ),
            EscapeGrid::Fix11F5(v) => params.numeric@ == "I11F5"@ && grid_ok(
                v@,
                *params,
                iterations as nat,
            ),
        },
        !ctx.spec_may_cancel() && params.numeric@ == "P32"@ ==> (res matches Ok(
            EscapeGrid::Posit32(v),
        ) && grid_full(v@, *params, iterations as nat)),
        !ctx.spec_may_cancel() && params.numeric@ == "P16"@ ==> (res matches Ok(
            EscapeGrid::Posit16(v),
        ) && grid_full(v@, *params, iterations as nat)),
        !ctx.spec_may_cancel() && params.numeric@ == "P8"@ ==> (res matches Ok(
            EscapeGrid::Posit8(v),
        ) && grid_full(v@, *params, iterations as nat)),
        !ctx.spec_may_cancel() && params.numeric@ == "I11F5"@ && coords_ok::<I11F5>(*params) ==> (
        res matches Ok(EscapeGrid::Fix11F5(v)) && grid_full(v@, *params, iterations as nat)),
        !ctx.spec_may_cancel() && params.numeric@ == "Rational64"@ ==> ((res matches Ok(
            EscapeGrid::Exact(v),
        ) && grid_full(v@, *params, iterations as nat)) || (res matches Err(e) && e@
            == "arithmetic overflow"@ && overflow_witness::<Rational>(*params, iterations as nat))),
{
    proof {
        reveal_strlit("P32");
        reveal_strlit("P16");
        reveal_strlit("P8");
        reveal_strlit("I11F5");
        reveal_strlit("Rational64");
        reveal_strlit("unknown numeric format");
        reveal_strlit("arithmetic overflow");
        reveal_strlit("canceled");
        assert("P32"@.len() == 3);
        assert("P16"@.len() == 3);
        assert("P8"@.len() == 2);
        assert("I11F5"@.len() == 5);
        assert("Rational64"@.len() == 10);
        assert("P32"@ != "P16"@) by {
            assert("P32"@[1] != "P16"@[1]);
        }
    }
    let fmt = &params.numeric;
    if fmt.eq(&"P32".to_owned()) {
        proof {
            assert forall|i: int| 0 <= i < params.size.width implies (
            #[trigger] <P32 as crate::number::FromRational>::from_rational_spec(
                xcoord(*params, i),
            )) is Some by {}
            assert forall|r: int| 0 <= r < params.size.height implies (
            #[trigger] <P32 as crate::number::FromRational>::from_rational_spec(
                ycoord(*params, r),
            )) is Some by {}
        }
        proof {
            assert(!overflow_witness::<P32>(*params, iterations as nat));
        }
        match evaluate_rows::<P32, C>(ctx, params, iterations) {
            Ok(v) => Ok(EscapeGrid::Posit32(v)),
            Err(e) => Err(e),
        }
    } else if fmt.eq(&"P16".to_owned()) {
        proof {
            assert forall|i: int| 0 <= i < params.size.width implies (
            #[trigger] <P16 as crate::number::FromRational>::from_rational_spec(
                xcoord(*params, i),
            )) is Some by {}
            assert forall|r: int| 0 <= r < params.size.height implies (
            #[trigger] <P16 as crate::number::FromRational>::from_rational_spec(
                ycoord(*params, r),
            )) is Some by {}
        }
        proof {
            assert(!overflow_witness::<P16>(*params, iterations as nat));
        }
        match evaluate_rows::<P16, C>(ctx, params, iterations) {
            Ok(v) => Ok(EscapeGrid::Posit16(v)),
            Err(e) => Err(e),
        }
    } else if fmt.eq(&"P8".to_owned()) {
        proof {
            assert forall|i: int| 0 <= i < params.size.width implies (
            #[trigger] <P8 as crate::number::FromRational>::from_rational_spec(
                xcoord(*params, i),
            )) is Some by {}
            assert forall|r: int| 0 <= r < params.size.height implies (
            #[trigger] <P8 as crate::number::FromRational>::from_rational_spec(
                ycoord(*params, r),
            )) is Some by {}
        }
        proof {
            assert(!overflow_witness::<P8>(*params, iterations as nat));
        }
        match evaluate_rows::<P8, C>(ctx, params, iterations) {
            Ok(v) => Ok(EscapeGrid::Posit8(v)),
            Err(e) => Err(e),
        }
    } else if fmt.eq(&"I11F5".to_owned()) {
        proof {
            assert(!overflow_witness::<I11F5>(*params, iterations as nat));
        }
        match evaluate_rows::<I11F5, C>(ctx, params, iterations) {
            Ok(v) => Ok(EscapeGrid::Fix11F5(v)),
            Err(e) => Err(e),
        }
    } else if fmt.eq(&"Rational64".to_owned()) {
        proof {
            assert forall|i: int| 0 <= i < params.size.width implies (
            #[trigger] <Rational as crate::number::FromRational>::from_rational_spec(
                xcoord(*params, i),
            )) is Some by {}
            assert forall|r: int| 0 <= r < params.size.height implies (
            #[trigger] <Rational as crate::number::FromRational>::from_rational_spec(
                ycoord(*params, r),
            )) is Some by {}
        }
        match evaluate_rows::<Rational, C>(ctx, params, iterations) {
            Ok(v) => Ok(EscapeGrid::Exact(v)),
            Err(e) => Err(e),
        }
    } else {
        Err("unknown numeric format".to_owned())
    }
}

} // verus!

verus! {

broadcast use {crate::rational::lemma_rat_components, crate::rational::lemma_spec_add_wf, crate::rational::lemma_spec_sub_wf, crate::rational::lemma_spec_mul_wf, crate::rational::lemma_spec_div_wf};

/// A budget of zero yields "bounded" for every pixel, in every format: no
/// escape check ever runs.
pub proof fn lemma_zero_budget_bounded<N: MandelbrotNumber>(c: Complex<N>)
    ensures
        escape_spec(c, 0) is None,
{
}

/// The origin of the exact rational plane.
pub open spec fn exact_origin() -> Complex<Rational> {
    Complex { re: Rational::spec_from_int(0), im: Rational::spec_from_int(0) }
}

/// Under the exact oracle the iterate of the origin never moves.
proof fn lemma_origin_fixed(i: nat)
    ensures
        mandel_z(exact_origin(), i) == exact_origin(),
    decreases i,
{
    if i > 0 {
        lemma_origin_fixed((i - 1) as nat);
        let r0 = Rational::spec_from_int(0);
        assert(r0 == Rational::rat(0, 1));
        assert(r0.n() == 0 && r0.d() == 1);
        assert(crate::rational::rat_fits(0) && crate::rational::rat_fits(1));
        assert(Rational::norm(0, 1) == Rational::rat(0, 1));
        assert(Rational::spec_mul(r0, r0) == Rational::norm(0, 1));
        assert(Rational::spec_mul(r0, r0) == Rational::rat(0, 1));
        assert(Rational::spec_sub(Rational::rat(0, 1), Rational::rat(0, 1)) == Rational::rat(0, 1));
        assert(Rational::spec_mul(Rational::spec_from_int(2), Rational::rat(0, 1)) == Rational::rat(
            0,
            1,
        ));
        assert(Rational::spec_add(Rational::rat(0, 1), r0) == Rational::rat(0, 1));
    }
}

proof fn lemma_origin_from(i: nat, limit: nat)
    requires
        i <= limit,
    ensures
        escape_from(exact_origin(), i, limit) is None,
    decreases limit - i,
{
    lemma_origin_fixed(i + 1);
    if i < limit {
        lemma_origin_from(i + 1, limit);
    }
}

/// Escape-time law at the origin: (0, 0) never escapes within any finite
/// budget under the exact rational oracle.
pub proof fn lemma_origin_never_escapes(limit: nat)
    ensures
        escape_spec(exact_origin(), limit) is None,
{
    lemma_origin_from(0, limit);
}

/// The point (3, 0) of the exact rational plane.
pub open spec fn exact_three() -> Complex<Rational> {
    Complex { re: Rational::spec_from_int(3), im: Rational::spec_from_int(0) }
}

/// Escape-time law at (3, 0): it escapes at index 0 under the exact
/// rational oracle, with squared magnitude nine at the crossing.
pub proof fn lemma_three_escapes_at_zero(limit: nat)
    requires
        limit >= 1,
    ensures
        escape_spec(exact_three(), limit) matches Some(e) && e.count == 0
            && e.z_magnitude_squared.same_value(Rational::spec_from_int(9)),
{
    let c = exact_three();
    let r0 = Rational::spec_from_int(0);
    let r2 = Rational::spec_from_int(2);
    let r3 = Rational::spec_from_int(3);
    let r4 = Rational::spec_from_int(4);
    let r9 = Rational::spec_from_int(9);
    assert(r0.n() == 0 && r0.d() == 1);
    assert(r2.n() == 2 && r2.d() == 1);
    assert(r3.n() == 3 && r3.d() == 1);
    assert(r4.n() == 4 && r4.d() == 1);
    assert(r9.n() == 9 && r9.d() == 1);
    assert(Rational::spec_mul(r0, r0) == Rational::rat(0, 1));
    assert(Rational::spec_sub(Rational::rat(0, 1), Rational::rat(0, 1)) == Rational::rat(0, 1));
    assert(Rational::spec_mul(r2, Rational::rat(0, 1)) == Rational::rat(0, 1));
    let z0 = mandel_z(c, 0);
    assert(z0 == (Complex { re: r0, im: r0 }));
    let sq = z0.square_spec();
    assert(sq.re == Rational::rat(0, 1) && sq.im == Rational::rat(0, 1));
    let z1 = sq.add_spec(c);
    assert(z1.re == Rational::spec_add(Rational::rat(0, 1), r3));
    assert(z1.re == Rational::rat(3, 1) && z1.im == Rational::rat(0, 1));
    assert(mandel_z(c, 1) == z1);
    let m = z1.mag_sq_spec();
    assert(Rational::spec_mul(Rational::rat(3, 1), Rational::rat(3, 1)) == Rational::rat(9, 1));
    assert(m == Rational::spec_add(Rational::rat(9, 1), Rational::rat(0, 1)));
    assert(m == Rational::rat(9, 1));
    assert(!Rational::spec_lt(m, r4));
    assert(escapes_at(c, 0));
    assert(escape_from(c, 0, limit) == Some(escape_record(c, 0)));
    assert(escape_record(c, 0).z_magnitude_squared.same_value(r9));
}

} // verus!
