//! Library code for Fractal Farlands: numeric formats, fractal evaluators,
//! and the job-dispatch machinery behind the render service.

pub mod coords;
pub mod fixedpoint;
pub mod mandelbrot;
pub mod masked;
pub mod newton;
pub mod number;
pub mod numeric;
pub mod oneshot;
pub mod posit;
pub mod rational;
pub mod service;

use vstd::prelude::*;

verus! {

/// Represents a cancellation token: something that can be used to check
/// whether computation should be canceled.
///
/// Cancellation is expected to be monotone: once a context reports
/// cancellation it should keep reporting it. The evaluators poll before
/// each row and once more at the end; a context that oscillates can make a
/// call return a grid with skipped rows instead of a cancellation error,
/// exactly as polling a racy flag would.
pub trait CancelContext {
    /// May this context ever report cancellation? Contexts that never cancel
    /// override this so callers can rely on completion.
    open spec fn spec_may_cancel(&self) -> bool {
        true
    }

    fn is_canceled(&self) -> (r: bool)
        ensures
            !self.spec_may_cancel() ==> r == false,
    ;
}

/// A CancelContext which is never canceled.
pub struct NeverCancel();

impl CancelContext for NeverCancel {
    open spec fn spec_may_cancel(&self) -> bool {
        false
    }

    fn is_canceled(&self) -> (r: bool) {
        false
    }
}

/// A pair of integer (x, y) dimensions.
#[derive(Copy, Clone, Debug, PartialEq, Eq, Structural)]
pub struct Size {
    pub width: usize,
    pub height: usize,
}

/// Fractal-specific rendering parameters.
#[derive(Debug, Clone)]
pub enum FractalParams {
    Mandelbrot { iters: usize },
    Newton { iters: usize },
}

impl FractalParams {
    pub fn name(&self) -> (r: &'static str)
        ensures
            (*self matches FractalParams::Mandelbrot { .. }) ==> r@ == "mandelbrot"@,
            (*self matches FractalParams::Newton { .. }) ==> r@ == "newton"@,
    {
        match self {
            FractalParams::Mandelbrot { .. } => "mandelbrot",
            FractalParams::Newton { .. } => "newton",
        }
    }
}

/// Zero term: which zero was reached, and how many iterations it took.
#[derive(Copy, Clone, Debug, PartialEq, Eq, Structural)]
pub struct Zero {
    pub count: usize,
    pub zero: usize,
}

/// Shorthand for "the zeros for this region".
pub type ZeroVector = Vec<Option<Zero>>;

/// One axis of the render window, as exact rational bounds.
#[derive(Copy, Clone, Debug)]
pub struct AxisRange {
    pub start: rational::Rational,
    pub end: rational::Rational,
}

impl AxisRange {
    /// Bounds are well-formed rationals and the end exceeds the start.
    pub open spec fn wf(self) -> bool {
        &&& self.start.wf()
        &&& self.end.wf()
        &&& rational::Rational::spec_lt(self.start, self.end)
    }
}

/// Rendering-request parameters, common across renderables.
#[derive(Clone, Debug)]
pub struct CommonParams {
    /// Rendered size, in pixels.
    pub size: Size,
    /// X bounds, in rational coordinates.
    pub x: AxisRange,
    /// Y bounds, in rational coordinates.
    pub y: AxisRange,
    /// Numeric format to use for the computations.
    /// This is assumed to be "mappable" by the rendering engine.
    pub numeric: String,
}

impl CommonParams {
    /// Validity of a request's region: positive dimensions that a grid of
    /// this machine can hold, and ordered, well-formed axis bounds.
    pub open spec fn wf(self) -> bool {
        &&& 1 <= self.size.width <= i64::MAX
        &&& 1 <= self.size.height <= i64::MAX
        &&& self.size.width * self.size.height <= usize::MAX
        &&& self.x.wf()
        &&& self.y.wf()
    }
}

/// Request for rendering a fractal.
#[derive(Clone, Debug)]
pub struct RenderRequest {
    pub common: CommonParams,
    pub fractal: FractalParams,
}

/// Escape term: on what iteration the escape occurred, and with what value
/// (the squared magnitude at the crossing, in the format's own arithmetic).
#[derive(Copy, Clone, Debug)]
pub struct Escape<N> {
    pub count: usize,
    pub z_magnitude_squared: N,
}

/// Shorthand for "the escapes for this region".
pub type EscapeVector<N> = Vec<Option<Escape<N>>>;

} // verus!
