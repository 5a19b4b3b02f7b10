//! Coordinate generator: turns an exact-rational axis range into N
//! format-native values approximating an evenly spaced partition of the
//! axis. Built once per axis per request; not reused across requests.

use vstd::prelude::*;

use crate::number::FractalNumber;
use crate::rational::Rational;

verus! {

broadcast use {crate::rational::lemma_rat_components, crate::rational::lemma_spec_add_wf, crate::rational::lemma_spec_sub_wf, crate::rational::lemma_spec_mul_wf, crate::rational::lemma_spec_div_wf};

/// The exact step between adjacent coordinates: (end - start) / steps.
pub open spec fn step_spec(start: Rational, end: Rational, steps: int) -> Rational {
    Rational::spec_div(Rational::spec_sub(end, start), Rational::spec_from_int(steps))
}

/// The exact i-th coordinate: start advanced i times by the step.
pub open spec fn coord_spec(start: Rational, step: Rational, i: nat) -> Rational
    decreases i,
{
    if i == 0 {
        start
    } else {
        Rational::spec_add(coord_spec(start, step, (i - 1) as nat), step)
    }
}

/// The exact coordinates are all well-formed.
pub proof fn lemma_coord_wf(start: Rational, step: Rational, i: nat)
    requires
        start.wf(),
        step.wf(),
    ensures
        coord_spec(start, step, i).wf(),
    decreases i,
{
    if i > 0 {
        lemma_coord_wf(start, step, (i - 1) as nat);
    }
}

/// Build the format-native approximations of `steps` evenly spaced
/// coordinates starting at `start`. Fails exactly when some coordinate is
/// outside the format's representable range.
pub fn make_range<N: FractalNumber>(start: &Rational, end: &Rational, steps: usize) -> (res: Result<
    Vec<N>,
    String,
>)
    requires
        N::fmt_ok(),
        start.wf(),
        end.wf(),
        1 <= steps <= i64::MAX,
    ensures
        res is Ok ==> res->Ok_0.len() == steps,
        res is Ok ==> forall|i: int|
            0 <= i < steps ==> #[trigger] N::from_rational_spec(
                coord_spec(*start, step_spec(*start, *end, steps as int), i as nat),
            ) == Some(res->Ok_0[i]),
        res is Ok ==> forall|i: int| 0 <= i < steps ==> (#[trigger] res->Ok_0[i]).valid(),
        res is Err ==> exists|i: int|
            0 <= i < steps && (#[trigger] N::from_rational_spec(
                coord_spec(*start, step_spec(*start, *end, steps as int), i as nat),
            )) is None,
{
    let steps_rat = Rational::from_integer(steps as i64);
    let step = (end.sub(*start)).div(steps_rat);
    let ghost gstep = step_spec(*start, *end, steps as int);
    proof {
        assert(step == gstep);
    }
    let mut results: Vec<N> = Vec::new();
    let mut next: Rational = *start;
    let mut i: usize = 0;
    while i < steps
        invariant
            N::fmt_ok(),
            start.wf(),
            step.wf(),
            step == gstep,
            gstep == step_spec(*start, *end, steps as int),
            0 <= i <= steps,
            next == coord_spec(*start, gstep, i as nat),
            next.wf(),
            results.len() == i,
            forall|j: int|
                0 <= j < i ==> #[trigger] N::from_rational_spec(coord_spec(*start, gstep, j as nat))
                    == Some(results[j]),
            forall|j: int| 0 <= j < i ==> (#[trigger] results[j]).valid(),
        decreases steps - i,
    {
        match N::from_bigrational(&next) {
            Ok(converted) => {
                results.push(converted);
            },
            Err(e) => {
                proof {
                    let wi: int = i as int;
                    assert(0 <= wi < steps);
                    assert(N::from_rational_spec(
                        coord_spec(*start, step_spec(*start, *end, steps as int), wi as nat),
                    ) is None);
                }
                return Err(e);
            },
        }
        next = next.add(step);
        i = i + 1;
    }
    Ok(results)
}

} // verus!
