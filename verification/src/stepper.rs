//! The configuration of the two integrators, and the verdict of the adaptive
//! one on a trial step.
//!
//! Step sizes, tolerances and error estimates are order keys.

use crate::key::clip;
use crate::key::spec_clip;
use crate::key::FOUR;
use crate::key::HUNDREDTH;
use crate::key::MILLIONTH;
use crate::key::ONE;
use crate::key::QUARTER;
use crate::key::TEN_THOUSANDTH;
use crate::key::THOUSANDTH;
use vstd::prelude::*;

verus! {

/// What an integrator is run with.
#[derive(Clone, Copy, Debug)]
pub enum StepOptions {
    /// The defaults of whichever integrator is chosen.
    Default,
    Rk4 { h: i64 },
    Dopri45 { h0: i64, abstol: i64, reltol: i64, hmin: i64, hmax: i64 },
}

/// The choice of integrator, with its options.
#[derive(Clone, Copy, Debug)]
pub enum Stepper {
    Rk4(StepOptions),
    Dopri45(StepOptions),
}

/// The settings an integrator starts with.
#[derive(Clone, Copy, Debug)]
pub enum StepSettings {
    /// Fixed steps of size `h`.
    Rk4 { h: i64 },
    /// Adaptive steps that start at `h` and stay within `[hmin, hmax]`.
    Dopri45 { h: i64, abstol: i64, reltol: i64, hmin: i64, hmax: i64 },
}

/// Why an integrator cannot be set up.
#[derive(Clone, Copy, Debug, PartialEq, Eq)]
pub enum StepError {
    /// The options are those of the other integrator.
    InvalidOptions,
}

impl Stepper {
    /// What `new` returns.
    pub open spec fn spec_new(self) -> Result<StepSettings, StepError> {
        match self {
            Stepper::Rk4(StepOptions::Default) => Ok(StepSettings::Rk4 { h: THOUSANDTH }),
            Stepper::Rk4(StepOptions::Rk4 { h }) => Ok(StepSettings::Rk4 { h }),
            Stepper::Rk4(StepOptions::Dopri45 { .. }) => Err(StepError::InvalidOptions),
            Stepper::Dopri45(StepOptions::Default) => Ok(
                StepSettings::Dopri45 {
                    h: TEN_THOUSANDTH,
                    abstol: MILLIONTH,
                    reltol: MILLIONTH,
                    hmin: MILLIONTH,
                    hmax: HUNDREDTH,
                },
            ),
            Stepper::Dopri45(StepOptions::Dopri45 { h0, abstol, reltol, hmin, hmax }) => Ok(
                StepSettings::Dopri45 { h: h0, abstol, reltol, hmin, hmax },
            ),
            Stepper::Dopri45(StepOptions::Rk4 { .. }) => Err(StepError::InvalidOptions),
        }
    }

    /// The settings of the chosen integrator. By default the fixed step is
    /// `0.001`; the adaptive integrator starts at `0.0001` with both
    /// tolerances at `0.000001` and steps within `[0.000001, 0.01]`.
    ///
    /// Fails exactly when the options are those of the other integrator.
    pub fn new(&self) -> (r: Result<StepSettings, StepError>)
        ensures
            r == self.spec_new(),
    {
        match self {
            Stepper::Rk4(options) => match options {
                StepOptions::Default => Ok(StepSettings::Rk4 { h: THOUSANDTH }),
                StepOptions::Rk4 { h } => Ok(StepSettings::Rk4 { h: *h }),
                StepOptions::Dopri45 { .. } => Err(StepError::InvalidOptions),
            },
            Stepper::Dopri45(options) => match options {
                StepOptions::Default => Ok(
                    StepSettings::Dopri45 {
                        h: TEN_THOUSANDTH,
                        abstol: MILLIONTH,
                        reltol: MILLIONTH,
                        hmin: MILLIONTH,
                        hmax: HUNDREDTH,
                    },
                ),
                StepOptions::Dopri45 { h0, abstol, reltol, hmin, hmax } => Ok(
                    StepSettings::Dopri45 { h: *h0, abstol: *abstol, reltol: *reltol, hmin: *hmin, hmax: *hmax },
                ),
                StepOptions::Rk4 { .. } => Err(StepError::InvalidOptions),
            },
        }
    }
}

/// What becomes of a trial step of the adaptive integrator.
#[derive(Clone, Copy, Debug, PartialEq, Eq, Structural)]
pub enum StepVerdict {
    /// The error estimate is within tolerance: the step is taken.
    Accept,
    /// The error estimate is too large, but the step cannot shrink further:
    /// the step is taken all the same, so that the run goes on.
    Force,
    /// The error estimate is too large: the step is tried again, smaller.
    Retry,
}

/// The verdict on a trial step of size `h` whose normalised error estimate is
/// `err`.
pub open spec fn spec_judge_step(err: i64, h: i64, hmin: i64) -> StepVerdict {
    if err <= ONE {
        StepVerdict::Accept
    } else if h <= hmin {
        StepVerdict::Force
    } else {
        StepVerdict::Retry
    }
}

/// Judges a trial step of size `h` whose normalised error estimate is `err`.
///
/// A step is taken only if its error estimate is at most one, or if its size
/// has come down to the smallest allowed.
pub fn judge_step(err: i64, h: i64, hmin: i64) -> (r: StepVerdict)
    ensures
        r == spec_judge_step(err, h, hmin),
        r != StepVerdict::Retry ==> err <= ONE || h <= hmin,
        r == StepVerdict::Accept <==> err <= ONE,
{
    if err <= ONE {
        StepVerdict::Accept
    } else if h <= hmin {
        StepVerdict::Force
    } else {
        StepVerdict::Retry
    }
}

/// The size of the next trial step: `scaled`, which is the present size times
/// the controller's growth factor, brought into `[hmin, hmax]`.
pub fn next_step_size(scaled: i64, hmin: i64, hmax: i64) -> (r: i64)
    ensures
        r == (if scaled < hmin { hmin } else if hmax < scaled { hmax } else { scaled }),
        hmin <= hmax ==> hmin <= r <= hmax,
{
    if scaled < hmin {
        hmin
    } else if hmax < scaled {
        hmax
    } else {
        scaled
    }
}

/// The controller's growth factor: `raw`, which is nine tenths of the inverse
/// fifth root of the error estimate, kept between a quarter and four.
pub fn growth_factor(raw: i64) -> (r: i64)
    ensures
        r == spec_clip(raw, QUARTER, FOUR),
        QUARTER <= r <= FOUR,
{
    clip(raw, QUARTER, FOUR)
}

} // verus!
