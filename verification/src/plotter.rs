//! The plot-rendering capability: a collaborator the evaluator hands the
//! sampled coordinate list to. The core ignores whatever it returns.
use vstd::prelude::*;

use crate::num::Num;
use crate::value::Value;

verus! {

/// A renderer for sampled coordinate pairs; implemented by hosts, not by the
/// core. The points arrive in ascending order of their abscissa.
pub trait Plotter {
    fn plot(&self, points: &Vec<(Num, Num)>) -> Value;
}

/// The renderer of a session without one: it draws nothing.
pub struct NoPlotter;

impl Plotter for NoPlotter {
    fn plot(&self, _points: &Vec<(Num, Num)>) -> Value {
        Value::Number(Num::zero())
    }
}

} // verus!
