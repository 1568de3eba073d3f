//! Generic modifiers: combinators that wrap one or more source noise
//! modules without adding new sampling primitives.
//!
//! Each one is itself a noise module, so modifiers nest freely over any
//! source and any point dimensionality.

use vstd::prelude::*;
use crate::fixed::{abs_int, fx_abs, fx_add, fx_add_spec, sat64};
use crate::NoiseModule;

verus! {

/// Noise module that outputs the absolute value of the output value from
/// the source module.
pub struct Abs<Source> {
    /// Outputs a value.
    pub source: Source,
}

impl<Source> Abs<Source> {
    /// Wraps a source module.
    pub fn new(source: Source) -> (r: Abs<Source>)
        ensures
            r.source == source,
    {
        Abs { source }
    }
}

impl<Source: NoiseModule<P>, P> NoiseModule<P> for Abs<Source> {
    open spec fn wf(&self) -> bool {
        self.source.wf()
    }

    open spec fn spec_get(&self, point: P) -> int {
        sat64(abs_int(self.source.spec_get(point)))
    }

    fn get(&self, point: P) -> (r: i64) {
        fx_abs(self.source.get(point))
    }
}

/// Noise module that outputs the sum of the output values of its two
/// source modules, which see the same point.
pub struct Sum<A, B> {
    /// Outputs the first addend.
    pub source_a: A,
    /// Outputs the second addend.
    pub source_b: B,
}

impl<A, B> Sum<A, B> {
    /// Wraps two source modules.
    pub fn new(source_a: A, source_b: B) -> (r: Sum<A, B>)
        ensures
            r.source_a == source_a,
            r.source_b == source_b,
    {
        Sum { source_a, source_b }
    }
}

impl<A: NoiseModule<P>, B: NoiseModule<P>, P: Copy> NoiseModule<P> for Sum<A, B> {
    open spec fn wf(&self) -> bool {
        self.source_a.wf() && self.source_b.wf()
    }

    open spec fn spec_get(&self, point: P) -> int {
        fx_add_spec(self.source_a.spec_get(point), self.source_b.spec_get(point))
    }

    fn get(&self, point: P) -> (r: i64) {
        let a: i64 = self.source_a.get(point);
        let b: i64 = self.source_b.get(point);
        fx_add(a, b)
    }
}

} // verus!
