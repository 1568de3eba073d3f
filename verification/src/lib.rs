//! Deterministic, continuous pseudo-random scalar fields ("noise") over
//! 2-, 3- and 4-dimensional coordinate spaces, with a composition framework
//! for building complex fields out of simple ones.
//!
//! Scalars and coordinates are fixed-point numbers: an `i64` holding the
//! value scaled by 2^16, so `65536` stands for `1.0`.  All arithmetic on
//! them is exact or saturates at the `i64` range; see `fixed`.

use vstd::prelude::*;

pub mod fixed;
pub mod fractals;
pub mod gradient;
pub mod modifiers;
pub mod perlin;
pub mod permtable;
pub mod ridgedmulti;
pub mod turbulence;

pub use crate::modifiers::Abs;
pub use crate::modifiers::Sum;
pub use crate::perlin::Perlin;
pub use crate::permtable::PermutationTable;
pub use crate::ridgedmulti::RidgedMulti;
pub use crate::turbulence::Turbulence;

verus! {

/// The uniform interface every noise component implements: evaluate at a
/// point of dimension 2, 3 or 4 (an array of fixed-point coordinates) and
/// produce a fixed-point scalar.  Combinators hold their sources by value,
/// so arbitrarily nested pipelines are themselves noise modules.
pub trait NoiseModule<P> {
    /// Well-formedness of the module's configuration; evaluation is
    /// specified only for well-formed modules.
    spec fn wf(&self) -> bool;

    /// The value the module computes at `point`.
    spec fn spec_get(&self, point: P) -> int;

    /// Evaluate the module at `point`.  The result is a function of the
    /// configuration and the point alone, so repeated calls agree.
    fn get(&self, point: P) -> (r: i64)
        requires
            self.wf(),
        ensures
            r as int == self.spec_get(point),
    ;
}

} // verus!
