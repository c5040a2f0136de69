//! The output stages a revision can be fitted with.

use vstd::prelude::*;

verus! {

/// Which output stage a revision fits.
#[derive(Clone, Copy, PartialEq, Eq, Structural, Debug)]
pub enum OutputStage {
    /// The 1108 style Class A stage of the early units.
    ClassA,
    /// The push-pull Class AB stage of the later ones.
    ClassAb,
}

} // verus!
