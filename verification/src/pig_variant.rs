//! Pig variant models.

use vstd::prelude::*;

verus! {

/// The model a pig variant displays as.
#[derive(Clone, Copy, PartialEq, Eq, Structural, Hash, Debug)]
pub enum PigVariantModel {
    /// Cold.
    Cold,
}

impl PigVariantModel {
    /// The data name of this model.
    pub fn data_name(&self) -> (r: &'static str)
        ensures
            r@ == "cold"@,
    {
        "cold"
    }
}

} // verus!
