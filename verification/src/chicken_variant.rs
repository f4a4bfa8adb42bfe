//! Chicken variant models.

use vstd::prelude::*;

verus! {

/// The model a chicken variant displays as.
#[derive(Clone, Copy, PartialEq, Eq, Structural, Hash, Debug)]
pub enum ChickenVariantModel {
    /// Cold.
    Cold,
}

impl ChickenVariantModel {
    /// The data name of this model.
    pub fn data_name(&self) -> (r: &'static str)
        ensures
            r@ == "cold"@,
    {
        "cold"
    }
}

} // verus!
