//! Cow variant models.

use vstd::prelude::*;

verus! {

/// The model a cow variant displays as.
#[derive(Clone, Copy, PartialEq, Eq, Structural, Hash, Debug)]
pub enum CowVariantModel {
    /// Cold.
    Cold,
    /// Warm.
    Warm,
}

impl CowVariantModel {
    /// The data name of this model.
    pub fn data_name(&self) -> (r: &'static str)
        ensures
            (self is Cold ==> r@ == "cold"@) && (self is Warm ==> r@ == "warm"@),
    {
        match self {
            CowVariantModel::Cold => "cold",
            CowVariantModel::Warm => "warm",
        }
    }
}

} // verus!
