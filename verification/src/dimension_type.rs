//! Dimension type registry data.

use vstd::prelude::*;

verus! {

/// The client-side visual effects of a dimension.
#[derive(Clone, Copy, PartialEq, Eq, Structural, Hash, Debug)]
pub enum DimensionTypeEffects {
    /// Normal sky, normal light map, normal ambient light.
    Overworld,
    /// Nether sky, normal light map, constant ambient light.
    Nether,
    /// End sky, forced light map, normal ambient light.
    End,
}

impl DimensionTypeEffects {
    /// The data name of these effects.
    pub fn data_name(&self) -> (r: &'static str)
        ensures
            (self is Overworld ==> r@ == "minecraft:overworld"@) && (self is Nether ==> r@
                == "minecraft:the_nether"@) && (self is End ==> r@
                == "minecraft:the_end"@),
    {
        match self {
            DimensionTypeEffects::Overworld => "minecraft:overworld",
            DimensionTypeEffects::Nether => "minecraft:the_nether",
            DimensionTypeEffects::End => "minecraft:the_end",
        }
    }
}

} // verus!
