//! Particles.

use vstd::prelude::*;

verus! {

/// An ambient particle.
#[derive(Clone, Copy, PartialEq, Eq, Structural, Hash, Debug)]
pub enum Particle {
    /// `minecraft:ash`
    Ash,
    /// `minecraft:crimson_spore`
    CrimsonSpore,
    /// `minecraft:warped_spore`
    WarpedSpore,
    /// `minecraft:white_ash`
    WhiteAsh,
}

impl Particle {
    /// The data name of this particle.
    pub fn data_name(&self) -> (r: &'static str)
        ensures
            (self is Ash ==> r@ == "minecraft:ash"@) && (self is CrimsonSpore ==> r@
                == "minecraft:crimson_spore"@) && (self is WarpedSpore ==> r@
                == "minecraft:warped_spore"@) && (self is WhiteAsh ==> r@
                == "minecraft:white_ash"@),
    {
        match self {
            Particle::Ash => "minecraft:ash",
            Particle::CrimsonSpore => "minecraft:crimson_spore",
            Particle::WarpedSpore => "minecraft:warped_spore",
            Particle::WhiteAsh => "minecraft:white_ash",
        }
    }
}

} // verus!
