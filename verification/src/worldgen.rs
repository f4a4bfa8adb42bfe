//! World generation biome registry data.

use vstd::prelude::*;
use crate::ident::Ident;

verus! {

/// How temperature varies throughout a biome.
#[derive(Clone, Copy, PartialEq, Eq, Structural, Hash, Debug)]
pub enum WorldgenBiomeTemperatureModifier {
    /// Static temperature throughout the biome.
    Steady,
    /// Pockets of warm temperature randomly distributed through the biome.
    Frozen,
}

impl Default for WorldgenBiomeTemperatureModifier {
    /// The default temperature is steady.
    fn default() -> (r: Self)
        ensures
            r == WorldgenBiomeTemperatureModifier::Steady,
    {
        WorldgenBiomeTemperatureModifier::Steady
    }
}

/// How the grass colour is modified throughout a biome.
#[derive(Clone, Copy, PartialEq, Eq, Structural, Hash, Debug)]
pub enum WorldgenBiomeGrassColourModifier {
    /// Static grass colour throughout the biome.
    Plain,
    /// Darker, less saturated shade.
    DarkForest,
    /// Swamp colours randomly distributed through the biome.
    Swamp,
}

impl Default for WorldgenBiomeGrassColourModifier {
    /// The default grass colour is unmodified.
    fn default() -> (r: Self)
        ensures
            r == WorldgenBiomeGrassColourModifier::Plain,
    {
        WorldgenBiomeGrassColourModifier::Plain
    }
}

/// A music track that may play in a biome.
#[derive(Clone, Debug)]
pub struct WorldgenBiomeMusic {
    /// Resource ID of the sound asset to play.
    pub sound: Ident,
    /// Minimum delay between plays.
    pub min_delay: u32,
    /// Maximum delay between plays.
    pub max_delay: u32,
    /// Whether this track can replace the previous track.
    pub replace_current: bool,
}

} // verus!
