//! Damage type registry data.

use vstd::prelude::*;

verus! {

/// When damage is scaled based on difficulty.
#[derive(Clone, Copy, PartialEq, Eq, Structural, Hash, Debug)]
pub enum DamageTypeScaling {
    /// Damage amount is never scaled based on difficulty.
    Never,
    /// Scaled when a living, non-player character is the attacker.
    WhenByEnemy,
    /// Damage amount is always scaled based on difficulty.
    Always,
}

impl DamageTypeScaling {
    /// The data name of this scaling rule.
    pub fn data_name(&self) -> (r: &'static str)
        ensures
            (self is Never ==> r@ == "never"@) && (self is WhenByEnemy ==> r@
                == "when_caused_by_living_non_player"@) && (self is Always ==> r@
                == "always"@),
    {
        match self {
            DamageTypeScaling::Never => "never",
            DamageTypeScaling::WhenByEnemy => "when_caused_by_living_non_player",
            DamageTypeScaling::Always => "always",
        }
    }
}

/// Sound effect played when damage of this type is applied.
#[derive(Clone, Copy, PartialEq, Eq, Structural, Hash, Debug)]
pub enum DamageTypeEffects {
    /// Default hurt sound.
    Hurt,
    /// Thorns sound.
    Thorns,
    /// Drowning sound.
    Drowning,
    /// Burning sound.
    Burning,
    /// Poking sound.
    Poking,
    /// Freezing sound.
    Freezing,
}

impl Default for DamageTypeEffects {
    /// The default effect is the plain hurt sound.
    fn default() -> (r: Self)
        ensures
            r == DamageTypeEffects::Hurt,
    {
        DamageTypeEffects::Hurt
    }
}

impl DamageTypeEffects {
    /// The data name of this effect.
    pub fn data_name(&self) -> (r: &'static str)
        ensures
            (self is Hurt ==> r@ == "hurt"@) && (self is Thorns ==> r@ == "thorns"@) && (
            self is Drowning ==> r@ == "drowning"@) && (self is Burning ==> r@
                == "burning"@) && (self is Poking ==> r@ == "poking"@) && (self
                is Freezing ==> r@ == "freezing"@),
    {
        match self {
            DamageTypeEffects::Hurt => "hurt",
            DamageTypeEffects::Thorns => "thorns",
            DamageTypeEffects::Drowning => "drowning",
            DamageTypeEffects::Burning => "burning",
            DamageTypeEffects::Poking => "poking",
            DamageTypeEffects::Freezing => "freezing",
        }
    }
}

/// Special formatting when constructing a death message.
#[derive(Clone, Copy, PartialEq, Eq, Structural, Hash, Debug)]
pub enum DamageTypeDeathMessage {
    /// No special effects.
    Plain,
    /// Fall variants.
    FallVariants,
    /// Intentional game design.
    IntentionalGameDesign,
}

impl Default for DamageTypeDeathMessage {
    /// The default death message has no special effects.
    fn default() -> (r: Self)
        ensures
            r == DamageTypeDeathMessage::Plain,
    {
        DamageTypeDeathMessage::Plain
    }
}

impl DamageTypeDeathMessage {
    /// The data name of this death message kind.
    pub fn data_name(&self) -> (r: &'static str)
        ensures
            (self is Plain ==> r@ == "default"@) && (self is FallVariants ==> r@
                == "fall_variants"@) && (self is IntentionalGameDesign ==> r@
                == "intentional_game_design"@),
    {
        match self {
            DamageTypeDeathMessage::Plain => "default",
            DamageTypeDeathMessage::FallVariants => "fall_variants",
            DamageTypeDeathMessage::IntentionalGameDesign => "intentional_game_design",
        }
    }
}

} // verus!
