//! Player operator permission levels.

use vstd::prelude::*;

verus! {

/// A player's operator permission level.
#[derive(Clone, Copy, PartialEq, Eq, Structural, Hash, Debug)]
pub enum OperatorLevel {
    /// No permissions.
    All,
    /// Bypass spawn protection.
    Moderator,
    /// Use most singleplayer commands.
    Gamemaster,
    /// Use player management commands.
    Admin,
    /// Use server lifecycle commands.
    Owner,
}

/// The numeric rank of an operator level.
pub open spec fn operator_level_rank(l: OperatorLevel) -> u8 {
    match l {
        OperatorLevel::All => 0,
        OperatorLevel::Moderator => 1,
        OperatorLevel::Gamemaster => 2,
        OperatorLevel::Admin => 3,
        OperatorLevel::Owner => 4,
    }
}

impl Default for OperatorLevel {
    /// The default operator level grants no permissions.
    fn default() -> (r: Self)
        ensures
            r == OperatorLevel::All,
    {
        OperatorLevel::All
    }
}

impl OperatorLevel {
    /// The numeric rank of this level.
    pub fn rank(self) -> (r: u8)
        ensures
            r == operator_level_rank(self),
    {
        match self {
            OperatorLevel::All => 0,
            OperatorLevel::Moderator => 1,
            OperatorLevel::Gamemaster => 2,
            OperatorLevel::Admin => 3,
            OperatorLevel::Owner => 4,
        }
    }

    /// The level of a numeric rank, for ranks below 5.
    pub fn from_rank(b: u8) -> (r: Option<Self>)
        ensures
            b < 5 <==> r is Some,
            r matches Some(l) ==> operator_level_rank(l) == b,
    {
        match b {
            0 => Some(OperatorLevel::All),
            1 => Some(OperatorLevel::Moderator),
            2 => Some(OperatorLevel::Gamemaster),
            3 => Some(OperatorLevel::Admin),
            4 => Some(OperatorLevel::Owner),
            _ => None,
        }
    }
}

} // verus!
