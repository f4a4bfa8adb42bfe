//! Player game modes.

use vstd::prelude::*;
use crate::decode::{DecodeCursor, DecodeError};
use crate::scalar::{decode_u8, encode_u8};

verus! {

/// A player game mode.
#[derive(Clone, Copy, PartialEq, Eq, Structural, Hash, Debug)]
pub enum GameMode {
    /// Survival
    Survival,
    /// Creative
    Creative,
    /// Adventure
    Adventure,
    /// Spectator
    Spectator,
}

/// The wire ordinal of a game mode.
pub open spec fn game_mode_ordinal(m: GameMode) -> u8 {
    match m {
        GameMode::Survival => 0,
        GameMode::Creative => 1,
        GameMode::Adventure => 2,
        GameMode::Spectator => 3,
    }
}

impl Default for GameMode {
    /// The default game mode is `Adventure`.
    fn default() -> (r: Self)
        ensures
            r == GameMode::Adventure,
    {
        GameMode::Adventure
    }
}

impl GameMode {
    /// The wire ordinal of this game mode.
    pub fn ordinal(self) -> (r: u8)
        ensures
            r == game_mode_ordinal(self),
    {
        match self {
            GameMode::Survival => 0,
            GameMode::Creative => 1,
            GameMode::Adventure => 2,
            GameMode::Spectator => 3,
        }
    }

    /// The game mode of a wire ordinal, for ordinals below 4.
    pub fn from_ordinal(b: u8) -> (r: Option<Self>)
        ensures
            b < 4 <==> r is Some,
            r matches Some(m) ==> game_mode_ordinal(m) == b,
    {
        match b {
            0 => Some(GameMode::Survival),
            1 => Some(GameMode::Creative),
            2 => Some(GameMode::Adventure),
            3 => Some(GameMode::Spectator),
            _ => None,
        }
    }

    /// Appends the one-byte wire form.
    pub fn encode(self, out: &mut Vec<u8>)
        ensures
            final(out)@ == old(out)@ + seq![game_mode_ordinal(self)],
    {
        encode_u8(self.ordinal(), out);
    }

    /// Reads the one-byte wire form.
    pub fn decode(cur: &mut DecodeCursor) -> (r: Result<Self, DecodeError>)
        requires
            old(cur).wf(),
        ensures
            final(cur).wf(),
            final(cur).all_bytes() == old(cur).all_bytes(),
            match r {
                Ok(m) => old(cur).rest().len() >= 1 && game_mode_ordinal(m) == old(
                    cur,
                ).rest()[0] && final(cur).rest() == old(cur).rest().skip(1),
                Err(e) => (e == DecodeError::Incomplete && old(cur).rest().len() == 0) || (
                e == DecodeError::BadOrdinal(old(cur).rest()[0] as u32) && old(
                    cur,
                ).rest().len() >= 1 && old(cur).rest()[0] >= 4),
            },
    {
        let b = decode_u8(cur)?;
        match Self::from_ordinal(b) {
            Some(m) => Ok(m),
            None => Err(DecodeError::BadOrdinal(b as u32)),
        }
    }
}

/// A player game mode, or its absence, as carried by respawn packets.
#[derive(Clone, Copy, PartialEq, Eq, Structural, Hash, Debug)]
pub enum PreviousGameMode {
    /// No previous game mode.
    Unset,
    /// Survival
    Survival,
    /// Creative
    Creative,
    /// Adventure
    Adventure,
    /// Spectator
    Spectator,
}

/// The wire byte of a previous game mode: two's-complement `-1` for none.
pub open spec fn previous_game_mode_byte(m: PreviousGameMode) -> u8 {
    match m {
        PreviousGameMode::Unset => 0xFF,
        PreviousGameMode::Survival => 0,
        PreviousGameMode::Creative => 1,
        PreviousGameMode::Adventure => 2,
        PreviousGameMode::Spectator => 3,
    }
}

impl Default for PreviousGameMode {
    /// The default previous game mode is `Adventure`.
    fn default() -> (r: Self)
        ensures
            r == PreviousGameMode::Adventure,
    {
        PreviousGameMode::Adventure
    }
}

impl PreviousGameMode {
    /// The wire byte of this previous game mode.
    pub fn as_byte(self) -> (r: u8)
        ensures
            r == previous_game_mode_byte(self),
    {
        match self {
            PreviousGameMode::Unset => 0xFF,
            PreviousGameMode::Survival => 0,
            PreviousGameMode::Creative => 1,
            PreviousGameMode::Adventure => 2,
            PreviousGameMode::Spectator => 3,
        }
    }

    /// The previous game mode of a wire byte.
    pub fn from_byte(b: u8) -> (r: Option<Self>)
        ensures
            (b < 4 || b == 0xFF) <==> r is Some,
            r matches Some(m) ==> previous_game_mode_byte(m) == b,
    {
        match b {
            0xFF => Some(PreviousGameMode::Unset),
            0 => Some(PreviousGameMode::Survival),
            1 => Some(PreviousGameMode::Creative),
            2 => Some(PreviousGameMode::Adventure),
            3 => Some(PreviousGameMode::Spectator),
            _ => None,
        }
    }

    /// Appends the one-byte wire form.
    pub fn encode(self, out: &mut Vec<u8>)
        ensures
            final(out)@ == old(out)@ + seq![previous_game_mode_byte(self)],
    {
        encode_u8(self.as_byte(), out);
    }

    /// Reads the one-byte wire form.
    pub fn decode(cur: &mut DecodeCursor) -> (r: Result<Self, DecodeError>)
        requires
            old(cur).wf(),
        ensures
            final(cur).wf(),
            final(cur).all_bytes() == old(cur).all_bytes(),
            match r {
                Ok(m) => old(cur).rest().len() >= 1 && previous_game_mode_byte(m) == old(
                    cur,
                ).rest()[0] && final(cur).rest() == old(cur).rest().skip(1),
                Err(e) => (e == DecodeError::Incomplete && old(cur).rest().len() == 0) || (
                e == DecodeError::BadOrdinal(old(cur).rest()[0] as u32) && old(
                    cur,
                ).rest().len() >= 1 && old(cur).rest()[0] >= 4 && old(cur).rest()[0]
                    != 0xFF),
            },
    {
        let b = decode_u8(cur)?;
        match Self::from_byte(b) {
            Some(m) => Ok(m),
            None => Err(DecodeError::BadOrdinal(b as u32)),
        }
    }
}

} // verus!
