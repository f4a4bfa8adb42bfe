//! World difficulties.

use vstd::prelude::*;
use crate::decode::{DecodeCursor, DecodeError};
use crate::scalar::{decode_u8, encode_u8};

verus! {

/// A world difficulty.
#[derive(Clone, Copy, PartialEq, Eq, Structural, Hash, Debug)]
pub enum Difficulty {
    /// Peaceful
    Peaceful,
    /// Easy
    Easy,
    /// Normal
    Normal,
    /// Hard
    Hard,
}

/// The wire ordinal of a difficulty.
pub open spec fn difficulty_ordinal(d: Difficulty) -> u8 {
    match d {
        Difficulty::Peaceful => 0,
        Difficulty::Easy => 1,
        Difficulty::Normal => 2,
        Difficulty::Hard => 3,
    }
}

impl Default for Difficulty {
    /// The default difficulty is `Normal`.
    fn default() -> (r: Self)
        ensures
            r == Difficulty::Normal,
    {
        Difficulty::Normal
    }
}

impl Difficulty {
    /// The wire ordinal of this difficulty.
    pub fn ordinal(self) -> (r: u8)
        ensures
            r == difficulty_ordinal(self),
    {
        match self {
            Difficulty::Peaceful => 0,
            Difficulty::Easy => 1,
            Difficulty::Normal => 2,
            Difficulty::Hard => 3,
        }
    }

    /// The difficulty of a wire ordinal, for ordinals below 4.
    pub fn from_ordinal(b: u8) -> (r: Option<Self>)
        ensures
            b < 4 <==> r is Some,
            r matches Some(d) ==> difficulty_ordinal(d) == b,
    {
        match b {
            0 => Some(Difficulty::Peaceful),
            1 => Some(Difficulty::Easy),
            2 => Some(Difficulty::Normal),
            3 => Some(Difficulty::Hard),
            _ => None,
        }
    }

    /// Appends the one-byte wire form.
    pub fn encode(self, out: &mut Vec<u8>)
        ensures
            final(out)@ == old(out)@ + seq![difficulty_ordinal(self)],
    {
        encode_u8(self.ordinal(), out);
    }

    /// Reads the one-byte wire form.
    pub fn decode(cur: &mut DecodeCursor) -> (r: Result<Self, DecodeError>)
        requires
            old(cur).wf(),
        ensures
            final(cur).wf(),
            final(cur).all_bytes() == old(cur).all_bytes(),
            match r {
                Ok(d) => old(cur).rest().len() >= 1 && difficulty_ordinal(d) == old(
                    cur,
                ).rest()[0] && final(cur).rest() == old(cur).rest().skip(1),
                Err(e) => (e == DecodeError::Incomplete && old(cur).rest().len() == 0) || (
                e == DecodeError::BadOrdinal(old(cur).rest()[0] as u32) && old(
                    cur,
                ).rest().len() >= 1 && old(cur).rest()[0] >= 4),
            },
    {
        let b = decode_u8(cur)?;
        match Self::from_ordinal(b) {
            Some(d) => Ok(d),
            None => Err(DecodeError::BadOrdinal(b as u32)),
        }
    }
}

} // verus!
