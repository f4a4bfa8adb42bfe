//! Player hands.

use vstd::prelude::*;
use crate::decode::{DecodeCursor, DecodeError};
use crate::varint::{varint_bytes, varint_end, varint_value, decode_varint_u32,
    encode_varint_u32};

verus! {

/// A player hand.
#[derive(Clone, Copy, PartialEq, Eq, Structural, Hash, Debug)]
pub enum Hand {
    /// Main hand
    Main,
    /// Off hand
    Off,
}

/// The wire ordinal of a hand.
pub open spec fn hand_ordinal(h: Hand) -> u32 {
    match h {
        Hand::Main => 0,
        Hand::Off => 1,
    }
}

impl Default for Hand {
    /// The default hand is `Main`.
    fn default() -> (r: Self)
        ensures
            r == Hand::Main,
    {
        Hand::Main
    }
}

impl Hand {
    /// The wire ordinal of this hand.
    pub fn ordinal(self) -> (r: u32)
        ensures
            r == hand_ordinal(self),
    {
        match self {
            Hand::Main => 0,
            Hand::Off => 1,
        }
    }

    /// The hand of a wire ordinal, for ordinals below 2.
    pub fn from_ordinal(v: u32) -> (r: Option<Self>)
        ensures
            v < 2 <==> r is Some,
            r matches Some(h) ==> hand_ordinal(h) == v,
    {
        match v {
            0 => Some(Hand::Main),
            1 => Some(Hand::Off),
            _ => None,
        }
    }

    /// Appends the variable-width ordinal wire form.
    pub fn encode(self, out: &mut Vec<u8>)
        ensures
            final(out)@ == old(out)@ + varint_bytes(hand_ordinal(self) as nat),
    {
        encode_varint_u32(self.ordinal(), out);
    }

    /// Reads the variable-width ordinal wire form.
    pub fn decode(cur: &mut DecodeCursor) -> (r: Result<Self, DecodeError>)
        requires
            old(cur).wf(),
        ensures
            final(cur).wf(),
            final(cur).all_bytes() == old(cur).all_bytes(),
            ({
                let rem = old(cur).rest();
                let t = varint_end(rem);
                let n = varint_value(rem, t + 1) % 0x100000000;
                match r {
                    Ok(h) => t < 5 && t < rem.len() && hand_ordinal(h) == n
                        && final(cur).rest() == rem.skip(t + 1),
                    Err(e) => match e {
                        DecodeError::Incomplete => t == rem.len() && rem.len() < 5,
                        DecodeError::VarIntTooLong => t >= 5 && rem.len() >= 5,
                        DecodeError::BadOrdinal(b) => t < 5 && t < rem.len() && b == n
                            && n >= 2,
                        _ => false,
                    },
                }
            }),
    {
        let v = decode_varint_u32(cur)?;
        match Self::from_ordinal(v) {
            Some(h) => Ok(h),
            None => Err(DecodeError::BadOrdinal(v)),
        }
    }
}

} // verus!
