//! Character data.

use vstd::prelude::*;
use crate::decode::{DecodeCursor, DecodeError};
use crate::scalar::{decode_u8, encode_u8};
use crate::varint::{varint_bytes, varint_end, varint_value, decode_varint_u32,
    encode_varint_u32};

verus! {

/// A character's networked ID, used to track and update it later.
#[derive(Clone, Copy, PartialEq, Eq, Structural, Hash, Debug)]
pub struct CharacterId(pub u32);

impl CharacterId {
    /// Appends the variable-width wire form.
    pub fn encode(self, out: &mut Vec<u8>)
        ensures
            final(out)@ == old(out)@ + varint_bytes(self.0 as nat),
    {
        encode_varint_u32(self.0, out);
    }

    /// Reads the variable-width wire form.
    pub fn decode(cur: &mut DecodeCursor) -> (r: Result<Self, DecodeError>)
        requires
            old(cur).wf(),
        ensures
            final(cur).wf(),
            final(cur).all_bytes() == old(cur).all_bytes(),
            ({
                let rem = old(cur).rest();
                let t = varint_end(rem);
                match r {
                    Ok(id) => t < 5 && t < rem.len() && id.0 as nat == varint_value(
                        rem,
                        t + 1,
                    ) % 0x100000000 && final(cur).rest() == rem.skip(t + 1),
                    Err(e) => if rem.len() >= 5 {
                        t >= 5 && e == DecodeError::VarIntTooLong
                    } else {
                        t == rem.len() && e == DecodeError::Incomplete
                    },
                }
            }),
    {
        let v = decode_varint_u32(cur)?;
        Ok(CharacterId(v))
    }
}

/// The movement flags of a character.
#[derive(Clone, Copy, PartialEq, Eq, Structural, Debug)]
pub struct CharacterMoveFlags {
    /// Whether the character is on the ground.
    pub on_ground: bool,
    /// Whether the character is pushing against a wall.
    pub against_wall: bool,
}

impl Default for CharacterMoveFlags {
    /// The default flags are all clear.
    fn default() -> (r: Self)
        ensures
            r == (CharacterMoveFlags { on_ground: false, against_wall: false }),
    {
        CharacterMoveFlags { on_ground: false, against_wall: false }
    }
}

/// The flag byte of a set of movement flags.
pub open spec fn move_flags_byte(f: CharacterMoveFlags) -> u8 {
    (if f.on_ground {
        1u8
    } else {
        0u8
    }) | (if f.against_wall {
        2u8
    } else {
        0u8
    })
}

impl CharacterMoveFlags {
    /// Appends the one-byte flag wire form.
    pub fn encode(self, out: &mut Vec<u8>)
        ensures
            final(out)@ == old(out)@ + seq![move_flags_byte(self)],
    {
        let b: u8 = (if self.on_ground {
            1u8
        } else {
            0u8
        }) | (if self.against_wall {
            2u8
        } else {
            0u8
        });
        encode_u8(b, out);
    }

    /// Reads the one-byte flag wire form; unknown bits are ignored.
    pub fn decode(cur: &mut DecodeCursor) -> (r: Result<Self, DecodeError>)
        requires
            old(cur).wf(),
        ensures
            final(cur).wf(),
            final(cur).all_bytes() == old(cur).all_bytes(),
            match r {
                Ok(f) => old(cur).rest().len() >= 1 && f.on_ground == (old(
                    cur,
                ).rest()[0] & 1 != 0) && f.against_wall == (old(cur).rest()[0] & 2 != 0)
                    && final(cur).rest() == old(cur).rest().skip(1),
                Err(e) => e == DecodeError::Incomplete && old(cur).rest().len() == 0,
            },
    {
        let b = decode_u8(cur)?;
        Ok(CharacterMoveFlags { on_ground: b & 1 != 0, against_wall: b & 2 != 0 })
    }
}

/// Law: the flag byte of decoded flags re-encodes to the low two bits of
/// the byte they came from.
pub proof fn lemma_move_flags_round_trip(f: CharacterMoveFlags, b: u8)
    ensures
        move_flags_byte(f) & 1 != 0 <==> f.on_ground,
        move_flags_byte(f) & 2 != 0 <==> f.against_wall,
        move_flags_byte(
            CharacterMoveFlags { on_ground: b & 1 != 0, against_wall: b & 2 != 0 },
        ) == b & 3,
{
    let g = f.on_ground;
    let w = f.against_wall;
    assert(((if g { 1u8 } else { 0u8 }) | (if w { 2u8 } else { 0u8 })) & 1 != 0 <==> g)
        by (bit_vector);
    assert(((if g { 1u8 } else { 0u8 }) | (if w { 2u8 } else { 0u8 })) & 2 != 0 <==> w)
        by (bit_vector);
    assert(((if b & 1 != 0 { 1u8 } else { 0u8 }) | (if b & 2 != 0 { 2u8 } else { 0u8 }))
        == b & 3) by (bit_vector);
}

} // verus!
