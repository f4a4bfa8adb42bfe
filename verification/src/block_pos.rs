//! Block positions and their packed 64-bit wire form.
//!
//! A block position packs into one big-endian 64-bit word: bits [63:38]
//! carry x, bits [37:12] carry z, and bits [11:0] carry y, each field
//! two's-complement within its own width. Encoding masks (wraps) values
//! outside the representable ranges; decoding sign-extends each field.

use vstd::prelude::*;
use crate::chunk_pos::ChunkPos;
use crate::decode::{DecodeCursor, DecodeError};
use crate::scalar::{be_u64, decode_u64, encode_u64};

verus! {

/// The position of a block in a dimension.
#[derive(Clone, Copy, PartialEq, Eq, Structural, Hash, Debug)]
pub struct BlockPos {
    /// X
    pub x: i32,
    /// Y
    pub y: i32,
    /// Z
    pub z: i32,
}

/// The packed 64-bit word for a block position.
pub open spec fn block_pos_word(p: BlockPos) -> u64 {
    (((p.x as u64) & 0x3FFFFFF) << 38) | (((p.z as u64) & 0x3FFFFFF) << 12) | ((
    p.y as u64) & 0xFFF)
}

/// Sign extension of a 26-bit field into an `i32`.
pub open spec fn sign_extend_26(f: u32) -> i32 {
    if f & 0x2000000 != 0 {
        (f | 0xFC000000) as i32
    } else {
        f as i32
    }
}

/// Sign extension of a 12-bit field into an `i32`.
pub open spec fn sign_extend_12(f: u32) -> i32 {
    if f & 0x800 != 0 {
        (f | 0xFFFFF000) as i32
    } else {
        f as i32
    }
}

/// The block position carried by a packed 64-bit word.
pub open spec fn block_pos_unpack(v: u64) -> BlockPos {
    BlockPos {
        x: sign_extend_26(((v >> 38) & 0x3FFFFFF) as u32),
        y: sign_extend_12((v & 0xFFF) as u32),
        z: sign_extend_26(((v >> 12) & 0x3FFFFFF) as u32),
    }
}

/// Law: packing then unpacking restores any position whose lanes lie in
/// the representable ranges: x and z in [-33554432, 33554431] and y in
/// [-2048, 2047].
pub proof fn lemma_block_pos_round_trip(p: BlockPos)
    requires
        -0x2000000 <= p.x < 0x2000000,
        -0x2000000 <= p.z < 0x2000000,
        -0x800 <= p.y < 0x800,
    ensures
        block_pos_unpack(block_pos_word(p)) == p,
{
    let x = p.x;
    let y = p.y;
    let z = p.z;
    let v = block_pos_word(p);
    assert({
        let v2 = (((x as u64) & 0x3FFFFFF) << 38) | (((z as u64) & 0x3FFFFFF) << 12) | ((
        y as u64) & 0xFFF);
        sign_extend_26(((v2 >> 38) & 0x3FFFFFF) as u32) == x && sign_extend_26(
            ((v2 >> 12) & 0x3FFFFFF) as u32,
        ) == z && sign_extend_12((v2 & 0xFFF) as u32) == y
    }) by (bit_vector)
        requires
            -0x2000000 <= x < 0x2000000,
            -0x2000000 <= z < 0x2000000,
            -0x800 <= y < 0x800,
    ;
}

impl BlockPos {
    /// A `BlockPos` with all lanes set to 0.
    pub fn zero() -> (r: Self)
        ensures
            r.x == 0 && r.y == 0 && r.z == 0,
    {
        BlockPos { x: 0, y: 0, z: 0 }
    }

    /// Returns the position of the chunk that this block position falls
    /// into, flooring toward negative infinity.
    pub fn chunk(self) -> (r: ChunkPos)
        ensures
            r.x == self.x as int / 16,
            r.z == self.z as int / 16,
    {
        ChunkPos { x: floor_div_16(self.x), z: floor_div_16(self.z) }
    }

    /// Packs this position into its 64-bit word.
    pub fn pack(self) -> (r: u64)
        ensures
            r == block_pos_word(self),
    {
        (((self.x as u64) & 0x3FFFFFF) << 38) | (((self.z as u64) & 0x3FFFFFF) << 12) | ((
        self.y as u64) & 0xFFF)
    }

    /// Unpacks a 64-bit word into a position, sign-extending each field.
    pub fn unpack(v: u64) -> (r: Self)
        ensures
            r == block_pos_unpack(v),
    {
        proof {
            assert((v >> 38) & 0x3FFFFFF < 0x4000000 && (v >> 12) & 0x3FFFFFF < 0x4000000
                && v & 0xFFF < 0x1000) by (bit_vector);
        }
        let xf: u32 = ((v >> 38) & 0x3FFFFFF) as u32;
        let zf: u32 = ((v >> 12) & 0x3FFFFFF) as u32;
        let yf: u32 = (v & 0xFFF) as u32;
        BlockPos { x: extend_26(xf), y: extend_12(yf), z: extend_26(zf) }
    }

    /// Appends the packed big-endian word for this position.
    pub fn encode(self, out: &mut Vec<u8>)
        ensures
            final(out)@ == old(out)@ + be_u64(block_pos_word(self)),
    {
        encode_u64(self.pack(), out);
    }

    /// Reads a packed big-endian word and unpacks it into a position.
    pub fn decode(cur: &mut DecodeCursor) -> (r: Result<Self, DecodeError>)
        requires
            old(cur).wf(),
        ensures
            final(cur).wf(),
            final(cur).all_bytes() == old(cur).all_bytes(),
            match r {
                Ok(p) => old(cur).rest().len() >= 8
                    && be_u64(block_pos_word(p)) == old(cur).rest().take(8)
                    && p == block_pos_unpack(block_pos_word(p))
                    && final(cur).rest() == old(cur).rest().skip(8),
                Err(e) => e == DecodeError::Incomplete && old(cur).rest().len() < 8
                    && *final(cur) == *old(cur),
            },
    {
        let v = decode_u64(cur)?;
        let p = Self::unpack(v);
        proof {
            lemma_block_pos_repack(v);
        }
        Ok(p)
    }
}

/// Law: unpacking a word and packing the result restores the word, so the
/// wire form of a decoded position is exactly the bytes it was read from.
pub proof fn lemma_block_pos_repack(v: u64)
    ensures
        block_pos_word(block_pos_unpack(v)) == v,
        block_pos_unpack(block_pos_word(block_pos_unpack(v))) == block_pos_unpack(v),
{
    assert({
        let x = sign_extend_26(((v >> 38) & 0x3FFFFFF) as u32);
        let z = sign_extend_26(((v >> 12) & 0x3FFFFFF) as u32);
        let y = sign_extend_12((v & 0xFFF) as u32);
        (((x as u64) & 0x3FFFFFF) << 38) | (((z as u64) & 0x3FFFFFF) << 12) | ((y as u64)
            & 0xFFF) == v
    }) by (bit_vector);
}

/// Floor division by 16 on an `i32`.
fn floor_div_16(x: i32) -> (r: i32)
    ensures
        r == x as int / 16,
{
    let q: i32 = x / 16;
    let rm: i32 = x % 16;
    if rm < 0 {
        q - 1
    } else {
        q
    }
}

/// Sign extension of a 26-bit field.
fn extend_26(f: u32) -> (r: i32)
    requires
        f < 0x4000000,
    ensures
        r == sign_extend_26(f),
{
    if f & 0x2000000 != 0 {
        (f | 0xFC000000) as i32
    } else {
        f as i32
    }
}

/// Sign extension of a 12-bit field.
fn extend_12(f: u32) -> (r: i32)
    requires
        f < 0x1000,
    ensures
        r == sign_extend_12(f),
{
    if f & 0x800 != 0 {
        (f | 0xFFFFF000) as i32
    } else {
        f as i32
    }
}

} // verus!
