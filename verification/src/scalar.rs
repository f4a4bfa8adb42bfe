//! Fixed-width big-endian scalar codecs.
//!
//! All fixed-width integers travel most-significant byte first. Signed
//! values reuse the unsigned codecs through two's-complement casts.

use vstd::prelude::*;
use crate::decode::{DecodeCursor, DecodeError};

verus! {

/// The two big-endian bytes of a `u16`.
pub open spec fn be_u16(v: u16) -> Seq<u8> {
    seq![(v >> 8) as u8, v as u8]
}

/// The four big-endian bytes of a `u32`.
pub open spec fn be_u32(v: u32) -> Seq<u8> {
    seq![(v >> 24) as u8, (v >> 16) as u8, (v >> 8) as u8, v as u8]
}

/// The eight big-endian bytes of a `u64`.
pub open spec fn be_u64(v: u64) -> Seq<u8> {
    seq![
        (v >> 56) as u8,
        (v >> 48) as u8,
        (v >> 40) as u8,
        (v >> 32) as u8,
        (v >> 24) as u8,
        (v >> 16) as u8,
        (v >> 8) as u8,
        v as u8,
    ]
}

/// The sixteen big-endian bytes of a `u128`.
pub open spec fn be_u128(v: u128) -> Seq<u8> {
    seq![
        (v >> 120) as u8,
        (v >> 112) as u8,
        (v >> 104) as u8,
        (v >> 96) as u8,
        (v >> 88) as u8,
        (v >> 80) as u8,
        (v >> 72) as u8,
        (v >> 64) as u8,
        (v >> 56) as u8,
        (v >> 48) as u8,
        (v >> 40) as u8,
        (v >> 32) as u8,
        (v >> 24) as u8,
        (v >> 16) as u8,
        (v >> 8) as u8,
        v as u8,
    ]
}

proof fn lemma_be_u16_inverse(b0: u8, b1: u8)
    by (bit_vector)
    ensures
        ((((b0 as u16) << 8) | (b1 as u16)) >> 8) as u8 == b0,
        (((b0 as u16) << 8) | (b1 as u16)) as u8 == b1,
{
}

proof fn lemma_be_u32_inverse(b0: u8, b1: u8, b2: u8, b3: u8)
    by (bit_vector)
    ensures
        ({
            let v = ((b0 as u32) << 24) | ((b1 as u32) << 16) | ((b2 as u32) << 8) | (
            b3 as u32);
            (v >> 24) as u8 == b0 && (v >> 16) as u8 == b1 && (v >> 8) as u8 == b2
                && v as u8 == b3
        }),
{
}

proof fn lemma_be_u64_inverse(
    b0: u8,
    b1: u8,
    b2: u8,
    b3: u8,
    b4: u8,
    b5: u8,
    b6: u8,
    b7: u8,
)
    by (bit_vector)
    ensures
        ({
            let v = ((b0 as u64) << 56) | ((b1 as u64) << 48) | ((b2 as u64) << 40) | ((
            b3 as u64) << 32) | ((b4 as u64) << 24) | ((b5 as u64) << 16) | ((b6 as u64)
                << 8) | (b7 as u64);
            (v >> 56) as u8 == b0 && (v >> 48) as u8 == b1 && (v >> 40) as u8 == b2 && (v
                >> 32) as u8 == b3 && (v >> 24) as u8 == b4 && (v >> 16) as u8 == b5 && (v
                >> 8) as u8 == b6 && v as u8 == b7
        }),
{
}

proof fn lemma_be_u128_halves(hi: u64, lo: u64)
    by (bit_vector)
    ensures
        ({
            let v = ((hi as u128) << 64) | (lo as u128);
            (v >> 120) as u8 == (hi >> 56) as u8 && (v >> 112) as u8 == (hi >> 48) as u8
                && (v >> 104) as u8 == (hi >> 40) as u8 && (v >> 96) as u8 == (hi
                >> 32) as u8 && (v >> 88) as u8 == (hi >> 24) as u8 && (v >> 80) as u8 == (
            hi >> 16) as u8 && (v >> 72) as u8 == (hi >> 8) as u8 && (v >> 64) as u8
                == hi as u8 && (v >> 56) as u8 == (lo >> 56) as u8 && (v >> 48) as u8 == (
            lo >> 48) as u8 && (v >> 40) as u8 == (lo >> 40) as u8 && (v >> 32) as u8 == (
            lo >> 32) as u8 && (v >> 24) as u8 == (lo >> 24) as u8 && (v >> 16) as u8 == (
            lo >> 16) as u8 && (v >> 8) as u8 == (lo >> 8) as u8 && v as u8 == lo as u8
        }),
{
}

/// Appends one byte.
pub fn encode_u8(v: u8, out: &mut Vec<u8>)
    ensures
        final(out)@ == old(out)@ + seq![v],
{
    out.push(v);
    proof {
        assert(final(out)@ =~= old(out)@ + seq![v]);
    }
}

/// Appends a `u16`, most-significant byte first.
pub fn encode_u16(v: u16, out: &mut Vec<u8>)
    ensures
        final(out)@ == old(out)@ + be_u16(v),
{
    out.push((v >> 8) as u8);
    out.push(v as u8);
    proof {
        assert(final(out)@ =~= old(out)@ + be_u16(v));
    }
}

/// Appends a `u32`, most-significant byte first.
pub fn encode_u32(v: u32, out: &mut Vec<u8>)
    ensures
        final(out)@ == old(out)@ + be_u32(v),
{
    out.push((v >> 24) as u8);
    out.push((v >> 16) as u8);
    out.push((v >> 8) as u8);
    out.push(v as u8);
    proof {
        assert(final(out)@ =~= old(out)@ + be_u32(v));
    }
}

/// Appends a `u64`, most-significant byte first.
pub fn encode_u64(v: u64, out: &mut Vec<u8>)
    ensures
        final(out)@ == old(out)@ + be_u64(v),
{
    out.push((v >> 56) as u8);
    out.push((v >> 48) as u8);
    out.push((v >> 40) as u8);
    out.push((v >> 32) as u8);
    out.push((v >> 24) as u8);
    out.push((v >> 16) as u8);
    out.push((v >> 8) as u8);
    out.push(v as u8);
    proof {
        assert(final(out)@ =~= old(out)@ + be_u64(v));
    }
}

/// Appends a `u128`, most-significant byte first.
pub fn encode_u128(v: u128, out: &mut Vec<u8>)
    ensures
        final(out)@ == old(out)@ + be_u128(v),
{
    out.push((v >> 120) as u8);
    out.push((v >> 112) as u8);
    out.push((v >> 104) as u8);
    out.push((v >> 96) as u8);
    out.push((v >> 88) as u8);
    out.push((v >> 80) as u8);
    out.push((v >> 72) as u8);
    out.push((v >> 64) as u8);
    out.push((v >> 56) as u8);
    out.push((v >> 48) as u8);
    out.push((v >> 40) as u8);
    out.push((v >> 32) as u8);
    out.push((v >> 24) as u8);
    out.push((v >> 16) as u8);
    out.push((v >> 8) as u8);
    out.push(v as u8);
    proof {
        assert(final(out)@ =~= old(out)@ + be_u128(v));
    }
}

/// Appends a `bool` as a single `0` or `1` byte.
pub fn encode_bool(v: bool, out: &mut Vec<u8>)
    ensures
        final(out)@ == old(out)@ + seq![if v { 1u8 } else { 0u8 }],
{
    encode_u8(if v { 1 } else { 0 }, out);
}

/// Reads one byte.
pub fn decode_u8(cur: &mut DecodeCursor) -> (r: Result<u8, DecodeError>)
    requires
        old(cur).wf(),
    ensures
        final(cur).wf(),
        final(cur).all_bytes() == old(cur).all_bytes(),
        match r {
            Ok(v) => old(cur).rest().len() >= 1 && seq![v] == old(cur).rest().take(1)
                && v == old(cur).rest()[0] && final(cur).rest() == old(cur).rest().skip(
                1,
            ) && final(cur).position() == old(cur).position() + 1,
            Err(e) => e == DecodeError::Incomplete && old(cur).rest().len() < 1
                && *final(cur) == *old(cur),
        },
{
    let b = cur.take_u8()?;
    proof {
        assert(seq![b] =~= old(cur).rest().take(1));
        assert(old(cur).rest().drop_first() =~= old(cur).rest().skip(1));
        assert(b == old(cur).rest()[0]);
    }
    Ok(b)
}

/// Reads a big-endian `u16`.
pub fn decode_u16(cur: &mut DecodeCursor) -> (r: Result<u16, DecodeError>)
    requires
        old(cur).wf(),
    ensures
        final(cur).wf(),
        final(cur).all_bytes() == old(cur).all_bytes(),
        match r {
            Ok(v) => old(cur).rest().len() >= 2 && be_u16(v) == old(cur).rest().take(2)
                && final(cur).rest() == old(cur).rest().skip(2)
                && final(cur).position() == old(cur).position() + 2,
            Err(e) => e == DecodeError::Incomplete && old(cur).rest().len() < 2
                && *final(cur) == *old(cur),
        },
{
    let s = cur.take_bytes(2)?;
    let v = ((s[0] as u16) << 8) | (s[1] as u16);
    proof {
        lemma_be_u16_inverse(s[0], s[1]);
        assert(be_u16(v) =~= old(cur).rest().take(2));
    }
    Ok(v)
}

/// Reads a big-endian `u32`.
pub fn decode_u32(cur: &mut DecodeCursor) -> (r: Result<u32, DecodeError>)
    requires
        old(cur).wf(),
    ensures
        final(cur).wf(),
        final(cur).all_bytes() == old(cur).all_bytes(),
        match r {
            Ok(v) => old(cur).rest().len() >= 4 && be_u32(v) == old(cur).rest().take(4)
                && final(cur).rest() == old(cur).rest().skip(4)
                && final(cur).position() == old(cur).position() + 4,
            Err(e) => e == DecodeError::Incomplete && old(cur).rest().len() < 4
                && *final(cur) == *old(cur),
        },
{
    let s = cur.take_bytes(4)?;
    let v = ((s[0] as u32) << 24) | ((s[1] as u32) << 16) | ((s[2] as u32) << 8) | (
    s[3] as u32);
    proof {
        lemma_be_u32_inverse(s[0], s[1], s[2], s[3]);
        assert(be_u32(v) =~= old(cur).rest().take(4));
    }
    Ok(v)
}

/// Reads a big-endian `u64`.
pub fn decode_u64(cur: &mut DecodeCursor) -> (r: Result<u64, DecodeError>)
    requires
        old(cur).wf(),
    ensures
        final(cur).wf(),
        final(cur).all_bytes() == old(cur).all_bytes(),
        match r {
            Ok(v) => old(cur).rest().len() >= 8 && be_u64(v) == old(cur).rest().take(8)
                && final(cur).rest() == old(cur).rest().skip(8)
                && final(cur).position() == old(cur).position() + 8,
            Err(e) => e == DecodeError::Incomplete && old(cur).rest().len() < 8
                && *final(cur) == *old(cur),
        },
{
    let s = cur.take_bytes(8)?;
    let v = ((s[0] as u64) << 56) | ((s[1] as u64) << 48) | ((s[2] as u64) << 40) | ((
    s[3] as u64) << 32) | ((s[4] as u64) << 24) | ((s[5] as u64) << 16) | ((s[6] as u64)
        << 8) | (s[7] as u64);
    proof {
        lemma_be_u64_inverse(s[0], s[1], s[2], s[3], s[4], s[5], s[6], s[7]);
        assert(be_u64(v) =~= old(cur).rest().take(8));
    }
    Ok(v)
}

/// Reads a big-endian `u128`.
pub fn decode_u128(cur: &mut DecodeCursor) -> (r: Result<u128, DecodeError>)
    requires
        old(cur).wf(),
    ensures
        final(cur).wf(),
        final(cur).all_bytes() == old(cur).all_bytes(),
        match r {
            Ok(v) => old(cur).rest().len() >= 16 && be_u128(v) == old(cur).rest().take(16)
                && final(cur).rest() == old(cur).rest().skip(16)
                && final(cur).position() == old(cur).position() + 16,
            Err(e) => e == DecodeError::Incomplete && old(cur).rest().len() < 16
                && *final(cur) == *old(cur),
        },
{
    let s = cur.take_bytes(16)?;
    let hi = ((s[0] as u64) << 56) | ((s[1] as u64) << 48) | ((s[2] as u64) << 40) | ((
    s[3] as u64) << 32) | ((s[4] as u64) << 24) | ((s[5] as u64) << 16) | ((s[6] as u64)
        << 8) | (s[7] as u64);
    let lo = ((s[8] as u64) << 56) | ((s[9] as u64) << 48) | ((s[10] as u64) << 40) | ((
    s[11] as u64) << 32) | ((s[12] as u64) << 24) | ((s[13] as u64) << 16) | ((
    s[14] as u64) << 8) | (s[15] as u64);
    let v = ((hi as u128) << 64) | (lo as u128);
    proof {
        lemma_be_u64_inverse(s[0], s[1], s[2], s[3], s[4], s[5], s[6], s[7]);
        lemma_be_u64_inverse(s[8], s[9], s[10], s[11], s[12], s[13], s[14], s[15]);
        lemma_be_u128_halves(hi, lo);
        assert(be_u128(v) =~= old(cur).rest().take(16));
    }
    Ok(v)
}

/// Reads a `bool`; any nonzero byte reads as `true`.
pub fn decode_bool(cur: &mut DecodeCursor) -> (r: Result<bool, DecodeError>)
    requires
        old(cur).wf(),
    ensures
        final(cur).wf(),
        final(cur).all_bytes() == old(cur).all_bytes(),
        match r {
            Ok(v) => old(cur).rest().len() >= 1 && v == (old(cur).rest()[0] != 0)
                && final(cur).rest() == old(cur).rest().skip(1)
                && final(cur).position() == old(cur).position() + 1,
            Err(e) => e == DecodeError::Incomplete && old(cur).rest().len() < 1
                && *final(cur) == *old(cur),
        },
{
    let b = cur.take_u8()?;
    proof {
        assert(old(cur).rest().drop_first() =~= old(cur).rest().skip(1));
    }
    Ok(b != 0)
}

/// Big-endian images determine their values.
pub proof fn lemma_be_u16_inj(a: u16, b: u16)
    requires
        be_u16(a) == be_u16(b),
    ensures
        a == b,
{
    assert(be_u16(a)[0] == be_u16(b)[0] && be_u16(a)[1] == be_u16(b)[1]);
    assert(((a >> 8) as u8 == (b >> 8) as u8 && a as u8 == b as u8) ==> a == b)
        by (bit_vector);
}

/// Big-endian images determine their values.
pub proof fn lemma_be_u32_inj(a: u32, b: u32)
    requires
        be_u32(a) == be_u32(b),
    ensures
        a == b,
{
    assert(be_u32(a)[0] == be_u32(b)[0] && be_u32(a)[1] == be_u32(b)[1] && be_u32(a)[2]
        == be_u32(b)[2] && be_u32(a)[3] == be_u32(b)[3]);
    assert(((a >> 24) as u8 == (b >> 24) as u8 && (a >> 16) as u8 == (b >> 16) as u8 && (a
        >> 8) as u8 == (b >> 8) as u8 && a as u8 == b as u8) ==> a == b) by (bit_vector);
}

/// Big-endian images determine their values.
pub proof fn lemma_be_u64_inj(a: u64, b: u64)
    requires
        be_u64(a) == be_u64(b),
    ensures
        a == b,
{
    assert(be_u64(a)[0] == be_u64(b)[0] && be_u64(a)[1] == be_u64(b)[1] && be_u64(a)[2]
        == be_u64(b)[2] && be_u64(a)[3] == be_u64(b)[3] && be_u64(a)[4] == be_u64(b)[4]
        && be_u64(a)[5] == be_u64(b)[5] && be_u64(a)[6] == be_u64(b)[6] && be_u64(a)[7]
        == be_u64(b)[7]);
    assert(((a >> 56) as u8 == (b >> 56) as u8 && (a >> 48) as u8 == (b >> 48) as u8 && (a
        >> 40) as u8 == (b >> 40) as u8 && (a >> 32) as u8 == (b >> 32) as u8 && (a
        >> 24) as u8 == (b >> 24) as u8 && (a >> 16) as u8 == (b >> 16) as u8 && (a
        >> 8) as u8 == (b >> 8) as u8 && a as u8 == b as u8) ==> a == b) by (bit_vector);
}

/// Big-endian images determine their values.
pub proof fn lemma_be_u128_inj(a: u128, b: u128)
    requires
        be_u128(a) == be_u128(b),
    ensures
        a == b,
{
    assert forall|i: int| 0 <= i < 16 implies be_u128(a)[i] == be_u128(b)[i] by {
    }
    assert(((a >> 120) as u8 == (b >> 120) as u8 && (a >> 112) as u8 == (b >> 112) as u8
        && (a >> 104) as u8 == (b >> 104) as u8 && (a >> 96) as u8 == (b >> 96) as u8 && (
    a >> 88) as u8 == (b >> 88) as u8 && (a >> 80) as u8 == (b >> 80) as u8 && (a
        >> 72) as u8 == (b >> 72) as u8 && (a >> 64) as u8 == (b >> 64) as u8 && (a
        >> 56) as u8 == (b >> 56) as u8 && (a >> 48) as u8 == (b >> 48) as u8 && (a
        >> 40) as u8 == (b >> 40) as u8 && (a >> 32) as u8 == (b >> 32) as u8 && (a
        >> 24) as u8 == (b >> 24) as u8 && (a >> 16) as u8 == (b >> 16) as u8 && (a
        >> 8) as u8 == (b >> 8) as u8 && a as u8 == b as u8) ==> a == b) by (bit_vector);
}

} // verus!
