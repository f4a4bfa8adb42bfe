//! Variable-width (base-128, continuation-bit) integer codec.
//!
//! Each encoded byte carries seven data bits, low group first, with the high
//! bit set on every byte except the last. Encoding always uses the fewest
//! bytes possible; decoding accepts at most `ceil(bits / 7)` bytes and
//! truncates excess high bits into the target width.

use vstd::prelude::*;
use crate::decode::{DecodeCursor, DecodeError};

verus! {

/// The canonical (minimal) base-128 encoding of `v`, low group first.
pub open spec fn varint_bytes(v: nat) -> Seq<u8>
    decreases v,
{
    if v < 0x80 {
        seq![v as u8]
    } else {
        seq![(v % 0x80 + 0x80) as u8] + varint_bytes(v / 0x80)
    }
}

/// Index of the first byte without the continuation bit, or `bytes.len()`
/// if every byte has it set.
pub open spec fn varint_end(bytes: Seq<u8>) -> int
    decreases bytes.len(),
{
    if bytes.len() == 0 {
        0
    } else if bytes[0] < 0x80 {
        0
    } else {
        1 + varint_end(bytes.drop_first())
    }
}

/// The value carried by the low seven bits of the first `count` bytes,
/// least-significant group first, without any width truncation.
pub open spec fn varint_value(bytes: Seq<u8>, count: int) -> nat
    decreases count,
{
    if count <= 0 || bytes.len() == 0 {
        0
    } else {
        (bytes[0] % 0x80) as nat + 0x80 * varint_value(bytes.drop_first(), count - 1)
    }
}

/// The terminator index always lies between 0 and the sequence length.
pub proof fn lemma_varint_end_bounds(bytes: Seq<u8>)
    ensures
        0 <= varint_end(bytes) <= bytes.len(),
    decreases bytes.len(),
{
    if bytes.len() != 0 && bytes[0] >= 0x80 {
        lemma_varint_end_bounds(bytes.drop_first());
    }
}

proof fn lemma_varint_step_u32(x: u32)
    by (bit_vector)
    requires
        x >= 0x80,
    ensures
        ((x & 0x7F) | 0x80) == x % 0x80 + 0x80,
        (x >> 7) == x / 0x80,
        (x >> 7) < x,
{
}

proof fn lemma_varint_step_u64(x: u64)
    by (bit_vector)
    requires
        x >= 0x80,
    ensures
        ((x & 0x7F) | 0x80) == x % 0x80 + 0x80,
        (x >> 7) == x / 0x80,
        (x >> 7) < x,
{
}

proof fn lemma_varint_join_u32(b: u8, hi: u32)
    by (bit_vector)
    ensures
        (((b & 0x7F) as u32) | (hi << 7)) == ((b as u32 % 0x80) + 0x80 * hi) % 0x100000000,
{
}

proof fn lemma_varint_join_u64(b: u8, hi: u64)
    by (bit_vector)
    ensures
        (((b & 0x7F) as u64) | (hi << 7)) == ((b as u64 % 0x80) + 0x80 * hi)
            % 0x10000000000000000,
{
}

/// Appends the canonical variable-width encoding of a `u32` to `out`.
pub fn encode_varint_u32(value: u32, out: &mut Vec<u8>)
    ensures
        final(out)@ == old(out)@ + varint_bytes(value as nat),
{
    let ghost prev = out@;
    let mut x: u32 = value;
    while x >= 0x80
        invariant
            prev + varint_bytes(value as nat) =~= out@ + varint_bytes(x as nat),
        decreases x,
    {
        proof {
            lemma_varint_step_u32(x);
        }
        out.push(((x & 0x7F) | 0x80) as u8);
        x = x >> 7;
    }
    out.push(x as u8);
    proof {
        assert(varint_bytes(x as nat) =~= seq![x as u8]);
        assert(final(out)@ =~= prev + varint_bytes(value as nat));
    }
}

/// Appends the canonical variable-width encoding of a `u64` to `out`.
pub fn encode_varint_u64(value: u64, out: &mut Vec<u8>)
    ensures
        final(out)@ == old(out)@ + varint_bytes(value as nat),
{
    let ghost prev = out@;
    let mut x: u64 = value;
    while x >= 0x80
        invariant
            prev + varint_bytes(value as nat) =~= out@ + varint_bytes(x as nat),
        decreases x,
    {
        proof {
            lemma_varint_step_u64(x);
        }
        out.push(((x & 0x7F) | 0x80) as u8);
        x = x >> 7;
    }
    out.push(x as u8);
    proof {
        assert(varint_bytes(x as nat) =~= seq![x as u8]);
        assert(final(out)@ =~= prev + varint_bytes(value as nat));
    }
}

/// Reads up to `max` further base-128 groups, combining them low-first and
/// truncating into 32 bits.
fn take_varint_groups_u32(cur: &mut DecodeCursor, max: usize) -> (r: Result<
    u32,
    DecodeError,
>)
    requires
        old(cur).wf(),
    ensures
        final(cur).wf(),
        final(cur).all_bytes() == old(cur).all_bytes(),
        ({
            let rem = old(cur).rest();
            let t = varint_end(rem);
            match r {
                Ok(v) => t < max && t < rem.len() && v as nat == varint_value(rem, t + 1)
                    % 0x100000000 && final(cur).rest() == rem.skip(t + 1)
                    && final(cur).position() == old(cur).position() + t + 1,
                Err(e) => if rem.len() >= max {
                    t >= max && e == DecodeError::VarIntTooLong
                } else {
                    t == rem.len() && e == DecodeError::Incomplete
                },
            }
        }),
    decreases max,
{
    proof {
        lemma_varint_end_bounds(old(cur).rest());
    }
    if max == 0 {
        return Err(DecodeError::VarIntTooLong);
    }
    let ghost rem = cur.rest();
    let b = match cur.take_u8() {
        Ok(b) => b,
        Err(e) => {
            return Err(e);
        },
    };
    if b < 0x80 {
        assert(varint_value(rem, 1) == (b as nat % 0x80)) by {
            assert(rem[0] == b);
            assert(varint_value(rem.drop_first(), 0) == 0);
        }
        assert(b as nat % 0x80 == b as nat && b as nat % 0x100000000 == b as nat);
        Ok(b as u32)
    } else {
        let hi = match take_varint_groups_u32(cur, max - 1) {
            Ok(hi) => hi,
            Err(e) => {
                proof {
                    assert(varint_end(rem) == 1 + varint_end(rem.drop_first()));
                }
                return Err(e);
            },
        };
        proof {
            lemma_varint_join_u32(b, hi);
            let t1 = varint_end(rem.drop_first());
            lemma_varint_end_bounds(rem.drop_first());
            assert(varint_end(rem) == 1 + t1);
            assert(varint_value(rem, 1 + t1 + 1) == (b as nat % 0x80) + 0x80 * varint_value(
                rem.drop_first(),
                t1 + 1,
            ));
            let v1 = varint_value(rem.drop_first(), t1 + 1);
            assert(((b as nat % 0x80) + 0x80 * (v1 % 0x100000000)) % 0x100000000 == ((b as nat
                % 0x80) + 0x80 * v1) % 0x100000000) by {
                vstd::arithmetic::div_mod::lemma_mul_mod_noop_right(
                    0x80,
                    v1 as int,
                    0x100000000,
                );
                vstd::arithmetic::div_mod::lemma_add_mod_noop(
                    (b as nat % 0x80) as int,
                    0x80 * (v1 as int),
                    0x100000000,
                );
                vstd::arithmetic::div_mod::lemma_add_mod_noop(
                    (b as nat % 0x80) as int,
                    0x80 * ((v1 % 0x100000000) as int),
                    0x100000000,
                );
                vstd::arithmetic::div_mod::lemma_small_mod(b as nat % 0x80, 0x100000000);
            }
            assert(rem.skip(1 + t1 + 1) =~= rem.drop_first().skip(t1 + 1));
        }
        Ok(((b & 0x7F) as u32) | (hi << 7))
    }
}

/// Decodes a variable-width `u32`.
///
/// Consumes bytes through the first one without the continuation bit. Fails
/// with `VarIntTooLong` if five bytes are consumed without termination, and
/// with `Incomplete` if the input ends mid-sequence.
pub fn decode_varint_u32(cur: &mut DecodeCursor) -> (r: Result<u32, DecodeError>)
    requires
        old(cur).wf(),
    ensures
        final(cur).wf(),
        final(cur).all_bytes() == old(cur).all_bytes(),
        ({
            let rem = old(cur).rest();
            let t = varint_end(rem);
            match r {
                Ok(v) => t < 5 && t < rem.len() && v as nat == varint_value(rem, t + 1)
                    % 0x100000000 && final(cur).rest() == rem.skip(t + 1)
                    && final(cur).position() == old(cur).position() + t + 1,
                Err(e) => if rem.len() >= 5 {
                    t >= 5 && e == DecodeError::VarIntTooLong
                } else {
                    t == rem.len() && e == DecodeError::Incomplete
                },
            }
        }),
{
    take_varint_groups_u32(cur, 5)
}

/// Reads up to `max` further base-128 groups, combining them low-first and
/// truncating into 64 bits.
fn take_varint_groups_u64(cur: &mut DecodeCursor, max: usize) -> (r: Result<
    u64,
    DecodeError,
>)
    requires
        old(cur).wf(),
    ensures
        final(cur).wf(),
        final(cur).all_bytes() == old(cur).all_bytes(),
        ({
            let rem = old(cur).rest();
            let t = varint_end(rem);
            match r {
                Ok(v) => t < max && t < rem.len() && v as nat == varint_value(rem, t + 1)
                    % 0x10000000000000000 && final(cur).rest() == rem.skip(t + 1)
                    && final(cur).position() == old(cur).position() + t + 1,
                Err(e) => if rem.len() >= max {
                    t >= max && e == DecodeError::VarIntTooLong
                } else {
                    t == rem.len() && e == DecodeError::Incomplete
                },
            }
        }),
    decreases max,
{
    proof {
        lemma_varint_end_bounds(old(cur).rest());
    }
    if max == 0 {
        return Err(DecodeError::VarIntTooLong);
    }
    let ghost rem = cur.rest();
    let b = match cur.take_u8() {
        Ok(b) => b,
        Err(e) => {
            return Err(e);
        },
    };
    if b < 0x80 {
        assert(varint_value(rem, 1) == (b as nat % 0x80)) by {
            assert(rem[0] == b);
            assert(varint_value(rem.drop_first(), 0) == 0);
        }
        assert(b as nat % 0x80 == b as nat && b as nat % 0x10000000000000000 == b as nat);
        Ok(b as u64)
    } else {
        let hi = match take_varint_groups_u64(cur, max - 1) {
            Ok(hi) => hi,
            Err(e) => {
                proof {
                    assert(varint_end(rem) == 1 + varint_end(rem.drop_first()));
                }
                return Err(e);
            },
        };
        proof {
            lemma_varint_join_u64(b, hi);
            let t1 = varint_end(rem.drop_first());
            lemma_varint_end_bounds(rem.drop_first());
            assert(varint_end(rem) == 1 + t1);
            assert(varint_value(rem, 1 + t1 + 1) == (b as nat % 0x80) + 0x80 * varint_value(
                rem.drop_first(),
                t1 + 1,
            ));
            let v1 = varint_value(rem.drop_first(), t1 + 1);
            assert(((b as nat % 0x80) + 0x80 * (v1 % 0x10000000000000000)) % 0x10000000000000000
                == ((b as nat % 0x80) + 0x80 * v1) % 0x10000000000000000) by {
                vstd::arithmetic::div_mod::lemma_mul_mod_noop_right(
                    0x80,
                    v1 as int,
                    0x10000000000000000,
                );
                vstd::arithmetic::div_mod::lemma_add_mod_noop(
                    (b as nat % 0x80) as int,
                    0x80 * (v1 as int),
                    0x10000000000000000,
                );
                vstd::arithmetic::div_mod::lemma_add_mod_noop(
                    (b as nat % 0x80) as int,
                    0x80 * ((v1 % 0x10000000000000000) as int),
                    0x10000000000000000,
                );
                vstd::arithmetic::div_mod::lemma_small_mod(
                    b as nat % 0x80,
                    0x10000000000000000,
                );
            }
            assert(rem.skip(1 + t1 + 1) =~= rem.drop_first().skip(t1 + 1));
        }
        Ok(((b & 0x7F) as u64) | (hi << 7))
    }
}

/// Decodes a variable-width `u64`.
///
/// Consumes bytes through the first one without the continuation bit. Fails
/// with `VarIntTooLong` if ten bytes are consumed without termination, and
/// with `Incomplete` if the input ends mid-sequence.
pub fn decode_varint_u64(cur: &mut DecodeCursor) -> (r: Result<u64, DecodeError>)
    requires
        old(cur).wf(),
    ensures
        final(cur).wf(),
        final(cur).all_bytes() == old(cur).all_bytes(),
        ({
            let rem = old(cur).rest();
            let t = varint_end(rem);
            match r {
                Ok(v) => t < 10 && t < rem.len() && v as nat == varint_value(rem, t + 1)
                    % 0x10000000000000000 && final(cur).rest() == rem.skip(t + 1)
                    && final(cur).position() == old(cur).position() + t + 1,
                Err(e) => if rem.len() >= 10 {
                    t >= 10 && e == DecodeError::VarIntTooLong
                } else {
                    t == rem.len() && e == DecodeError::Incomplete
                },
            }
        }),
{
    take_varint_groups_u64(cur, 10)
}

/// Law: the canonical encoding of `v`, followed by anything, ends exactly at
/// its own last byte and carries the value `v` back out: together with the
/// decoders' contracts, decoding an encoded value always restores it.
pub proof fn lemma_varint_round_trip(v: nat, rest: Seq<u8>)
    ensures
        varint_bytes(v).len() >= 1,
        varint_end(varint_bytes(v) + rest) == varint_bytes(v).len() - 1,
        varint_value(varint_bytes(v) + rest, varint_bytes(v).len() as int) == v,
    decreases v,
{
    let e = varint_bytes(v);
    if v < 0x80 {
        assert(e =~= seq![v as u8]);
        assert((e + rest)[0] == v as u8);
        assert((e + rest).drop_first() =~= rest);
        assert(varint_value(e + rest, 1) == (v as u8 % 0x80) as nat + 0x80 * varint_value(
            rest,
            0,
        ));
        assert(varint_value(rest, 0) == 0);
    } else {
        lemma_varint_round_trip(v / 0x80, rest);
        let tail = varint_bytes(v / 0x80);
        assert(e == seq![(v % 0x80 + 0x80) as u8] + tail);
        assert((e + rest)[0] == (v % 0x80 + 0x80) as u8);
        assert((e + rest).drop_first() =~= tail + rest);
        assert((e + rest)[0] >= 0x80);
        assert(varint_end(e + rest) == 1 + varint_end(tail + rest));
        assert(varint_value(e + rest, e.len() as int) == ((v % 0x80 + 0x80) as u8 % 0x80) as nat
            + 0x80 * varint_value(tail + rest, tail.len() as int));
        assert(((v % 0x80 + 0x80) as u8 % 0x80) as nat == v % 0x80);
        assert(v % 0x80 + 0x80 * (v / 0x80) == v) by {
            vstd::arithmetic::div_mod::lemma_fundamental_div_mod(v as int, 0x80);
        }
    }
}

/// Law: the canonical encoding is minimal. The final byte lacks the
/// continuation bit, every earlier byte has it, and a value needing more than
/// one byte never ends in a zero group (no superfluous trailing byte).
pub proof fn lemma_varint_minimal(v: nat)
    ensures
        varint_bytes(v).len() >= 1,
        varint_bytes(v).last() < 0x80,
        varint_bytes(v).len() > 1 ==> varint_bytes(v).last() != 0,
        forall|i: int|
            0 <= i < varint_bytes(v).len() - 1 ==> #[trigger] varint_bytes(v)[i] >= 0x80,
    decreases v,
{
    let e = varint_bytes(v);
    if v < 0x80 {
        assert(e =~= seq![v as u8]);
    } else {
        lemma_varint_minimal(v / 0x80);
        let tail = varint_bytes(v / 0x80);
        assert(e == seq![(v % 0x80 + 0x80) as u8] + tail);
        assert(e.last() == tail.last());
        assert(v / 0x80 >= 1);
        if tail.len() == 1 {
            assert(tail =~= seq![(v / 0x80) as u8]);
            assert(tail.last() != 0);
        }
        assert forall|i: int| 0 <= i < e.len() - 1 implies #[trigger] e[i] >= 0x80 by {
            if i > 0 {
                assert(e[i] == tail[i - 1]);
            }
        }
    }
}

/// `0x80` raised to the `k`th power.
pub open spec fn pow128(k: nat) -> nat
    decreases k,
{
    if k == 0 {
        1
    } else {
        0x80 * pow128((k - 1) as nat)
    }
}

/// Values below `0x80^k` encode within `k` bytes.
pub proof fn lemma_varint_len_bound(v: nat, k: nat)
    requires
        k >= 1,
        v < pow128(k),
    ensures
        varint_bytes(v).len() <= k,
    decreases k,
{
    if v >= 0x80 {
        let p = pow128((k - 1) as nat);
        assert(pow128(k) == 0x80 * p);
        if k == 1 {
            assert(pow128(1nat) == 0x80 * pow128(0nat));
            assert(pow128(0nat) == 1);
            assert(false);
        }
        assert(v < 0x80 * p && p > 0 ==> v / 0x80 < p) by (nonlinear_arith);
        assert(p > 0) by {
            lemma_pow128_pos((k - 1) as nat);
        }
        lemma_varint_len_bound(v / 0x80, (k - 1) as nat);
    }
}

proof fn lemma_pow128_pos(k: nat)
    ensures
        pow128(k) >= 1,
    decreases k,
{
    if k > 0 {
        lemma_pow128_pos((k - 1) as nat);
    }
}

/// Law: a `u32` always encodes within five bytes, a `u64` within ten.
pub proof fn lemma_varint_len(v: nat)
    ensures
        v < 0x100000000 ==> varint_bytes(v).len() <= 5,
        v < 0x10000000000000000 ==> varint_bytes(v).len() <= 10,
{
    assert(pow128(0nat) == 1);
    assert(pow128(1nat) == 0x80 * pow128(0nat));
    assert(pow128(2nat) == 0x80 * pow128(1nat));
    assert(pow128(3nat) == 0x80 * pow128(2nat));
    assert(pow128(4nat) == 0x80 * pow128(3nat));
    assert(pow128(5nat) == 0x80 * pow128(4nat));
    assert(pow128(6nat) == 0x80 * pow128(5nat));
    assert(pow128(7nat) == 0x80 * pow128(6nat));
    assert(pow128(8nat) == 0x80 * pow128(7nat));
    assert(pow128(9nat) == 0x80 * pow128(8nat));
    assert(pow128(10nat) == 0x80 * pow128(9nat));
    if v < 0x100000000 {
        lemma_varint_len_bound(v, 5);
    }
    if v < 0x10000000000000000 {
        lemma_varint_len_bound(v, 10);
    }
}

} // verus!
