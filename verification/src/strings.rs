//! String helpers shared by the codecs.

use vstd::prelude::*;
use vstd::utf8::{encode_utf8, decode_utf8, valid_utf8, encode_utf8_decode_utf8,
    encode_utf8_valid_utf8};
use crate::decode::{DecodeCursor, DecodeError};
use crate::varint::{varint_bytes, varint_end, varint_value, decode_varint_u32,
    encode_varint_u32, lemma_varint_round_trip, lemma_varint_len};
use vstd::string::StringSliceAdditionalSpecFns;

verus! {

/// Relies on `core::str::from_utf8`: it returns `Ok` exactly on UTF-8-valid
/// byte input, and the returned string view re-encodes to the input bytes.
#[verifier::external_body]
pub fn bytes_to_string(v: &[u8]) -> (r: Option<String>)
    ensures
        r is Some <==> valid_utf8(v@),
        r matches Some(s) ==> encode_utf8(s@) == v@ && s@ == decode_utf8(v@),
    {
    match core::str::from_utf8(v) {
        Ok(s) => Some(s.to_owned()),
        Err(_) => None,
    }
}

/// Compares two string slices for equality of their character sequences.
pub fn str_eq(a: &str, b: &str) -> (r: bool)
    ensures
        r == (a@ == b@),
{
    let ab = a.as_bytes();
    let bb = b.as_bytes();
    if ab.len() != bb.len() {
        proof {
            assert(a@ != b@) by {
                if a@ == b@ {
                    assert(a.spec_bytes() == b.spec_bytes());
                }
            }
        }
        return false;
    }
    let n = ab.len();
    let mut i: usize = 0;
    while i < n
        invariant
            n == ab@.len() == bb@.len(),
            i <= n,
            forall|j: int| 0 <= j < i ==> ab@[j] == bb@[j],
            ab@ == a.spec_bytes(),
            bb@ == b.spec_bytes(),
        decreases n - i,
    {
        if ab[i] != bb[i] {
            proof {
                assert(a.spec_bytes() != b.spec_bytes());
                assert(a@ != b@) by {
                    if a@ == b@ {
                        assert(a.spec_bytes() == b.spec_bytes());
                    }
                }
            }
            return false;
        }
        i = i + 1;
    }
    proof {
        assert(a.spec_bytes() =~= b.spec_bytes());
        encode_utf8_decode_utf8(a@);
        encode_utf8_decode_utf8(b@);
        assert(decode_utf8(encode_utf8(a@)) == decode_utf8(encode_utf8(b@)));
    }
    true
}

/// The wire form of a packet-level string: a variable-width byte-length
/// prefix, then the UTF-8 body.
pub open spec fn string_wire(s: Seq<char>) -> Seq<u8> {
    varint_bytes(encode_utf8(s).len()) + encode_utf8(s)
}

/// Appends the wire form of a string slice: byte length prefix, then body.
pub fn encode_str(s: &str, out: &mut Vec<u8>)
    requires
        encode_utf8(s@).len() < 0x100000000,
    ensures
        final(out)@ == old(out)@ + string_wire(s@),
{
    let bytes = s.as_bytes();
    proof {
        assert(s.spec_bytes() == encode_utf8(s@));
    }
    encode_varint_u32(bytes.len() as u32, out);
    let ghost mid = out@;
    let mut i: usize = 0;
    while i < bytes.len()
        invariant
            i <= bytes@.len(),
            out@ == mid + bytes@.take(i as int),
        decreases bytes@.len() - i,
    {
        out.push(bytes[i]);
        i = i + 1;
        proof {
            assert(out@ =~= mid + bytes@.take(i as int));
        }
    }
    proof {
        assert(bytes@.take(bytes@.len() as int) =~= bytes@);
        assert(final(out)@ =~= old(out)@ + string_wire(s@));
    }
}

/// Success of a string decode on input `rem`: a readable length prefix, a
/// complete UTF-8-valid body decoding to `s`.
pub open spec fn string_wire_ok(rem: Seq<u8>, s: Seq<char>) -> bool {
    let t = varint_end(rem);
    let n = varint_value(rem, t + 1) % 0x100000000;
    let body = rem.skip(t + 1).take(n as int);
    t < 5 && t < rem.len() && rem.skip(t + 1).len() >= n && valid_utf8(body) && s
        == decode_utf8(body) && encode_utf8(s) == body
}

/// The number of bytes a successful string decode consumes from `rem`.
pub open spec fn string_wire_used(rem: Seq<u8>) -> int {
    let t = varint_end(rem);
    let n = varint_value(rem, t + 1) % 0x100000000;
    t + 1 + n
}

/// Failure of a string decode on input `rem` with error `e`.
pub open spec fn string_wire_err(rem: Seq<u8>, e: DecodeError) -> bool {
    let t = varint_end(rem);
    let n = varint_value(rem, t + 1) % 0x100000000;
    let body = rem.skip(t + 1).take(n as int);
    match e {
        DecodeError::Incomplete => (t == rem.len() && rem.len() < 5) || (t < 5 && t
            < rem.len() && rem.skip(t + 1).len() < n),
        DecodeError::VarIntTooLong => t >= 5 && rem.len() >= 5,
        DecodeError::BadUtf8 => t < 5 && t < rem.len() && rem.skip(t + 1).len() >= n
            && !valid_utf8(body),
        _ => false,
    }
}

/// Reads a length-prefixed UTF-8 string.
pub fn decode_string(cur: &mut DecodeCursor) -> (r: Result<String, DecodeError>)
    requires
        old(cur).wf(),
    ensures
        final(cur).wf(),
        final(cur).all_bytes() == old(cur).all_bytes(),
        match r {
            Ok(s) => string_wire_ok(old(cur).rest(), s@) && final(cur).rest() == old(
                cur,
            ).rest().skip(string_wire_used(old(cur).rest())),
            Err(e) => string_wire_err(old(cur).rest(), e),
        },
{
    let ghost rem = old(cur).rest();
    let len32 = match decode_varint_u32(cur) {
        Ok(v) => v,
        Err(e) => {
            return Err(e);
        },
    };
    let len = len32 as usize;
    let body = match cur.take_bytes(len) {
        Ok(b) => b,
        Err(e) => {
            return Err(e);
        },
    };
    match bytes_to_string(body) {
        Some(text) => {
            proof {
                let t = varint_end(rem);
                assert(final(cur).rest() =~= rem.skip(t + 1 + len));
            }
            Ok(text)
        },
        None => Err(DecodeError::BadUtf8),
    }
}

/// Law: the wire form of any string decodes back to the same text, whatever
/// bytes follow it. Together with the contracts of `encode_str` and
/// `decode_string` this yields the encode/decode round trip.
pub proof fn lemma_string_wire_round_trip(s: Seq<char>, rest: Seq<u8>)
    requires
        encode_utf8(s).len() < 0x100000000,
    ensures
        ({
            let w = string_wire(s) + rest;
            let t = varint_end(w);
            let n = varint_value(w, t + 1) % 0x100000000;
            t < 5 && t < w.len() && n == encode_utf8(s).len() && w.skip(t + 1).take(
                n as int,
            ) == encode_utf8(s) && valid_utf8(w.skip(t + 1).take(n as int)) && decode_utf8(
                w.skip(t + 1).take(n as int),
            ) == s && w.skip(t + 1 + n) == rest && string_wire_ok(w, s)
                && string_wire_used(w) == string_wire(s).len()
        }),
{
    let m = encode_utf8(s).len();
    let pre = varint_bytes(m);
    lemma_varint_round_trip(m, encode_utf8(s) + rest);
    lemma_varint_len(m);
    let w = string_wire(s) + rest;
    assert(w =~= pre + (encode_utf8(s) + rest));
    let t = varint_end(w);
    assert(t == pre.len() - 1);
    assert(varint_value(w, t + 1) == m);
    vstd::arithmetic::div_mod::lemma_small_mod(m, 0x100000000);
    assert(w.skip(t + 1) =~= encode_utf8(s) + rest);
    assert(w.skip(t + 1).take(m as int) =~= encode_utf8(s));
    encode_utf8_valid_utf8(s);
    encode_utf8_decode_utf8(s);
    assert(w.skip(t + 1 + m) =~= rest);
}

/// A string decode on input that begins with a canonical string wire form
/// never fails.
pub proof fn lemma_string_wire_no_err(s: Seq<char>, rest: Seq<u8>, e: DecodeError)
    requires
        encode_utf8(s).len() < 0x100000000,
    ensures
        !string_wire_err(string_wire(s) + rest, e),
{
    lemma_string_wire_round_trip(s, rest);
    let w = string_wire(s) + rest;
    let t = varint_end(w);
    let n = varint_value(w, t + 1) % 0x100000000;
    assert(t < 5 && t < w.len());
    assert(n == encode_utf8(s).len());
    assert(w.skip(t + 1).len() >= n);
    assert(valid_utf8(w.skip(t + 1).take(n as int)));
}

/// Splitting input behind a two-part prefix: if `a + b` starts `w`, then
/// `w` is `a` followed by `b` and the rest.
pub proof fn lemma_unsplice(a: Seq<u8>, b: Seq<u8>, w: Seq<u8>)
    requires
        (a + b).is_prefix_of(w),
    ensures
        w == a + (b + w.skip((a + b).len() as int)),
{
    assert forall|i: int| 0 <= i < w.len() implies (a + (b + w.skip(
        (a + b).len() as int,
    )))[i] == w[i] by {
        if i < (a + b).len() {
            assert((a + b)[i] == w.take((a + b).len() as int)[i]);
        }
    }
    assert(w =~= a + (b + w.skip((a + b).len() as int)));
}

} // verus!
