//! Length-bounded strings.
//!
//! A `BoundedString<N>` holds UTF-8 text of at most `N` bytes; the capacity
//! is part of the type. On the wire it travels as a variable-width byte
//! length prefix followed by the UTF-8 body. Decoding checks the declared
//! length against `N` before touching the body, so an over-long declaration
//! never causes the body bytes to be read.

use vstd::prelude::*;
use vstd::string::StringSliceAdditionalSpecFns;
use vstd::utf8::{encode_utf8, decode_utf8, valid_utf8};
use crate::decode::{DecodeCursor, DecodeError};
use crate::strings::{bytes_to_string, encode_str, string_wire};
use crate::varint::{varint_end, varint_value, decode_varint_u32};

verus! {

/// The string offered to a bounded string exceeded its capacity.
#[derive(Clone, Copy, PartialEq, Eq, Structural, Debug)]
pub struct BoundedStringTooLong {
    /// The offending byte length.
    pub len: usize,
    /// The capacity that it exceeded.
    pub max: usize,
}

/// A `String`-like value whose UTF-8 byte length never exceeds `N`.
#[derive(Clone, Debug)]
pub struct BoundedString<const N: usize> {
    text: String,
}

impl<const N: usize> BoundedString<N> {
    /// The held character sequence.
    pub closed spec fn view(&self) -> Seq<char> {
        self.text@
    }

    /// The byte length stays within the capacity `N`.
    pub closed spec fn wf(&self) -> bool {
        encode_utf8(self.text@).len() <= N
    }

    /// Copies `s` in, or reports its byte length if it exceeds `N`.
    pub fn try_from(s: &str) -> (r: Result<Self, BoundedStringTooLong>)
        ensures
            match r {
                Ok(bs) => bs@ == s@ && bs.wf() && encode_utf8(s@).len() <= N,
                Err(e) => encode_utf8(s@).len() > N && e.len == encode_utf8(s@).len()
                    && e.max == N,
            },
    {
        let n = s.as_bytes().len();
        proof {
            assert(s.spec_bytes() == encode_utf8(s@));
        }
        if n > N {
            Err(BoundedStringTooLong { len: n, max: N })
        } else {
            Ok(BoundedString { text: s.to_owned() })
        }
    }

    /// The text as a string slice.
    pub fn as_str(&self) -> (r: &str)
        ensures
            r@ == self@,
    {
        self.text.as_str()
    }

    /// The byte length of the text.
    pub fn byte_len(&self) -> (r: usize)
        ensures
            r == encode_utf8(self@).len(),
    {
        let s = self.text.as_str();
        proof {
            assert(s.spec_bytes() == encode_utf8(s@));
        }
        s.as_bytes().len()
    }

    /// Appends the wire form: byte length prefix, then the UTF-8 body.
    pub fn encode(&self, out: &mut Vec<u8>)
        requires
            self.wf(),
            N < 0x100000000,
        ensures
            final(out)@ == old(out)@ + string_wire(self@),
    {
        encode_str(self.text.as_str(), out);
    }

    /// Reads a length-prefixed string, enforcing the capacity before the
    /// body is touched and validating UTF-8 only after the length check.
    pub fn decode(cur: &mut DecodeCursor) -> (r: Result<Self, DecodeError>)
        requires
            old(cur).wf(),
        ensures
            final(cur).wf(),
            final(cur).all_bytes() == old(cur).all_bytes(),
            ({
                let rem = old(cur).rest();
                let t = varint_end(rem);
                let n = varint_value(rem, t + 1) % 0x100000000;
                let body = rem.skip(t + 1).take(n as int);
                match r {
                    Ok(bs) => t < 5 && t < rem.len() && n <= N && rem.skip(t + 1).len()
                        >= n && valid_utf8(body) && bs.wf() && bs@ == decode_utf8(body)
                        && encode_utf8(bs@) == body && final(cur).rest() == rem.skip(
                        t + 1 + n,
                    ),
                    Err(e) => match e {
                        DecodeError::Incomplete => (t == rem.len() && rem.len() < 5) || (
                        t < 5 && t < rem.len() && n <= N && rem.skip(t + 1).len() < n),
                        DecodeError::VarIntTooLong => t >= 5 && rem.len() >= 5,
                        DecodeError::TooLong { len, max } => t < 5 && t < rem.len() && n
                            > N && len == n && max == N && final(cur).rest() == rem.skip(
                            t + 1,
                        ),
                        DecodeError::BadUtf8 => t < 5 && t < rem.len() && n <= N
                            && rem.skip(t + 1).len() >= n && !valid_utf8(body),
                        _ => false,
                    },
                }
            }),
    {
        let ghost rem = old(cur).rest();
        let len32 = match decode_varint_u32(cur) {
            Ok(v) => v,
            Err(e) => {
                return Err(e);
            },
        };
        let len = len32 as usize;
        if len > N {
            return Err(DecodeError::TooLong { len, max: N });
        }
        let body = match cur.take_bytes(len) {
            Ok(b) => b,
            Err(e) => {
                return Err(e);
            },
        };
        match bytes_to_string(body) {
            Some(text) => {
                proof {
                    let t = varint_end(rem);
                    assert(rem.skip(t + 1).take(len as int) =~= rem.skip(t + 1).take(
                        len as int,
                    ));
                    assert(final(cur).rest() =~= rem.skip(t + 1 + len));
                }
                Ok(BoundedString { text })
            },
            None => Err(DecodeError::BadUtf8),
        }
    }
}

} // verus!
