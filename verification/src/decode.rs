//! Incremental decoding over an exact-size byte slice.
//!
//! Every decoder in this crate pulls bytes from a [`DecodeCursor`]. An
//! operation that would need more bytes than remain fails with
//! [`DecodeError::Incomplete`], a condition distinct from any permanent
//! malformed-input failure, so that a streaming transport can buffer more
//! bytes and retry the whole decode.

use vstd::prelude::*;

verus! {

/// Why a wire-format decode attempt failed.
#[derive(Clone, Copy, PartialEq, Eq, Structural, Debug)]
pub enum DecodeError {
    /// The input ended before the value did. Retry once more bytes arrive.
    Incomplete,
    /// A variable-width integer ran past its maximum byte count.
    VarIntTooLong,
    /// A string body was not valid UTF-8.
    BadUtf8,
    /// An ordinal or small field held a value outside its meaning.
    BadOrdinal(u32),
    /// A length prefix exceeded a fixed capacity bound.
    TooLong {
        /// The declared length.
        len: usize,
        /// The capacity that it exceeded.
        max: usize,
    },
}

/// A cursor over a fixed byte slice, advancing as bytes are taken.
pub struct DecodeCursor<'a> {
    bytes: &'a [u8],
    pos: usize,
}

impl<'a> DecodeCursor<'a> {
    /// The cursor never points past the end of its slice.
    pub closed spec fn wf(self) -> bool {
        self.pos <= self.bytes@.len()
    }

    /// The bytes not yet taken.
    pub closed spec fn rest(self) -> Seq<u8> {
        self.bytes@.skip(self.pos as int)
    }

    /// The whole underlying slice, independent of the position.
    pub closed spec fn all_bytes(self) -> Seq<u8> {
        self.bytes@
    }

    /// The current position.
    pub closed spec fn position(self) -> int {
        self.pos as int
    }

    /// Starts a cursor at the beginning of `bytes`.
    pub fn new(bytes: &'a [u8]) -> (r: Self)
        ensures
            r.wf(),
            r.rest() == bytes@,
            r.all_bytes() == bytes@,
            r.position() == 0,
    {
        let r = DecodeCursor { bytes, pos: 0 };
        proof {
            assert(r.rest() =~= bytes@);
        }
        r
    }

    /// How many bytes remain.
    pub fn remaining(&self) -> (n: usize)
        requires
            self.wf(),
        ensures
            n == self.rest().len(),
    {
        self.bytes.len() - self.pos
    }

    /// Takes the next byte, or fails with `Incomplete` at the end of input.
    pub fn take_u8(&mut self) -> (r: Result<u8, DecodeError>)
        requires
            old(self).wf(),
        ensures
            final(self).wf(),
            final(self).all_bytes() == old(self).all_bytes(),
            match r {
                Ok(b) => old(self).rest().len() > 0 && b == old(self).rest()[0]
                    && final(self).position() == old(self).position() + 1
                    && final(self).rest() == old(self).rest().drop_first(),
                Err(e) => e == DecodeError::Incomplete && old(self).rest().len() == 0
                    && *final(self) == *old(self),
            },
    {
        if self.pos < self.bytes.len() {
            let b = self.bytes[self.pos];
            self.pos = self.pos + 1;
            proof {
                assert(final(self).rest() =~= old(self).rest().drop_first());
            }
            Ok(b)
        } else {
            Err(DecodeError::Incomplete)
        }
    }

    /// Takes the next `n` bytes as a subslice, or fails with `Incomplete`.
    pub fn take_bytes(&mut self, n: usize) -> (r: Result<&'a [u8], DecodeError>)
        requires
            old(self).wf(),
        ensures
            final(self).wf(),
            final(self).all_bytes() == old(self).all_bytes(),
            match r {
                Ok(s) => old(self).rest().len() >= n && s@ == old(self).rest().take(n as int)
                    && final(self).position() == old(self).position() + n
                    && final(self).rest() == old(self).rest().skip(n as int),
                Err(e) => e == DecodeError::Incomplete && old(self).rest().len() < n
                    && *final(self) == *old(self),
            },
    {
        if n <= self.bytes.len() - self.pos {
            let s = vstd::slice::slice_subrange(self.bytes, self.pos, self.pos + n);
            self.pos = self.pos + n;
            proof {
                assert(s@ =~= old(self).rest().take(n as int));
                assert(final(self).rest() =~= old(self).rest().skip(n as int));
            }
            Ok(s)
        } else {
            Err(DecodeError::Incomplete)
        }
    }
}

/// Ties a well-formed cursor's remaining length to its position.
pub broadcast proof fn lemma_cursor_rest_len(c: DecodeCursor)
    ensures
        c.wf() ==> #[trigger] c.rest().len() == c.all_bytes().len() - c.position()
            && 0 <= c.position() <= c.all_bytes().len(),
{
}

} // verus!
