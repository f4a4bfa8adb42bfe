//! Namespaced resource identifier tags.
//!
//! A tag identifier has the text form `#namespace:path`: a `#` prefix, then
//! the same namespace and path rules as a plain identifier, with the
//! namespace required to be non-empty.

use vstd::prelude::*;
use vstd::string::{StringSliceAdditionalSpecFns, StrSliceExecFns, StringExecFns};
use vstd::utf8::{is_ascii_chars, is_ascii_chars_encode_utf8, char_u32_cast, encode_utf8};
use crate::decode::{DecodeCursor, DecodeError};
use crate::ident::{IdentValidateError, ns_check, lemma_ns_check_ok, validate_joined_from};
use crate::strings::{decode_string, encode_str, string_wire, string_wire_ok,
    string_wire_err, string_wire_used};

verus! {

/// Returned by `TagIdent` constructors when invalid input is provided.
#[derive(Clone, Copy, PartialEq, Eq, Structural, Debug)]
pub enum TagIdentValidateError {
    /// The tag identifier contains non-ASCII characters.
    NotAscii,
    /// The identifier is missing an octothorpe (`#`) as the first character.
    NoTag,
    /// The tag identifier contains an empty component.
    EmptyComponent,
    /// The tag identifier contains an invalid character.
    BadChar(char),
    /// The tag identifier is missing a separator (`:`).
    NoSeparator,
}

/// The tag-flavoured form of a plain identifier scan error.
pub open spec fn tag_err(e: IdentValidateError) -> TagIdentValidateError {
    match e {
        IdentValidateError::NotAscii => TagIdentValidateError::NotAscii,
        IdentValidateError::EmptyComponent => TagIdentValidateError::EmptyComponent,
        IdentValidateError::BadChar(c) => TagIdentValidateError::BadChar(c),
        IdentValidateError::NoSeparator => TagIdentValidateError::NoSeparator,
    }
}

/// The full validation of a joined tag identifier: its separator index on
/// success, or the first error the scan meets.
pub open spec fn tag_ident_check(s: Seq<char>) -> Result<int, TagIdentValidateError> {
    if !is_ascii_chars(s) {
        Err(TagIdentValidateError::NotAscii)
    } else if s.len() == 0 {
        Err(TagIdentValidateError::NoSeparator)
    } else if s[0] != '#' {
        Err(TagIdentValidateError::NoTag)
    } else {
        match ns_check(s, 1, 1) {
            Ok(i) => Ok(i),
            Err(e) => Err(tag_err(e)),
        }
    }
}

/// A namespaced resource identifier tag of the form `#namespace:path`.
///
/// Tag identifiers name groups of asset locations, channel ids, entity
/// types, and the like.
#[derive(Clone, Debug)]
pub struct TagIdent {
    joined: String,
    split: usize,
}

impl TagIdent {
    /// The joined character sequence `#namespace:path`.
    pub closed spec fn view(&self) -> Seq<char> {
        self.joined@
    }

    /// The index of the `:` separator.
    pub closed spec fn sep_index(&self) -> int {
        self.split as int
    }

    /// The stored string passed validation and the stored separator index
    /// is the one the scan found.
    pub closed spec fn wf(&self) -> bool {
        tag_ident_check(self.joined@) == Ok::<int, TagIdentValidateError>(
            self.split as int,
        )
    }

    /// A well-formed tag identifier is ASCII, starts with `#`, and holds
    /// its separator strictly inside.
    pub proof fn lemma_wf(&self)
        requires
            self.wf(),
        ensures
            is_ascii_chars(self@),
            1 < self.sep_index() < self@.len(),
            self@[0] == '#',
            self@[self.sep_index()] == ':',
    {
        lemma_ns_check_ok(self@, 1, 1);
    }

    /// Validates `s` and wraps it, or reports the first scan error.
    pub fn new_checked(s: &str) -> (r: Result<Self, TagIdentValidateError>)
        ensures
            match r {
                Ok(id) => id.wf() && id@ == s@ && tag_ident_check(s@) == Ok::<
                    int,
                    TagIdentValidateError,
                >(id.sep_index()),
                Err(e) => tag_ident_check(s@) == Err::<int, TagIdentValidateError>(e),
            },
    {
        if !s.is_ascii() {
            return Err(TagIdentValidateError::NotAscii);
        }
        let bytes = s.as_bytes();
        proof {
            assert(s.spec_bytes() == encode_utf8(s@));
            is_ascii_chars_encode_utf8(s@);
        }
        if bytes.len() == 0 {
            return Err(TagIdentValidateError::NoSeparator);
        }
        let b0 = bytes[0];
        proof {
            assert(s@[0] as u8 == b0);
            assert(s@[0] <= '\u{7f}');
            assert(s@[0] as u32 <= 0x7f);
            assert((s@[0] as u32) as u8 == s@[0] as u8);
            char_u32_cast(s@[0], s@[0] as u32);
            char_u32_cast('#', '#' as u32);
        }
        if b0 != 35 {
            proof {
                assert(s@[0] != '#');
            }
            return Err(TagIdentValidateError::NoTag);
        }
        proof {
            assert(s@[0] == '#');
        }
        match validate_joined_from(s, 1) {
            Ok(k) => Ok(TagIdent { joined: s.to_owned(), split: k }),
            Err(e) => Err(match e {
                IdentValidateError::NotAscii => TagIdentValidateError::NotAscii,
                IdentValidateError::EmptyComponent => TagIdentValidateError::EmptyComponent,
                IdentValidateError::BadChar(c) => TagIdentValidateError::BadChar(c),
                IdentValidateError::NoSeparator => TagIdentValidateError::NoSeparator,
            }),
        }
    }

    /// Wraps a string already known to be a valid tag identifier, as for
    /// compile-time constants; invalid input is excluded by contract.
    pub fn new(s: &str) -> (r: Self)
        requires
            tag_ident_check(s@) matches Ok(k),
        ensures
            r.wf() && r@ == s@,
    {
        match Self::new_checked(s) {
            Ok(id) => id,
            Err(e) => {
                proof {
                    assert(false);
                }
                vstd::pervasive::unreached()
            },
        }
    }

    /// Builds a tag identifier from a separated namespace and path; the
    /// `#` is added automatically.
    pub fn new_from_pair(namespace: &str, path: &str) -> (r: Result<
        Self,
        TagIdentValidateError,
    >)
        ensures
            ({
                let joined = seq!['#'] + namespace@ + seq![':'] + path@;
                match r {
                    Ok(id) => id.wf() && id@ == joined && tag_ident_check(joined) == Ok::<
                        int,
                        TagIdentValidateError,
                    >(id.sep_index()),
                    Err(e) => tag_ident_check(joined) == Err::<
                        int,
                        TagIdentValidateError,
                    >(e),
                }
            }),
    {
        let mut joined = String::from_str("#");
        joined.append(namespace);
        joined.append(":");
        joined.append(path);
        proof {
            reveal_strlit("#");
            reveal_strlit(":");
            assert("#"@ =~= seq!['#']);
            assert(":"@ =~= seq![':']);
            assert(joined@ =~= seq!['#'] + namespace@ + seq![':'] + path@);
        }
        Self::new_checked(joined.as_str())
    }

    /// The namespace, between the `#` and the separator.
    pub fn namespace(&self) -> (r: &str)
        requires
            self.wf(),
        ensures
            r@ == self@.subrange(1, self.sep_index()),
    {
        proof {
            self.lemma_wf();
        }
        self.joined.as_str().substring_ascii(1, self.split)
    }

    /// The path, after the separator.
    pub fn path(&self) -> (r: &str)
        requires
            self.wf(),
        ensures
            r@ == self@.skip(self.sep_index() + 1),
    {
        proof {
            self.lemma_wf();
        }
        let s = self.joined.as_str();
        let n = s.as_bytes().len();
        proof {
            assert(s.spec_bytes() == encode_utf8(s@));
            is_ascii_chars_encode_utf8(s@);
            assert(n == s@.len());
        }
        let r = s.substring_ascii(self.split + 1, n);
        proof {
            assert(r@ =~= self@.skip(self.sep_index() + 1));
        }
        r
    }

    /// The whole tag identifier as a string slice, `#` included.
    pub fn as_str(&self) -> (r: &str)
        ensures
            r@ == self@,
    {
        self.joined.as_str()
    }

    /// Appends the wire form: byte length prefix, then the UTF-8 body.
    pub fn encode(&self, out: &mut Vec<u8>)
        requires
            self.wf(),
            self@.len() < 0x100000000,
        ensures
            final(out)@ == old(out)@ + string_wire(self@),
    {
        proof {
            self.lemma_wf();
            is_ascii_chars_encode_utf8(self@);
        }
        encode_str(self.joined.as_str(), out);
    }

    /// Reads a length-prefixed string and validates it as a tag
    /// identifier.
    pub fn decode(cur: &mut DecodeCursor) -> (r: Result<Self, TagIdentDecodeError>)
        requires
            old(cur).wf(),
        ensures
            final(cur).wf(),
            final(cur).all_bytes() == old(cur).all_bytes(),
            match r {
                Ok(id) => string_wire_ok(old(cur).rest(), id@) && id.wf()
                    && final(cur).rest() == old(cur).rest().skip(
                    string_wire_used(old(cur).rest())),
                Err(e) => match e {
                    TagIdentDecodeError::Text(de) => string_wire_err(old(cur).rest(), de),
                    TagIdentDecodeError::Validate(ve) => exists|s: Seq<char>|
                        string_wire_ok(old(cur).rest(), s) && tag_ident_check(s) == Err::<
                            int,
                            TagIdentValidateError,
                        >(ve),
                },
            },
    {
        let text = match decode_string(cur) {
            Ok(t) => t,
            Err(e) => {
                return Err(TagIdentDecodeError::Text(e));
            },
        };
        match Self::new_checked(text.as_str()) {
            Ok(id) => Ok(id),
            Err(e) => Err(TagIdentDecodeError::Validate(e)),
        }
    }
}

/// Returned by packet decoders when a `TagIdent` was not decoded
/// successfully.
#[derive(Clone, Copy, PartialEq, Eq, Structural, Debug)]
pub enum TagIdentDecodeError {
    /// The read data was not a valid string.
    Text(DecodeError),
    /// The string was not a valid tag identifier.
    Validate(TagIdentValidateError),
}

} // verus!
