//! Namespaced resource identifiers.
//!
//! An identifier has the text form `namespace:path`. Both sides are ASCII;
//! the namespace and every `/`-separated path segment are non-empty and use
//! only `[a-z0-9._-]`. The value stores the joined string together with the
//! byte offset of the `:` separator.

use vstd::prelude::*;
use vstd::string::{StringSliceAdditionalSpecFns, StrSliceExecFns, StringExecFns};
use vstd::utf8::{is_ascii_chars, is_ascii_chars_encode_utf8, char_u32_cast, encode_utf8};
use crate::decode::{DecodeCursor, DecodeError};
use crate::strings::{decode_string, encode_str, string_wire, string_wire_ok,
    string_wire_err, string_wire_used};

verus! {

/// Returned by `Ident` constructors when invalid input is provided.
#[derive(Clone, Copy, PartialEq, Eq, Structural, Debug)]
pub enum IdentValidateError {
    /// The identifier contains non-ASCII characters.
    NotAscii,
    /// The identifier contains an empty component.
    EmptyComponent,
    /// The identifier contains an invalid character.
    BadChar(char),
    /// The identifier is missing a separator (`:`).
    NoSeparator,
}

/// Whether `c` may appear inside a namespace or path component.
pub open spec fn is_component_char(c: char) -> bool {
    ('a' <= c && c <= 'z') || ('0' <= c && c <= '9') || c == '.' || c == '-' || c == '_'
}

/// Scan of the path part of an identifier from index `i`, with `k`
/// characters already seen in the current `/`-separated component.
pub open spec fn path_check(s: Seq<char>, i: int, k: int) -> Result<
    (),
    IdentValidateError,
>
    decreases s.len() - i,
{
    if i < 0 || i >= s.len() {
        if k == 0 {
            Err(IdentValidateError::EmptyComponent)
        } else {
            Ok(())
        }
    } else if s[i] == '/' {
        if k == 0 {
            Err(IdentValidateError::EmptyComponent)
        } else {
            path_check(s, i + 1, 0)
        }
    } else if is_component_char(s[i]) {
        path_check(s, i + 1, k + 1)
    } else {
        Err(IdentValidateError::BadChar(s[i]))
    }
}

/// Scan of the namespace part from index `i`; the namespace began at
/// `first`, so a separator found there means it is empty.
pub open spec fn ns_check(s: Seq<char>, i: int, first: int) -> Result<
    int,
    IdentValidateError,
>
    decreases s.len() - i,
{
    if i < 0 || i >= s.len() {
        Err(IdentValidateError::NoSeparator)
    } else if s[i] == ':' {
        if i == first {
            Err(IdentValidateError::EmptyComponent)
        } else {
            match path_check(s, i + 1, 0) {
                Ok(u) => Ok(i),
                Err(e) => Err(e),
            }
        }
    } else if is_component_char(s[i]) {
        ns_check(s, i + 1, first)
    } else {
        Err(IdentValidateError::BadChar(s[i]))
    }
}

/// The full validation of a joined identifier: its separator index on
/// success, or the first error the scan meets.
pub open spec fn ident_check(s: Seq<char>) -> Result<int, IdentValidateError> {
    if !is_ascii_chars(s) {
        Err(IdentValidateError::NotAscii)
    } else {
        ns_check(s, 0, 0)
    }
}

/// On success, the separator lies strictly between `first` and the end,
/// everything before it is made of component characters, and the rest
/// passes the path scan.
pub proof fn lemma_ns_check_ok(s: Seq<char>, i: int, first: int)
    requires
        0 <= first <= i,
        ns_check(s, i, first) matches Ok(k),
    ensures
        ns_check(s, i, first) matches Ok(k) ==> i <= k < s.len() && k > first && s[k]
            == ':' && (forall|j: int| i <= j < k ==> is_component_char(#[trigger] s[j]))
            && path_check(s, k + 1, 0) matches Ok(u),
    decreases s.len() - i,
{
    if i < s.len() && s[i] != ':' && is_component_char(s[i]) {
        lemma_ns_check_ok(s, i + 1, first);
    }
}

/// An ASCII character is pinned down by its byte value.
proof fn lemma_ascii_char_eq(c: char, b: u8)
    requires
        c <= '\u{7f}',
        c as u8 == b,
    ensures
        c == b as char,
        b < 128,
{
    assert(c as u32 <= 0x7f);
    assert((c as u32) as u8 == c as u8);
    char_u32_cast(c, c as u32);
}

/// Whether `b` is the ASCII byte of a component character.
fn is_valid_component_byte(b: u8) -> (r: bool)
    requires
        b < 128,
    ensures
        r == is_component_char(b as char),
{
    proof {
        char_u32_cast(b as char, b as u32);
        assert((b as char) as u32 == b as u32);
    }
    (b >= 97 && b <= 122) || (b >= 48 && b <= 57) || b == 46 || b == 45 || b == 95
}

/// Runs the path scan from byte offset `start`.
pub(crate) fn validate_path(s: &str, start: usize) -> (r: Result<(), IdentValidateError>)
    requires
        s.is_ascii(),
        start <= s@.len(),
    ensures
        r == path_check(s@, start as int, 0),
{
    let ghost sv = s@;
    proof {
        is_ascii_chars_encode_utf8(sv);
    }
    let bytes = s.as_bytes();
    let mut i: usize = start;
    let mut k: usize = 0;
    while i < bytes.len()
        invariant
            s.is_ascii(),
            sv == s@,
            bytes@ == s.spec_bytes(),
            bytes@.len() == sv.len(),
            forall|j: int| 0 <= j < sv.len() ==> sv[j] as u8 == bytes@[j],
            start <= i <= bytes@.len(),
            k <= i - start,
            path_check(sv, start as int, 0) == path_check(sv, i as int, k as int),
        decreases bytes@.len() - i,
    {
        let b = bytes[i];
        proof {
            lemma_ascii_char_eq(sv[i as int], b);
        }
        if b == 47 {
            proof {
                assert(sv[i as int] == ':' ==> b == 58);
                assert(sv[i as int] == (47u8 as char));
                char_u32_cast('/', '/' as u32);
                assert(sv[i as int] == '/');
            }
            if k == 0 {
                return Err(IdentValidateError::EmptyComponent);
            }
            k = 0;
        } else if is_valid_component_byte(b) {
            proof {
                assert(sv[i as int] != '/') by {
                    if sv[i as int] == '/' {
                        assert(sv[i as int] as u8 == 47);
                    }
                }
            }
            k = k + 1;
        } else {
            proof {
                assert(sv[i as int] != '/') by {
                    if sv[i as int] == '/' {
                        assert(sv[i as int] as u8 == 47);
                    }
                }
            }
            return Err(IdentValidateError::BadChar(b as char));
        }
        i = i + 1;
    }
    if k == 0 {
        Err(IdentValidateError::EmptyComponent)
    } else {
        Ok(())
    }
}

/// Runs the namespace-then-path scan; the namespace begins at `first`.
pub(crate) fn validate_joined_from(s: &str, first: usize) -> (r: Result<usize, IdentValidateError>)
    requires
        s.is_ascii(),
        first <= s@.len(),
    ensures
        match r {
            Ok(k) => ns_check(s@, first as int, first as int) == Ok::<
                int,
                IdentValidateError,
            >(k as int),
            Err(e) => ns_check(s@, first as int, first as int) == Err::<
                int,
                IdentValidateError,
            >(e),
        },
{
    let ghost sv = s@;
    proof {
        is_ascii_chars_encode_utf8(sv);
    }
    let bytes = s.as_bytes();
    let mut i: usize = first;
    while i < bytes.len()
        invariant
            s.is_ascii(),
            sv == s@,
            bytes@ == s.spec_bytes(),
            bytes@.len() == sv.len(),
            forall|j: int| 0 <= j < sv.len() ==> sv[j] as u8 == bytes@[j],
            first <= i <= bytes@.len(),
            ns_check(sv, first as int, first as int) == ns_check(
                sv,
                i as int,
                first as int,
            ),
        decreases bytes@.len() - i,
    {
        let b = bytes[i];
        proof {
            lemma_ascii_char_eq(sv[i as int], b);
        }
        if b == 58 {
            proof {
                char_u32_cast(':', ':' as u32);
                assert(sv[i as int] == ':');
            }
            if i == first {
                return Err(IdentValidateError::EmptyComponent);
            }
            return match validate_path(s, i + 1) {
                Ok(u) => Ok(i),
                Err(e) => Err(e),
            };
        } else if is_valid_component_byte(b) {
            proof {
                assert(sv[i as int] != ':') by {
                    if sv[i as int] == ':' {
                        assert(sv[i as int] as u8 == 58);
                    }
                }
            }
        } else {
            proof {
                assert(sv[i as int] != ':') by {
                    if sv[i as int] == ':' {
                        assert(sv[i as int] as u8 == 58);
                    }
                }
            }
            return Err(IdentValidateError::BadChar(b as char));
        }
        i = i + 1;
    }
    Err(IdentValidateError::NoSeparator)
}

/// A namespaced resource identifier of the form `namespace:path`.
///
/// Identifiers name everything from asset locations and channel ids to
/// entity types.
#[derive(Clone, Debug)]
pub struct Ident {
    joined: String,
    split: usize,
}

impl Ident {
    /// The joined character sequence `namespace:path`.
    pub closed spec fn view(&self) -> Seq<char> {
        self.joined@
    }

    /// The index of the `:` separator.
    pub closed spec fn sep_index(&self) -> int {
        self.split as int
    }

    /// The stored string passed validation and the stored separator index
    /// is the one the scan found.
    pub closed spec fn wf(&self) -> bool {
        ident_check(self.joined@) == Ok::<int, IdentValidateError>(self.split as int)
    }

    /// A well-formed identifier is ASCII with its separator inside.
    pub proof fn lemma_wf(&self)
        requires
            self.wf(),
        ensures
            is_ascii_chars(self@),
            0 < self.sep_index() < self@.len(),
            self@[self.sep_index()] == ':',
    {
        lemma_ns_check_ok(self@, 0, 0);
    }

    /// Validates `s` and wraps it, or reports the first scan error.
    pub fn new_checked(s: &str) -> (r: Result<Self, IdentValidateError>)
        ensures
            match r {
                Ok(id) => id.wf() && id@ == s@ && ident_check(s@) == Ok::<
                    int,
                    IdentValidateError,
                >(id.sep_index()),
                Err(e) => ident_check(s@) == Err::<int, IdentValidateError>(e),
            },
    {
        if !s.is_ascii() {
            return Err(IdentValidateError::NotAscii);
        }
        match validate_joined_from(s, 0) {
            Ok(k) => Ok(Ident { joined: s.to_owned(), split: k }),
            Err(e) => Err(e),
        }
    }

    /// Wraps a string already known to be a valid identifier, as for
    /// compile-time constants; invalid input is excluded by contract.
    pub fn new(s: &str) -> (r: Self)
        requires
            ident_check(s@) matches Ok(k),
        ensures
            r.wf() && r@ == s@,
    {
        match Self::new_checked(s) {
            Ok(id) => id,
            Err(e) => {
                proof {
                    assert(false);
                }
                vstd::pervasive::unreached()
            },
        }
    }

    /// Builds an identifier from a separated namespace and path.
    pub fn new_from_pair(namespace: &str, path: &str) -> (r: Result<
        Self,
        IdentValidateError,
    >)
        ensures
            ({
                let joined = namespace@ + seq![':'] + path@;
                match r {
                    Ok(id) => id.wf() && id@ == joined && ident_check(joined) == Ok::<
                        int,
                        IdentValidateError,
                    >(id.sep_index()),
                    Err(e) => ident_check(joined) == Err::<int, IdentValidateError>(e),
                }
            }),
    {
        let mut joined = namespace.to_owned();
        joined.append(":");
        joined.append(path);
        proof {
            reveal_strlit(":");
            assert(":"@ =~= seq![':']);
        }
        Self::new_checked(joined.as_str())
    }

    /// The namespace, before the separator.
    pub fn namespace(&self) -> (r: &str)
        requires
            self.wf(),
        ensures
            r@ == self@.take(self.sep_index()),
    {
        proof {
            self.lemma_wf();
        }
        self.joined.as_str().substring_ascii(0, self.split)
    }

    /// The path, after the separator.
    pub fn path(&self) -> (r: &str)
        requires
            self.wf(),
        ensures
            r@ == self@.skip(self.sep_index() + 1),
    {
        proof {
            self.lemma_wf();
        }
        let s = self.joined.as_str();
        let n = s.as_bytes().len();
        proof {
            assert(s.spec_bytes() == encode_utf8(s@));
            is_ascii_chars_encode_utf8(s@);
            assert(n == s@.len());
        }
        let r = s.substring_ascii(self.split + 1, n);
        proof {
            assert(r@ =~= self@.skip(self.sep_index() + 1));
        }
        r
    }


    /// A fresh identifier with the same text and separator.
    pub fn duplicate(&self) -> (r: Ident)
        ensures
            r@ == self@,
            r.sep_index() == self.sep_index(),
            self.wf() ==> r.wf(),
    {
        Ident { joined: self.joined.as_str().to_owned(), split: self.split }
    }

    /// The whole identifier as a string slice.
    pub fn as_str(&self) -> (r: &str)
        ensures
            r@ == self@,
    {
        self.joined.as_str()
    }

    /// Appends the wire form: byte length prefix, then the UTF-8 body.
    pub fn encode(&self, out: &mut Vec<u8>)
        requires
            self.wf(),
            self@.len() < 0x100000000,
        ensures
            final(out)@ == old(out)@ + string_wire(self@),
    {
        proof {
            self.lemma_wf();
            is_ascii_chars_encode_utf8(self@);
        }
        encode_str(self.joined.as_str(), out);
    }

    /// Reads a length-prefixed string and validates it as an identifier.
    pub fn decode(cur: &mut DecodeCursor) -> (r: Result<Self, IdentDecodeError>)
        requires
            old(cur).wf(),
        ensures
            final(cur).wf(),
            final(cur).all_bytes() == old(cur).all_bytes(),
            match r {
                Ok(id) => string_wire_ok(old(cur).rest(), id@) && id.wf()
                    && final(cur).rest() == old(cur).rest().skip(
                    string_wire_used(old(cur).rest())),
                Err(e) => match e {
                    IdentDecodeError::Text(de) => string_wire_err(old(cur).rest(), de),
                    IdentDecodeError::Validate(ve) => exists|s: Seq<char>|
                        string_wire_ok(old(cur).rest(), s) && ident_check(s) == Err::<
                            int,
                            IdentValidateError,
                        >(ve),
                },
            },
    {
        let text = match decode_string(cur) {
            Ok(t) => t,
            Err(e) => {
                return Err(IdentDecodeError::Text(e));
            },
        };
        match Self::new_checked(text.as_str()) {
            Ok(id) => Ok(id),
            Err(e) => Err(IdentDecodeError::Validate(e)),
        }
    }
}

/// Returned by packet decoders when an `Ident` was not decoded
/// successfully.
#[derive(Clone, Copy, PartialEq, Eq, Structural, Debug)]
pub enum IdentDecodeError {
    /// The read data was not a valid string.
    Text(DecodeError),
    /// The string was not a valid identifier.
    Validate(IdentValidateError),
}

} // verus!
