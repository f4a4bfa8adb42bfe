//! Colours.

use vstd::prelude::*;
use vstd::string::StringExecFns;
use crate::strings::str_eq;

verus! {

/// The value of one hexadecimal digit, upper or lower case.
pub open spec fn hex_val(c: char) -> Option<u8> {
    if '0' <= c && c <= '9' {
        Some((c as u8 - 48) as u8)
    } else if 'a' <= c && c <= 'f' {
        Some((c as u8 - 87) as u8)
    } else if 'A' <= c && c <= 'F' {
        Some((c as u8 - 55) as u8)
    } else {
        None
    }
}

/// The lower-case hexadecimal digit for a value below 16.
pub open spec fn hex_char(v: u8) -> char {
    if v < 10 {
        ((v + 48) as u8) as char
    } else {
        ((v + 87) as u8) as char
    }
}

/// The byte named by two hexadecimal digits, if both are digits.
pub open spec fn hex_pair(hi: char, lo: char) -> Option<u8> {
    match (hex_val(hi), hex_val(lo)) {
        (Some(h), Some(l)) => Some((h * 16 + l) as u8),
        _ => None,
    }
}

/// Why a colour failed to parse.
#[derive(Clone, Copy, PartialEq, Eq, Structural, Debug)]
pub enum ColourParseError {
    /// A `#` string had the wrong character count.
    BadLength,
    /// A character was not a hexadecimal digit.
    BadDigit,
    /// The string was neither a `#` string nor a known colour name.
    UnknownName,
}

/// An RGB colour.
#[derive(Clone, Copy, PartialEq, Eq, Structural, Hash, Debug)]
pub struct Rgb {
    /// Red
    pub r: u8,
    /// Green
    pub g: u8,
    /// Blue
    pub b: u8,
}

/// An ARGB colour.
#[derive(Clone, Copy, PartialEq, Eq, Structural, Hash, Debug)]
pub struct Argb {
    /// Alpha (opacity)
    pub a: u8,
    /// Red
    pub r: u8,
    /// Green
    pub g: u8,
    /// Blue
    pub b: u8,
}

/// The colour a vanilla name denotes, if any.
pub open spec fn colour_by_name(s: Seq<char>) -> Option<Rgb> {
    if s == "black"@ {
        Some(Rgb { r: 0, g: 0, b: 0 })
    } else if s == "dark_blue"@ {
        Some(Rgb { r: 0, g: 0, b: 170 })
    } else if s == "dark_green"@ {
        Some(Rgb { r: 0, g: 170, b: 0 })
    } else if s == "dark_cyan"@ || s == "dark_aqua"@ {
        Some(Rgb { r: 0, g: 170, b: 170 })
    } else if s == "dark_red"@ {
        Some(Rgb { r: 170, g: 0, b: 0 })
    } else if s == "purple"@ || s == "dark_purple"@ {
        Some(Rgb { r: 170, g: 0, b: 170 })
    } else if s == "orange"@ || s == "gold"@ {
        Some(Rgb { r: 255, g: 170, b: 0 })
    } else if s == "grey"@ || s == "gray"@ {
        Some(Rgb { r: 170, g: 170, b: 170 })
    } else if s == "dark_grey"@ || s == "dark_gray"@ {
        Some(Rgb { r: 85, g: 85, b: 85 })
    } else if s == "blue"@ {
        Some(Rgb { r: 85, g: 85, b: 255 })
    } else if s == "green"@ {
        Some(Rgb { r: 85, g: 255, b: 85 })
    } else if s == "cyan"@ || s == "aqua"@ {
        Some(Rgb { r: 85, g: 255, b: 255 })
    } else if s == "red"@ {
        Some(Rgb { r: 255, g: 85, b: 85 })
    } else if s == "pink"@ || s == "light_purple"@ {
        Some(Rgb { r: 255, g: 85, b: 255 })
    } else if s == "yellow"@ {
        Some(Rgb { r: 255, g: 255, b: 85 })
    } else if s == "white"@ {
        Some(Rgb { r: 255, g: 255, b: 255 })
    } else {
        None
    }
}

/// Whether `c` is a hexadecimal digit, and its value.
fn hex_digit(c: char) -> (r: Option<u8>)
    ensures
        r == hex_val(c),
{
    if c >= '0' && c <= '9' {
        Some(c as u8 - 48)
    } else if c >= 'a' && c <= 'f' {
        Some(c as u8 - 87)
    } else if c >= 'A' && c <= 'F' {
        Some(c as u8 - 55)
    } else {
        None
    }
}

/// Appends the two lower-case hexadecimal digits of `v`.
fn push_hex_byte(v: u8, out: &mut String)
    ensures
        final(out)@ == old(out)@ + seq![hex_char(v / 16), hex_char(v % 16)],
{
    out.append(hex_char_str(v / 16));
    out.append(hex_char_str(v % 16));
    proof {
        assert(final(out)@ =~= old(out)@ + seq![hex_char(v / 16), hex_char(v % 16)]);
    }
}

/// The one-character string of a lower-case hexadecimal digit.
fn hex_char_str(v: u8) -> (r: &'static str)
    requires
        v < 16,
    ensures
        r@ == seq![hex_char(v)],
{
    proof {
        reveal_strlit("0");
        reveal_strlit("1");
        reveal_strlit("2");
        reveal_strlit("3");
        reveal_strlit("4");
        reveal_strlit("5");
        reveal_strlit("6");
        reveal_strlit("7");
        reveal_strlit("8");
        reveal_strlit("9");
        reveal_strlit("a");
        reveal_strlit("b");
        reveal_strlit("c");
        reveal_strlit("d");
        reveal_strlit("e");
        reveal_strlit("f");
    }
    match v {
        0 => "0",
        1 => "1",
        2 => "2",
        3 => "3",
        4 => "4",
        5 => "5",
        6 => "6",
        7 => "7",
        8 => "8",
        9 => "9",
        10 => "a",
        11 => "b",
        12 => "c",
        13 => "d",
        14 => "e",
        _ => "f",
    }
}

impl Rgb {
    /// Create a new `Rgb` from a red, green, and blue value.
    pub fn new(r: u8, g: u8, b: u8) -> (c: Self)
        ensures
            c == (Rgb { r, g, b }),
    {
        Rgb { r, g, b }
    }

    /// Create a new `Rgb` by decoding a `u32` as `0x00RRGGBB`.
    pub fn from_u32(v: u32) -> (c: Self)
        ensures
            c.r == (v >> 16) & 0xFF,
            c.g == (v >> 8) & 0xFF,
            c.b == v & 0xFF,
    {
        proof {
            assert((v >> 16) & 0xFF < 256 && (v >> 8) & 0xFF < 256 && v & 0xFF < 256)
                by (bit_vector);
        }
        Rgb {
            r: ((v >> 16) & 0xFF) as u8,
            g: ((v >> 8) & 0xFF) as u8,
            b: (v & 0xFF) as u8,
        }
    }

    /// Create a new greyscale `Rgb` with a brightness.
    pub fn splat(v: u8) -> (c: Self)
        ensures
            c == (Rgb { r: v, g: v, b: v }),
    {
        Rgb { r: v, g: v, b: v }
    }

    /// Convert this `Rgb` to an `Argb` with the given alpha.
    pub fn with_alpha(self, a: u8) -> (c: Argb)
        ensures
            c == (Argb { a, r: self.r, g: self.g, b: self.b }),
    {
        Argb { a, r: self.r, g: self.g, b: self.b }
    }

    /// Convert this `Rgb` to a fully opaque `Argb`.
    pub fn opaque(self) -> (c: Argb)
        ensures
            c == (Argb { a: 255, r: self.r, g: self.g, b: self.b }),
    {
        Argb { a: 255, r: self.r, g: self.g, b: self.b }
    }

    /// Encodes this `Rgb` as a `u32` of the form `0x00RRGGBB`.
    pub fn to_u32(self) -> (v: u32)
        ensures
            v == ((self.r as u32) << 16) | ((self.g as u32) << 8) | (self.b as u32),
    {
        ((self.r as u32) << 16) | ((self.g as u32) << 8) | (self.b as u32)
    }

    /// Parses `#rrggbb`, or one of the vanilla colour names.
    pub fn from_hex_or_name(s: &str) -> (r: Result<Self, ColourParseError>)
        ensures
            ({
                let sv = s@;
                if sv.len() >= 1 && sv[0] == '#' {
                    if sv.len() != 7 {
                        r == Err::<Rgb, ColourParseError>(ColourParseError::BadLength)
                    } else {
                        match (hex_pair(sv[1], sv[2]), hex_pair(sv[3], sv[4]), hex_pair(
                            sv[5],
                            sv[6],
                        )) {
                            (Some(cr), Some(cg), Some(cb)) => r == Ok::<
                                Rgb,
                                ColourParseError,
                            >(Rgb { r: cr, g: cg, b: cb }),
                            _ => r == Err::<Rgb, ColourParseError>(
                                ColourParseError::BadDigit,
                            ),
                        }
                    }
                } else {
                    match colour_by_name(sv) {
                        Some(c) => r == Ok::<Rgb, ColourParseError>(c),
                        None => r == Err::<Rgb, ColourParseError>(
                            ColourParseError::UnknownName,
                        ),
                    }
                }
            }),
    {
        let n = s.unicode_len();
        if n >= 1 && s.get_char(0) == '#' {
            if n != 7 {
                return Err(ColourParseError::BadLength);
            }
            let h1 = hex_digit(s.get_char(1));
            let h2 = hex_digit(s.get_char(2));
            let h3 = hex_digit(s.get_char(3));
            let h4 = hex_digit(s.get_char(4));
            let h5 = hex_digit(s.get_char(5));
            let h6 = hex_digit(s.get_char(6));
            match (h1, h2, h3, h4, h5, h6) {
                (Some(a), Some(b), Some(c), Some(d), Some(e), Some(f)) => Ok(
                    Rgb { r: a * 16 + b, g: c * 16 + d, b: e * 16 + f },
                ),
                _ => Err(ColourParseError::BadDigit),
            }
        } else {
            match Self::by_name(s) {
                Some(c) => Ok(c),
                None => Err(ColourParseError::UnknownName),
            }
        }
    }

    /// Looks a colour up by its vanilla name.
    pub fn by_name(s: &str) -> (r: Option<Self>)
        ensures
            r == colour_by_name(s@),
    {
        if str_eq(s, "black") {
            Some(Rgb { r: 0, g: 0, b: 0 })
        } else if str_eq(s, "dark_blue") {
            Some(Rgb { r: 0, g: 0, b: 170 })
        } else if str_eq(s, "dark_green") {
            Some(Rgb { r: 0, g: 170, b: 0 })
        } else if str_eq(s, "dark_cyan") || str_eq(s, "dark_aqua") {
            Some(Rgb { r: 0, g: 170, b: 170 })
        } else if str_eq(s, "dark_red") {
            Some(Rgb { r: 170, g: 0, b: 0 })
        } else if str_eq(s, "purple") || str_eq(s, "dark_purple") {
            Some(Rgb { r: 170, g: 0, b: 170 })
        } else if str_eq(s, "orange") || str_eq(s, "gold") {
            Some(Rgb { r: 255, g: 170, b: 0 })
        } else if str_eq(s, "grey") || str_eq(s, "gray") {
            Some(Rgb { r: 170, g: 170, b: 170 })
        } else if str_eq(s, "dark_grey") || str_eq(s, "dark_gray") {
            Some(Rgb { r: 85, g: 85, b: 85 })
        } else if str_eq(s, "blue") {
            Some(Rgb { r: 85, g: 85, b: 255 })
        } else if str_eq(s, "green") {
            Some(Rgb { r: 85, g: 255, b: 85 })
        } else if str_eq(s, "cyan") || str_eq(s, "aqua") {
            Some(Rgb { r: 85, g: 255, b: 255 })
        } else if str_eq(s, "red") {
            Some(Rgb { r: 255, g: 85, b: 85 })
        } else if str_eq(s, "pink") || str_eq(s, "light_purple") {
            Some(Rgb { r: 255, g: 85, b: 255 })
        } else if str_eq(s, "yellow") {
            Some(Rgb { r: 255, g: 255, b: 85 })
        } else if str_eq(s, "white") {
            Some(Rgb { r: 255, g: 255, b: 255 })
        } else {
            None
        }
    }

    /// Encodes this `Rgb` as a `#rrggbb` string of lower-case digits.
    pub fn to_hex(&self) -> (r: String)
        ensures
            r@ == seq![
                '#',
                hex_char(self.r / 16),
                hex_char(self.r % 16),
                hex_char(self.g / 16),
                hex_char(self.g % 16),
                hex_char(self.b / 16),
                hex_char(self.b % 16),
            ],
    {
        let mut out = String::from_str("#");
        proof {
            reveal_strlit("#");
            assert("#"@ =~= seq!['#']);
        }
        push_hex_byte(self.r, &mut out);
        push_hex_byte(self.g, &mut out);
        push_hex_byte(self.b, &mut out);
        proof {
            assert(out@ =~= seq![
                '#',
                hex_char(self.r / 16),
                hex_char(self.r % 16),
                hex_char(self.g / 16),
                hex_char(self.g % 16),
                hex_char(self.b / 16),
                hex_char(self.b % 16),
            ]);
        }
        out
    }
}

/// Law: packing a colour into a `u32` and decoding it restores the colour,
/// and decoding then packing restores the low 24 bits.
pub proof fn lemma_rgb_u32_round_trip(c: Rgb, v: u32)
    ensures
        (((c.r as u32) << 16) | ((c.g as u32) << 8) | (c.b as u32)) >> 16 & 0xFF
            == c.r,
        (((c.r as u32) << 16) | ((c.g as u32) << 8) | (c.b as u32)) >> 8 & 0xFF == c.g,
        (((c.r as u32) << 16) | ((c.g as u32) << 8) | (c.b as u32)) & 0xFF == c.b,
        ((((v >> 16) & 0xFF) << 16) | (((v >> 8) & 0xFF) << 8) | (v & 0xFF)) == v
            & 0xFFFFFF,
{
    let r = c.r;
    let g = c.g;
    let b = c.b;
    assert((((r as u32) << 16) | ((g as u32) << 8) | (b as u32)) >> 16 & 0xFF == r && (((
    r as u32) << 16) | ((g as u32) << 8) | (b as u32)) >> 8 & 0xFF == g && (((r as u32)
        << 16) | ((g as u32) << 8) | (b as u32)) & 0xFF == b) by (bit_vector);
    assert(((((v >> 16) & 0xFF) << 16) | (((v >> 8) & 0xFF) << 8) | (v & 0xFF)) == v
        & 0xFFFFFF) by (bit_vector);
}

impl Argb {
    /// Create a new `Argb` from an alpha, red, green, and blue value.
    pub fn new(a: u8, r: u8, g: u8, b: u8) -> (c: Self)
        ensures
            c == (Argb { a, r, g, b }),
    {
        Argb { a, r, g, b }
    }

    /// Create a new `Argb` by decoding a `u32` as `0xAARRGGBB`.
    pub fn from_u32(v: u32) -> (c: Self)
        ensures
            c.a == (v >> 24) & 0xFF,
            c.r == (v >> 16) & 0xFF,
            c.g == (v >> 8) & 0xFF,
            c.b == v & 0xFF,
    {
        proof {
            assert((v >> 24) & 0xFF < 256 && (v >> 16) & 0xFF < 256 && (v >> 8) & 0xFF
                < 256 && v & 0xFF < 256) by (bit_vector);
        }
        Argb {
            a: ((v >> 24) & 0xFF) as u8,
            r: ((v >> 16) & 0xFF) as u8,
            g: ((v >> 8) & 0xFF) as u8,
            b: (v & 0xFF) as u8,
        }
    }

    /// Create a new greyscale `Argb` with an alpha and brightness.
    pub fn splat(a: u8, v: u8) -> (c: Self)
        ensures
            c == (Argb { a, r: v, g: v, b: v }),
    {
        Argb { a, r: v, g: v, b: v }
    }

    /// Convert this `Argb` to an `Rgb` by removing the alpha.
    pub fn without_alpha(self) -> (c: Rgb)
        ensures
            c == (Rgb { r: self.r, g: self.g, b: self.b }),
    {
        Rgb { r: self.r, g: self.g, b: self.b }
    }

    /// Encodes this `Argb` as a `u32` of the form `0xAARRGGBB`.
    pub fn to_u32(self) -> (v: u32)
        ensures
            v == ((self.a as u32) << 24) | ((self.r as u32) << 16) | ((
            self.g as u32) << 8) | (self.b as u32),
    {
        ((self.a as u32) << 24) | ((self.r as u32) << 16) | ((self.g as u32) << 8) | (
        self.b as u32)
    }

    /// Parses `#aarrggbb` with lower- or upper-case digits.
    pub fn from_hex(s: &str) -> (r: Result<Self, ColourParseError>)
        ensures
            ({
                let sv = s@;
                if !(sv.len() >= 1 && sv[0] == '#') {
                    r == Err::<Argb, ColourParseError>(ColourParseError::UnknownName)
                } else if sv.len() != 9 {
                    r == Err::<Argb, ColourParseError>(ColourParseError::BadLength)
                } else {
                    match (hex_pair(sv[1], sv[2]), hex_pair(sv[3], sv[4]), hex_pair(
                        sv[5],
                        sv[6],
                    ), hex_pair(sv[7], sv[8])) {
                        (Some(ca), Some(cr), Some(cg), Some(cb)) => r == Ok::<
                            Argb,
                            ColourParseError,
                        >(Argb { a: ca, r: cr, g: cg, b: cb }),
                        _ => r == Err::<Argb, ColourParseError>(
                            ColourParseError::BadDigit,
                        ),
                    }
                }
            }),
    {
        let n = s.unicode_len();
        if !(n >= 1 && s.get_char(0) == '#') {
            return Err(ColourParseError::UnknownName);
        }
        if n != 9 {
            return Err(ColourParseError::BadLength);
        }
        let h1 = hex_digit(s.get_char(1));
        let h2 = hex_digit(s.get_char(2));
        let h3 = hex_digit(s.get_char(3));
        let h4 = hex_digit(s.get_char(4));
        let h5 = hex_digit(s.get_char(5));
        let h6 = hex_digit(s.get_char(6));
        let h7 = hex_digit(s.get_char(7));
        let h8 = hex_digit(s.get_char(8));
        match (h1, h2, h3, h4, h5, h6, h7, h8) {
            (Some(a), Some(b), Some(c), Some(d), Some(e), Some(f), Some(g), Some(h)) => Ok(
                Argb { a: a * 16 + b, r: c * 16 + d, g: e * 16 + f, b: g * 16 + h },
            ),
            _ => Err(ColourParseError::BadDigit),
        }
    }

    /// Encodes this `Argb` as a `#aarrggbb` string of lower-case digits.
    pub fn to_hex(&self) -> (r: String)
        ensures
            r@ == seq![
                '#',
                hex_char(self.a / 16),
                hex_char(self.a % 16),
                hex_char(self.r / 16),
                hex_char(self.r % 16),
                hex_char(self.g / 16),
                hex_char(self.g % 16),
                hex_char(self.b / 16),
                hex_char(self.b % 16),
            ],
    {
        let mut out = String::from_str("#");
        proof {
            reveal_strlit("#");
            assert("#"@ =~= seq!['#']);
        }
        push_hex_byte(self.a, &mut out);
        push_hex_byte(self.r, &mut out);
        push_hex_byte(self.g, &mut out);
        push_hex_byte(self.b, &mut out);
        proof {
            assert(out@ =~= seq![
                '#',
                hex_char(self.a / 16),
                hex_char(self.a % 16),
                hex_char(self.r / 16),
                hex_char(self.r % 16),
                hex_char(self.g / 16),
                hex_char(self.g % 16),
                hex_char(self.b / 16),
                hex_char(self.b % 16),
            ]);
        }
        out
    }
}

} // verus!
