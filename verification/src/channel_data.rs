//! Modded channels for custom data.

use vstd::prelude::*;
use vstd::utf8::encode_utf8;
use crate::decode::{DecodeCursor, DecodeError};
use crate::ident::Ident;
use crate::strings::{decode_string, encode_str, str_eq, string_wire, string_wire_ok,
    string_wire_used};

verus! {

/// Custom data sent over modded channels.
#[derive(Debug)]
pub enum ChannelData {
    /// The `minecraft:brand` channel used by the vanilla game to tell the
    /// peer what distribution of the game they are playing on.
    Brand {
        /// The brand (vanilla, or a modded distribution).
        brand: String,
    },
    /// Some other channel unused by the vanilla game.
    Custom {
        /// The channel ID.
        channel: Ident,
        /// The payload data.
        data: Vec<u8>,
    },
}

impl ChannelData {
    /// Every held string fits the wire format's length prefix.
    pub open spec fn wf(&self) -> bool {
        match self {
            ChannelData::Brand { brand } => encode_utf8(brand@).len() < 0x100000000,
            ChannelData::Custom { channel, data } => channel.wf() && channel@.len()
                < 0x100000000,
        }
    }

    /// Appends the wire form: the channel ID string, then the payload;
    /// brand payloads are a length-prefixed string, custom payloads raw.
    pub fn encode(&self, out: &mut Vec<u8>)
        requires
            self.wf(),
        ensures
            match self {
                ChannelData::Brand { brand } => final(out)@ == old(out)@ + string_wire(
                    "minecraft:brand"@,
                ) + string_wire(brand@),
                ChannelData::Custom { channel, data } => final(out)@ == old(out)@
                    + string_wire(channel@) + data@,
            },
    {
        match self {
            ChannelData::Brand { brand } => {
                proof {
                    reveal_strlit("minecraft:brand");
                    vstd::utf8::is_ascii_chars_encode_utf8("minecraft:brand"@);
                }
                encode_str("minecraft:brand", out);
                encode_str(brand.as_str(), out);
                proof {
                    assert(final(out)@ =~= old(out)@ + string_wire("minecraft:brand"@)
                        + string_wire(brand@));
                }
            },
            ChannelData::Custom { channel, data } => {
                proof {
                    channel.lemma_wf();
                    vstd::utf8::is_ascii_chars_encode_utf8(channel@);
                }
                channel.encode(out);
                let ghost mid = out@;
                let mut i: usize = 0;
                while i < data.len()
                    invariant
                        i <= data@.len(),
                        out@ == mid + data@.take(i as int),
                    decreases data@.len() - i,
                {
                    out.push(data[i]);
                    i = i + 1;
                    proof {
                        assert(out@ =~= mid + data@.take(i as int));
                    }
                }
                proof {
                    assert(data@.take(data@.len() as int) =~= data@);
                    assert(final(out)@ =~= old(out)@ + string_wire(channel@) + data@);
                }
            },
        }
    }

    /// Reads the wire form: a channel ID string, then the brand string for
    /// the vanilla brand channel, or the whole rest of the input as a raw
    /// payload for any other channel.
    pub fn decode(cur: &mut DecodeCursor) -> (r: Result<ChannelData, ChannelDataError>)
        requires
            old(cur).wf(),
        ensures
            final(cur).wf(),
            final(cur).all_bytes() == old(cur).all_bytes(),
            r matches Ok(c) ==> ({
                let rem = old(cur).rest();
                let u1 = string_wire_used(rem);
                match c {
                    ChannelData::Brand { brand } => string_wire_ok(
                        rem,
                        "minecraft:brand"@,
                    ) && string_wire_ok(rem.skip(u1), brand@) && final(cur).rest()
                        == rem.skip(u1).skip(string_wire_used(rem.skip(u1))),
                    ChannelData::Custom { channel, data } => string_wire_ok(rem, channel@)
                        && channel@ != "minecraft:brand"@ && channel.wf() && data@
                        == rem.skip(u1) && final(cur).rest().len() == 0,
                }
            }),
    {
        let name = match decode_string(cur) {
            Ok(s) => s,
            Err(e) => {
                return Err(ChannelDataError::Text(e));
            },
        };
        if str_eq(name.as_str(), "minecraft:brand") {
            let brand = match decode_string(cur) {
                Ok(s) => s,
                Err(e) => {
                    return Err(ChannelDataError::Text(e));
                },
            };
            Ok(ChannelData::Brand { brand })
        } else {
            let channel = match Ident::new_checked(name.as_str()) {
                Ok(id) => id,
                Err(e) => {
                    return Err(ChannelDataError::Channel(e));
                },
            };
            let n = cur.remaining();
            let rest = match cur.take_bytes(n) {
                Ok(b) => b,
                Err(e) => {
                    proof {
                        assert(false);
                    }
                    vstd::pervasive::unreached()
                },
            };
            let data = vstd::slice::slice_to_vec(rest);
            proof {
                assert(data@ =~= old(cur).rest().skip(string_wire_used(old(cur).rest())));
            }
            Ok(ChannelData::Custom { channel, data })
        }
    }
}

/// Why channel data could not be decoded.
#[derive(Clone, Copy, PartialEq, Eq, Structural, Debug)]
pub enum ChannelDataError {
    /// The channel ID string could not be read.
    Text(DecodeError),
    /// The channel ID string was not a valid identifier.
    Channel(crate::ident::IdentValidateError),
}

} // verus!
