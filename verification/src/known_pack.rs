//! Data packs present in the game.

use vstd::prelude::*;
use vstd::utf8::encode_utf8;
use crate::decode::{DecodeCursor, DecodeError};
use crate::strings::{decode_string, encode_str, string_wire, string_wire_ok,
    string_wire_used};

verus! {

/// A data pack present in the game.
#[derive(Clone, Debug)]
pub struct KnownPack {
    /// The namespace of the pack.
    pub namespace: String,
    /// The ID of the pack.
    pub id: String,
    /// The game version of the pack.
    pub version: String,
}

impl KnownPack {
    /// Every held string fits the wire format's length prefix.
    pub open spec fn wf(&self) -> bool {
        encode_utf8(self.namespace@).len() < 0x100000000 && encode_utf8(self.id@).len()
            < 0x100000000 && encode_utf8(self.version@).len() < 0x100000000
    }

    /// Appends the wire form: namespace, ID, then version.
    pub fn encode(&self, out: &mut Vec<u8>)
        requires
            self.wf(),
        ensures
            final(out)@ == old(out)@ + string_wire(self.namespace@) + string_wire(
                self.id@,
            ) + string_wire(self.version@),
    {
        encode_str(self.namespace.as_str(), out);
        encode_str(self.id.as_str(), out);
        encode_str(self.version.as_str(), out);
        proof {
            assert(final(out)@ =~= old(out)@ + string_wire(self.namespace@) + string_wire(
                self.id@,
            ) + string_wire(self.version@));
        }
    }

    /// Reads the wire form: namespace, ID, then version. The bytes
    /// consumed are exactly the wire form of the result.
    pub fn decode(cur: &mut DecodeCursor) -> (r: Result<KnownPack, DecodeError>)
        requires
            old(cur).wf(),
        ensures
            final(cur).wf(),
            final(cur).all_bytes() == old(cur).all_bytes(),
            r matches Ok(p) ==> ({
                let rem = old(cur).rest();
                let u1 = string_wire_used(rem);
                let u2 = string_wire_used(rem.skip(u1));
                let u3 = string_wire_used(rem.skip(u1).skip(u2));
                string_wire_ok(rem, p.namespace@) && string_wire_ok(rem.skip(u1), p.id@)
                    && string_wire_ok(rem.skip(u1).skip(u2), p.version@)
                    && final(cur).rest() == rem.skip(u1).skip(u2).skip(u3)
            }),
    {
        let namespace = decode_string(cur)?;
        let id = decode_string(cur)?;
        let version = decode_string(cur)?;
        Ok(KnownPack { namespace, id, version })
    }
}

} // verus!
