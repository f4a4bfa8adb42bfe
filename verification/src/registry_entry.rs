//! Registry entries.

use vstd::prelude::*;
use crate::ident::Ident;
use crate::nbt::{NbtElement, NbtValue, nbt_wf, nbt_wire};

verus! {

/// Writes an element's full wire form, reporting whether anything was
/// written; nothing is written for a value the format cannot carry.
pub fn emit_network_nbt(el: &NbtElement, out: &mut Vec<u8>) -> (r: bool)
    ensures
        r ==> nbt_wf(el@) && final(out)@ == old(out)@ + nbt_wire(el@),
        !r ==> final(out)@ == old(out)@ && !nbt_wf(el@),
{
    let mut tmp: Vec<u8> = Vec::new();
    match el.encode(&mut tmp) {
        Ok(u) => {
            out.append(&mut tmp);
            proof {
                assert(final(out)@ =~= old(out)@ + nbt_wire(el@));
            }
            true
        },
        Err(e) => false,
    }
}

/// A type that is used in core or datapack registries: it has a fixed
/// registry identifier and a binary tag form.
pub trait RegistryEntryType {
    /// The model of this value's binary tag form.
    spec fn nbt_model(&self) -> NbtValue;

    /// The identifier of the registry this type belongs to.
    fn registry_id() -> (r: Ident)
        ensures
            r.wf(),
    ;

    /// Writes this value's binary tag form, returning whether any data was
    /// actually written.
    fn to_network_nbt(&self, out: &mut Vec<u8>) -> (r: bool)
        ensures
            r ==> nbt_wf(self.nbt_model()) && final(out)@ == old(out)@ + nbt_wire(
                self.nbt_model(),
            ),
            !r ==> final(out)@ == old(out)@,
    ;
}

/// An entry in a core or datapack registry.
pub struct RegistryEntry<T: RegistryEntryType> {
    /// The ID of the entry.
    pub id: Ident,
    /// The entry data.
    pub data: T,
}

} // verus!
