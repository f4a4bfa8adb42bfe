//! Wolf sound variant registry entries.

use vstd::prelude::*;
use crate::ident::{Ident, ident_check};
use crate::nbt::{NbtElement, NbtValue, entries_view, lemma_entries_view_index};
use crate::registry_entry::{RegistryEntryType, emit_network_nbt};

verus! {

/// A wolf sound variant registry entry.
pub struct WolfSoundVariant {
    /// The resource ID of the hurt sound asset.
    pub hurt_sound: Ident,
    /// The resource ID of the pant sound asset.
    pub pant_sound: Ident,
    /// The resource ID of the whine sound asset.
    pub whine_sound: Ident,
    /// The resource ID of the ambient sound asset.
    pub ambient_sound: Ident,
    /// The resource ID of the death sound asset.
    pub death_sound: Ident,
    /// The resource ID of the growl sound asset.
    pub growl_sound: Ident,
}

impl WolfSoundVariant {
    /// Builds the binary tag form: a compound with the six sound assets.
    pub fn to_nbt(&self) -> (r: NbtElement)
        ensures
            r@ == self.nbt_model(),
    {
        let mut entries: Vec<(String, NbtElement)> = Vec::new();
        entries.push(
            ("hurt_sound".to_owned(), NbtElement::Text(self.hurt_sound.as_str().to_owned())),
        );
        entries.push(
            ("pant_sound".to_owned(), NbtElement::Text(self.pant_sound.as_str().to_owned())),
        );
        entries.push(
            ("whine_sound".to_owned(), NbtElement::Text(self.whine_sound.as_str().to_owned())),
        );
        entries.push(
            (
                "ambient_sound".to_owned(),
                NbtElement::Text(self.ambient_sound.as_str().to_owned()),
            ),
        );
        entries.push(
            ("death_sound".to_owned(), NbtElement::Text(self.death_sound.as_str().to_owned())),
        );
        entries.push(
            ("growl_sound".to_owned(), NbtElement::Text(self.growl_sound.as_str().to_owned())),
        );
        proof {
            lemma_entries_view_index(entries@);
            assert(entries_view(entries@).len() == 6);
            assert(entries_view(entries@)[0] == (entries@[0].0@, entries@[0].1@));
            assert(entries_view(entries@)[1] == (entries@[1].0@, entries@[1].1@));
            assert(entries_view(entries@)[2] == (entries@[2].0@, entries@[2].1@));
            assert(entries_view(entries@)[3] == (entries@[3].0@, entries@[3].1@));
            assert(entries_view(entries@)[4] == (entries@[4].0@, entries@[4].1@));
            assert(entries_view(entries@)[5] == (entries@[5].0@, entries@[5].1@));
            assert(entries@[0].1@ == NbtValue::Text(self.hurt_sound@));
            assert(entries@[1].1@ == NbtValue::Text(self.pant_sound@));
            assert(entries@[2].1@ == NbtValue::Text(self.whine_sound@));
            assert(entries@[3].1@ == NbtValue::Text(self.ambient_sound@));
            assert(entries@[4].1@ == NbtValue::Text(self.death_sound@));
            assert(entries@[5].1@ == NbtValue::Text(self.growl_sound@));
            assert(entries_view(entries@) =~~= seq![
                ("hurt_sound"@, NbtValue::Text(self.hurt_sound@)),
                ("pant_sound"@, NbtValue::Text(self.pant_sound@)),
                ("whine_sound"@, NbtValue::Text(self.whine_sound@)),
                ("ambient_sound"@, NbtValue::Text(self.ambient_sound@)),
                ("death_sound"@, NbtValue::Text(self.death_sound@)),
                ("growl_sound"@, NbtValue::Text(self.growl_sound@)),
            ]);
        }
        NbtElement::Compound(entries)
    }
}

impl RegistryEntryType for WolfSoundVariant {
    /// A compound holding the six sound asset IDs.
    open spec fn nbt_model(&self) -> NbtValue {
        NbtValue::Compound(
            seq![
                ("hurt_sound"@, NbtValue::Text(self.hurt_sound@)),
                ("pant_sound"@, NbtValue::Text(self.pant_sound@)),
                ("whine_sound"@, NbtValue::Text(self.whine_sound@)),
                ("ambient_sound"@, NbtValue::Text(self.ambient_sound@)),
                ("death_sound"@, NbtValue::Text(self.death_sound@)),
                ("growl_sound"@, NbtValue::Text(self.growl_sound@)),
            ],
        )
    }

    fn registry_id() -> (r: Ident) {
        proof {
            reveal_strlit("minecraft:wolf_sound_variant");
            reveal_with_fuel(crate::ident::ns_check, 32);
            reveal_with_fuel(crate::ident::path_check, 32);
            assert(ident_check("minecraft:wolf_sound_variant"@) matches Ok(k));
        }
        Ident::new("minecraft:wolf_sound_variant")
    }

    fn to_network_nbt(&self, out: &mut Vec<u8>) -> (r: bool) {
        let el = self.to_nbt();
        emit_network_nbt(&el, out)
    }
}

} // verus!
