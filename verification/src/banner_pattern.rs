//! Banner pattern registry entries.

use vstd::prelude::*;
use crate::ident::{Ident, ident_check};
use crate::nbt::{NbtElement, NbtValue, entries_view, lemma_entries_view_push};
use crate::registry_entry::{RegistryEntryType, emit_network_nbt};

verus! {

/// A banner pattern registry entry.
pub struct BannerPattern {
    /// The resource ID of the pattern asset.
    pub pattern_asset: Ident,
    /// The translation key of the tooltip shown on banner items.
    pub tooltip_key: String,
}

impl BannerPattern {
    /// Builds the binary tag form: a compound with the asset ID and the
    /// tooltip translation key.
    pub fn to_nbt(&self) -> (r: NbtElement)
        ensures
            r@ == self.nbt_model(),
    {
        let mut entries: Vec<(String, NbtElement)> = Vec::new();
        entries.push(
            (
                "asset_id".to_owned(),
                NbtElement::Text(self.pattern_asset.as_str().to_owned()),
            ),
        );
        entries.push(
            ("translation_key".to_owned(), NbtElement::Text(self.tooltip_key.as_str().to_owned())),
        );
        proof {
            lemma_entries_view_push(Seq::empty(), entries@[0]);
            lemma_entries_view_push(entries@.take(1), entries@[1]);
            assert(entries@.take(1) =~= Seq::empty().push(entries@[0]));
            assert(entries@ =~= entries@.take(1).push(entries@[1]));
            assert(entries_view(Seq::<(String, NbtElement)>::empty()) =~= Seq::<
                (Seq<char>, NbtValue),
            >::empty());
            assert(entries_view(entries@) =~~= seq![
                ("asset_id"@, NbtValue::Text(self.pattern_asset@)),
                ("translation_key"@, NbtValue::Text(self.tooltip_key@)),
            ]);
        }
        NbtElement::Compound(entries)
    }
}

impl RegistryEntryType for BannerPattern {
    /// A compound holding the asset ID and the tooltip translation key.
    open spec fn nbt_model(&self) -> NbtValue {
        NbtValue::Compound(
            seq![
                ("asset_id"@, NbtValue::Text(self.pattern_asset@)),
                ("translation_key"@, NbtValue::Text(self.tooltip_key@)),
            ],
        )
    }

    fn registry_id() -> (r: Ident) {
        proof {
            reveal_strlit("minecraft:banner_pattern");
            reveal_with_fuel(crate::ident::ns_check, 30);
            reveal_with_fuel(crate::ident::path_check, 30);
            assert(ident_check("minecraft:banner_pattern"@) matches Ok(k));
        }
        Ident::new("minecraft:banner_pattern")
    }

    fn to_network_nbt(&self, out: &mut Vec<u8>) -> (r: bool) {
        let el = self.to_nbt();
        emit_network_nbt(&el, out)
    }
}

} // verus!
