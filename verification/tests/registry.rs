use mcdata::banner_pattern::BannerPattern;
use mcdata::ident::Ident;
use mcdata::registry_entry::RegistryEntryType;
use mcdata::wolf_sound_variant::WolfSoundVariant;

#[test]
fn banner_pattern_writes_compound_nbt() {
    let pattern = BannerPattern {
        pattern_asset: Ident::new_checked("minecraft:creeper").unwrap(),
        tooltip_key: "block.minecraft.banner.creeper".to_string(),
    };
    let mut out = Vec::new();
    assert!(pattern.to_network_nbt(&mut out));
    // compound, string entry "asset_id", string entry "translation_key", end
    assert_eq!(out[0], 10);
    assert_eq!(out[1], 8);
    assert_eq!(&out[2..4], &[0, 8]);
    assert_eq!(&out[4..12], b"asset_id");
    assert_eq!(*out.last().unwrap(), 0);
    assert_eq!(BannerPattern::registry_id().as_str(), "minecraft:banner_pattern");
}

#[test]
fn wolf_sound_variant_writes_six_sounds() {
    let ident = |s: &str| Ident::new_checked(s).unwrap();
    let variant = WolfSoundVariant {
        hurt_sound: ident("minecraft:entity.wolf.hurt"),
        pant_sound: ident("minecraft:entity.wolf.pant"),
        whine_sound: ident("minecraft:entity.wolf.whine"),
        ambient_sound: ident("minecraft:entity.wolf.ambient"),
        death_sound: ident("minecraft:entity.wolf.death"),
        growl_sound: ident("minecraft:entity.wolf.growl"),
    };
    let mut out = Vec::new();
    assert!(variant.to_network_nbt(&mut out));
    assert_eq!(out[0], 10);
    assert_eq!(*out.last().unwrap(), 0);
    assert_eq!(
        WolfSoundVariant::registry_id().as_str(),
        "minecraft:wolf_sound_variant"
    );
}
