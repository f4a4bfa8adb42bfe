use mcdata::channel_data::ChannelData;
use mcdata::character::{CharacterId, CharacterMoveFlags};
use mcdata::client_info::{ChatMode, ClientInfo, ParticleStatus, SkinLayers, SKIN_CAPE,
    SKIN_HAT};
use mcdata::colour::{Argb, ColourParseError, Rgb};
use mcdata::decode::{DecodeCursor, DecodeError};
use mcdata::difficulty::Difficulty;
use mcdata::game_mode::{GameMode, PreviousGameMode};
use mcdata::hand::Hand;
use mcdata::ident::{Ident, IdentValidateError};
use mcdata::known_pack::KnownPack;
use mcdata::light_level::LightLevel;
use mcdata::multiple16::Multiple16;
use mcdata::profile::AccountProfile;
use mcdata::selected_hotbar::{BadHotbarSlot, SelectedHotbar};
use mcdata::tag_ident::{TagIdent, TagIdentValidateError};
use mcdata::text::{Text, TextContent};
use mcdata::version::Version;
use mcdata::server_status::{Status, StatusVersion, add_png_b64_header,
    remove_png_b64_header};
use mcdata::particle::Particle;
use mcdata::damage_type::{DamageTypeDeathMessage, DamageTypeEffects,
    DamageTypeScaling};
use mcdata::dimension_type::DimensionTypeEffects;
use mcdata::box_cow::BoxCow;
use mcdata::redacted::Redacted;

#[test]
fn ident_accepts_namespace_and_path() {
    let id = Ident::new_checked("minecraft:stone").unwrap();
    assert_eq!(id.namespace(), "minecraft");
    assert_eq!(id.path(), "stone");
    assert_eq!(id.as_str(), "minecraft:stone");
}

#[test]
fn ident_rejects_bad_shapes() {
    assert_eq!(
        Ident::new_checked("Minecraft:stone").unwrap_err(),
        IdentValidateError::BadChar('M')
    );
    assert_eq!(
        Ident::new_checked("minecraft:").unwrap_err(),
        IdentValidateError::EmptyComponent
    );
    assert_eq!(
        Ident::new_checked("minecraftstone").unwrap_err(),
        IdentValidateError::NoSeparator
    );
    assert_eq!(
        Ident::new_checked("minecraft:a//b").unwrap_err(),
        IdentValidateError::EmptyComponent
    );
    assert_eq!(
        Ident::new_checked(":stone").unwrap_err(),
        IdentValidateError::EmptyComponent
    );
    assert_eq!(
        Ident::new_checked("minecraft:déjà").unwrap_err(),
        IdentValidateError::NotAscii
    );
}

#[test]
fn ident_accepts_slashed_paths() {
    let id = Ident::new_checked("minecraft:worldgen/biome").unwrap();
    assert_eq!(id.namespace(), "minecraft");
    assert_eq!(id.path(), "worldgen/biome");
}

#[test]
fn ident_round_trips_on_the_wire() {
    let id = Ident::new_checked("minecraft:stone").unwrap();
    let mut out = Vec::new();
    id.encode(&mut out);
    assert_eq!(out[0], 15);
    let mut cur = DecodeCursor::new(&out);
    let back = Ident::decode(&mut cur).unwrap();
    assert_eq!(back.as_str(), "minecraft:stone");
}

#[test]
fn tag_ident_requires_octothorpe() {
    let id = TagIdent::new_checked("#minecraft:planks").unwrap();
    assert_eq!(id.namespace(), "minecraft");
    assert_eq!(id.path(), "planks");
    assert_eq!(
        TagIdent::new_checked("minecraft:planks").unwrap_err(),
        TagIdentValidateError::NoTag
    );
    assert_eq!(
        TagIdent::new_checked("#:planks").unwrap_err(),
        TagIdentValidateError::EmptyComponent
    );
}

#[test]
fn tag_ident_from_pair_prepends_octothorpe() {
    let id = TagIdent::new_from_pair("minecraft", "planks").unwrap();
    assert_eq!(id.as_str(), "#minecraft:planks");
}

#[test]
fn ident_from_pair_joins_with_separator() {
    let id = Ident::new_from_pair("minecraft", "stone").unwrap();
    assert_eq!(id.as_str(), "minecraft:stone");
}

#[test]
fn colour_parses_hex_and_names() {
    assert_eq!(Rgb::from_hex_or_name("#ff00aa"), Ok(Rgb::new(0xFF, 0x00, 0xAA)));
    assert_eq!(Rgb::from_hex_or_name("gold"), Ok(Rgb::new(255, 170, 0)));
    assert_eq!(Rgb::from_hex_or_name("dark_aqua"), Ok(Rgb::new(0, 170, 170)));
    assert_eq!(
        Rgb::from_hex_or_name("#ff00a"),
        Err(ColourParseError::BadLength)
    );
    assert_eq!(
        Rgb::from_hex_or_name("#ff00ag"),
        Err(ColourParseError::BadDigit)
    );
    assert_eq!(
        Rgb::from_hex_or_name("blurple"),
        Err(ColourParseError::UnknownName)
    );
}

#[test]
fn colour_hex_round_trips() {
    let c = Rgb::new(0x12, 0xAB, 0xEF);
    assert_eq!(c.to_hex(), "#12abef");
    assert_eq!(Rgb::from_hex_or_name(&c.to_hex()), Ok(c));
    let a = Argb::new(0x80, 0x12, 0xAB, 0xEF);
    assert_eq!(a.to_hex(), "#8012abef");
    assert_eq!(Argb::from_hex(&a.to_hex()), Ok(a));
}

#[test]
fn colour_u32_round_trips() {
    let c = Rgb::new(1, 2, 3);
    assert_eq!(Rgb::from_u32(c.to_u32()), c);
    assert_eq!(c.to_u32(), 0x010203);
    let a = Argb::new(4, 1, 2, 3);
    assert_eq!(Argb::from_u32(a.to_u32()), a);
    assert_eq!(a.to_u32(), 0x04010203);
    assert_eq!(c.with_alpha(9), Argb::new(9, 1, 2, 3));
    assert_eq!(c.opaque(), Argb::new(255, 1, 2, 3));
    assert_eq!(a.without_alpha(), c.clone());
    assert_eq!(Rgb::splat(7), Rgb::new(7, 7, 7));
}

#[test]
fn version_lookup_by_id_and_name() {
    let v = Version::by_id(772).unwrap();
    assert_eq!(v.id(), 772);
    assert_eq!(v.earliest_name(), "1.21.7");
    assert_eq!(v.latest_name(), "1.21.8");
    let w = Version::by_name("1.21.4").unwrap();
    assert_eq!(w.id(), 769);
    assert!(Version::by_id(1).is_none());
    assert!(Version::by_name("0.0.0").is_none());
    assert_eq!(Version::current().id(), 772);
}

#[test]
fn light_level_is_bounded() {
    assert_eq!(LightLevel::new(15).unwrap().get(), 15);
    assert!(LightLevel::new(16).is_none());
}

#[test]
fn multiple16_checks_divisibility() {
    assert_eq!(Multiple16::<u32>::new(32).unwrap().get(), 32);
    assert!(Multiple16::<u32>::new(33).is_none());
    assert_eq!(Multiple16::<i32>::new(-16).unwrap().get(), -16);
    assert!(Multiple16::<i64>::new(-15).is_none());
    assert_eq!(Multiple16::<u8>::new(0).unwrap().get(), 0);
}

#[test]
fn selected_hotbar_is_bounded() {
    assert_eq!(SelectedHotbar::new(8).unwrap().get(), 8);
    assert!(SelectedHotbar::new(9).is_none());
    let mut out = Vec::new();
    SelectedHotbar::new(5).unwrap().encode(&mut out);
    assert_eq!(out, vec![0, 5]);
    let mut cur = DecodeCursor::new(&out);
    assert_eq!(SelectedHotbar::decode(&mut cur).unwrap().get(), 5);
    let bad = [0u8, 9];
    let mut cur = DecodeCursor::new(&bad);
    assert_eq!(SelectedHotbar::decode(&mut cur), Err(BadHotbarSlot(9)));
}

#[test]
fn enum_ordinals_round_trip() {
    for d in [Difficulty::Peaceful, Difficulty::Easy, Difficulty::Normal, Difficulty::Hard]
    {
        assert_eq!(Difficulty::from_ordinal(d.ordinal()), Some(d));
    }
    assert_eq!(Difficulty::from_ordinal(4), None);
    for m in [GameMode::Survival, GameMode::Creative, GameMode::Adventure,
        GameMode::Spectator]
    {
        assert_eq!(GameMode::from_ordinal(m.ordinal()), Some(m));
    }
    for m in [PreviousGameMode::Unset, PreviousGameMode::Survival,
        PreviousGameMode::Spectator]
    {
        assert_eq!(PreviousGameMode::from_byte(m.as_byte()), Some(m));
    }
    for h in [Hand::Main, Hand::Off] {
        assert_eq!(Hand::from_ordinal(h.ordinal()), Some(h));
    }
    assert_eq!(Difficulty::default(), Difficulty::Normal);
    assert_eq!(GameMode::default(), GameMode::Adventure);
}

#[test]
fn difficulty_decode_rejects_bad_ordinal() {
    let bytes = [7u8];
    let mut cur = DecodeCursor::new(&bytes);
    assert_eq!(Difficulty::decode(&mut cur), Err(DecodeError::BadOrdinal(7)));
}

#[test]
fn skin_layers_flags_are_independent() {
    let mut layers = SkinLayers::none();
    layers.set_cape(true);
    layers.set_hat(true);
    assert!(layers.cape());
    assert!(layers.hat());
    assert!(!layers.jacket());
    layers.set_cape(false);
    assert!(!layers.cape());
    assert!(layers.hat());
    assert_eq!(layers.as_byte(), SKIN_HAT);
    assert_eq!(SkinLayers::all().as_byte(), 0x7F);
    let mut one = SkinLayers::none();
    one.set(SKIN_CAPE, true);
    assert_eq!(one.as_byte(), SKIN_CAPE);
}

#[test]
fn client_info_default_matches_wire() {
    let info = ClientInfo::default();
    assert_eq!(info.locale.as_str(), "en_us");
    assert_eq!(info.view_dist, 2);
    assert_eq!(info.chat_mode, ChatMode::Enabled);
    assert_eq!(info.particle_status, ParticleStatus::All);
    let mut out = Vec::new();
    info.encode(&mut out);
    assert_eq!(
        out,
        vec![
            5, b'e', b'n', b'_', b'u', b's', // locale
            2, // view distance
            0, // chat mode
            0, // chat colours
            0x7F, // skin layers
            0, // left handed
            0, // text filtered
            0, // motd listing
            0, // particle status
        ]
    );
}

#[test]
fn character_id_and_move_flags_round_trip() {
    let mut out = Vec::new();
    CharacterId(300).encode(&mut out);
    let mut cur = DecodeCursor::new(&out);
    assert_eq!(CharacterId::decode(&mut cur), Ok(CharacterId(300)));
    let flags = CharacterMoveFlags { on_ground: true, against_wall: false };
    let mut out = Vec::new();
    flags.encode(&mut out);
    assert_eq!(out, vec![1]);
    let mut cur = DecodeCursor::new(&out);
    assert_eq!(CharacterMoveFlags::decode(&mut cur), Ok(flags));
}

#[test]
fn profile_round_trips_with_skin() {
    let profile = AccountProfile {
        uuid: uuid::Uuid::from_u128(0x0102030405060708090A0B0C0D0E0F10),
        username: mcdata::bounded_string::BoundedString::<16>::try_from("alice").unwrap(),
        skin: Some(mcdata::profile::AccountProperty {
            value: "texturedata".to_string(),
            sig: Some("signature".to_string()),
        }),
    };
    let mut out = Vec::new();
    profile.encode(&mut out);
    let mut cur = DecodeCursor::new(&out);
    let back = AccountProfile::decode(&mut cur).unwrap();
    assert_eq!(cur.remaining(), 0);
    assert_eq!(back.uuid, profile.uuid);
    assert_eq!(back.username.as_str(), "alice");
    let skin = back.skin.unwrap();
    assert_eq!(skin.value, "texturedata");
    assert_eq!(skin.sig.as_deref(), Some("signature"));
}

#[test]
fn profile_round_trips_without_skin() {
    let profile = AccountProfile {
        uuid: uuid::Uuid::from_u128(7),
        username: mcdata::bounded_string::BoundedString::<16>::try_from("bob").unwrap(),
        skin: None,
    };
    let mut out = Vec::new();
    profile.encode(&mut out);
    let mut cur = DecodeCursor::new(&out);
    let back = AccountProfile::decode(&mut cur).unwrap();
    assert_eq!(back.uuid, profile.uuid);
    assert!(back.skin.is_none());
}

#[test]
fn known_pack_round_trips() {
    let pack = KnownPack {
        namespace: "minecraft".to_string(),
        id: "core".to_string(),
        version: "1.21.8".to_string(),
    };
    let mut out = Vec::new();
    pack.encode(&mut out);
    let mut cur = DecodeCursor::new(&out);
    let back = KnownPack::decode(&mut cur).unwrap();
    assert_eq!(back.namespace, "minecraft");
    assert_eq!(back.id, "core");
    assert_eq!(back.version, "1.21.8");
}

#[test]
fn channel_data_brand_round_trips() {
    let data = ChannelData::Brand { brand: "vanilla".to_string() };
    let mut out = Vec::new();
    data.encode(&mut out);
    let mut cur = DecodeCursor::new(&out);
    match ChannelData::decode(&mut cur).unwrap() {
        ChannelData::Brand { brand } => assert_eq!(brand, "vanilla"),
        other => panic!("wrong channel data: {:?}", other),
    }
}

#[test]
fn channel_data_custom_takes_rest() {
    let channel = Ident::new_checked("mymod:channel").unwrap();
    let data = ChannelData::Custom { channel, data: vec![1, 2, 3] };
    let mut out = Vec::new();
    data.encode(&mut out);
    let mut cur = DecodeCursor::new(&out);
    match ChannelData::decode(&mut cur).unwrap() {
        ChannelData::Custom { channel, data } => {
            assert_eq!(channel.as_str(), "mymod:channel");
            assert_eq!(data, vec![1, 2, 3]);
        },
        other => panic!("wrong channel data: {:?}", other),
    }
}

#[test]
fn text_builders_set_styles() {
    let t = Text::literal("hi".to_string()).bold().italic().colour(Rgb::new(1, 2, 3));
    assert_eq!(t.components.len(), 1);
    let style = &t.components[0].style;
    assert!(style.bold);
    assert!(style.italic);
    assert_eq!(style.colour, Rgb::new(1, 2, 3));
    match &t.components[0].content {
        TextContent::Literal { text } => assert_eq!(text, "hi"),
        other => panic!("wrong content: {:?}", other),
    }
    let t = t.no_bold().reset();
    assert!(!t.components[0].style.bold);
    assert!(!t.components[0].style.italic);
}

#[test]
fn text_concat_appends_components() {
    let t = Text::literal("a".to_string()).concat(Text::keybind("key.jump".to_string()));
    assert_eq!(t.components.len(), 2);
}

#[test]
fn status_defaults_to_current_version() {
    let v = StatusVersion::default();
    assert_eq!(v.protocol, 772);
    assert_eq!(v.name, "1.21.7");
    let s = Status::default();
    assert!(s.players.is_none());
    assert!(s.motd.is_some());
    assert!(!s.requires_chat_signing);
    assert!(s.prevents_chat_reports);
    let with_header = add_png_b64_header("QUJD");
    assert_eq!(with_header, "data:image/png;base64,QUJD");
    assert_eq!(remove_png_b64_header(&with_header), "QUJD");
    assert_eq!(remove_png_b64_header("QUJD"), "QUJD");
}

#[test]
fn particle_names_match_data() {
    assert_eq!(Particle::Ash.data_name(), "minecraft:ash");
    assert_eq!(Particle::WhiteAsh.data_name(), "minecraft:white_ash");
}

#[test]
fn damage_and_dimension_names_match_data() {
    assert_eq!(DamageTypeScaling::WhenByEnemy.data_name(),
        "when_caused_by_living_non_player");
    assert_eq!(DamageTypeEffects::default(), DamageTypeEffects::Hurt);
    assert_eq!(DamageTypeDeathMessage::default().data_name(), "default");
    assert_eq!(DimensionTypeEffects::Nether.data_name(), "minecraft:the_nether");
}

#[test]
fn redacted_and_box_cow_hand_values_through() {
    let secret = Redacted::new(42u32);
    assert_eq!(*secret.as_ref(), 42);
    assert_eq!(secret.into_inner(), 42);
    let owned: BoxCow<u32> = BoxCow::Owned(Box::new(7));
    assert_eq!(*owned.get(), 7);
    let value = 9u32;
    let mut borrowed: BoxCow<u32> = BoxCow::Borrowed(&value);
    assert_eq!(*borrowed.get(), 9);
    *borrowed.to_mut() = 11;
    assert_eq!(*borrowed.get(), 11);
    assert_eq!(*borrowed.into_owned(), 11);
}

#[test]
fn text_colour_shortcuts_and_apply() {
    let t = Text::literal("x".to_string()).red();
    assert_eq!(t.components[0].style.colour, Rgb::new(255, 85, 85));
    let t = t.apply(|mut c| {
        c.style.bold = true;
        c
    });
    assert!(t.components[0].style.bold);
}

#[test]
fn client_info_round_trips_on_the_wire() {
    let info = ClientInfo::default();
    let mut out = Vec::new();
    info.encode(&mut out);
    let mut cur = DecodeCursor::new(&out);
    let back = ClientInfo::decode(&mut cur).unwrap();
    assert_eq!(cur.remaining(), 0);
    assert_eq!(back.locale.as_str(), "en_us");
    assert_eq!(back.view_dist, 2);
    assert_eq!(back.chat_mode, ChatMode::Enabled);
    assert!(!back.chat_colours);
    assert_eq!(back.skin_layers.as_byte(), 0x7F);
    assert!(!back.left_handed);
    assert_eq!(back.particle_status, ParticleStatus::All);
}

#[test]
fn client_info_rejects_zero_view_distance() {
    let mut bytes = Vec::new();
    ClientInfo::default().encode(&mut bytes);
    bytes[6] = 0;
    let mut cur = DecodeCursor::new(&bytes);
    assert_eq!(
        ClientInfo::decode(&mut cur).unwrap_err(),
        DecodeError::BadOrdinal(0)
    );
}
