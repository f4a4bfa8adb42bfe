//! Data and wire-format layer for a Minecraft-compatible network protocol:
//! variable-width integer framing, packed scalar codecs, bounded strings,
//! namespaced identifiers, and the self-describing binary tag (NBT) format,
//! together with the protocol entities built from those primitives.

use vstd::prelude::*;

pub mod action;
pub mod banner_pattern;
pub mod block_pos;
pub mod bounded_string;
pub mod box_cow;
pub mod channel_data;
pub mod character;
pub mod chicken_variant;
pub mod chunk_pos;
pub mod client_info;
pub mod colour;
pub mod cow_variant;
pub mod damage_type;
pub mod decode;
pub mod dialog;
pub mod difficulty;
pub mod dimension_type;
pub mod game_mode;
pub mod hand;
pub mod ident;
pub mod item_stack;
pub mod known_pack;
pub mod light_level;
pub mod multiple16;
pub mod nbt;
pub mod operator_level;
pub mod pack_status;
pub mod particle;
pub mod pig_variant;
pub mod profile;
pub mod redacted;
pub mod registry_entry;
pub mod scalar;
pub mod selected_hotbar;
pub mod server_status;
pub mod strings;
pub mod tag_ident;
pub mod text;
pub mod varint;
pub mod version;
pub mod wolf_sound_variant;
pub mod worldgen;

verus! {

} // verus!
