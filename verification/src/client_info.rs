//! Client settings.

use vstd::prelude::*;
use vstd::utf8::encode_utf8;
use crate::bounded_string::BoundedString;
use crate::decode::{DecodeCursor, DecodeError};
use crate::scalar::{decode_bool, decode_u8, encode_bool, encode_u8};
use crate::strings::{string_wire, lemma_string_wire_round_trip};
use crate::varint::{varint_bytes, decode_varint_u32, encode_varint_u32,
    lemma_varint_round_trip};

verus! {

/// Enabled chat message types.
#[derive(Clone, Copy, PartialEq, Eq, Structural, Hash, Debug)]
pub enum ChatMode {
    /// Chat is fully enabled.
    Enabled,
    /// Only command feedback is shown.
    CommandsOnly,
    /// All chat is hidden.
    Hidden,
}

/// The wire ordinal of a chat mode.
pub open spec fn chat_mode_ordinal(m: ChatMode) -> u32 {
    match m {
        ChatMode::Enabled => 0,
        ChatMode::CommandsOnly => 1,
        ChatMode::Hidden => 2,
    }
}

impl ChatMode {
    /// The wire ordinal of this chat mode.
    pub fn ordinal(self) -> (r: u32)
        ensures
            r == chat_mode_ordinal(self),
    {
        match self {
            ChatMode::Enabled => 0,
            ChatMode::CommandsOnly => 1,
            ChatMode::Hidden => 2,
        }
    }

    /// The chat mode of a wire ordinal, for ordinals below 3.
    pub fn from_ordinal(v: u32) -> (r: Option<Self>)
        ensures
            v < 3 <==> r is Some,
            r matches Some(m) ==> chat_mode_ordinal(m) == v,
    {
        match v {
            0 => Some(ChatMode::Enabled),
            1 => Some(ChatMode::CommandsOnly),
            2 => Some(ChatMode::Hidden),
            _ => None,
        }
    }
}

/// Amount of particles which will be displayed.
#[derive(Clone, Copy, PartialEq, Eq, Structural, Hash, Debug)]
pub enum ParticleStatus {
    /// All particles shown.
    All,
    /// Decreased particles shown.
    Decreased,
    /// Minimal particles shown.
    Minimal,
}

/// The wire ordinal of a particle status.
pub open spec fn particle_status_ordinal(p: ParticleStatus) -> u32 {
    match p {
        ParticleStatus::All => 0,
        ParticleStatus::Decreased => 1,
        ParticleStatus::Minimal => 2,
    }
}

impl ParticleStatus {
    /// The wire ordinal of this particle status.
    pub fn ordinal(self) -> (r: u32)
        ensures
            r == particle_status_ordinal(self),
    {
        match self {
            ParticleStatus::All => 0,
            ParticleStatus::Decreased => 1,
            ParticleStatus::Minimal => 2,
        }
    }

    /// The particle status of a wire ordinal, for ordinals below 3.
    pub fn from_ordinal(v: u32) -> (r: Option<Self>)
        ensures
            v < 3 <==> r is Some,
            r matches Some(p) ==> particle_status_ordinal(p) == v,
    {
        match v {
            0 => Some(ParticleStatus::All),
            1 => Some(ParticleStatus::Decreased),
            2 => Some(ParticleStatus::Minimal),
            _ => None,
        }
    }
}

/// Skin layers to display, one bit flag per layer.
#[derive(Clone, Copy, PartialEq, Eq, Structural, Hash, Debug)]
pub struct SkinLayers {
    bits: u8,
}

/// The cape byte flag.
pub const SKIN_CAPE: u8 = 0x01;

/// The jacket byte flag.
pub const SKIN_JACKET: u8 = 0x02;

/// The left sleeve byte flag.
pub const SKIN_LEFT_SLEEVE: u8 = 0x04;

/// The right sleeve byte flag.
pub const SKIN_RIGHT_SLEEVE: u8 = 0x08;

/// The left pants leg byte flag.
pub const SKIN_LEFT_PANTS_LEG: u8 = 0x10;

/// The right pants leg byte flag.
pub const SKIN_RIGHT_PANTS_LEG: u8 = 0x20;

/// The hat byte flag.
pub const SKIN_HAT: u8 = 0x40;

impl SkinLayers {
    /// The raw flag byte.
    pub closed spec fn view(self) -> u8 {
        self.bits
    }

    /// All skin layers shown.
    pub fn all() -> (r: Self)
        ensures
            r@ == 0x7F,
    {
        SkinLayers { bits: 0x7F }
    }

    /// No skin layers shown.
    pub fn none() -> (r: Self)
        ensures
            r@ == 0,
    {
        SkinLayers { bits: 0 }
    }

    /// Wraps a raw flag byte.
    pub fn from_byte(bits: u8) -> (r: Self)
        ensures
            r@ == bits,
    {
        SkinLayers { bits }
    }

    /// Return the inner value as a primitive type.
    pub fn as_byte(&self) -> (r: u8)
        ensures
            r == self@,
    {
        self.bits
    }

    /// Returns whether a flag is enabled.
    pub fn get(&self, flag: u8) -> (r: bool)
        ensures
            r == (self@ & flag != 0),
    {
        self.bits & flag != 0
    }

    /// Sets whether a flag is enabled, leaving all other bits unchanged.
    pub fn set(&mut self, flag: u8, enabled: bool)
        ensures
            final(self)@ == if enabled {
                old(self)@ | flag
            } else {
                old(self)@ & !flag
            },
    {
        if enabled {
            self.bits = self.bits | flag;
        } else {
            self.bits = self.bits & !flag;
        }
    }

    /// Returns whether the cape flag is enabled.
    pub fn cape(&self) -> (r: bool)
        ensures
            r == (self@ & SKIN_CAPE != 0),
    {
        self.get(SKIN_CAPE)
    }

    /// Sets whether the cape flag is enabled.
    pub fn set_cape(&mut self, enabled: bool)
        ensures
            final(self)@ == if enabled {
                old(self)@ | SKIN_CAPE
            } else {
                old(self)@ & !SKIN_CAPE
            },
    {
        self.set(SKIN_CAPE, enabled);
    }

    /// Returns whether the jacket flag is enabled.
    pub fn jacket(&self) -> (r: bool)
        ensures
            r == (self@ & SKIN_JACKET != 0),
    {
        self.get(SKIN_JACKET)
    }

    /// Sets whether the jacket flag is enabled.
    pub fn set_jacket(&mut self, enabled: bool)
        ensures
            final(self)@ == if enabled {
                old(self)@ | SKIN_JACKET
            } else {
                old(self)@ & !SKIN_JACKET
            },
    {
        self.set(SKIN_JACKET, enabled);
    }

    /// Returns whether the left sleeve flag is enabled.
    pub fn left_sleeve(&self) -> (r: bool)
        ensures
            r == (self@ & SKIN_LEFT_SLEEVE != 0),
    {
        self.get(SKIN_LEFT_SLEEVE)
    }

    /// Sets whether the left sleeve flag is enabled.
    pub fn set_left_sleeve(&mut self, enabled: bool)
        ensures
            final(self)@ == if enabled {
                old(self)@ | SKIN_LEFT_SLEEVE
            } else {
                old(self)@ & !SKIN_LEFT_SLEEVE
            },
    {
        self.set(SKIN_LEFT_SLEEVE, enabled);
    }

    /// Returns whether the right sleeve flag is enabled.
    pub fn right_sleeve(&self) -> (r: bool)
        ensures
            r == (self@ & SKIN_RIGHT_SLEEVE != 0),
    {
        self.get(SKIN_RIGHT_SLEEVE)
    }

    /// Sets whether the right sleeve flag is enabled.
    pub fn set_right_sleeve(&mut self, enabled: bool)
        ensures
            final(self)@ == if enabled {
                old(self)@ | SKIN_RIGHT_SLEEVE
            } else {
                old(self)@ & !SKIN_RIGHT_SLEEVE
            },
    {
        self.set(SKIN_RIGHT_SLEEVE, enabled);
    }

    /// Returns whether the left pants leg flag is enabled.
    pub fn left_pants_leg(&self) -> (r: bool)
        ensures
            r == (self@ & SKIN_LEFT_PANTS_LEG != 0),
    {
        self.get(SKIN_LEFT_PANTS_LEG)
    }

    /// Sets whether the left pants leg flag is enabled.
    pub fn set_left_pants_leg(&mut self, enabled: bool)
        ensures
            final(self)@ == if enabled {
                old(self)@ | SKIN_LEFT_PANTS_LEG
            } else {
                old(self)@ & !SKIN_LEFT_PANTS_LEG
            },
    {
        self.set(SKIN_LEFT_PANTS_LEG, enabled);
    }

    /// Returns whether the right pants leg flag is enabled.
    pub fn right_pants_leg(&self) -> (r: bool)
        ensures
            r == (self@ & SKIN_RIGHT_PANTS_LEG != 0),
    {
        self.get(SKIN_RIGHT_PANTS_LEG)
    }

    /// Sets whether the right pants leg flag is enabled.
    pub fn set_right_pants_leg(&mut self, enabled: bool)
        ensures
            final(self)@ == if enabled {
                old(self)@ | SKIN_RIGHT_PANTS_LEG
            } else {
                old(self)@ & !SKIN_RIGHT_PANTS_LEG
            },
    {
        self.set(SKIN_RIGHT_PANTS_LEG, enabled);
    }

    /// Returns whether the hat flag is enabled.
    pub fn hat(&self) -> (r: bool)
        ensures
            r == (self@ & SKIN_HAT != 0),
    {
        self.get(SKIN_HAT)
    }

    /// Sets whether the hat flag is enabled.
    pub fn set_hat(&mut self, enabled: bool)
        ensures
            final(self)@ == if enabled {
                old(self)@ | SKIN_HAT
            } else {
                old(self)@ & !SKIN_HAT
            },
    {
        self.set(SKIN_HAT, enabled);
    }
}

/// Law: setting one flag never disturbs a disjoint flag.
pub proof fn lemma_skin_layers_independent(bits: u8, flag: u8, other: u8, enabled: bool)
    requires
        flag & other == 0,
    ensures
        ((if enabled {
            bits | flag
        } else {
            bits & !flag
        }) & other != 0) == (bits & other != 0),
{
    assert(flag & other == 0 ==> (((if enabled {
        bits | flag
    } else {
        bits & !flag
    }) & other != 0) == (bits & other != 0))) by (bit_vector);
}

/// The single byte a bool travels as.
pub open spec fn bool_byte(b: bool) -> u8 {
    if b {
        1
    } else {
        0
    }
}

/// Client settings.
#[derive(Clone, Debug)]
pub struct ClientInfo {
    /// Selected language code.
    pub locale: BoundedString<16>,
    /// View distance in chunks; never zero.
    pub view_dist: u8,
    /// Enabled chat message types.
    pub chat_mode: ChatMode,
    /// Whether chat colours are enabled.
    pub chat_colours: bool,
    /// Skin layers to display.
    pub skin_layers: SkinLayers,
    /// Whether to use left as main hand.
    pub left_handed: bool,
    /// Whether text on signs and in book titles is filtered.
    pub text_filtered: bool,
    /// Whether this player may be shown in server list samples.
    pub allow_motd_listing: bool,
    /// Amount of particles which will be displayed.
    pub particle_status: ParticleStatus,
}

/// The wire form of a full set of client settings.
pub open spec fn client_info_wire(
    loc: Seq<char>,
    vd: u8,
    cm: ChatMode,
    cc: bool,
    sl: u8,
    lh: bool,
    tf: bool,
    ml: bool,
    ps: ParticleStatus,
) -> Seq<u8> {
    string_wire(loc) + seq![vd] + varint_bytes(chat_mode_ordinal(cm) as nat) + seq![
        bool_byte(cc),
        sl,
        bool_byte(lh),
        bool_byte(tf),
        bool_byte(ml),
    ] + varint_bytes(particle_status_ordinal(ps) as nat)
}

impl ClientInfo {
    /// The stored locale fits its capacity and the view distance is
    /// positive.
    pub open spec fn wf(&self) -> bool {
        self.locale.wf() && self.view_dist > 0
    }

    /// The default client settings: locale `en_us`, view distance 2, chat
    /// fully enabled without colours, every skin layer shown, right-handed,
    /// unfiltered text, hidden from server lists, all particles.
    pub fn default() -> (r: Self)
        ensures
            r.wf(),
            r.locale@ == "en_us"@,
            r.view_dist == 2,
            r.chat_mode == ChatMode::Enabled,
            r.chat_colours == false,
            r.skin_layers@ == 0x7F,
            r.left_handed == false,
            r.text_filtered == false,
            r.allow_motd_listing == false,
            r.particle_status == ParticleStatus::All,
    {
        let locale = match BoundedString::<16>::try_from("en_us") {
            Ok(l) => l,
            Err(e) => {
                proof {
                    reveal_strlit("en_us");
                    vstd::utf8::is_ascii_chars_encode_utf8("en_us"@);
                    assert(false);
                }
                vstd::pervasive::unreached()
            },
        };
        ClientInfo {
            locale,
            view_dist: 2,
            chat_mode: ChatMode::Enabled,
            chat_colours: false,
            skin_layers: SkinLayers::all(),
            left_handed: false,
            text_filtered: false,
            allow_motd_listing: false,
            particle_status: ParticleStatus::All,
        }
    }

    /// Appends the wire form: the locale string, then each further field
    /// in declaration order.
    #[verifier::rlimit(50)]
    pub fn encode(&self, out: &mut Vec<u8>)
        requires
            self.wf(),
        ensures
            final(out)@ == old(out)@ + client_info_wire(
                self.locale@,
                self.view_dist,
                self.chat_mode,
                self.chat_colours,
                self.skin_layers@,
                self.left_handed,
                self.text_filtered,
                self.allow_motd_listing,
                self.particle_status,
            ),
    {
        self.locale.encode(out);
        encode_u8(self.view_dist, out);
        encode_varint_u32(self.chat_mode.ordinal(), out);
        encode_bool(self.chat_colours, out);
        encode_u8(self.skin_layers.as_byte(), out);
        encode_bool(self.left_handed, out);
        encode_bool(self.text_filtered, out);
        encode_bool(self.allow_motd_listing, out);
        encode_varint_u32(self.particle_status.ordinal(), out);
        proof {
            assert(final(out)@ =~= old(out)@ + client_info_wire(
                self.locale@,
                self.view_dist,
                self.chat_mode,
                self.chat_colours,
                self.skin_layers@,
                self.left_handed,
                self.text_filtered,
                self.allow_motd_listing,
                self.particle_status,
            ));
        }
    }
}

/// The eight fixed bytes that follow the locale string: view distance,
/// chat mode ordinal, chat colours, skin layers, left handedness, text
/// filtering, server list permission, and particle status ordinal.
pub open spec fn settings_tail_wire(
    vd: u8,
    cm: ChatMode,
    cc: bool,
    sl: u8,
    lh: bool,
    tf: bool,
    ml: bool,
    ps: ParticleStatus,
) -> Seq<u8> {
    seq![
        vd,
        chat_mode_ordinal(cm) as u8,
        bool_byte(cc),
        sl,
        bool_byte(lh),
        bool_byte(tf),
        bool_byte(ml),
        particle_status_ordinal(ps) as u8,
    ]
}

/// Reads the eight fixed settings bytes that follow the locale.
///
/// On input that begins with the settings-tail bytes of a record whose
/// view distance is positive, the result carries exactly those fields and
/// exactly eight bytes are consumed.
#[verifier::rlimit(100)]
fn decode_settings_tail(cur: &mut DecodeCursor) -> (r: Result<
    (u8, ChatMode, bool, u8, bool, bool, bool, ParticleStatus),
    DecodeError,
>)
    requires
        old(cur).wf(),
    ensures
        final(cur).wf(),
        final(cur).all_bytes() == old(cur).all_bytes(),
        forall|
            vd: u8,
            cm: ChatMode,
            cc: bool,
            sl: u8,
            lh: bool,
            tf: bool,
            ml: bool,
            ps: ParticleStatus,
        |
            #![trigger settings_tail_wire(vd, cm, cc, sl, lh, tf, ml, ps)]
            vd > 0 && settings_tail_wire(vd, cm, cc, sl, lh, tf, ml, ps).is_prefix_of(
                old(cur).rest(),
            ) ==> (r matches Ok(t) && t.0 == vd && t.1 == cm && t.2 == cc && t.3 == sl
                && t.4 == lh && t.5 == tf && t.6 == ml && t.7 == ps && final(cur).rest()
                == old(cur).rest().skip(8)),
{
    let ghost rem = old(cur).rest();
    proof {
        assert forall|
            vd: u8,
            cm: ChatMode,
            cc: bool,
            sl: u8,
            lh: bool,
            tf: bool,
            ml: bool,
            ps: ParticleStatus,
        |
            vd > 0 && #[trigger] settings_tail_wire(
                vd,
                cm,
                cc,
                sl,
                lh,
                tf,
                ml,
                ps,
            ).is_prefix_of(rem) implies rem.len() >= 8 && rem[0] == vd && rem[1]
            == chat_mode_ordinal(cm) as u8 && rem[2] == bool_byte(cc) && rem[3] == sl
            && rem[4] == bool_byte(lh) && rem[5] == bool_byte(tf) && rem[6] == bool_byte(
            ml,
        ) && rem[7] == particle_status_ordinal(ps) as u8 by {
            assert(settings_tail_wire(vd, cm, cc, sl, lh, tf, ml, ps) =~= rem.take(8));
        }
    }
    let view_dist = match decode_u8(cur) {
        Ok(b) => b,
        Err(e) => {
            return Err(e);
        },
    };
    if view_dist == 0 {
        return Err(DecodeError::BadOrdinal(0));
    }
    let cm_ord = match decode_varint_u32(cur) {
        Ok(v) => v,
        Err(e) => {
            proof {
                settings_tail_varints(rem);
            }
            return Err(e);
        },
    };
    let chat_mode = match ChatMode::from_ordinal(cm_ord) {
        Some(m) => m,
        None => {
            proof {
                settings_tail_varints(rem);
            }
            return Err(DecodeError::BadOrdinal(cm_ord));
        },
    };
    proof {
        settings_tail_varints(rem);
    }
    let chat_colours = match decode_bool(cur) {
        Ok(b) => b,
        Err(e) => {
            return Err(e);
        },
    };
    let skin_byte = match decode_u8(cur) {
        Ok(b) => b,
        Err(e) => {
            return Err(e);
        },
    };
    let left_handed = match decode_bool(cur) {
        Ok(b) => b,
        Err(e) => {
            return Err(e);
        },
    };
    let text_filtered = match decode_bool(cur) {
        Ok(b) => b,
        Err(e) => {
            return Err(e);
        },
    };
    let allow_motd_listing = match decode_bool(cur) {
        Ok(b) => b,
        Err(e) => {
            return Err(e);
        },
    };
    let ps_ord = match decode_varint_u32(cur) {
        Ok(v) => v,
        Err(e) => {
            return Err(e);
        },
    };
    let particle_status = match ParticleStatus::from_ordinal(ps_ord) {
        Some(p) => p,
        None => {
            return Err(DecodeError::BadOrdinal(ps_ord));
        },
    };
    Ok(
        (
            view_dist,
            chat_mode,
            chat_colours,
            skin_byte,
            left_handed,
            text_filtered,
            allow_motd_listing,
            particle_status,
        ),
    )
}

/// On input whose second and eighth bytes are below 128, both embedded
/// variable-width ordinals are single bytes.
proof fn settings_tail_varints(rem: Seq<u8>)
    ensures
        rem.len() >= 2 && rem[1] < 0x80 ==> crate::varint::varint_end(rem.skip(1)) == 0
            && crate::varint::varint_value(rem.skip(1), 1) == rem[1] && rem.skip(
            1,
        ).skip(1) =~= rem.skip(2),
        rem.len() >= 8 && rem[7] < 0x80 ==> crate::varint::varint_end(rem.skip(7)) == 0
            && crate::varint::varint_value(rem.skip(7), 1) == rem[7] && rem.skip(2).skip(
            1,
        ) =~= rem.skip(3) && rem.skip(3).skip(1) =~= rem.skip(4) && rem.skip(4).skip(1)
            =~= rem.skip(5) && rem.skip(5).skip(1) =~= rem.skip(6) && rem.skip(6).skip(1)
            =~= rem.skip(7) && rem.skip(7).skip(1) =~= rem.skip(8),
{
    if rem.len() >= 2 && rem[1] < 0x80 {
        assert(rem.skip(1)[0] == rem[1]);
        assert(crate::varint::varint_value(rem.skip(1).drop_first(), 0) == 0);
        assert(rem.skip(1).drop_first() =~= rem.skip(2));
        assert(rem.skip(1).skip(1) =~= rem.skip(2));
    }
    if rem.len() >= 8 && rem[7] < 0x80 {
        assert(rem.skip(7)[0] == rem[7]);
        assert(crate::varint::varint_value(rem.skip(7).drop_first(), 0) == 0);
        assert(rem.skip(2).skip(1) =~= rem.skip(3));
        assert(rem.skip(3).skip(1) =~= rem.skip(4));
        assert(rem.skip(4).skip(1) =~= rem.skip(5));
        assert(rem.skip(5).skip(1) =~= rem.skip(6));
        assert(rem.skip(6).skip(1) =~= rem.skip(7));
        assert(rem.skip(7).skip(1) =~= rem.skip(8));
    }
}

/// The canonical client-settings hypothesis: a well-formed settings
/// record's wire form lies at the front of `rem`.
pub open spec fn client_info_hyp(
    loc: Seq<char>,
    vd: u8,
    cm: ChatMode,
    cc: bool,
    sl: u8,
    lh: bool,
    tf: bool,
    ml: bool,
    ps: ParticleStatus,
    rem: Seq<u8>,
) -> bool {
    encode_utf8(loc).len() <= 16 && vd > 0 && client_info_wire(
        loc,
        vd,
        cm,
        cc,
        sl,
        lh,
        tf,
        ml,
        ps,
    ).is_prefix_of(rem)
}

impl ClientInfo {
    /// Reads the wire form: the locale string, then each further field in
    /// declaration order.
    ///
    /// On input that begins with the wire form of a well-formed settings
    /// record, the result carries exactly that record's fields and exactly
    /// its wire form is consumed.
    #[verifier::rlimit(100)]
    pub fn decode(cur: &mut DecodeCursor) -> (r: Result<ClientInfo, DecodeError>)
        requires
            old(cur).wf(),
        ensures
            final(cur).wf(),
            final(cur).all_bytes() == old(cur).all_bytes(),
            forall|
                loc: Seq<char>,
                vd: u8,
                cm: ChatMode,
                cc: bool,
                sl: u8,
                lh: bool,
                tf: bool,
                ml: bool,
                ps: ParticleStatus,
            |
                #![trigger client_info_wire(loc, vd, cm, cc, sl, lh, tf, ml, ps)]
                client_info_hyp(loc, vd, cm, cc, sl, lh, tf, ml, ps, old(cur).rest())
                    ==> (r matches Ok(c) && c.locale@ == loc && c.view_dist == vd
                    && c.chat_mode == cm && c.chat_colours == cc && c.skin_layers@ == sl
                    && c.left_handed == lh && c.text_filtered == tf
                    && c.allow_motd_listing == ml && c.particle_status == ps && c.wf()
                    && final(cur).rest() == old(cur).rest().skip(client_info_wire(
                    loc,
                    vd,
                    cm,
                    cc,
                    sl,
                    lh,
                    tf,
                    ml,
                    ps,
                ).len() as int)),
    {
        let ghost rem = old(cur).rest();
        proof {
            assert forall|
                loc: Seq<char>,
                vd: u8,
                cm: ChatMode,
                cc: bool,
                sl: u8,
                lh: bool,
                tf: bool,
                ml: bool,
                ps: ParticleStatus,
            |
                client_info_hyp(loc, vd, cm, cc, sl, lh, tf, ml, ps, rem) implies (
            #[trigger] client_info_wire(loc, vd, cm, cc, sl, lh, tf, ml, ps))
                == string_wire(loc) + settings_tail_wire(vd, cm, cc, sl, lh, tf, ml, ps) by {
                assert(varint_bytes(chat_mode_ordinal(cm) as nat) =~= seq![
                    chat_mode_ordinal(cm) as u8,
                ]);
                assert(varint_bytes(particle_status_ordinal(ps) as nat) =~= seq![
                    particle_status_ordinal(ps) as u8,
                ]);
                assert(client_info_wire(loc, vd, cm, cc, sl, lh, tf, ml, ps)
                    =~= string_wire(loc) + settings_tail_wire(
                    vd,
                    cm,
                    cc,
                    sl,
                    lh,
                    tf,
                    ml,
                    ps,
                ));
            }
        }
        let locale = match BoundedString::<16>::decode(cur) {
            Ok(l) => l,
            Err(e) => {
                proof {
                    assert forall|
                        loc: Seq<char>,
                        vd: u8,
                        cm: ChatMode,
                        cc: bool,
                        sl: u8,
                        lh: bool,
                        tf: bool,
                        ml: bool,
                        ps: ParticleStatus,
                    |
                        client_info_hyp(loc, vd, cm, cc, sl, lh, tf, ml, ps, rem) && (
                        #[trigger] client_info_wire(
                            loc,
                            vd,
                            cm,
                            cc,
                            sl,
                            lh,
                            tf,
                            ml,
                            ps,
                        )).len() >= 0 implies false by {
                        let tail8 = settings_tail_wire(vd, cm, cc, sl, lh, tf, ml, ps);
                        crate::strings::lemma_unsplice(string_wire(loc), tail8, rem);
                        lemma_string_wire_round_trip(
                            loc,
                            tail8 + rem.skip(client_info_wire(
                                loc,
                                vd,
                                cm,
                                cc,
                                sl,
                                lh,
                                tf,
                                ml,
                                ps,
                            ).len() as int),
                        );
                    }
                }
                return Err(e);
            },
        };
        let ghost rem1 = cur.rest();
        proof {
            assert forall|
                loc: Seq<char>,
                vd: u8,
                cm: ChatMode,
                cc: bool,
                sl: u8,
                lh: bool,
                tf: bool,
                ml: bool,
                ps: ParticleStatus,
            |
                #![trigger client_info_wire(loc, vd, cm, cc, sl, lh, tf, ml, ps)]
                client_info_hyp(loc, vd, cm, cc, sl, lh, tf, ml, ps, rem)
                implies locale@ == loc && settings_tail_wire(
                vd,
                cm,
                cc,
                sl,
                lh,
                tf,
                ml,
                ps,
            ).is_prefix_of(rem1) && rem1 == rem.skip(
                client_info_wire(loc, vd, cm, cc, sl, lh, tf, ml, ps).len() - 8,
            ) by {
                let tail8 = settings_tail_wire(vd, cm, cc, sl, lh, tf, ml, ps);
                crate::strings::lemma_unsplice(string_wire(loc), tail8, rem);
                let tail = tail8 + rem.skip(client_info_wire(
                    loc,
                    vd,
                    cm,
                    cc,
                    sl,
                    lh,
                    tf,
                    ml,
                    ps,
                ).len() as int);
                lemma_string_wire_round_trip(loc, tail);
                vstd::utf8::encode_utf8_decode_utf8(loc);
                assert(rem1 == rem.skip(crate::strings::string_wire_used(rem)));
                assert(rem1 =~= tail);
                assert(tail8.is_prefix_of(tail));
            }
        }
        let tail = match decode_settings_tail(cur) {
            Ok(t) => t,
            Err(e) => {
                proof {
                    assert forall|
                        loc: Seq<char>,
                        vd: u8,
                        cm: ChatMode,
                        cc: bool,
                        sl: u8,
                        lh: bool,
                        tf: bool,
                        ml: bool,
                        ps: ParticleStatus,
                    |
                        client_info_hyp(loc, vd, cm, cc, sl, lh, tf, ml, ps, rem) && (
                        #[trigger] client_info_wire(
                            loc,
                            vd,
                            cm,
                            cc,
                            sl,
                            lh,
                            tf,
                            ml,
                            ps,
                        )).len() >= 0 implies false by {
                    }
                }
                return Err(e);
            },
        };
        let (view_dist, chat_mode, chat_colours, skin_byte, left_handed, text_filtered,
            allow_motd_listing, particle_status) = tail;
        let info = ClientInfo {
            locale,
            view_dist,
            chat_mode,
            chat_colours,
            skin_layers: SkinLayers::from_byte(skin_byte),
            left_handed,
            text_filtered,
            allow_motd_listing,
            particle_status,
        };
        proof {
            assert forall|
                loc: Seq<char>,
                vd: u8,
                cm: ChatMode,
                cc: bool,
                sl: u8,
                lh: bool,
                tf: bool,
                ml: bool,
                ps: ParticleStatus,
            |
                client_info_hyp(loc, vd, cm, cc, sl, lh, tf, ml, ps, rem) implies (
            info.locale@ == loc && info.view_dist == vd && info.chat_mode == cm
                && info.chat_colours == cc && info.skin_layers@ == sl && info.left_handed
                == lh && info.text_filtered == tf && info.allow_motd_listing == ml
                && info.particle_status == ps && info.wf() && final(cur).rest()
                == rem.skip((#[trigger] client_info_wire(
                loc,
                vd,
                cm,
                cc,
                sl,
                lh,
                tf,
                ml,
                ps,
            )).len() as int)) by {
                assert(final(cur).rest() == rem1.skip(8));
                assert(final(cur).rest() =~= rem.skip(client_info_wire(
                    loc,
                    vd,
                    cm,
                    cc,
                    sl,
                    lh,
                    tf,
                    ml,
                    ps,
                ).len() as int));
            }
        }
        Ok(info)
    }
}

} // verus!
