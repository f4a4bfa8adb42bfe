//! Player account profiles.

use vstd::prelude::*;
use vstd::utf8::encode_utf8;
use crate::bounded_string::BoundedString;
use crate::decode::{DecodeCursor, DecodeError};
use crate::scalar::{be_u128, decode_u128, encode_u128, decode_bool, encode_bool};
use crate::strings::{decode_string, encode_str, string_wire, string_wire_used,
    str_eq, lemma_string_wire_round_trip, lemma_string_wire_no_err, lemma_unsplice};
use crate::varint::{varint_bytes, decode_varint_u32, encode_varint_u32,
    lemma_varint_round_trip};

verus! {

/// An opaque UUID value, declared so that it can stand in fields and
/// signatures.
#[verifier::external_type_specification]
#[verifier::external_body]
pub struct ExUuid(uuid::Uuid);

/// What `uuid::Uuid::as_u128` returns: the 128-bit value of the UUID.
pub uninterp spec fn uuid_bits(u: uuid::Uuid) -> u128;

/// Relies on `uuid::Uuid::as_u128`: it returns the UUID's 128-bit value.
#[verifier::external_body]
pub fn uuid_to_u128(u: &uuid::Uuid) -> (r: u128)
    ensures
        r == uuid_bits(*u),
{
    u.as_u128()
}

/// Relies on `uuid::Uuid::from_u128`: the created UUID carries exactly the
/// given 128-bit value, so `as_u128` returns it back.
#[verifier::external_body]
pub fn uuid_from_u128(v: u128) -> (r: uuid::Uuid)
    ensures
        uuid_bits(r) == v,
{
    uuid::Uuid::from_u128(v)
}

/// A player account property.
#[derive(Clone, Debug)]
pub struct AccountProperty {
    /// The value of the property.
    pub value: String,
    /// The signature of the property.
    pub sig: Option<String>,
}

/// A player account profile.
pub struct AccountProfile {
    /// The player account UUID.
    pub uuid: uuid::Uuid,
    /// The player account username.
    pub username: BoundedString<16>,
    /// The player's skin, if they have one.
    pub skin: Option<AccountProperty>,
}

/// The wire form of an optional string: a presence byte, then the string.
pub open spec fn opt_string_wire(s: Option<Seq<char>>) -> Seq<u8> {
    match s {
        Some(t) => seq![1u8] + string_wire(t),
        None => seq![0u8],
    }
}

/// The wire form of the property section for an optional skin.
pub open spec fn skin_wire(skin: Option<(Seq<char>, Option<Seq<char>>)>) -> Seq<u8> {
    match skin {
        Some((value, sig)) => varint_bytes(1) + string_wire("textures"@) + string_wire(
            value,
        ) + opt_string_wire(sig),
        None => varint_bytes(0),
    }
}

/// The full wire form of an account profile.
pub open spec fn profile_wire(
    ub: u128,
    name: Seq<char>,
    skin: Option<(Seq<char>, Option<Seq<char>>)>,
) -> Seq<u8> {
    be_u128(ub) + string_wire(name) + skin_wire(skin)
}

/// The skin model of a profile value.
pub open spec fn skin_view(skin: Option<AccountProperty>) -> Option<
    (Seq<char>, Option<Seq<char>>),
> {
    match skin {
        Some(p) => Some(
            (
                p.value@,
                match p.sig {
                    Some(s) => Some(s@),
                    None => None,
                },
            ),
        ),
        None => None,
    }
}

impl AccountProfile {
    /// Every held string fits the wire format's length prefixes.
    pub open spec fn wf(&self) -> bool {
        self.username.wf() && match skin_view(self.skin) {
            Some((value, sig)) => encode_utf8(value).len() < 0x100000000 && match sig {
                Some(s) => encode_utf8(s).len() < 0x100000000,
                None => true,
            },
            None => true,
        }
    }

    /// Appends the wire form: UUID, username, then the property section.
    pub fn encode(&self, out: &mut Vec<u8>)
        requires
            self.wf(),
        ensures
            final(out)@ == old(out)@ + profile_wire(
                uuid_bits(self.uuid),
                self.username@,
                skin_view(self.skin),
            ),
    {
        let bits = uuid_to_u128(&self.uuid);
        encode_u128(bits, out);
        self.username.encode(out);
        match &self.skin {
            Some(p) => {
                encode_varint_u32(1, out);
                proof {
                    reveal_strlit("textures");
                    vstd::utf8::is_ascii_chars_encode_utf8("textures"@);
                }
                encode_str("textures", out);
                encode_str(p.value.as_str(), out);
                match &p.sig {
                    Some(s) => {
                        encode_bool(true, out);
                        encode_str(s.as_str(), out);
                    },
                    None => {
                        encode_bool(false, out);
                    },
                }
            },
            None => {
                encode_varint_u32(0, out);
            },
        }
        proof {
            assert(varint_bytes(0) =~= seq![0u8]);
            assert(varint_bytes(1) =~= seq![1u8]);
            assert(final(out)@ =~= old(out)@ + profile_wire(
                uuid_bits(self.uuid),
                self.username@,
                skin_view(self.skin),
            ));
        }
    }
}

/// Every string of a skin model fits the wire format's length prefixes.
pub open spec fn skin_wf(skin: Option<(Seq<char>, Option<Seq<char>>)>) -> bool {
    match skin {
        Some((value, sig)) => encode_utf8(value).len() < 0x100000000 && match sig {
            Some(s) => encode_utf8(s).len() < 0x100000000,
            None => true,
        },
        None => true,
    }
}

/// The bytes of one property entry for a present skin, after the count.
pub open spec fn skin_entry(value: Seq<char>, sig: Option<Seq<char>>) -> Seq<u8> {
    string_wire("textures"@) + string_wire(value) + opt_string_wire(sig)
}

/// The canonical profile hypothesis: a well-formed profile's wire form
/// lies at the front of `rem`.
pub open spec fn profile_hyp(
    ub: u128,
    name: Seq<char>,
    skin: Option<(Seq<char>, Option<Seq<char>>)>,
    rem: Seq<u8>,
) -> bool {
    encode_utf8(name).len() <= 16 && skin_wf(skin) && profile_wire(
        ub,
        name,
        skin,
    ).is_prefix_of(rem)
}

/// The wire form of one property: key, value, then optional signature.
pub open spec fn property_wire(key: Seq<char>, value: Seq<char>, sig: Option<Seq<char>>) -> Seq<u8> {
    string_wire(key) + string_wire(value) + opt_string_wire(sig)
}

/// Reads one property: a key string, a value string, and an optional
/// signature string behind a presence byte.
///
/// On input that begins with the wire form of a property whose strings fit
/// their length prefixes, the result carries exactly those strings and
/// exactly their wire form is consumed.
#[verifier::rlimit(100)]
fn decode_property(cur: &mut DecodeCursor) -> (r: Result<
    (String, String, Option<String>),
    DecodeError,
>)
    requires
        old(cur).wf(),
    ensures
        final(cur).wf(),
        final(cur).all_bytes() == old(cur).all_bytes(),
        forall|key: Seq<char>, value: Seq<char>, sig: Option<Seq<char>>|
            #![trigger property_wire(key, value, sig)]
            encode_utf8(key).len() < 0x100000000 && encode_utf8(value).len()
                < 0x100000000 && (sig matches Some(sg) ==> encode_utf8(sg).len()
                < 0x100000000) && property_wire(key, value, sig).is_prefix_of(
                old(cur).rest(),
            ) ==> (r matches Ok(p) && p.0@ == key && p.1@ == value && (match (p.2, sig) {
                (Some(ps), Some(sg)) => ps@ == sg,
                (None, None) => true,
                _ => false,
            }) && final(cur).rest() == old(cur).rest().skip(
                property_wire(key, value, sig).len() as int,
            )),
{
    let ghost rem = old(cur).rest();
    let key_s = match decode_string(cur) {
        Ok(s) => s,
        Err(e) => {
            proof {
                assert forall|key: Seq<char>, value: Seq<char>, sig: Option<Seq<char>>|
                    encode_utf8(key).len() < 0x100000000 && #[trigger] property_wire(
                        key,
                        value,
                        sig,
                    ).is_prefix_of(rem) implies false by {
                    lemma_unsplice(
                        string_wire(key),
                        string_wire(value) + opt_string_wire(sig),
                        rem,
                    );
                    lemma_string_wire_no_err(
                        key,
                        (string_wire(value) + opt_string_wire(sig)) + rem.skip(
                            property_wire(key, value, sig).len() as int,
                        ),
                        e,
                    );
                }
            }
            return Err(e);
        },
    };
    let ghost rem1 = cur.rest();
    proof {
        assert forall|key: Seq<char>, value: Seq<char>, sig: Option<Seq<char>>|
            encode_utf8(key).len() < 0x100000000 && #[trigger] property_wire(
                key,
                value,
                sig,
            ).is_prefix_of(rem) implies key_s@ == key && (string_wire(value)
            + opt_string_wire(sig)).is_prefix_of(rem1) && rem1 == rem.skip(
            string_wire(key).len() as int,
        ) by {
            lemma_unsplice(string_wire(key), string_wire(value) + opt_string_wire(sig), rem);
            let tail = (string_wire(value) + opt_string_wire(sig)) + rem.skip(
                property_wire(key, value, sig).len() as int,
            );
            lemma_string_wire_round_trip(key, tail);
            vstd::utf8::encode_utf8_decode_utf8(key);
            assert(rem1 == rem.skip(string_wire_used(rem)));
            assert(rem1 =~= tail);
            assert(rem1 =~= rem.skip(string_wire(key).len() as int));
        }
    }
    let value_s = match decode_string(cur) {
        Ok(s) => s,
        Err(e) => {
            proof {
                assert forall|key: Seq<char>, value: Seq<char>, sig: Option<Seq<char>>|
                    encode_utf8(key).len() < 0x100000000 && encode_utf8(value).len()
                        < 0x100000000 && #[trigger] property_wire(
                        key,
                        value,
                        sig,
                    ).is_prefix_of(rem) implies false by {
                    lemma_unsplice(string_wire(value), opt_string_wire(sig), rem1);
                    lemma_string_wire_no_err(
                        value,
                        opt_string_wire(sig) + rem1.skip(
                            (string_wire(value) + opt_string_wire(sig)).len() as int,
                        ),
                        e,
                    );
                }
            }
            return Err(e);
        },
    };
    let ghost rem2 = cur.rest();
    proof {
        assert forall|key: Seq<char>, value: Seq<char>, sig: Option<Seq<char>>|
            encode_utf8(key).len() < 0x100000000 && encode_utf8(value).len()
                < 0x100000000 && #[trigger] property_wire(key, value, sig).is_prefix_of(
                rem,
            ) implies value_s@ == value && opt_string_wire(sig).is_prefix_of(rem2) && rem2
            == rem.skip((string_wire(key).len() + string_wire(value).len()) as int) by {
            lemma_unsplice(string_wire(value), opt_string_wire(sig), rem1);
            let tail = opt_string_wire(sig) + rem1.skip(
                (string_wire(value) + opt_string_wire(sig)).len() as int,
            );
            lemma_string_wire_round_trip(value, tail);
            vstd::utf8::encode_utf8_decode_utf8(value);
            assert(rem2 == rem1.skip(string_wire_used(rem1)));
            assert(rem2 =~= tail);
            assert(rem2 =~= rem.skip((string_wire(key).len() + string_wire(value).len()) as int));
        }
    }
    let has_sig = match decode_bool(cur) {
        Ok(b) => b,
        Err(e) => {
            proof {
                assert forall|key: Seq<char>, value: Seq<char>, sig: Option<Seq<char>>|
                    encode_utf8(key).len() < 0x100000000 && encode_utf8(value).len()
                        < 0x100000000 && #[trigger] property_wire(
                        key,
                        value,
                        sig,
                    ).is_prefix_of(rem) implies false by {
                    assert(opt_string_wire(sig).len() >= 1);
                    assert(rem2.len() >= 1);
                }
            }
            return Err(e);
        },
    };
    let ghost rem3 = cur.rest();
    if has_sig {
        match decode_string(cur) {
            Ok(sg) => {
                proof {
                    assert forall|key: Seq<char>, value: Seq<char>, sig: Option<
                        Seq<char>,
                    >|
                        encode_utf8(key).len() < 0x100000000 && encode_utf8(value).len()
                            < 0x100000000 && (sig matches Some(sgx) ==> encode_utf8(
                            sgx,
                        ).len() < 0x100000000) && #[trigger] property_wire(
                            key,
                            value,
                            sig,
                        ).is_prefix_of(rem) implies (sig matches Some(sgm) && sg@ == sgm
                        && final(cur).rest() == rem.skip(
                        property_wire(key, value, sig).len() as int,
                    )) by {
                        assert(opt_string_wire(sig)[0] == rem2[0]);
                        if sig is None {
                            assert(opt_string_wire(sig) =~= seq![0u8]);
                            assert(rem2[0] == 0);
                            assert(false);
                        }
                        let sgm = sig->0;
                        assert(opt_string_wire(sig) == seq![1u8] + string_wire(sgm));
                        lemma_unsplice(seq![1u8], string_wire(sgm), rem2);
                        assert(rem3 == rem2.skip(1));
                        let after = rem2.skip((seq![1u8] + string_wire(sgm)).len() as int);
                        assert(rem3 =~= string_wire(sgm) + after);
                        lemma_string_wire_round_trip(sgm, after);
                        vstd::utf8::encode_utf8_decode_utf8(sgm);
                        assert(sg@ == sgm);
                        assert(final(cur).rest() == rem3.skip(string_wire_used(rem3)));
                        assert(final(cur).rest() =~= after);
                        assert(final(cur).rest() =~= rem.skip(
                            property_wire(key, value, sig).len() as int,
                        ));
                    }
                }
                Ok((key_s, value_s, Some(sg)))
            },
            Err(e) => {
                proof {
                    assert forall|key: Seq<char>, value: Seq<char>, sig: Option<
                        Seq<char>,
                    >|
                        encode_utf8(key).len() < 0x100000000 && encode_utf8(value).len()
                            < 0x100000000 && (sig matches Some(sgx) ==> encode_utf8(
                            sgx,
                        ).len() < 0x100000000) && #[trigger] property_wire(
                            key,
                            value,
                            sig,
                        ).is_prefix_of(rem) implies false by {
                        assert(opt_string_wire(sig)[0] == rem2[0]);
                        if sig is None {
                            assert(opt_string_wire(sig) =~= seq![0u8]);
                            assert(rem2[0] == 0);
                            assert(false);
                        }
                        let sgm = sig->0;
                        assert(opt_string_wire(sig) == seq![1u8] + string_wire(sgm));
                        lemma_unsplice(seq![1u8], string_wire(sgm), rem2);
                        assert(rem3 == rem2.skip(1));
                        let after = rem2.skip((seq![1u8] + string_wire(sgm)).len() as int);
                        assert(rem3 =~= string_wire(sgm) + after);
                        lemma_string_wire_no_err(sgm, after, e);
                    }
                }
                Err(e)
            },
        }
    } else {
        proof {
            assert forall|key: Seq<char>, value: Seq<char>, sig: Option<Seq<char>>|
                encode_utf8(key).len() < 0x100000000 && encode_utf8(value).len()
                    < 0x100000000 && #[trigger] property_wire(key, value, sig).is_prefix_of(
                    rem,
                ) implies sig is None && final(cur).rest() == rem.skip(
                property_wire(key, value, sig).len() as int,
            ) by {
                assert(opt_string_wire(sig)[0] == rem2[0]);
                if sig is Some {
                    assert(opt_string_wire(sig)[0] == 1);
                    assert(false);
                }
                assert(opt_string_wire(sig) =~= seq![0u8]);
                assert(final(cur).rest() == rem2.skip(1));
                assert(final(cur).rest() =~= rem.skip(
                    property_wire(key, value, sig).len() as int,
                ));
            }
        }
        Ok((key_s, value_s, None))
    }
}

/// Reads the property section: a count, then that many properties, keeping
/// the `textures` one.
///
/// On input that begins with the property section of a well-formed skin
/// model, the result carries exactly that model and exactly its bytes are
/// consumed.
#[verifier::rlimit(100)]
fn decode_properties(cur: &mut DecodeCursor) -> (r: Result<
    Option<AccountProperty>,
    DecodeError,
>)
    requires
        old(cur).wf(),
    ensures
        final(cur).wf(),
        final(cur).all_bytes() == old(cur).all_bytes(),
        forall|skin: Option<(Seq<char>, Option<Seq<char>>)>|
            #![trigger skin_wire(skin)]
            skin_wf(skin) && skin_wire(skin).is_prefix_of(old(cur).rest()) ==> (
            r matches Ok(sf) && skin_view(sf) == skin && final(cur).rest() == old(
                cur,
            ).rest().skip(skin_wire(skin).len() as int)),
{
    let ghost rem = old(cur).rest();
    let count = match decode_varint_u32(cur) {
        Ok(c) => c,
        Err(e) => {
            proof {
                assert forall|skin: Option<(Seq<char>, Option<Seq<char>>)>|
                    skin_wf(skin) && #[trigger] skin_wire(skin).is_prefix_of(rem)
                    implies false by {
                    match skin {
                        Some(sk) => {
                            assert(varint_bytes(1) =~= seq![1u8]);
                            assert(skin_wire(skin)[0] == 1);
                        },
                        None => {
                            assert(varint_bytes(0) =~= seq![0u8]);
                            assert(skin_wire(skin)[0] == 0);
                        },
                    }
                    assert(rem[0] == skin_wire(skin)[0]);
                    crate::varint::lemma_varint_end_bounds(rem);
                }
            }
            return Err(e);
        },
    };
    let ghost rem1 = cur.rest();
    proof {
        assert forall|skin: Option<(Seq<char>, Option<Seq<char>>)>|
            skin_wf(skin) && #[trigger] skin_wire(skin).is_prefix_of(rem)
            implies count == (if skin is Some {
            1u32
        } else {
            0u32
        }) && (match skin {
            Some(sk) => property_wire("textures"@, sk.0, sk.1).is_prefix_of(rem1)
                && rem1 == rem.skip(1),
            None => rem1 == rem.skip(1),
        }) by {
            match skin {
                Some(sk) => {
                    assert(skin_wire(skin) == varint_bytes(1) + property_wire(
                        "textures"@,
                        sk.0,
                        sk.1,
                    ));
                    lemma_unsplice(
                        varint_bytes(1),
                        property_wire("textures"@, sk.0, sk.1),
                        rem,
                    );
                    lemma_varint_round_trip(
                        1,
                        property_wire("textures"@, sk.0, sk.1) + rem.skip(
                            skin_wire(skin).len() as int,
                        ),
                    );
                    assert(count == 1);
                    assert(varint_bytes(1) =~= seq![1u8]);
                    assert(rem1 =~= rem.skip(1));
                    assert(rem1 =~= property_wire("textures"@, sk.0, sk.1) + rem.skip(
                        skin_wire(skin).len() as int,
                    ));
                },
                None => {
                    assert(skin_wire(skin) == varint_bytes(0));
                    assert(varint_bytes(0) =~= seq![0u8]);
                    lemma_varint_round_trip(0, rem.skip(1));
                    assert(varint_bytes(0) + rem.skip(1) =~= rem);
                    assert(count == 0);
                    assert(rem1 =~= rem.skip(1));
                },
            }
        }
    }
    let mut skin_found: Option<AccountProperty> = None;
    let mut k: u32 = 0;
    while k < count
        invariant
            old(cur).wf(),
            cur.wf(),
            cur.all_bytes() == old(cur).all_bytes(),
            k <= count,
            rem == old(cur).rest(),
            forall|skin: Option<(Seq<char>, Option<Seq<char>>)>|
                #![trigger skin_wire(skin)]
                skin_wf(skin) && skin_wire(skin).is_prefix_of(rem) ==> (count == (
                if skin is Some {
                    1u32
                } else {
                    0u32
                }) && (match skin {
                    Some(sk) => (k == 0 ==> skin_found is None && property_wire(
                        "textures"@,
                        sk.0,
                        sk.1,
                    ).is_prefix_of(cur.rest()) && cur.rest() == rem.skip(1)) && (k == 1
                        ==> skin_view(skin_found) == skin && cur.rest() == rem.skip(
                        skin_wire(skin).len() as int,
                    )),
                    None => skin_found is None && cur.rest() == rem.skip(1),
                })),
        decreases count - k,
    {
        let ghost prev = cur.rest();
        let entry = match decode_property(cur) {
            Ok(p) => p,
            Err(e) => {
                proof {
                    assert forall|skin: Option<(Seq<char>, Option<Seq<char>>)>|
                        skin_wf(skin) && #[trigger] skin_wire(skin).is_prefix_of(rem)
                        implies false by {
                        if skin is None {
                            assert(count == 0);
                            assert(false);
                        }
                        let sk = skin->0;
                        proof_textures_len();
                        assert(property_wire("textures"@, sk.0, sk.1).is_prefix_of(prev));
                    }
                }
                return Err(e);
            },
        };
        let (key, value, sig) = entry;
        let is_textures = str_eq(key.as_str(), "textures");
        if is_textures {
            skin_found = Some(AccountProperty { value, sig });
        }
        k = k + 1;
        proof {
            assert forall|skin: Option<(Seq<char>, Option<Seq<char>>)>|
                skin_wf(skin) && #[trigger] skin_wire(skin).is_prefix_of(rem) implies (
            k == 1 ==> skin_view(skin_found) == skin && cur.rest() == rem.skip(
                skin_wire(skin).len() as int,
            )) by {
                if skin is None {
                    assert(count == 0);
                    assert(false);
                }
                let sk = skin->0;
                proof_textures_len();
                assert(property_wire("textures"@, sk.0, sk.1).is_prefix_of(prev));
                assert(key@ == "textures"@);
                assert(is_textures);
                assert(value@ == sk.0);
                assert(cur.rest() == prev.skip(property_wire(
                    "textures"@,
                    sk.0,
                    sk.1,
                ).len() as int));
                assert(cur.rest() =~= rem.skip(skin_wire(skin).len() as int));
            }
        }
    }
    proof {
        assert forall|skin: Option<(Seq<char>, Option<Seq<char>>)>|
            skin_wf(skin) && #[trigger] skin_wire(skin).is_prefix_of(rem)
            implies skin_view(skin_found) == skin && cur.rest() == rem.skip(
            skin_wire(skin).len() as int,
        ) by {
            match skin {
                Some(sk) => {
                    assert(count == 1 && k == 1);
                },
                None => {
                    assert(count == 0 && k == 0);
                    assert(skin_wire(skin) =~= seq![0u8]);
                },
            }
        }
    }
    Ok(skin_found)
}

impl AccountProfile {
    /// Reads the wire form: UUID, username, then the property section,
    /// keeping the `textures` property as the skin.
    ///
    /// On input that begins with the wire form of a well-formed profile,
    /// the result carries exactly that profile's fields and exactly its
    /// wire form is consumed.
    #[verifier::rlimit(100)]
    pub fn decode(cur: &mut DecodeCursor) -> (r: Result<AccountProfile, DecodeError>)
        requires
            old(cur).wf(),
        ensures
            final(cur).wf(),
            final(cur).all_bytes() == old(cur).all_bytes(),
            forall|ub: u128, name: Seq<char>, skin: Option<(Seq<char>, Option<Seq<char>>)>|
                #![trigger profile_wire(ub, name, skin)]
                profile_hyp(ub, name, skin, old(cur).rest()) ==> (r matches Ok(p)
                    && uuid_bits(p.uuid) == ub && p.username@ == name && skin_view(p.skin)
                    == skin && final(cur).rest() == old(cur).rest().skip(
                    profile_wire(ub, name, skin).len() as int,
                )),
    {
        let ghost rem = old(cur).rest();
        let bits = match decode_u128(cur) {
            Ok(b) => b,
            Err(e) => {
                proof {
                    assert forall|ub: u128, name: Seq<char>, skin: Option<
                        (Seq<char>, Option<Seq<char>>),
                    >|
                        profile_hyp(ub, name, skin, rem) implies false by {
                        assert(profile_wire(ub, name, skin).len() >= 16);
                    }
                }
                return Err(e);
            },
        };
        let ghost rem1 = cur.rest();
        proof {
            assert forall|ub: u128, name: Seq<char>, skin: Option<
                (Seq<char>, Option<Seq<char>>),
            >|
                profile_hyp(ub, name, skin, rem) implies ub == bits && (string_wire(name)
                + skin_wire(skin)).is_prefix_of(#[trigger] same_bytes(rem1)) by {
                let w = profile_wire(ub, name, skin);
                assert(be_u128(ub) =~= rem.take(16)) by {
                    assert forall|i: int| 0 <= i < 16 implies rem.take(16)[i] == be_u128(
                        ub,
                    )[i] by {
                        assert(rem[i] == w[i]);
                        assert(w[i] == be_u128(ub)[i]);
                    }
                }
                crate::scalar::lemma_be_u128_inj(bits, ub);
                assert(rem1 == rem.skip(16));
                let mid = string_wire(name) + skin_wire(skin);
                assert forall|i: int| 0 <= i < mid.len() implies rem1[i] == mid[i] by {
                    assert(rem1[i] == rem[16 + i]);
                    assert(rem[16 + i] == w[16 + i]);
                }
                assert(mid =~= rem1.take(mid.len() as int));
                assert(same_bytes(rem1) == rem1);
            }
        }
        let uuid = uuid_from_u128(bits);
        let username = match BoundedString::<16>::decode(cur) {
            Ok(u) => u,
            Err(e) => {
                proof {
                    assert forall|ub: u128, name: Seq<char>, skin: Option<
                        (Seq<char>, Option<Seq<char>>),
                    >|
                        profile_hyp(ub, name, skin, rem) implies false by {
                        assert(same_bytes(rem1) == rem1);
                        lemma_unsplice(string_wire(name), skin_wire(skin), rem1);
                        lemma_string_wire_round_trip(name, skin_wire(skin) + rem1.skip(
                            (string_wire(name) + skin_wire(skin)).len() as int,
                        ));
                    }
                }
                return Err(e);
            },
        };
        let ghost rem2 = cur.rest();
        proof {
            assert forall|ub: u128, name: Seq<char>, skin: Option<
                (Seq<char>, Option<Seq<char>>),
            >|
                profile_hyp(ub, name, skin, rem) implies username@ == name && skin_wire(
                    skin,
                ).is_prefix_of(#[trigger] same_bytes(rem2)) && rem2 == rem.skip(
                (16 + string_wire(name).len()) as int,
            ) by {
                assert(same_bytes(rem1) == rem1);
                lemma_unsplice(string_wire(name), skin_wire(skin), rem1);
                let tail = skin_wire(skin) + rem1.skip(
                    (string_wire(name) + skin_wire(skin)).len() as int,
                );
                lemma_string_wire_round_trip(name, tail);
                vstd::utf8::encode_utf8_decode_utf8(name);
                assert(username@ == name);
                assert(rem2 == rem1.skip(string_wire_used(rem1)));
                assert(rem2 =~= tail);
                assert(same_bytes(rem2) == rem2);
                assert(skin_wire(skin).is_prefix_of(tail));
                assert(rem2 =~= rem.skip((16 + string_wire(name).len()) as int));
            }
        }
        let skin = match decode_properties(cur) {
            Ok(s) => s,
            Err(e) => {
                proof {
                    assert forall|ub: u128, name: Seq<char>, skin: Option<
                        (Seq<char>, Option<Seq<char>>),
                    >|
                        profile_hyp(ub, name, skin, rem) implies false by {
                        assert(same_bytes(rem2) == rem2);
                        assert(skin_wire(skin).is_prefix_of(rem2));
                    }
                }
                return Err(e);
            },
        };
        proof {
            assert forall|ub: u128, name: Seq<char>, skin2: Option<
                (Seq<char>, Option<Seq<char>>),
            >|
                profile_hyp(ub, name, skin2, rem) implies skin_view(skin) == skin2
                && final(cur).rest() == rem.skip(#[trigger] profile_wire(
                ub,
                name,
                skin2,
            ).len() as int) by {
                assert(same_bytes(rem2) == rem2);
                assert(skin_wire(skin2).is_prefix_of(rem2));
                assert(final(cur).rest() == rem2.skip(skin_wire(skin2).len() as int));
                assert(final(cur).rest() =~= rem.skip(profile_wire(
                    ub,
                    name,
                    skin2,
                ).len() as int));
            }
        }
        Ok(AccountProfile { uuid, username, skin })
    }
}

/// The identity on byte sequences; quantified facts about one particular
/// remainder are phrased through it so that they carry a stable trigger.
pub open spec fn same_bytes(b: Seq<u8>) -> Seq<u8> {
    b
}

/// The modified UTF-8 details of the `textures` property key.
proof fn proof_textures_len()
    ensures
        encode_utf8("textures"@).len() == 8,
{
    reveal_strlit("textures");
    vstd::utf8::is_ascii_chars_encode_utf8("textures"@);
}

} // verus!
