//! The self-describing binary tag (NBT) format.
//!
//! Every element is a one-byte type tag followed by a type-specific body.
//! Numeric bodies are big-endian. Strings use Java's modified UTF-8
//! (CESU-8 with an overlong NUL) behind a 16-bit byte-length prefix. A
//! list holds one shared element tag, a 32-bit count, then the bodies of
//! its elements; a compound holds (tag, name, body) triples closed by the
//! end tag. Byte arrays carry a 32-bit length then raw bytes.

use vstd::prelude::*;

use vstd::utf8::{encode_utf8, is_ascii_chars};
use crate::decode::DecodeCursor;
use crate::scalar::{be_u16, be_u32, be_u64, decode_u16, decode_u32, decode_u64,
    decode_u8, encode_u16, encode_u32, encode_u64, encode_u8, lemma_be_u16_inj,
    lemma_be_u32_inj, lemma_be_u64_inj};

verus! {

broadcast use crate::decode::lemma_cursor_rest_len;

/// Tag of the end-of-compound marker.
pub const TAG_END: u8 = 0;

/// Tag of a byte element.
pub const TAG_BYTE: u8 = 1;

/// Tag of a short element.
pub const TAG_SHORT: u8 = 2;

/// Tag of an int element.
pub const TAG_INT: u8 = 3;

/// Tag of a long element.
pub const TAG_LONG: u8 = 4;

/// Tag of a float element.
pub const TAG_FLOAT: u8 = 5;

/// Tag of a double element.
pub const TAG_DOUBLE: u8 = 6;

/// Tag of a byte-array element.
pub const TAG_BARRAY: u8 = 7;

/// Tag of a string element.
pub const TAG_STRING: u8 = 8;

/// Tag of a list element.
pub const TAG_LIST: u8 = 9;

/// Tag of a compound element.
pub const TAG_COMPOUND: u8 = 10;

/// An NBT element.
///
/// Floats and doubles are carried as their IEEE-754 bit patterns, which is
/// exactly what the wire format stores.
#[derive(Debug)]
pub enum NbtElement {
    /// A signed byte.
    Byte(i8),
    /// A signed 16-bit integer.
    Short(i16),
    /// A signed 32-bit integer.
    Int(i32),
    /// A signed 64-bit integer.
    Long(i64),
    /// A 32-bit IEEE-754 value, as its bits.
    Float(u32),
    /// A 64-bit IEEE-754 value, as its bits.
    Double(u64),
    /// A raw byte array.
    BArray(Vec<u8>),
    /// A text string.
    Text(String),
    /// A homogeneous list of elements.
    List(Vec<NbtElement>),
    /// Named fields closed by an end marker.
    Compound(Vec<(String, NbtElement)>),
}

/// The mathematical model of an NBT element.
pub enum NbtValue {
    /// A signed byte.
    Byte(i8),
    /// A signed 16-bit integer.
    Short(i16),
    /// A signed 32-bit integer.
    Int(i32),
    /// A signed 64-bit integer.
    Long(i64),
    /// A 32-bit IEEE-754 value, as its bits.
    Float(u32),
    /// A 64-bit IEEE-754 value, as its bits.
    Double(u64),
    /// A raw byte array.
    BArray(Seq<u8>),
    /// A text string.
    Text(Seq<char>),
    /// A homogeneous list of elements.
    List(Seq<NbtValue>),
    /// Named fields closed by an end marker.
    Compound(Seq<(Seq<char>, NbtValue)>),
}

/// The models of a sequence of elements.
pub open spec fn elems_view(l: Seq<NbtElement>) -> Seq<NbtValue>
    decreases l,
{
    if l.len() == 0 {
        Seq::empty()
    } else {
        seq![l[0]@] + elems_view(l.drop_first())
    }
}

/// The models of a sequence of named elements.
pub open spec fn entries_view(m: Seq<(String, NbtElement)>) -> Seq<
    (Seq<char>, NbtValue),
>
    decreases m,
{
    if m.len() == 0 {
        Seq::empty()
    } else {
        seq![(m[0].0@, m[0].1@)] + entries_view(m.drop_first())
    }
}

impl View for NbtElement {
    type V = NbtValue;

    open spec fn view(&self) -> NbtValue
        decreases self,
    {
        match self {
            NbtElement::Byte(b) => NbtValue::Byte(*b),
            NbtElement::Short(x) => NbtValue::Short(*x),
            NbtElement::Int(x) => NbtValue::Int(*x),
            NbtElement::Long(x) => NbtValue::Long(*x),
            NbtElement::Float(b) => NbtValue::Float(*b),
            NbtElement::Double(b) => NbtValue::Double(*b),
            NbtElement::BArray(b) => NbtValue::BArray(b@),
            NbtElement::Text(s) => NbtValue::Text(s@),
            NbtElement::List(l) => NbtValue::List(elems_view(l@)),
            NbtElement::Compound(m) => NbtValue::Compound(entries_view(m@)),
        }
    }
}

/// Indexing the model of a sequence of elements.
pub proof fn lemma_elems_view_index(l: Seq<NbtElement>)
    ensures
        elems_view(l).len() == l.len(),
        forall|i: int| 0 <= i < l.len() ==> elems_view(l)[i] == #[trigger] l[i]@,
    decreases l,
{
    if l.len() > 0 {
        lemma_elems_view_index(l.drop_first());
        assert(elems_view(l) == seq![l[0]@] + elems_view(l.drop_first()));
        assert forall|i: int| 0 <= i < l.len() implies elems_view(l)[i]
            == #[trigger] l[i]@ by {
            if i > 0 {
                assert(elems_view(l)[i] == elems_view(l.drop_first())[i - 1]);
                assert(l.drop_first()[i - 1] == l[i]);
            }
        }
    }
}

/// Indexing the model of a sequence of named elements.
pub proof fn lemma_entries_view_index(m: Seq<(String, NbtElement)>)
    ensures
        entries_view(m).len() == m.len(),
        forall|i: int|
            0 <= i < m.len() ==> entries_view(m)[i] == ((#[trigger] m[i]).0@, m[i].1@),
    decreases m,
{
    if m.len() > 0 {
        lemma_entries_view_index(m.drop_first());
        assert(entries_view(m) == seq![(m[0].0@, m[0].1@)] + entries_view(
            m.drop_first(),
        ));
        assert forall|i: int| 0 <= i < m.len() implies entries_view(m)[i] == (
        (#[trigger] m[i]).0@,
        m[i].1@,
        ) by {
            if i > 0 {
                assert(entries_view(m)[i] == entries_view(m.drop_first())[i - 1]);
                assert(m.drop_first()[i - 1] == m[i]);
            }
        }
    }
}

/// The one-byte type tag of a value.
pub open spec fn tag_of(v: NbtValue) -> u8 {
    match v {
        NbtValue::Byte(_) => TAG_BYTE,
        NbtValue::Short(_) => TAG_SHORT,
        NbtValue::Int(_) => TAG_INT,
        NbtValue::Long(_) => TAG_LONG,
        NbtValue::Float(_) => TAG_FLOAT,
        NbtValue::Double(_) => TAG_DOUBLE,
        NbtValue::BArray(_) => TAG_BARRAY,
        NbtValue::Text(_) => TAG_STRING,
        NbtValue::List(_) => TAG_LIST,
        NbtValue::Compound(_) => TAG_COMPOUND,
    }
}

/// What `cesu8::to_java_cesu8` returns: the Java modified UTF-8 encoding,
/// a function of the characters alone.
pub uninterp spec fn java_cesu8(s: Seq<char>) -> Seq<u8>;

/// The body of an NBT string: 16-bit big-endian byte length, then the
/// modified UTF-8 bytes.
pub open spec fn nbt_string_payload(s: Seq<char>) -> Seq<u8> {
    be_u16(java_cesu8(s).len() as u16) + java_cesu8(s)
}

/// The shared element tag of a list; an empty list carries the end tag.
pub open spec fn elem_tag(l: Seq<NbtValue>) -> u8 {
    if l.len() == 0 {
        TAG_END
    } else {
        tag_of(l[0])
    }
}

/// Whether a value can be written at all: string bodies must fit their
/// 16-bit length prefix, arrays and lists their 32-bit signed count, and
/// lists must be homogeneous.
pub open spec fn nbt_wf(v: NbtValue) -> bool
    decreases v,
{
    match v {
        NbtValue::Byte(_) => true,
        NbtValue::Short(_) => true,
        NbtValue::Int(_) => true,
        NbtValue::Long(_) => true,
        NbtValue::Float(_) => true,
        NbtValue::Double(_) => true,
        NbtValue::BArray(b) => b.len() <= 0x7FFFFFFF,
        NbtValue::Text(s) => java_cesu8(s).len() <= 0xFFFF,
        NbtValue::List(l) => l.len() <= 0x7FFFFFFF && seq_wf(l) && homogeneous(l),
        NbtValue::Compound(m) => entries_wf(m),
    }
}

/// Every element of the sequence is well formed.
pub open spec fn seq_wf(l: Seq<NbtValue>) -> bool
    decreases l,
{
    if l.len() == 0 {
        true
    } else {
        nbt_wf(l[0]) && seq_wf(l.drop_first())
    }
}

/// Every element carries the same tag as the first.
pub open spec fn homogeneous(l: Seq<NbtValue>) -> bool {
    forall|i: int| 0 <= i < l.len() ==> tag_of(#[trigger] l[i]) == tag_of(l[0])
}

/// Every entry has an encodable name and a well-formed value.
pub open spec fn entries_wf(m: Seq<(Seq<char>, NbtValue)>) -> bool
    decreases m,
{
    if m.len() == 0 {
        true
    } else {
        java_cesu8(m[0].0).len() <= 0xFFFF && nbt_wf(m[0].1) && entries_wf(
            m.drop_first(),
        )
    }
}

/// The type-specific body of a value, without its leading tag.
pub open spec fn nbt_payload(v: NbtValue) -> Seq<u8>
    decreases v,
{
    match v {
        NbtValue::Byte(b) => seq![b as u8],
        NbtValue::Short(x) => be_u16(x as u16),
        NbtValue::Int(x) => be_u32(x as u32),
        NbtValue::Long(x) => be_u64(x as u64),
        NbtValue::Float(b) => be_u32(b),
        NbtValue::Double(b) => be_u64(b),
        NbtValue::BArray(b) => be_u32(b.len() as u32) + b,
        NbtValue::Text(s) => nbt_string_payload(s),
        NbtValue::List(l) => seq![elem_tag(l)] + be_u32(l.len() as u32) + payloads(l),
        NbtValue::Compound(m) => entries(m) + seq![TAG_END],
    }
}

/// The concatenated bodies of a list's elements.
pub open spec fn payloads(l: Seq<NbtValue>) -> Seq<u8>
    decreases l,
{
    if l.len() == 0 {
        Seq::empty()
    } else {
        nbt_payload(l[0]) + payloads(l.drop_first())
    }
}

/// The concatenated (tag, name, body) triples of a compound's entries.
pub open spec fn entries(m: Seq<(Seq<char>, NbtValue)>) -> Seq<u8>
    decreases m,
{
    if m.len() == 0 {
        Seq::empty()
    } else {
        seq![tag_of(m[0].1)] + nbt_string_payload(m[0].0) + nbt_payload(m[0].1)
            + entries(m.drop_first())
    }
}

/// The full wire form of a value: its tag, then its body.
pub open spec fn nbt_wire(v: NbtValue) -> Seq<u8> {
    seq![tag_of(v)] + nbt_payload(v)
}

/// A body is never empty: every kind carries at least one byte.
pub proof fn lemma_payload_min(v: NbtValue)
    ensures
        nbt_payload(v).len() >= 1,
        tag_of(v) != TAG_END,
{
}

/// Extending a prefix of a list by one element extends its bodies.
pub proof fn lemma_payloads_take(l: Seq<NbtValue>, k: int)
    requires
        0 <= k < l.len(),
    ensures
        payloads(l.take(k + 1)) == payloads(l.take(k)) + nbt_payload(l[k]),
    decreases l.len(),
{
    if k == 0 {
        assert(l.take(1) =~= seq![l[0]]);
        assert(l.take(0) =~= Seq::<NbtValue>::empty());
        assert(payloads(seq![l[0]]) =~= nbt_payload(l[0]) + payloads(
            Seq::<NbtValue>::empty(),
        )) by {
            assert(seq![l[0]].drop_first() =~= Seq::<NbtValue>::empty());
        }
        assert(payloads(l.take(k + 1)) =~= payloads(l.take(k)) + nbt_payload(l[k]));
    } else {
        lemma_payloads_take(l.drop_first(), k - 1);
        assert(l.take(k + 1).drop_first() =~= l.drop_first().take(k));
        assert(l.take(k).drop_first() =~= l.drop_first().take(k - 1));
        assert(l.take(k + 1)[0] == l[0]);
        assert(l.take(k)[0] == l[0]);
        assert(l.drop_first()[k - 1] == l[k]);
        assert(payloads(l.take(k + 1)) =~= payloads(l.take(k)) + nbt_payload(l[k]));
    }
}

/// Extending a prefix of an entry list by one entry extends its bytes.
pub proof fn lemma_entries_take(m: Seq<(Seq<char>, NbtValue)>, k: int)
    requires
        0 <= k < m.len(),
    ensures
        entries(m.take(k + 1)) == entries(m.take(k)) + (seq![tag_of(m[k].1)]
            + nbt_string_payload(m[k].0) + nbt_payload(m[k].1)),
    decreases m.len(),
{
    if k == 0 {
        assert(m.take(1) =~= seq![m[0]]);
        assert(m.take(0) =~= Seq::<(Seq<char>, NbtValue)>::empty());
        assert(seq![m[0]].drop_first() =~= Seq::<(Seq<char>, NbtValue)>::empty());
        assert(entries(m.take(k + 1)) =~= entries(m.take(k)) + (seq![tag_of(m[k].1)]
            + nbt_string_payload(m[k].0) + nbt_payload(m[k].1)));
    } else {
        lemma_entries_take(m.drop_first(), k - 1);
        assert(m.take(k + 1).drop_first() =~= m.drop_first().take(k));
        assert(m.take(k).drop_first() =~= m.drop_first().take(k - 1));
        assert(m.take(k + 1)[0] == m[0]);
        assert(m.take(k)[0] == m[0]);
        assert(m.drop_first()[k - 1] == m[k]);
        assert(entries(m.take(k + 1)) =~= entries(m.take(k)) + (seq![tag_of(m[k].1)]
            + nbt_string_payload(m[k].0) + nbt_payload(m[k].1)));
    }
}

/// A well-formed sequence is well formed at every index, and conversely.
pub proof fn lemma_seq_wf_index(l: Seq<NbtValue>)
    ensures
        seq_wf(l) <==> (forall|i: int| 0 <= i < l.len() ==> nbt_wf(#[trigger] l[i])),
    decreases l,
{
    if l.len() > 0 {
        lemma_seq_wf_index(l.drop_first());
        if forall|i: int| 0 <= i < l.len() ==> nbt_wf(#[trigger] l[i]) {
            assert forall|i: int| 0 <= i < l.drop_first().len() implies nbt_wf(
                #[trigger] l.drop_first()[i],
            ) by {
                assert(l.drop_first()[i] == l[i + 1]);
            }
        }
        if seq_wf(l) {
            assert forall|i: int| 0 <= i < l.len() implies nbt_wf(#[trigger] l[i]) by {
                if i > 0 {
                    assert(l[i] == l.drop_first()[i - 1]);
                }
            }
        }
    }
}

/// A well-formed entry sequence is well formed at every index, and
/// conversely.
pub proof fn lemma_entries_wf_index(m: Seq<(Seq<char>, NbtValue)>)
    ensures
        entries_wf(m) <==> (forall|i: int|
            0 <= i < m.len() ==> java_cesu8((#[trigger] m[i]).0).len() <= 0xFFFF
                && nbt_wf(m[i].1)),
    decreases m,
{
    if m.len() > 0 {
        lemma_entries_wf_index(m.drop_first());
        if forall|i: int|
            0 <= i < m.len() ==> java_cesu8((#[trigger] m[i]).0).len() <= 0xFFFF
                && nbt_wf(m[i].1) {
            assert forall|i: int| 0 <= i < m.drop_first().len() implies java_cesu8(
                (#[trigger] m.drop_first()[i]).0,
            ).len() <= 0xFFFF && nbt_wf(m.drop_first()[i].1) by {
                assert(m.drop_first()[i] == m[i + 1]);
            }
        }
        if entries_wf(m) {
            assert forall|i: int| 0 <= i < m.len() implies java_cesu8(
                (#[trigger] m[i]).0,
            ).len() <= 0xFFFF && nbt_wf(m[i].1) by {
                if i > 0 {
                    assert(m[i] == m.drop_first()[i - 1]);
                }
            }
        }
    }
}

/// Relies on `cesu8::to_java_cesu8`: the result is a function of the
/// characters alone; it is empty exactly for the empty string, and ASCII
/// text without NUL passes through as its UTF-8 bytes.
#[verifier::external_body]
fn cesu8_encode(s: &str) -> (r: Vec<u8>)
    ensures
        r@ == java_cesu8(s@),
        r@.len() == 0 <==> s@.len() == 0,
        is_ascii_chars(s@) && !s@.contains('\0') ==> r@ == encode_utf8(s@),
{
    cesu8::to_java_cesu8(s).into_owned()
}

/// Relies on `cesu8::from_java_cesu8`: it accepts every encoder output, and
/// on bytes that are the encoding of some string it returns exactly that
/// string; on `Err` no string encodes to the input.
#[verifier::external_body]
fn cesu8_decode(b: &[u8]) -> (r: Option<String>)
    ensures
        r matches Some(t) ==> forall|s: Seq<char>| java_cesu8(s) == b@ ==> s == t@,
        r is None ==> forall|s: Seq<char>| java_cesu8(s) != b@,
{
    match cesu8::from_java_cesu8(b) {
        Ok(t) => Some(t.into_owned()),
        Err(_) => None,
    }
}

/// Why a value could not be serialised.
#[derive(Clone, Copy, PartialEq, Eq, Structural, Debug)]
pub enum NbtSerError {
    /// A string's modified UTF-8 form exceeds the 16-bit length prefix.
    StringTooLong,
    /// A list or array exceeds the 32-bit signed length prefix.
    SeqTooLong,
    /// A list mixes elements of different tags.
    MixedList,
}

/// Writes the body of an NBT string: its 16-bit byte length, then its
/// modified UTF-8 bytes.
fn encode_nbt_string(s: &str, out: &mut Vec<u8>) -> (r: Result<(), NbtSerError>)
    ensures
        match r {
            Ok(u) => java_cesu8(s@).len() <= 0xFFFF && final(out)@ == old(out)@
                + nbt_string_payload(s@),
            Err(e) => e == NbtSerError::StringTooLong && java_cesu8(s@).len() > 0xFFFF
                && final(out)@ == old(out)@,
        },
{
    let j = cesu8_encode(s);
    if j.len() > 0xFFFF {
        return Err(NbtSerError::StringTooLong);
    }
    encode_u16(j.len() as u16, out);
    let ghost mid = out@;
    let mut i: usize = 0;
    while i < j.len()
        invariant
            i <= j@.len(),
            out@ == mid + j@.take(i as int),
        decreases j@.len() - i,
    {
        out.push(j[i]);
        i = i + 1;
        proof {
            assert(out@ =~= mid + j@.take(i as int));
        }
    }
    proof {
        assert(j@.take(j@.len() as int) =~= j@);
        assert(final(out)@ =~= old(out)@ + nbt_string_payload(s@));
    }
    Ok(())
}

impl NbtElement {
    /// The one-byte type tag of this element.
    pub fn tag(&self) -> (r: u8)
        ensures
            r == tag_of(self@),
    {
        match self {
            NbtElement::Byte(_) => TAG_BYTE,
            NbtElement::Short(_) => TAG_SHORT,
            NbtElement::Int(_) => TAG_INT,
            NbtElement::Long(_) => TAG_LONG,
            NbtElement::Float(_) => TAG_FLOAT,
            NbtElement::Double(_) => TAG_DOUBLE,
            NbtElement::BArray(_) => TAG_BARRAY,
            NbtElement::Text(_) => TAG_STRING,
            NbtElement::List(_) => TAG_LIST,
            NbtElement::Compound(_) => TAG_COMPOUND,
        }
    }

    /// Appends this element's full wire form: its tag, then its body.
    /// Succeeds exactly on well-formed values.
    pub fn encode(&self, out: &mut Vec<u8>) -> (r: Result<(), NbtSerError>)
        ensures
            match r {
                Ok(u) => nbt_wf(self@) && final(out)@ == old(out)@ + nbt_wire(self@),
                Err(e) => !nbt_wf(self@),
            },
    {
        encode_u8(self.tag(), out);
        let ghost mid = out@;
        match self.encode_payload(out) {
            Ok(u) => {
                proof {
                    assert(final(out)@ =~= old(out)@ + nbt_wire(self@));
                }
                Ok(())
            },
            Err(e) => Err(e),
        }
    }

    /// Appends this element's body, without its leading tag. Succeeds
    /// exactly on well-formed values.
    pub fn encode_payload(&self, out: &mut Vec<u8>) -> (r: Result<(), NbtSerError>)
        ensures
            match r {
                Ok(u) => nbt_wf(self@) && final(out)@ == old(out)@ + nbt_payload(self@),
                Err(e) => !nbt_wf(self@),
            },
        decreases self,
    {
        match self {
            NbtElement::Byte(b) => {
                encode_u8(*b as u8, out);
                Ok(())
            },
            NbtElement::Short(x) => {
                encode_u16(*x as u16, out);
                Ok(())
            },
            NbtElement::Int(x) => {
                encode_u32(*x as u32, out);
                Ok(())
            },
            NbtElement::Long(x) => {
                encode_u64(*x as u64, out);
                Ok(())
            },
            NbtElement::Float(b) => {
                encode_u32(*b, out);
                Ok(())
            },
            NbtElement::Double(b) => {
                encode_u64(*b, out);
                Ok(())
            },
            NbtElement::BArray(b) => {
                if b.len() > 0x7FFFFFFF {
                    return Err(NbtSerError::SeqTooLong);
                }
                encode_u32(b.len() as u32, out);
                let ghost mid = out@;
                let mut i: usize = 0;
                while i < b.len()
                    invariant
                        i <= b@.len(),
                        out@ == mid + b@.take(i as int),
                    decreases b@.len() - i,
                {
                    out.push(b[i]);
                    i = i + 1;
                    proof {
                        assert(out@ =~= mid + b@.take(i as int));
                    }
                }
                proof {
                    assert(b@.take(b@.len() as int) =~= b@);
                    assert(final(out)@ =~= old(out)@ + nbt_payload(self@));
                }
                Ok(())
            },
            NbtElement::Text(s) => {
                match encode_nbt_string(s.as_str(), out) {
                    Ok(u) => Ok(()),
                    Err(e) => Err(e),
                }
            },
            NbtElement::List(l) => {
                proof {
                    lemma_elems_view_index(l@);
                }
                let ghost lv = elems_view(l@);
                if l.len() > 0x7FFFFFFF {
                    return Err(NbtSerError::SeqTooLong);
                }
                let et: u8 = if l.len() == 0 {
                    TAG_END
                } else {
                    l[0].tag()
                };
                proof {
                    assert(et == elem_tag(lv));
                }
                encode_u8(et, out);
                encode_u32(l.len() as u32, out);
                let ghost mid = out@;
                let n = l.len();
                let mut k: usize = 0;
                while k < n
                    invariant
                        *self == NbtElement::List(*l),
                        self@ == NbtValue::List(lv),
                        n == l@.len(),
                        lv == elems_view(l@),
                        lv.len() == n,
                        forall|i: int| 0 <= i < n ==> lv[i] == #[trigger] l@[i]@,
                        k <= n,
                        n <= 0x7FFFFFFF,
                        et == elem_tag(lv),
                        out@ == mid + payloads(lv.take(k as int)),
                        forall|i: int|
                            0 <= i < k ==> nbt_wf(#[trigger] lv[i]) && tag_of(lv[i])
                                == elem_tag(lv),
                    decreases n - k,
                {
                    let elem = &l[k];
                    proof {
                        assert(decreases_to!(*self => self->List_0));
                        assert(self->List_0 == *l);
                        assert(decreases_to!(*l => l@));
                        assert(decreases_to!(l@ => l@[k as int]));
                        assert(decreases_to!(*self => l@[k as int]));
                    }
                    if elem.tag() != et {
                        proof {
                            assert(k > 0);
                            assert(tag_of(lv[k as int]) != tag_of(lv[0]));
                            assert(!homogeneous(lv));
                            assert(!nbt_wf(NbtValue::List(lv)));
                        }
                        return Err(NbtSerError::MixedList);
                    }
                    let ghost before = out@;
                    match elem.encode_payload(out) {
                        Ok(u) => {},
                        Err(e) => {
                            proof {
                                lemma_seq_wf_index(lv);
                                assert(!nbt_wf(lv[k as int]));
                                assert(!nbt_wf(NbtValue::List(lv)));
                            }
                            return Err(e);
                        },
                    }
                    proof {
                        lemma_payloads_take(lv, k as int);
                        assert(out@ =~= mid + payloads(lv.take(k as int + 1)));
                    }
                    k = k + 1;
                }
                proof {
                    assert(lv.take(n as int) =~= lv);
                    lemma_seq_wf_index(lv);
                    assert(nbt_wf(self@));
                    assert(final(out)@ =~= old(out)@ + nbt_payload(self@));
                }
                Ok(())
            },
            NbtElement::Compound(m) => {
                proof {
                    lemma_entries_view_index(m@);
                }
                let ghost mv = entries_view(m@);
                let ghost mid0 = out@;
                let n = m.len();
                let mut k: usize = 0;
                while k < n
                    invariant
                        *self == NbtElement::Compound(*m),
                        self@ == NbtValue::Compound(mv),
                        n == m@.len(),
                        mv == entries_view(m@),
                        mv.len() == n,
                        forall|i: int|
                            0 <= i < n ==> mv[i] == ((#[trigger] m@[i]).0@, m@[i].1@),
                        k <= n,
                        out@ == mid0 + entries(mv.take(k as int)),
                        forall|i: int|
                            0 <= i < k ==> java_cesu8((#[trigger] mv[i]).0).len()
                                <= 0xFFFF && nbt_wf(mv[i].1),
                    decreases n - k,
                {
                    let entry = &m[k];
                    proof {
                        assert(decreases_to!(*self => self->Compound_0));
                        assert(self->Compound_0 == *m);
                        assert(decreases_to!(*m => m@));
                        assert(decreases_to!(m@ => m@[k as int]));
                        assert(decreases_to!(m@[k as int] => m@[k as int].1));
                        assert(decreases_to!(*self => m@[k as int].1));
                    }
                    encode_u8(entry.1.tag(), out);
                    match encode_nbt_string(entry.0.as_str(), out) {
                        Ok(u) => {},
                        Err(e) => {
                            proof {
                                lemma_entries_wf_index(mv);
                                assert(java_cesu8(mv[k as int].0).len() > 0xFFFF);
                                assert(!entries_wf(mv));
                                assert(!nbt_wf(NbtValue::Compound(mv)));
                            }
                            return Err(e);
                        },
                    }
                    match entry.1.encode_payload(out) {
                        Ok(u) => {},
                        Err(e) => {
                            proof {
                                lemma_entries_wf_index(mv);
                                assert(!nbt_wf(mv[k as int].1));
                                assert(!entries_wf(mv));
                                assert(!nbt_wf(NbtValue::Compound(mv)));
                            }
                            return Err(e);
                        },
                    }
                    proof {
                        lemma_entries_take(mv, k as int);
                        assert(out@ =~= mid0 + entries(mv.take(k as int + 1)));
                    }
                    k = k + 1;
                }
                encode_u8(TAG_END, out);
                proof {
                    assert(mv.take(n as int) =~= mv);
                    lemma_entries_wf_index(mv);
                    assert(nbt_wf(self@));
                    assert(final(out)@ =~= old(out)@ + nbt_payload(self@));
                }
                Ok(())
            },
        }
    }
}

/// Splitting a list's bodies at an index.
pub proof fn lemma_payloads_split(l: Seq<NbtValue>, k: int)
    requires
        0 <= k <= l.len(),
    ensures
        payloads(l) == payloads(l.take(k)) + payloads(l.skip(k)),
    decreases k,
{
    if k == 0 {
        assert(l.take(0) =~= Seq::<NbtValue>::empty());
        assert(l.skip(0) =~= l);
        assert(payloads(l) =~= payloads(l.take(0)) + payloads(l.skip(0)));
    } else {
        lemma_payloads_split(l, k - 1);
        lemma_payloads_take(l, k - 1);
        lemma_payloads_head(l, k - 1);
        assert(payloads(l) =~= payloads(l.take(k)) + payloads(l.skip(k)));
    }
}

/// The bodies of a suffix begin with the body of its first element.
pub proof fn lemma_payloads_head(l: Seq<NbtValue>, k: int)
    requires
        0 <= k < l.len(),
    ensures
        payloads(l.skip(k)) == nbt_payload(l[k]) + payloads(l.skip(k + 1)),
{
    assert(l.skip(k)[0] == l[k]);
    assert(l.skip(k).drop_first() =~= l.skip(k + 1));
    assert(payloads(l.skip(k)) == nbt_payload(l.skip(k)[0]) + payloads(
        l.skip(k).drop_first(),
    ));
}

/// The bytes of one compound entry.
pub open spec fn entry_bytes(e: (Seq<char>, NbtValue)) -> Seq<u8> {
    seq![tag_of(e.1)] + nbt_string_payload(e.0) + nbt_payload(e.1)
}

/// Splitting a compound's entry bytes at an index.
pub proof fn lemma_entries_split(m: Seq<(Seq<char>, NbtValue)>, k: int)
    requires
        0 <= k <= m.len(),
    ensures
        entries(m) == entries(m.take(k)) + entries(m.skip(k)),
    decreases k,
{
    if k == 0 {
        assert(m.take(0) =~= Seq::<(Seq<char>, NbtValue)>::empty());
        assert(m.skip(0) =~= m);
        assert(entries(m) =~= entries(m.take(0)) + entries(m.skip(0)));
    } else {
        lemma_entries_split(m, k - 1);
        lemma_entries_take(m, k - 1);
        lemma_entries_head(m, k - 1);
        assert(entries(m) =~= entries(m.take(k)) + entries(m.skip(k)));
    }
}

/// The entry bytes of a suffix begin with the bytes of its first entry.
pub proof fn lemma_entries_head(m: Seq<(Seq<char>, NbtValue)>, k: int)
    requires
        0 <= k < m.len(),
    ensures
        entries(m.skip(k)) == entry_bytes(m[k]) + entries(m.skip(k + 1)),
{
    assert(m.skip(k)[0] == m[k]);
    assert(m.skip(k).drop_first() =~= m.skip(k + 1));
    assert(entries(m.skip(k)) == seq![tag_of(m.skip(k)[0].1)] + nbt_string_payload(
        m.skip(k)[0].0,
    ) + nbt_payload(m.skip(k)[0].1) + entries(m.skip(k).drop_first()));
    assert(entries(m.skip(k)) =~= entry_bytes(m[k]) + entries(m.skip(k + 1)));
}

/// The body of `v` lies fully at the front of `rem`.
pub open spec fn payload_fits(v: NbtValue, rem: Seq<u8>) -> bool {
    nbt_payload(v).is_prefix_of(rem)
}

/// `rem` ends strictly inside the body of `v`.
pub open spec fn payload_truncated(v: NbtValue, rem: Seq<u8>) -> bool {
    rem.len() < nbt_payload(v).len() && rem == nbt_payload(v).take(rem.len() as int)
}

proof fn lemma_cast_i8(x: i8)
    by (bit_vector)
    ensures
        (x as u8) as i8 == x,
{
}

proof fn lemma_cast_i16(x: i16)
    by (bit_vector)
    ensures
        (x as u16) as i16 == x,
{
}

proof fn lemma_cast_i32(x: i32)
    by (bit_vector)
    ensures
        (x as u32) as i32 == x,
{
}

proof fn lemma_cast_i64(x: i64)
    by (bit_vector)
    ensures
        (x as u64) as i64 == x,
{
}

/// Why NBT input could not be decoded.
#[derive(Clone, Copy, PartialEq, Eq, Structural, Debug)]
pub enum NbtDeserError {
    /// The input ended before the element did. Retry with more bytes.
    Incomplete,
    /// An unknown element tag was found; carries the offending byte.
    UnknownTag(u8),
    /// A string body was not valid modified UTF-8.
    BadString,
    /// A length field exceeds the signed 32-bit range.
    BadLength,
}

/// Reads the body of an NBT string: its 16-bit byte length, then that many
/// bytes of modified UTF-8.
fn decode_nbt_string(cur: &mut DecodeCursor) -> (r: Result<String, NbtDeserError>)
    requires
        old(cur).wf(),
    ensures
        final(cur).wf(),
        final(cur).all_bytes() == old(cur).all_bytes(),
        final(cur).position() >= old(cur).position(),
        r matches Ok(t) ==> final(cur).position() > old(cur).position(),
        forall|s: Seq<char>|
            #![trigger java_cesu8(s)]
            java_cesu8(s).len() <= 0xFFFF && nbt_string_payload(s).is_prefix_of(
                old(cur).rest(),
            ) ==> (r matches Ok(t) && t@ == s && final(cur).rest() == old(
                cur,
            ).rest().skip(nbt_string_payload(s).len() as int)),
        forall|s: Seq<char>|
            #![trigger java_cesu8(s)]
            java_cesu8(s).len() <= 0xFFFF && old(cur).rest().len()
                < nbt_string_payload(s).len() && old(cur).rest() == nbt_string_payload(
                s,
            ).take(old(cur).rest().len() as int) ==> r == Err::<String, NbtDeserError>(
                NbtDeserError::Incomplete,
            ),
{
    let ghost rem = old(cur).rest();
    let m = match decode_u16(cur) {
        Ok(m) => m,
        Err(e) => {
            return Err(NbtDeserError::Incomplete);
        },
    };
    proof {
        assert forall|s: Seq<char>|
            java_cesu8(s).len() <= 0xFFFF && (nbt_string_payload(s).is_prefix_of(rem)
                || (rem.len() < nbt_string_payload(s).len() && rem == nbt_string_payload(
                s,
            ).take(rem.len() as int))) implies m as nat == #[trigger] java_cesu8(
            s,
        ).len() by {
            if rem.len() >= 2 {
                assert(rem.take(2) =~= nbt_string_payload(s).take(2));
                assert(nbt_string_payload(s).take(2) =~= be_u16(
                    java_cesu8(s).len() as u16,
                ));
                lemma_be_u16_inj(m, java_cesu8(s).len() as u16);
            }
        }
    }
    let body = match cur.take_bytes(m as usize) {
        Ok(b) => b,
        Err(e) => {
            return Err(NbtDeserError::Incomplete);
        },
    };
    match cesu8_decode(body) {
        Some(t) => {
            proof {
                assert forall|s: Seq<char>|
                    java_cesu8(s).len() <= 0xFFFF && nbt_string_payload(s).is_prefix_of(
                        rem,
                    ) implies t@ == s && final(cur).rest() == rem.skip(
                    nbt_string_payload(s).len() as int,
                ) by {
                    assert(m as nat == java_cesu8(s).len());
                    assert(body@ =~= java_cesu8(s)) by {
                        assert(body@ == rem.skip(2).take(m as int));
                        assert(nbt_string_payload(s).skip(2) =~= java_cesu8(s));
                        assert forall|i: int| 0 <= i < m implies body@[i] == java_cesu8(
                            s,
                        )[i] by {
                            assert(rem[2 + i] == nbt_string_payload(s)[2 + i]);
                        }
                    }
                }
            }
            Ok(t)
        },
        None => {
            proof {
                assert forall|s: Seq<char>|
                    java_cesu8(s).len() <= 0xFFFF && (nbt_string_payload(
                        s,
                    ).is_prefix_of(rem) || (rem.len() < nbt_string_payload(s).len() && rem
                        == nbt_string_payload(s).take(rem.len() as int)))
                    implies false by {
                    assert(m as nat == java_cesu8(s).len());
                    assert(rem.len() >= 2 + m);
                    assert(nbt_string_payload(s).len() == 2 + m);
                    assert(nbt_string_payload(s).is_prefix_of(rem));
                    assert(body@ =~= java_cesu8(s)) by {
                        assert forall|i: int| 0 <= i < m implies body@[i] == java_cesu8(
                            s,
                        )[i] by {
                            assert(rem[2 + i] == nbt_string_payload(s)[2 + i]);
                        }
                    }
                }
            }
            Err(NbtDeserError::BadString)
        },
    }
}

/// The models of pushing one element.
pub proof fn lemma_elems_view_push(l: Seq<NbtElement>, e: NbtElement)
    ensures
        elems_view(l.push(e)) == elems_view(l) + seq![e@],
    decreases l,
{
    if l.len() == 0 {
        assert(l.push(e) =~= seq![e]);
        assert(seq![e].drop_first() =~= Seq::<NbtElement>::empty());
        assert(elems_view(Seq::<NbtElement>::empty()) == Seq::<NbtValue>::empty());
        assert(elems_view(seq![e]) == seq![e@] + elems_view(seq![e].drop_first()));
        assert(elems_view(l.push(e)) =~= elems_view(l) + seq![e@]);
    } else {
        lemma_elems_view_push(l.drop_first(), e);
        assert(l.push(e).drop_first() =~= l.drop_first().push(e));
        assert(l.push(e)[0] == l[0]);
        assert(elems_view(l.push(e)) == seq![l[0]@] + elems_view(l.drop_first().push(e)));
        assert(elems_view(l) == seq![l[0]@] + elems_view(l.drop_first()));
        assert(elems_view(l.push(e)) =~= elems_view(l) + seq![e@]);
    }
}

/// The models of pushing one named element.
pub proof fn lemma_entries_view_push(m: Seq<(String, NbtElement)>, e: (String, NbtElement))
    ensures
        entries_view(m.push(e)) == entries_view(m) + seq![(e.0@, e.1@)],
    decreases m,
{
    if m.len() == 0 {
        assert(m.push(e) =~= seq![e]);
        assert(seq![e].drop_first() =~= Seq::<(String, NbtElement)>::empty());
        assert(entries_view(Seq::<(String, NbtElement)>::empty()) == Seq::<
            (Seq<char>, NbtValue),
        >::empty());
        assert(entries_view(seq![e]) == seq![(e.0@, e.1@)] + entries_view(
            seq![e].drop_first(),
        ));
        assert(entries_view(m.push(e)) =~~= entries_view(m) + seq![(e.0@, e.1@)]);
    } else {
        lemma_entries_view_push(m.drop_first(), e);
        assert(m.push(e).drop_first() =~= m.drop_first().push(e));
        assert(m.push(e)[0] == m[0]);
        assert(entries_view(m.push(e)) == seq![(m[0].0@, m[0].1@)] + entries_view(
            m.drop_first().push(e),
        ));
        assert(entries_view(m) == seq![(m[0].0@, m[0].1@)] + entries_view(
            m.drop_first(),
        ));
        assert(entries_view(m.push(e)) =~~= entries_view(m) + seq![(e.0@, e.1@)]);
    }
}


/// Two byte sequences, one a prefix of the other, agree wherever both are
/// defined.
pub proof fn lemma_prefix_agree(a: Seq<u8>, b: Seq<u8>)
    requires
        b.is_prefix_of(a) || (a.len() < b.len() && a == b.take(a.len() as int)),
    ensures
        forall|i: int| 0 <= i < a.len() && i < b.len() ==> a[i] == b[i],
{
    if b.is_prefix_of(a) {
        assert forall|i: int| 0 <= i < a.len() && i < b.len() implies a[i] == b[i] by {
            assert(b[i] == a.subrange(0, b.len() as int)[i]);
        }
    } else {
        assert forall|i: int| 0 <= i < a.len() && i < b.len() implies a[i] == b[i] by {
            assert(a[i] == b.take(a.len() as int)[i]);
        }
    }
}

/// Where element `k`'s body sits inside a list's concatenated bodies.
pub proof fn lemma_payloads_layout(vl: Seq<NbtValue>, k: int)
    requires
        0 <= k < vl.len(),
    ensures
        payloads(vl).len() == payloads(vl.take(k)).len() + nbt_payload(vl[k]).len()
            + payloads(vl.skip(k + 1)).len(),
        forall|j: int|
            0 <= j < nbt_payload(vl[k]).len() ==> payloads(vl)[payloads(
                vl.take(k),
            ).len() + j] == nbt_payload(vl[k])[j],
{
    lemma_payloads_split(vl, k);
    lemma_payloads_head(vl, k);
    let ck = payloads(vl.take(k)).len() as int;
    assert forall|j: int| 0 <= j < nbt_payload(vl[k]).len() implies payloads(vl)[ck + j]
        == nbt_payload(vl[k])[j] by {
        assert(payloads(vl)[ck + j] == payloads(vl.skip(k))[j]);
        assert(payloads(vl.skip(k))[j] == nbt_payload(vl[k])[j]);
    }
}

/// Where entry `k`'s bytes sit inside a compound's entry bytes, and how an
/// entry's bytes are laid out.
pub proof fn lemma_entries_layout(mv: Seq<(Seq<char>, NbtValue)>, k: int)
    requires
        0 <= k < mv.len(),
    ensures
        entries(mv).len() == entries(mv.take(k)).len() + entry_bytes(mv[k]).len()
            + entries(mv.skip(k + 1)).len(),
        forall|j: int|
            0 <= j < entry_bytes(mv[k]).len() ==> entries(mv)[entries(mv.take(k)).len()
                + j] == entry_bytes(mv[k])[j],
        entry_bytes(mv[k]).len() == 1 + nbt_string_payload(mv[k].0).len() + nbt_payload(
            mv[k].1,
        ).len(),
        entry_bytes(mv[k])[0] == tag_of(mv[k].1),
        forall|i: int|
            0 <= i < nbt_string_payload(mv[k].0).len() ==> entry_bytes(mv[k])[1 + i]
                == nbt_string_payload(mv[k].0)[i],
        forall|i: int|
            0 <= i < nbt_payload(mv[k].1).len() ==> entry_bytes(mv[k])[1
                + nbt_string_payload(mv[k].0).len() + i] == nbt_payload(mv[k].1)[i],
{
    lemma_entries_split(mv, k);
    lemma_entries_head(mv, k);
    let ck = entries(mv.take(k)).len() as int;
    assert forall|j: int| 0 <= j < entry_bytes(mv[k]).len() implies entries(mv)[ck + j]
        == entry_bytes(mv[k])[j] by {
        assert(entries(mv)[ck + j] == entries(mv.skip(k))[j]);
        assert(entries(mv.skip(k))[j] == entry_bytes(mv[k])[j]);
    }
}

/// A candidate reading of a list body: the right length, well-formed
/// elements of the shared tag, and bodies that line up with the input as
/// far as the input reaches.
pub open spec fn list_cand(vl: Seq<NbtValue>, n: int, et: u8, rem5: Seq<u8>) -> bool {
    vl.len() == n && seq_wf(vl) && (forall|i: int|
        0 <= i < vl.len() ==> tag_of(#[trigger] vl[i]) == et) && (payloads(
        vl,
    ).is_prefix_of(rem5) || (rem5.len() < payloads(vl).len() && rem5 == payloads(
        vl,
    ).take(rem5.len() as int)))
}

/// A candidate reading of a compound body: well-formed entries whose bytes,
/// closed by the end tag, line up with the input as far as it reaches.
pub open spec fn comp_cand(mv: Seq<(Seq<char>, NbtValue)>, rem: Seq<u8>) -> bool {
    entries_wf(mv) && ((entries(mv) + seq![TAG_END]).is_prefix_of(rem) || (rem.len() < (
    entries(mv) + seq![TAG_END]).len() && rem == (entries(mv) + seq![TAG_END]).take(
        rem.len() as int,
    )))
}


/// The full body of a compound: its entry bytes closed by the end tag.
pub open spec fn comp_full(mv: Seq<(Seq<char>, NbtValue)>) -> Seq<u8> {
    entries(mv) + seq![TAG_END]
}

/// How input that lines up with a compound body dissects at entry `k`: the
/// entry's tag byte, then its name bytes, then its value body, each either
/// wholly present or cut by the end of the input.
pub proof fn lemma_comp_slices(mv: Seq<(Seq<char>, NbtValue)>, k: int, rem: Seq<u8>)
    requires
        0 <= k < mv.len(),
        comp_full(mv).is_prefix_of(rem) || (rem.len() < comp_full(mv).len() && rem
            == comp_full(mv).take(rem.len() as int)),
        entries(mv.take(k)).len() < rem.len(),
    ensures
        ({
            let ck = entries(mv.take(k)).len() as int;
            let sp = nbt_string_payload(mv[k].0);
            let pk = nbt_payload(mv[k].1);
            let after = rem.skip(ck + 1);
            let after2 = rem.skip(ck + 1 + sp.len());
            rem[ck] == tag_of(mv[k].1) && entries(mv).len() == ck + 1 + sp.len()
                + pk.len() + entries(mv.skip(k + 1)).len() && (sp.is_prefix_of(after) || (
            after.len() < sp.len() && after == sp.take(after.len() as int))) && (ck + 1
                + sp.len() <= rem.len() ==> (pk.is_prefix_of(after2) || (after2.len()
                < pk.len() && after2 == pk.take(after2.len() as int))))
        }),
{
    lemma_prefix_agree(rem, comp_full(mv));
    lemma_entries_layout(mv, k);
    let ck = entries(mv.take(k)).len() as int;
    let eb = entry_bytes(mv[k]);
    let sp = nbt_string_payload(mv[k].0);
    let pk = nbt_payload(mv[k].1);
    let after = rem.skip(ck + 1);
    let after2 = rem.skip(ck + 1 + sp.len());
    assert(comp_full(mv)[ck] == entries(mv)[ck]);
    assert(rem[ck] == tag_of(mv[k].1));
    assert forall|i: int| 0 <= i < after.len() && i < sp.len() implies after[i]
        == sp[i] by {
        assert(after[i] == rem[ck + 1 + i]);
        assert(rem[ck + 1 + i] == comp_full(mv)[ck + 1 + i]);
        assert(comp_full(mv)[ck + 1 + i] == entries(mv)[ck + 1 + i]);
        assert(entries(mv)[ck + 1 + i] == eb[1 + i]);
        assert(eb[1 + i] == sp[i]);
    }
    if after.len() >= sp.len() {
        assert(sp =~= after.take(sp.len() as int));
    } else {
        assert(after =~= sp.take(after.len() as int));
    }
    if ck + 1 + sp.len() <= rem.len() {
        assert forall|i: int| 0 <= i < after2.len() && i < pk.len() implies after2[i]
            == pk[i] by {
            assert(after2[i] == rem[ck + 1 + sp.len() + i]);
            assert(rem[ck + 1 + sp.len() + i] == comp_full(mv)[ck + 1 + sp.len() + i]);
            assert(comp_full(mv)[ck + 1 + sp.len() + i] == entries(mv)[ck + 1 + sp.len()
                + i]);
            assert(entries(mv)[ck + 1 + sp.len() + i] == eb[1 + sp.len() + i]);
            assert(eb[1 + sp.len() + i] == pk[i]);
        }
        if after2.len() >= pk.len() {
            assert(pk =~= after2.take(pk.len() as int));
        } else {
            assert(after2 =~= pk.take(after2.len() as int));
        }
    }
}

/// Reads the body of an element whose tag is already known from context.
///
/// On input that begins with the body of some well-formed value of this
/// tag, the result is exactly that value and exactly its body is consumed.
/// On input cut short inside such a body, the result is `Incomplete`.
#[verifier::rlimit(100)]
pub fn decode_payload(tag: u8, cur: &mut DecodeCursor) -> (r: Result<
    NbtElement,
    NbtDeserError,
>)
    requires
        old(cur).wf(),
    ensures
        final(cur).wf(),
        final(cur).all_bytes() == old(cur).all_bytes(),
        final(cur).position() >= old(cur).position(),
        r matches Ok(el) ==> final(cur).position() > old(cur).position(),
        forall|v: NbtValue|
            #![trigger payload_fits(v, old(cur).rest())]
            nbt_wf(v) && tag_of(v) == tag && payload_fits(v, old(cur).rest()) ==> (
            r matches Ok(el) && el@ == v && final(cur).rest() == old(cur).rest().skip(
                nbt_payload(v).len() as int,
            )),
        forall|v: NbtValue|
            #![trigger payload_truncated(v, old(cur).rest())]
            nbt_wf(v) && tag_of(v) == tag && payload_truncated(v, old(cur).rest()) ==> r
                == Err::<NbtElement, NbtDeserError>(NbtDeserError::Incomplete),
    decreases old(cur).rest().len(),
{
    let ghost rem = old(cur).rest();
    if tag == TAG_BYTE {
        match decode_u8(cur) {
            Ok(b) => {
                proof {
                    assert forall|v: NbtValue|
                        nbt_wf(v) && tag_of(v) == tag && payload_fits(v, rem) implies (
                    NbtElement::Byte(b as i8)@ == v && final(cur).rest() == rem.skip(
                        nbt_payload(v).len() as int,
                    )) by {
                        let x = v->Byte_0;
                        assert(nbt_payload(v) == seq![x as u8]);
                        assert(nbt_payload(v) =~= rem.take(1));
                        assert(seq![b] == rem.take(1));
                        assert(seq![b][0] == b && nbt_payload(v)[0] == x as u8);
                        assert(b == x as u8);
                        lemma_cast_i8(x);
                    }
                }
                Ok(NbtElement::Byte(b as i8))
            },
            Err(e) => Err(NbtDeserError::Incomplete),
        }
    } else if tag == TAG_SHORT {
        match decode_u16(cur) {
            Ok(w) => {
                proof {
                    assert forall|v: NbtValue|
                        nbt_wf(v) && tag_of(v) == tag && payload_fits(v, rem) implies (
                    NbtElement::Short(w as i16)@ == v && final(cur).rest() == rem.skip(
                        nbt_payload(v).len() as int,
                    )) by {
                        let x = v->Short_0;
                        assert(nbt_payload(v) == be_u16(x as u16));
                        assert(be_u16(x as u16) =~= rem.take(2));
                        lemma_be_u16_inj(w, x as u16);
                        lemma_cast_i16(x);
                    }
                }
                Ok(NbtElement::Short(w as i16))
            },
            Err(e) => Err(NbtDeserError::Incomplete),
        }
    } else if tag == TAG_INT {
        match decode_u32(cur) {
            Ok(w) => {
                proof {
                    assert forall|v: NbtValue|
                        nbt_wf(v) && tag_of(v) == tag && payload_fits(v, rem) implies (
                    NbtElement::Int(w as i32)@ == v && final(cur).rest() == rem.skip(
                        nbt_payload(v).len() as int,
                    )) by {
                        let x = v->Int_0;
                        assert(nbt_payload(v) == be_u32(x as u32));
                        assert(be_u32(x as u32) =~= rem.take(4));
                        lemma_be_u32_inj(w, x as u32);
                        lemma_cast_i32(x);
                    }
                }
                Ok(NbtElement::Int(w as i32))
            },
            Err(e) => Err(NbtDeserError::Incomplete),
        }
    } else if tag == TAG_LONG {
        match decode_u64(cur) {
            Ok(w) => {
                proof {
                    assert forall|v: NbtValue|
                        nbt_wf(v) && tag_of(v) == tag && payload_fits(v, rem) implies (
                    NbtElement::Long(w as i64)@ == v && final(cur).rest() == rem.skip(
                        nbt_payload(v).len() as int,
                    )) by {
                        let x = v->Long_0;
                        assert(nbt_payload(v) == be_u64(x as u64));
                        assert(be_u64(x as u64) =~= rem.take(8));
                        lemma_be_u64_inj(w, x as u64);
                        lemma_cast_i64(x);
                    }
                }
                Ok(NbtElement::Long(w as i64))
            },
            Err(e) => Err(NbtDeserError::Incomplete),
        }
    } else if tag == TAG_FLOAT {
        match decode_u32(cur) {
            Ok(w) => {
                proof {
                    assert forall|v: NbtValue|
                        nbt_wf(v) && tag_of(v) == tag && payload_fits(v, rem) implies (
                    NbtElement::Float(w)@ == v && final(cur).rest() == rem.skip(
                        nbt_payload(v).len() as int,
                    )) by {
                        let x = v->Float_0;
                        assert(nbt_payload(v) == be_u32(x));
                        assert(be_u32(x) =~= rem.take(4));
                        lemma_be_u32_inj(w, x);
                    }
                }
                Ok(NbtElement::Float(w))
            },
            Err(e) => Err(NbtDeserError::Incomplete),
        }
    } else if tag == TAG_DOUBLE {
        match decode_u64(cur) {
            Ok(w) => {
                proof {
                    assert forall|v: NbtValue|
                        nbt_wf(v) && tag_of(v) == tag && payload_fits(v, rem) implies (
                    NbtElement::Double(w)@ == v && final(cur).rest() == rem.skip(
                        nbt_payload(v).len() as int,
                    )) by {
                        let x = v->Double_0;
                        assert(nbt_payload(v) == be_u64(x));
                        assert(be_u64(x) =~= rem.take(8));
                        lemma_be_u64_inj(w, x);
                    }
                }
                Ok(NbtElement::Double(w))
            },
            Err(e) => Err(NbtDeserError::Incomplete),
        }
    } else if tag == TAG_BARRAY {
        let n32 = match decode_u32(cur) {
            Ok(n) => n,
            Err(e) => {
                return Err(NbtDeserError::Incomplete);
            },
        };
        proof {
            assert forall|v: NbtValue|
                nbt_wf(v) && tag_of(v) == tag && (payload_fits(v, rem)
                    || payload_truncated(v, rem)) implies n32 as nat
                == v->BArray_0.len() by {
                let b = v->BArray_0;
                assert(nbt_payload(v) == be_u32(b.len() as u32) + b);
                assert(be_u32(b.len() as u32) =~= rem.take(4)) by {
                    assert forall|i: int| 0 <= i < 4 implies rem.take(4)[i] == be_u32(
                        b.len() as u32,
                    )[i] by {
                        assert(rem[i] == nbt_payload(v)[i]);
                        assert(nbt_payload(v)[i] == be_u32(b.len() as u32)[i]);
                    }
                }
                lemma_be_u32_inj(n32, b.len() as u32);
            }
        }
        if n32 > 0x7FFFFFFF {
            return Err(NbtDeserError::BadLength);
        }
        let n = n32 as usize;
        match cur.take_bytes(n) {
            Ok(body) => {
                let data = vstd::slice::slice_to_vec(body);
                proof {
                    assert forall|v: NbtValue|
                        nbt_wf(v) && tag_of(v) == tag && payload_fits(v, rem) implies (
                    NbtElement::BArray(data)@ == v && final(cur).rest() == rem.skip(
                        nbt_payload(v).len() as int,
                    )) by {
                        let b = v->BArray_0;
                        assert(data@ =~= b) by {
                            assert forall|i: int| 0 <= i < n implies data@[i] == b[i] by {
                                assert(rem[4 + i] == nbt_payload(v)[4 + i]);
                            }
                        }
                        assert(final(cur).rest() =~= rem.skip(nbt_payload(v).len() as int));
                    }
                }
                Ok(NbtElement::BArray(data))
            },
            Err(e) => Err(NbtDeserError::Incomplete),
        }
    } else if tag == TAG_STRING {
        let ghost pos0 = old(cur).position();
        match decode_nbt_string(cur) {
            Ok(t) => {
                proof {
                    assert forall|v: NbtValue|
                        nbt_wf(v) && tag_of(v) == tag && payload_fits(v, rem) implies (
                    NbtElement::Text(t)@ == v && final(cur).rest() == rem.skip(
                        nbt_payload(v).len() as int,
                    )) by {
                        let x = v->Text_0;
                        assert(java_cesu8(x).len() <= 0xFFFF);
                        assert(nbt_string_payload(x).is_prefix_of(rem));
                    }
                }
                Ok(NbtElement::Text(t))
            },
            Err(e) => {
                proof {
                    assert forall|v: NbtValue|
                        nbt_wf(v) && tag_of(v) == tag && payload_fits(v, rem)
                        implies false by {
                        let x = v->Text_0;
                        assert(nbt_string_payload(x).is_prefix_of(rem));
                    }
                    assert forall|v: NbtValue|
                        nbt_wf(v) && tag_of(v) == tag && payload_truncated(v, rem)
                        implies e == NbtDeserError::Incomplete by {
                        let x = v->Text_0;
                        assert(rem.len() < nbt_string_payload(x).len() && rem
                            == nbt_string_payload(x).take(rem.len() as int));
                    }
                }
                Err(e)
            },
        }
    } else if tag == TAG_LIST {
        let et = match decode_u8(cur) {
            Ok(b) => b,
            Err(e) => {
                return Err(NbtDeserError::Incomplete);
            },
        };
        let n32 = match decode_u32(cur) {
            Ok(n) => n,
            Err(e) => {
                return Err(NbtDeserError::Incomplete);
            },
        };
        let ghost rem5 = rem.skip(5);
        proof {
            assert(cur.rest() =~= rem5);
            assert forall|v: NbtValue|
                nbt_wf(v) && tag_of(v) == tag && (payload_fits(v, rem)
                    || payload_truncated(v, rem)) implies list_cand(
                v->List_0,
                n32 as int,
                et,
                rem5,
            ) && n32 as nat == v->List_0.len() by {
                let vl = v->List_0;
                assert(nbt_payload(v) == seq![elem_tag(vl)] + be_u32(vl.len() as u32)
                    + payloads(vl));
                lemma_prefix_agree(rem, nbt_payload(v));
                assert(nbt_payload(v)[0] == elem_tag(vl));
                assert(seq![et] == rem.take(1));
                assert(seq![et][0] == et && rem.take(1)[0] == rem[0]);
                assert(et == elem_tag(vl));
                assert(be_u32(vl.len() as u32) =~= rem.skip(1).take(4)) by {
                    assert forall|i: int| 0 <= i < 4 implies rem.skip(1).take(4)[i]
                        == be_u32(vl.len() as u32)[i] by {
                        assert(rem[1 + i] == nbt_payload(v)[1 + i]);
                        assert(nbt_payload(v)[1 + i] == be_u32(vl.len() as u32)[i]);
                    }
                }
                lemma_be_u32_inj(n32, vl.len() as u32);
                assert forall|i: int| 0 <= i < vl.len() implies tag_of(#[trigger] vl[i])
                    == et by {
                    assert(tag_of(vl[i]) == tag_of(vl[0]));
                }
                assert forall|i: int|
                    0 <= i < rem5.len() && i < payloads(vl).len() implies rem5[i]
                    == payloads(vl)[i] by {
                    assert(rem[5 + i] == nbt_payload(v)[5 + i]);
                    assert(nbt_payload(v)[5 + i] == payloads(vl)[i]);
                }
                if payload_fits(v, rem) {
                    assert(payloads(vl) =~= rem5.take(payloads(vl).len() as int));
                } else {
                    assert(rem5 =~= payloads(vl).take(rem5.len() as int));
                }
            }
        }
        if n32 > 0x7FFFFFFF {
            return Err(NbtDeserError::BadLength);
        }
        let n = n32 as usize;
        let mut acc: Vec<NbtElement> = Vec::new();
        let mut k: usize = 0;
        proof {
            assert(elems_view(acc@) =~= Seq::<NbtValue>::empty());
        }
        while k < n
            invariant
                old(cur).wf(),
                cur.wf(),
                cur.all_bytes() == old(cur).all_bytes(),
                cur.position() >= old(cur).position() + 5,
                rem == old(cur).rest(),
                rem.len() >= 5,
                rem5 == rem.skip(5),
                tag == TAG_LIST,
                k <= n,
                acc@.len() == k,
                forall|v: NbtValue|
                    #![trigger payload_fits(v, rem)]
                    nbt_wf(v) && tag_of(v) == tag && payload_fits(v, rem) ==> (list_cand(
                        v->List_0,
                        n as int,
                        et,
                        rem5,
                    ) && payloads(v->List_0).is_prefix_of(rem5)),
                forall|v: NbtValue|
                    #![trigger payload_truncated(v, rem)]
                    nbt_wf(v) && tag_of(v) == tag && payload_truncated(v, rem) ==> (
                    list_cand(v->List_0, n as int, et, rem5) && rem5.len() < payloads(
                        v->List_0,
                    ).len() && rem5 == payloads(v->List_0).take(rem5.len() as int)),
                forall|vl: Seq<NbtValue>|
                    #![trigger payloads(vl)]
                    list_cand(vl, n as int, et, rem5) ==> (elems_view(acc@) == vl.take(
                        k as int,
                    ) && payloads(vl.take(k as int)).len() <= rem5.len() && cur.rest()
                        == rem5.skip(payloads(vl.take(k as int)).len() as int)),
            decreases n - k,
        {
            let ghost acc0 = acc@;
            let ghost prev = cur.rest();
            proof {
                assert(cur.rest().len() == cur.all_bytes().len() - cur.position());
                assert(rem.len() == old(cur).all_bytes().len() - old(cur).position());
                assert(cur.rest().len() < rem.len());
            }
            let el = match decode_payload(et, cur) {
                Ok(el) => el,
                Err(e) => {
                    proof {
                        assert forall|v: NbtValue|
                            nbt_wf(v) && tag_of(v) == tag && payload_fits(v, rem)
                            implies false by {
                            let vl = v->List_0;
                            assert(list_cand(vl, n as int, et, rem5));
                            lemma_payloads_layout(vl, k as int);
                            lemma_seq_wf_index(vl);
                            lemma_prefix_agree(rem5, payloads(vl));
                            let ck = payloads(vl.take(k as int)).len() as int;
                            let pk = nbt_payload(vl[k as int]);
                            assert(payload_fits(vl[k as int], prev)) by {
                                assert forall|i: int| 0 <= i < pk.len() implies prev[i]
                                    == pk[i] by {
                                    assert(prev[i] == rem5[ck + i]);
                                    assert(rem5[ck + i] == payloads(vl)[ck + i]);
                                }
                                assert(pk =~= prev.take(pk.len() as int));
                            }
                            assert(tag_of(vl[k as int]) == et);
                        }
                        assert forall|v: NbtValue|
                            nbt_wf(v) && tag_of(v) == tag && payload_truncated(v, rem)
                            implies e == NbtDeserError::Incomplete by {
                            let vl = v->List_0;
                            assert(list_cand(vl, n as int, et, rem5));
                            lemma_payloads_layout(vl, k as int);
                            lemma_seq_wf_index(vl);
                            lemma_prefix_agree(rem5, payloads(vl));
                            let ck = payloads(vl.take(k as int)).len() as int;
                            let pk = nbt_payload(vl[k as int]);
                            assert(tag_of(vl[k as int]) == et);
                            if prev.len() >= pk.len() {
                                assert(payload_fits(vl[k as int], prev)) by {
                                    assert forall|i: int| 0 <= i < pk.len() implies prev[i]
                                        == pk[i] by {
                                        assert(prev[i] == rem5[ck + i]);
                                        assert(rem5[ck + i] == payloads(vl)[ck + i]);
                                    }
                                    assert(pk =~= prev.take(pk.len() as int));
                                }
                                assert(false);
                            } else {
                                assert(payload_truncated(vl[k as int], prev)) by {
                                    assert forall|i: int| 0 <= i < prev.len() implies prev[i]
                                        == pk[i] by {
                                        assert(prev[i] == rem5[ck + i]);
                                        assert(rem5[ck + i] == payloads(vl)[ck + i]);
                                    }
                                    assert(prev =~= pk.take(prev.len() as int));
                                }
                            }
                        }
                    }
                    return Err(e);
                },
            };
            acc.push(el);
            k = k + 1;
            proof {
                lemma_elems_view_push(acc0, el);
                assert(acc@ == acc0.push(el));
                assert(elems_view(acc@) == elems_view(acc0) + seq![el@]);
                assert forall|vl: Seq<NbtValue>|
                    #![trigger payloads(vl)]
                    list_cand(vl, n as int, et, rem5) implies (elems_view(acc@)
                    == vl.take(k as int) && payloads(vl.take(k as int)).len()
                    <= rem5.len() && cur.rest() == rem5.skip(payloads(
                    vl.take(k as int),
                ).len() as int)) by {
                    lemma_payloads_layout(vl, k as int - 1);
                    lemma_payloads_take(vl, k as int - 1);
                    lemma_seq_wf_index(vl);
                    lemma_prefix_agree(rem5, payloads(vl));
                    let ck = payloads(vl.take(k as int - 1)).len() as int;
                    let pk = nbt_payload(vl[k as int - 1]);
                    assert(tag_of(vl[k as int - 1]) == et);
                    assert(payload_fits(vl[k as int - 1], prev)) by {
                        if rem5.len() >= ck + pk.len() {
                            assert forall|i: int| 0 <= i < pk.len() implies prev[i]
                                == pk[i] by {
                                assert(prev[i] == rem5[ck + i]);
                                assert(rem5[ck + i] == payloads(vl)[ck + i]);
                            }
                            assert(pk =~= prev.take(pk.len() as int));
                        } else {
                            assert(prev.len() < pk.len());
                            assert(payload_truncated(vl[k as int - 1], prev)) by {
                                assert forall|i: int| 0 <= i < prev.len() implies prev[i]
                                    == pk[i] by {
                                    assert(prev[i] == rem5[ck + i]);
                                    assert(rem5[ck + i] == payloads(vl)[ck + i]);
                                }
                                assert(prev =~= pk.take(prev.len() as int));
                            }
                            assert(false);
                        }
                    }
                    assert(el@ == vl[k as int - 1]);
                    assert(elems_view(acc0) == vl.take(k as int - 1));
                    assert(vl.take(k as int) =~= vl.take(k as int - 1).push(
                        vl[k as int - 1],
                    ));
                    assert(elems_view(acc@) =~= vl.take(k as int));
                    assert(cur.rest() == rem5.skip(payloads(vl.take(k as int)).len() as int));
                }
            }
        }
        proof {
            assert forall|v: NbtValue|
                nbt_wf(v) && tag_of(v) == tag && payload_fits(v, rem) implies (
            NbtElement::List(acc)@ == v && cur.rest() == rem.skip(
                nbt_payload(v).len() as int,
            )) by {
                let vl = v->List_0;
                assert(list_cand(vl, n as int, et, rem5));
                assert(vl.take(n as int) =~= vl);
                assert(elems_view(acc@) == vl);
                assert(cur.rest() == rem5.skip(payloads(vl).len() as int));
                assert(nbt_payload(v) == seq![elem_tag(vl)] + be_u32(vl.len() as u32)
                    + payloads(vl));
                assert(cur.rest() =~= rem.skip(nbt_payload(v).len() as int));
            }
            assert forall|v: NbtValue|
                nbt_wf(v) && tag_of(v) == tag && payload_truncated(v, rem)
                implies false by {
                let vl = v->List_0;
                assert(list_cand(vl, n as int, et, rem5));
                assert(vl.take(n as int) =~= vl);
                assert(payloads(vl.take(n as int)).len() <= rem5.len());
            }
        }
        Ok(NbtElement::List(acc))
    } else if tag == TAG_COMPOUND {
        let mut acc: Vec<(String, NbtElement)> = Vec::new();
        proof {
            assert(entries_view(acc@) =~= Seq::<(Seq<char>, NbtValue)>::empty());
            assert(entries(Seq::<(Seq<char>, NbtValue)>::empty()) =~= Seq::<u8>::empty());
            assert(rem.skip(0) =~= rem);
        }
        loop
            invariant
                old(cur).wf(),
                cur.wf(),
                cur.all_bytes() == old(cur).all_bytes(),
                cur.position() >= old(cur).position(),
                rem == old(cur).rest(),
                tag == TAG_COMPOUND,
                forall|mv: Seq<(Seq<char>, NbtValue)>|
                    #![trigger entries(mv)]
                    comp_cand(mv, rem) ==> (acc@.len() <= mv.len() && entries_view(acc@)
                        == mv.take(acc@.len() as int) && entries(
                        mv.take(acc@.len() as int),
                    ).len() <= rem.len() && cur.rest() == rem.skip(entries(
                        mv.take(acc@.len() as int),
                    ).len() as int)),
            decreases cur.rest().len(),
        {
            let ghost k = acc@.len() as int;
            let ghost acc0 = acc@;
            let ghost prev = cur.rest();
            let t = match cur.take_u8() {
                Ok(t) => t,
                Err(e) => {
                    proof {
                        assert forall|v: NbtValue|
                            nbt_wf(v) && tag_of(v) == tag && payload_fits(v, rem)
                            implies false by {
                            let mv = v->Compound_0;
                            assert(nbt_payload(v) == comp_full(mv));
                            assert(comp_cand(mv, rem));
                            if k < mv.len() {
                                lemma_entries_layout(mv, k);
                            } else {
                                assert(mv.take(k) =~= mv);
                            }
                            assert(nbt_payload(v).len() > entries(mv.take(k)).len());
                            assert(rem.len() >= nbt_payload(v).len());
                            assert(prev.len() > 0);
                        }
                    }
                    return Err(NbtDeserError::Incomplete);
                },
            };
            if t == TAG_END {
                proof {
                    assert forall|v: NbtValue|
                        nbt_wf(v) && tag_of(v) == tag && payload_fits(v, rem) implies (
                    NbtElement::Compound(acc)@ == v && cur.rest() == rem.skip(
                        nbt_payload(v).len() as int,
                    )) by {
                        let mv = v->Compound_0;
                        assert(nbt_payload(v) == comp_full(mv));
                        assert(comp_cand(mv, rem));
                        let ck = entries(mv.take(k)).len() as int;
                        assert(prev[0] == rem[ck]);
                        if k < mv.len() {
                            lemma_comp_slices(mv, k, rem);
                            lemma_payload_min(mv[k].1);
                            assert(false);
                        }
                        assert(k == mv.len());
                        assert(mv.take(k) =~= mv);
                        assert(entries_view(acc@) == mv);
                        lemma_prefix_agree(rem, comp_full(mv));
                        assert(rem[entries(mv).len() as int] == TAG_END);
                        assert(cur.rest() == prev.drop_first());
                        assert(cur.rest() =~= rem.skip(nbt_payload(v).len() as int));
                    }
                    assert forall|v: NbtValue|
                        nbt_wf(v) && tag_of(v) == tag && payload_truncated(v, rem)
                        implies false by {
                        let mv = v->Compound_0;
                        assert(nbt_payload(v) == comp_full(mv));
                        assert(comp_cand(mv, rem));
                        let ck = entries(mv.take(k)).len() as int;
                        assert(prev[0] == rem[ck]);
                        assert(rem.len() < nbt_payload(v).len());
                        if k < mv.len() {
                            lemma_comp_slices(mv, k, rem);
                            lemma_payload_min(mv[k].1);
                            assert(false);
                        } else {
                            assert(mv.take(k) =~= mv);
                            assert(entries(mv).len() <= rem.len());
                            assert(rem.len() < entries(mv).len() + 1);
                            assert(prev.len() == 0);
                            assert(false);
                        }
                    }
                }
                return Ok(NbtElement::Compound(acc));
            }
            let ghost prev1 = cur.rest();
            let name = match decode_nbt_string(cur) {
                Ok(nm) => nm,
                Err(e) => {
                    proof {
                        assert forall|v: NbtValue|
                            nbt_wf(v) && tag_of(v) == tag && (payload_fits(v, rem)
                                || payload_truncated(v, rem)) implies (payload_fits(
                            v,
                            rem,
                        ) == false && e == NbtDeserError::Incomplete) by {
                            let mv = v->Compound_0;
                            assert(nbt_payload(v) == comp_full(mv));
                            assert(comp_cand(mv, rem));
                            lemma_entries_wf_index(mv);
                            lemma_prefix_agree(rem, comp_full(mv));
                            let ck = entries(mv.take(k)).len() as int;
                            assert(prev[0] == rem[ck]);
                            if k == mv.len() {
                                assert(mv.take(k) =~= mv);
                                if payload_fits(v, rem) {
                                    assert(rem[ck] == TAG_END);
                                    assert(false);
                                } else {
                                    assert(rem.len() <= entries(mv).len());
                                    assert(false);
                                }
                            }
                            lemma_comp_slices(mv, k, rem);
                            let sp = nbt_string_payload(mv[k].0);
                            assert(java_cesu8(mv[k].0).len() <= 0xFFFF);
                            assert(prev1 =~= rem.skip(ck + 1));
                            if payload_fits(v, rem) {
                                assert(rem.len() >= nbt_payload(v).len());
                                assert(prev1.len() >= sp.len());
                                assert(sp.is_prefix_of(prev1));
                                assert(false);
                            }
                        }
                    }
                    return Err(e);
                },
            };
            let ghost prev2 = cur.rest();
            proof {
                assert(cur.rest().len() == cur.all_bytes().len() - cur.position());
                assert(rem.len() == old(cur).all_bytes().len() - old(cur).position());
                assert(cur.rest().len() < rem.len());
            }
            let val = match decode_payload(t, cur) {
                Ok(val) => val,
                Err(e) => {
                    proof {
                        assert forall|v: NbtValue|
                            nbt_wf(v) && tag_of(v) == tag && (payload_fits(v, rem)
                                || payload_truncated(v, rem)) implies (payload_fits(
                            v,
                            rem,
                        ) == false && e == NbtDeserError::Incomplete) by {
                            let mv = v->Compound_0;
                            assert(nbt_payload(v) == comp_full(mv));
                            assert(comp_cand(mv, rem));
                            lemma_entries_wf_index(mv);
                            lemma_prefix_agree(rem, comp_full(mv));
                            let ck = entries(mv.take(k)).len() as int;
                            assert(prev[0] == rem[ck]);
                            if k == mv.len() {
                                assert(mv.take(k) =~= mv);
                                if payload_fits(v, rem) {
                                    assert(rem[ck] == TAG_END);
                                    assert(false);
                                } else {
                                    assert(rem.len() <= entries(mv).len());
                                    assert(false);
                                }
                            }
                            lemma_comp_slices(mv, k, rem);
                            let sp = nbt_string_payload(mv[k].0);
                            let pk = nbt_payload(mv[k].1);
                            assert(java_cesu8(mv[k].0).len() <= 0xFFFF);
                            assert(prev1 =~= rem.skip(ck + 1));
                            assert(sp.is_prefix_of(prev1)) by {
                                if prev1.len() < sp.len() {
                                    assert(payload_truncated(v, rem));
                                    assert(prev1 == sp.take(prev1.len() as int));
                                    assert(false);
                                }
                            }
                            assert(name@ == mv[k].0);
                            assert(prev2 == prev1.skip(sp.len() as int));
                            assert(prev2 =~= rem.skip(ck + 1 + sp.len()));
                            assert(t == tag_of(mv[k].1));
                            if payload_fits(v, rem) {
                                assert(rem.len() >= nbt_payload(v).len());
                                assert(prev2.len() >= pk.len());
                                assert(payload_fits(mv[k].1, prev2));
                                assert(false);
                            } else {
                                if prev2.len() >= pk.len() {
                                    assert(payload_fits(mv[k].1, prev2));
                                    assert(false);
                                } else {
                                    assert(payload_truncated(mv[k].1, prev2));
                                }
                            }
                        }
                    }
                    return Err(e);
                },
            };
            acc.push((name, val));
            proof {
                lemma_entries_view_push(acc0, (name, val));
                assert(acc@ == acc0.push((name, val)));
                assert(entries_view(acc@) == entries_view(acc0) + seq![(name@, val@)]);
                assert forall|mv: Seq<(Seq<char>, NbtValue)>|
                    #![trigger entries(mv)]
                    comp_cand(mv, rem) implies (acc@.len() <= mv.len() && entries_view(
                    acc@,
                ) == mv.take(acc@.len() as int) && entries(
                    mv.take(acc@.len() as int),
                ).len() <= rem.len() && cur.rest() == rem.skip(entries(
                    mv.take(acc@.len() as int),
                ).len() as int)) by {
                    lemma_entries_wf_index(mv);
                    lemma_prefix_agree(rem, comp_full(mv));
                    let ck = entries(mv.take(k)).len() as int;
                    if k == mv.len() {
                        assert(mv.take(k) =~= mv);
                        if prev.len() > 0 {
                            assert(prev[0] == rem[ck]);
                            assert(rem[ck] == comp_full(mv)[ck]);
                            assert(comp_full(mv)[entries(mv).len() as int] == TAG_END);
                            assert(t == TAG_END);
                        } else {
                            assert(rem.len() < entries(mv).len() + 1);
                        }
                        assert(false);
                    }
                    lemma_comp_slices(mv, k, rem);
                    lemma_entries_take(mv, k);
                    lemma_payload_min(mv[k].1);
                    let sp = nbt_string_payload(mv[k].0);
                    let pk = nbt_payload(mv[k].1);
                    assert(prev[0] == rem[ck]);
                    assert(prev1 =~= rem.skip(ck + 1));
                    assert(sp.is_prefix_of(prev1)) by {
                        if prev1.len() < sp.len() {
                            assert(prev1 == sp.take(prev1.len() as int));
                            assert(false);
                        }
                    }
                    assert(name@ == mv[k].0);
                    assert(prev2 == prev1.skip(sp.len() as int));
                    assert(prev2 =~= rem.skip(ck + 1 + sp.len()));
                    assert(t == tag_of(mv[k].1));
                    assert(payload_fits(mv[k].1, prev2)) by {
                        if prev2.len() < pk.len() {
                            assert(payload_truncated(mv[k].1, prev2));
                            assert(false);
                        }
                    }
                    assert(val@ == mv[k].1);
                    assert(entries_view(acc0) == mv.take(k));
                    assert(mv.take(k + 1) =~= mv.take(k).push(mv[k]));
                    assert(entries_view(acc@) =~~= mv.take(k + 1));
                    assert(cur.rest() == prev2.skip(pk.len() as int));
                    assert(entries(mv.take(k + 1)).len() == ck + 1 + sp.len() + pk.len());
                    assert(cur.rest() =~= rem.skip(entries(mv.take(k + 1)).len() as int));
                }
            }
        }
    } else {
        Err(NbtDeserError::UnknownTag(tag))
    }
}

/// The full wire form of `v` lies at the front of `rem`.
pub open spec fn wire_fits(v: NbtValue, rem: Seq<u8>) -> bool {
    nbt_wire(v).is_prefix_of(rem)
}

/// `rem` ends strictly inside the full wire form of `v`.
pub open spec fn wire_truncated(v: NbtValue, rem: Seq<u8>) -> bool {
    rem.len() < nbt_wire(v).len() && rem == nbt_wire(v).take(rem.len() as int)
}

impl NbtElement {
    /// Reads one element: a tag byte, then the body of that tag.
    ///
    /// On input that begins with the wire form of some well-formed value,
    /// the result is exactly that value and exactly its wire form is
    /// consumed. Cutting any such input short anywhere yields `Incomplete`,
    /// never a wrong value. A leading byte that is no element tag yields
    /// `UnknownTag` with that byte.
    pub fn decode(cur: &mut DecodeCursor) -> (r: Result<NbtElement, NbtDeserError>)
        requires
            old(cur).wf(),
        ensures
            final(cur).wf(),
            final(cur).all_bytes() == old(cur).all_bytes(),
            final(cur).position() >= old(cur).position(),
            forall|v: NbtValue|
                #![trigger wire_fits(v, old(cur).rest())]
                nbt_wf(v) && wire_fits(v, old(cur).rest()) ==> (r matches Ok(el) && el@
                    == v && final(cur).rest() == old(cur).rest().skip(
                    nbt_wire(v).len() as int,
                )),
            forall|v: NbtValue|
                #![trigger wire_truncated(v, old(cur).rest())]
                nbt_wf(v) && wire_truncated(v, old(cur).rest()) ==> r == Err::<
                    NbtElement,
                    NbtDeserError,
                >(NbtDeserError::Incomplete),
            old(cur).rest().len() == 0 ==> r == Err::<NbtElement, NbtDeserError>(
                NbtDeserError::Incomplete,
            ),
            old(cur).rest().len() >= 1 && (old(cur).rest()[0] == TAG_END || old(
                cur,
            ).rest()[0] > TAG_COMPOUND) ==> r == Err::<NbtElement, NbtDeserError>(
                NbtDeserError::UnknownTag(old(cur).rest()[0]),
            ),
    {
        let ghost rem = old(cur).rest();
        let t = match cur.take_u8() {
            Ok(t) => t,
            Err(e) => {
                return Err(NbtDeserError::Incomplete);
            },
        };
        if t == TAG_END || t > TAG_COMPOUND {
            proof {
                assert forall|v: NbtValue|
                    nbt_wf(v) && (wire_fits(v, rem) || wire_truncated(v, rem))
                    implies false by {
                    lemma_prefix_agree(rem, nbt_wire(v));
                    assert(rem[0] == nbt_wire(v)[0]);
                    assert(nbt_wire(v)[0] == tag_of(v));
                    lemma_payload_min(v);
                }
            }
            return Err(NbtDeserError::UnknownTag(t));
        }
        let ghost rem1 = cur.rest();
        let r = decode_payload(t, cur);
        proof {
            assert(rem1 == rem.drop_first());
            assert forall|v: NbtValue|
                nbt_wf(v) && wire_fits(v, rem) implies (r matches Ok(el) && el@ == v
                && final(cur).rest() == rem.skip(nbt_wire(v).len() as int)) by {
                lemma_prefix_agree(rem, nbt_wire(v));
                assert(rem[0] == nbt_wire(v)[0]);
                assert(nbt_wire(v)[0] == tag_of(v));
                assert(t == tag_of(v));
                assert(payload_fits(v, rem1)) by {
                    assert forall|i: int|
                        0 <= i < nbt_payload(v).len() implies rem1[i] == nbt_payload(
                        v,
                    )[i] by {
                        assert(rem1[i] == rem[1 + i]);
                        assert(rem[1 + i] == nbt_wire(v)[1 + i]);
                        assert(nbt_wire(v)[1 + i] == nbt_payload(v)[i]);
                    }
                    assert(nbt_payload(v) =~= rem1.take(nbt_payload(v).len() as int));
                }
                assert(final(cur).rest() =~= rem.skip(nbt_wire(v).len() as int));
            }
            assert forall|v: NbtValue|
                nbt_wf(v) && wire_truncated(v, rem) implies r == Err::<
                NbtElement,
                NbtDeserError,
            >(NbtDeserError::Incomplete) by {
                lemma_prefix_agree(rem, nbt_wire(v));
                assert(rem[0] == nbt_wire(v)[0]);
                assert(nbt_wire(v)[0] == tag_of(v));
                assert(t == tag_of(v));
                assert(payload_truncated(v, rem1)) by {
                    assert forall|i: int| 0 <= i < rem1.len() implies rem1[i]
                        == nbt_payload(v)[i] by {
                        assert(rem1[i] == rem[1 + i]);
                        assert(rem[1 + i] == nbt_wire(v)[1 + i]);
                        assert(nbt_wire(v)[1 + i] == nbt_payload(v)[i]);
                    }
                    assert(rem1 =~= nbt_payload(v).take(rem1.len() as int));
                }
            }
        }
        r
    }
}

/// Law: any value's wire form lies at the front of itself followed by
/// anything. With the contracts of `encode` and `decode`, decoding the
/// encoding of a well-formed value always restores that value and consumes
/// exactly its wire form.
pub proof fn lemma_nbt_wire_fits_self(v: NbtValue, rest: Seq<u8>)
    ensures
        wire_fits(v, nbt_wire(v) + rest),
{
    assert(nbt_wire(v) =~= (nbt_wire(v) + rest).take(nbt_wire(v).len() as int));
}

} // verus!
