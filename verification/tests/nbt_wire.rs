use mcdata::decode::DecodeCursor;
use mcdata::nbt::{NbtDeserError, NbtElement, NbtSerError};

fn compound_ab() -> NbtElement {
    NbtElement::Compound(vec![
        ("a".to_string(), NbtElement::Int(5)),
        ("b".to_string(), NbtElement::Text("hi".to_string())),
    ])
}

fn encode(el: &NbtElement) -> Vec<u8> {
    let mut out = Vec::new();
    el.encode(&mut out).unwrap();
    out
}

#[test]
fn nbt_compound_encodes_documented_tags() {
    let bytes = encode(&compound_ab());
    assert_eq!(
        bytes,
        vec![
            10, // compound
            3, 0, 1, b'a', 0, 0, 0, 5, // int entry "a" = 5
            8, 0, 1, b'b', 0, 2, b'h', b'i', // string entry "b" = "hi"
            0, // end
        ]
    );
}

#[test]
fn nbt_compound_round_trips() {
    let bytes = encode(&compound_ab());
    let mut cur = DecodeCursor::new(&bytes);
    let back = NbtElement::decode(&mut cur).unwrap();
    assert_eq!(cur.remaining(), 0);
    match back {
        NbtElement::Compound(entries) => {
            assert_eq!(entries.len(), 2);
            assert_eq!(entries[0].0, "a");
            assert!(matches!(entries[0].1, NbtElement::Int(5)));
            assert_eq!(entries[1].0, "b");
            match &entries[1].1 {
                NbtElement::Text(t) => assert_eq!(t, "hi"),
                other => panic!("wrong element: {:?}", other),
            }
        },
        other => panic!("wrong element: {:?}", other),
    }
}

#[test]
fn nbt_truncation_is_always_incomplete() {
    let bytes = encode(&compound_ab());
    for cut in 0..bytes.len() {
        let mut cur = DecodeCursor::new(&bytes[..cut]);
        assert_eq!(
            NbtElement::decode(&mut cur).unwrap_err(),
            NbtDeserError::Incomplete,
            "prefix of length {} must be incomplete",
            cut
        );
    }
}

#[test]
fn nbt_primitives_round_trip() {
    let values = vec![
        NbtElement::Byte(-7),
        NbtElement::Short(-12345),
        NbtElement::Int(123456789),
        NbtElement::Long(-1234567890123),
        NbtElement::Float(0x3F800000),
        NbtElement::Double(0x3FF0000000000000),
        NbtElement::BArray(vec![1, 2, 3, 255]),
        NbtElement::Text("déjà\u{10401}".to_string()),
    ];
    for v in values {
        let bytes = encode(&v);
        let mut cur = DecodeCursor::new(&bytes);
        let back = NbtElement::decode(&mut cur).unwrap();
        assert_eq!(cur.remaining(), 0);
        assert_eq!(encode(&back), bytes);
    }
}

#[test]
fn nbt_string_uses_modified_utf8_for_nul() {
    // Java's modified UTF-8 writes NUL as the overlong pair C0 80
    let bytes = encode(&NbtElement::Text("\0".to_string()));
    assert_eq!(bytes, vec![8, 0, 2, 0xC0, 0x80]);
    let mut cur = DecodeCursor::new(&bytes);
    match NbtElement::decode(&mut cur).unwrap() {
        NbtElement::Text(t) => assert_eq!(t, "\0"),
        other => panic!("wrong element: {:?}", other),
    }
}

#[test]
fn nbt_list_is_homogeneous_with_shared_tag() {
    let list = NbtElement::List(vec![NbtElement::Short(1), NbtElement::Short(2)]);
    let bytes = encode(&list);
    assert_eq!(bytes, vec![9, 2, 0, 0, 0, 2, 0, 1, 0, 2]);
    let mut cur = DecodeCursor::new(&bytes);
    let back = NbtElement::decode(&mut cur).unwrap();
    assert_eq!(encode(&back), bytes);
}

#[test]
fn nbt_empty_list_has_end_element_tag() {
    let list = NbtElement::List(vec![]);
    let bytes = encode(&list);
    assert_eq!(bytes, vec![9, 0, 0, 0, 0, 0]);
    let mut cur = DecodeCursor::new(&bytes);
    let back = NbtElement::decode(&mut cur).unwrap();
    assert_eq!(encode(&back), bytes);
}

#[test]
fn nbt_mixed_list_is_unrepresentable() {
    let list = NbtElement::List(vec![NbtElement::Short(1), NbtElement::Int(2)]);
    let mut out = Vec::new();
    assert_eq!(list.encode(&mut out), Err(NbtSerError::MixedList));
}

#[test]
fn nbt_unknown_tag_carries_the_byte() {
    let bytes = [42u8, 0, 0];
    let mut cur = DecodeCursor::new(&bytes);
    assert_eq!(
        NbtElement::decode(&mut cur).unwrap_err(),
        NbtDeserError::UnknownTag(42)
    );
}

#[test]
fn nbt_nested_compound_round_trips() {
    let inner = NbtElement::Compound(vec![("x".to_string(), NbtElement::Byte(1))]);
    let outer = NbtElement::Compound(vec![
        ("inner".to_string(), inner),
        ("list".to_string(), NbtElement::List(vec![
            NbtElement::Compound(vec![]),
            NbtElement::Compound(vec![("y".to_string(), NbtElement::Long(9))]),
        ])),
    ]);
    let bytes = encode(&outer);
    let mut cur = DecodeCursor::new(&bytes);
    let back = NbtElement::decode(&mut cur).unwrap();
    assert_eq!(cur.remaining(), 0);
    assert_eq!(encode(&back), bytes);
    for cut in 0..bytes.len() {
        let mut cur = DecodeCursor::new(&bytes[..cut]);
        assert_eq!(NbtElement::decode(&mut cur).unwrap_err(), NbtDeserError::Incomplete);
    }
}

#[test]
fn nbt_bad_string_is_reported() {
    // a string element whose single body byte is not valid modified UTF-8
    let bytes = [8u8, 0, 1, 0xFF];
    let mut cur = DecodeCursor::new(&bytes);
    assert_eq!(
        NbtElement::decode(&mut cur).unwrap_err(),
        NbtDeserError::BadString
    );
}

#[test]
fn nbt_negative_length_is_bad() {
    // a byte array whose length field has the sign bit set
    let bytes = [7u8, 0x80, 0, 0, 0];
    let mut cur = DecodeCursor::new(&bytes);
    assert_eq!(
        NbtElement::decode(&mut cur).unwrap_err(),
        NbtDeserError::BadLength
    );
}
