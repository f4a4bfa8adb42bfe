use mcdata::block_pos::BlockPos;
use mcdata::bounded_string::{BoundedString, BoundedStringTooLong};
use mcdata::chunk_pos::ChunkPos;
use mcdata::decode::{DecodeCursor, DecodeError};
use mcdata::scalar::{decode_u16, decode_u32, decode_u64, encode_u16, encode_u32,
    encode_u64};
use mcdata::hand::Hand;
use mcdata::pack_status::PackStatus;
use mcdata::varint::{decode_varint_u32, decode_varint_u64, encode_varint_u32,
    encode_varint_u64};

fn varint_u32_round_trip(v: u32) -> Vec<u8> {
    let mut out = Vec::new();
    encode_varint_u32(v, &mut out);
    let mut cur = DecodeCursor::new(&out);
    assert_eq!(decode_varint_u32(&mut cur), Ok(v));
    assert_eq!(cur.remaining(), 0);
    out
}

#[test]
fn varint_zero_is_one_zero_byte() {
    assert_eq!(varint_u32_round_trip(0), vec![0]);
}

#[test]
fn varint_u32_round_trips_and_is_minimal() {
    assert_eq!(varint_u32_round_trip(1), vec![1]);
    assert_eq!(varint_u32_round_trip(127), vec![0x7F]);
    assert_eq!(varint_u32_round_trip(128), vec![0x80, 0x01]);
    assert_eq!(varint_u32_round_trip(300), vec![0xAC, 0x02]);
    assert_eq!(varint_u32_round_trip(u32::MAX).len(), 5);
    for v in [2u32, 255, 256, 16383, 16384, 2097151, 2097152, 268435455, 268435456] {
        let bytes = varint_u32_round_trip(v);
        // minimality: the last byte never carries a superfluous zero group
        assert!(*bytes.last().unwrap() < 0x80);
        if bytes.len() > 1 {
            assert!(*bytes.last().unwrap() != 0);
        }
    }
}

#[test]
fn varint_u64_round_trips() {
    for v in [0u64, 1, 127, 128, u32::MAX as u64, u64::MAX] {
        let mut out = Vec::new();
        encode_varint_u64(v, &mut out);
        let mut cur = DecodeCursor::new(&out);
        assert_eq!(decode_varint_u64(&mut cur), Ok(v));
        assert_eq!(cur.remaining(), 0);
    }
    let mut out = Vec::new();
    encode_varint_u64(u64::MAX, &mut out);
    assert_eq!(out.len(), 10);
}

#[test]
fn varint_too_long_is_rejected() {
    let five = [0x80u8, 0x80, 0x80, 0x80, 0x80];
    let mut cur = DecodeCursor::new(&five);
    assert_eq!(decode_varint_u32(&mut cur), Err(DecodeError::VarIntTooLong));
    let ten = [0x80u8; 10];
    let mut cur = DecodeCursor::new(&ten);
    assert_eq!(decode_varint_u64(&mut cur), Err(DecodeError::VarIntTooLong));
}

#[test]
fn varint_incomplete_is_distinguished() {
    let cut = [0x80u8, 0x80];
    let mut cur = DecodeCursor::new(&cut);
    assert_eq!(decode_varint_u32(&mut cur), Err(DecodeError::Incomplete));
}

#[test]
fn scalars_are_big_endian() {
    let mut out = Vec::new();
    encode_u16(0x1234, &mut out);
    encode_u32(0xDEADBEEF, &mut out);
    encode_u64(0x0102030405060708, &mut out);
    assert_eq!(
        out,
        vec![
            0x12, 0x34, 0xDE, 0xAD, 0xBE, 0xEF, 0x01, 0x02, 0x03, 0x04, 0x05, 0x06,
            0x07, 0x08
        ]
    );
    let mut cur = DecodeCursor::new(&out);
    assert_eq!(decode_u16(&mut cur), Ok(0x1234));
    assert_eq!(decode_u32(&mut cur), Ok(0xDEADBEEF));
    assert_eq!(decode_u64(&mut cur), Ok(0x0102030405060708));
}

#[test]
fn block_pos_round_trips_in_range() {
    for (x, y, z) in [
        (0i32, 0i32, 0i32),
        (-33554432, -2048, -33554432),
        (33554431, 2047, 33554431),
        (18357644, 831, -20882616),
        (-1, -1, -1),
    ] {
        let p = BlockPos { x, y, z };
        let q = BlockPos::unpack(p.pack());
        assert_eq!(p, q);
    }
}

#[test]
fn block_pos_packs_documented_layout() {
    let p = BlockPos { x: 18357644, y: 831, z: -20882616 };
    let expected: u64 = ((18357644u64 & 0x3FFFFFF) << 38)
        | (((-20882616i64 as u64) & 0x3FFFFFF) << 12)
        | (831u64 & 0xFFF);
    assert_eq!(p.pack(), expected);
}

#[test]
fn block_pos_wire_is_eight_bytes() {
    let p = BlockPos { x: 1, y: 2, z: 3 };
    let mut out = Vec::new();
    p.encode(&mut out);
    assert_eq!(out.len(), 8);
    let mut cur = DecodeCursor::new(&out);
    assert_eq!(BlockPos::decode(&mut cur), Ok(p));
}

#[test]
fn block_chunk_floors_toward_negative() {
    assert_eq!(BlockPos { x: 17, y: 0, z: -17 }.chunk(), ChunkPos { x: 1, z: -2 });
    assert_eq!(BlockPos { x: -1, y: 0, z: 15 }.chunk(), ChunkPos { x: -1, z: 0 });
}

#[test]
fn chunk_cardinal_dist_takes_shorter_axis() {
    let a = ChunkPos { x: 0, z: 0 };
    let b = ChunkPos { x: 3, z: -5 };
    assert_eq!(a.cardinal_dist(b), 3);
    assert_eq!(b.cardinal_dist(a), 3);
    assert_eq!(a.cardinal_dist(a), 0);
}

#[test]
fn bounded_string_enforces_capacity() {
    assert!(BoundedString::<5>::try_from("hello").is_ok());
    let err = BoundedString::<5>::try_from("hello!").unwrap_err();
    assert_eq!(err, BoundedStringTooLong { len: 6, max: 5 });
}

#[test]
fn bounded_string_round_trips_on_the_wire() {
    let s = BoundedString::<16>::try_from("en_us").unwrap();
    let mut out = Vec::new();
    s.encode(&mut out);
    assert_eq!(out, vec![5, b'e', b'n', b'_', b'u', b's']);
    let mut cur = DecodeCursor::new(&out);
    let back = BoundedString::<16>::decode(&mut cur).unwrap();
    assert_eq!(back.as_str(), "en_us");
}

#[test]
fn bounded_string_rejects_long_prefix_before_reading_body() {
    // declared length 6 exceeds the capacity 5; the body is not present,
    // and must not be needed for the error to surface
    let bytes = [6u8];
    let mut cur = DecodeCursor::new(&bytes);
    assert_eq!(
        BoundedString::<5>::decode(&mut cur).unwrap_err(),
        DecodeError::TooLong { len: 6, max: 5 }
    );
}

#[test]
fn bounded_string_distinguishes_incomplete_and_bad_utf8() {
    let cut = [5u8, b'h', b'i'];
    let mut cur = DecodeCursor::new(&cut);
    assert_eq!(
        BoundedString::<16>::decode(&mut cur).unwrap_err(),
        DecodeError::Incomplete
    );
    let bad = [2u8, 0xC3, 0x28];
    let mut cur = DecodeCursor::new(&bad);
    assert_eq!(
        BoundedString::<16>::decode(&mut cur).unwrap_err(),
        DecodeError::BadUtf8
    );
}

#[test]
fn hand_and_pack_status_use_varint_ordinals() {
    let mut out = Vec::new();
    Hand::Off.encode(&mut out);
    assert_eq!(out, vec![1]);
    let mut cur = DecodeCursor::new(&out);
    assert_eq!(Hand::decode(&mut cur), Ok(Hand::Off));
    let bad = [5u8];
    let mut cur = DecodeCursor::new(&bad);
    assert_eq!(Hand::decode(&mut cur), Err(DecodeError::BadOrdinal(5)));
    let mut out = Vec::new();
    PackStatus::Discarded.encode(&mut out);
    assert_eq!(out, vec![7]);
}
