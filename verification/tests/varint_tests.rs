use dbfile::error::Error;
use dbfile::varint::VarInt;

#[test]
fn parses_single_byte() {
    let v = VarInt::read(&[0x07], 0).unwrap();
    assert_eq!(v.value, 7);
    assert_eq!(v.byte_length, 1);
}

#[test]
fn parses_two_bytes() {
    // 0x81 0x00: seven bits 0000001, then seven bits 0000000 -> 128.
    let v = VarInt::read(&[0x81, 0x00], 0).unwrap();
    assert_eq!(v.value, 128);
    assert_eq!(v.byte_length, 2);
}

#[test]
fn parses_at_offset() {
    let v = VarInt::read(&[0xff, 0xff, 0x23], 2).unwrap();
    assert_eq!(v.value, 0x23);
    assert_eq!(v.byte_length, 1);
}

#[test]
fn parses_nine_byte_value() {
    // Nine bytes of 0xff: all 64 accumulated bits set, which is -1.
    let v = VarInt::read(&[0xff; 9], 0).unwrap();
    assert_eq!(v.value, -1);
    assert_eq!(v.byte_length, 9);
}

#[test]
fn nine_byte_final_byte_keeps_all_bits() {
    // Eight continuation bytes carrying zero, then 0xab as the ninth byte,
    // taken whole with no high-bit check.
    let v = VarInt::read(&[0x80, 0x80, 0x80, 0x80, 0x80, 0x80, 0x80, 0x80, 0xab], 0).unwrap();
    assert_eq!(v.value, 0xab);
    assert_eq!(v.byte_length, 9);
}

#[test]
fn rejects_truncated_input() {
    assert_eq!(VarInt::read(&[0x80], 0), Err(Error::TruncatedInput));
    assert_eq!(VarInt::read(&[], 0), Err(Error::TruncatedInput));
    assert_eq!(VarInt::read(&[0x07], 1), Err(Error::TruncatedInput));
    assert_eq!(
        VarInt::read(&[0x80, 0x80, 0x80, 0x80, 0x80, 0x80, 0x80, 0x80], 0),
        Err(Error::TruncatedInput)
    );
}

#[test]
fn round_trips_every_length() {
    let samples: Vec<i64> = vec![
        0,
        1,
        127,
        128,
        300,
        16383,
        16384,
        2097151,
        2097152,
        (1 << 28) - 1,
        1 << 28,
        (1 << 35) - 1,
        1 << 35,
        (1 << 42) - 1,
        1 << 42,
        (1 << 49) - 1,
        1 << 49,
        (1 << 56) - 1,
        1 << 56,
        i64::MAX,
        -1,
        -128,
        -4096,
        i64::MIN,
    ];
    for &value in &samples {
        let encoded = VarInt::encode(value);
        let decoded = VarInt::read(encoded.as_slice(), 0).unwrap();
        assert_eq!(decoded.value, value);
        assert_eq!(decoded.byte_length, encoded.len());
    }
}

#[test]
fn encodes_minimally() {
    assert_eq!(VarInt::encode(0).len(), 1);
    assert_eq!(VarInt::encode(127).len(), 1);
    assert_eq!(VarInt::encode(128).len(), 2);
    assert_eq!(VarInt::encode(16383).len(), 2);
    assert_eq!(VarInt::encode(16384).len(), 3);
    assert_eq!(VarInt::encode((1 << 56) - 1).len(), 8);
    assert_eq!(VarInt::encode(1 << 56).len(), 9);
    assert_eq!(VarInt::encode(-1).len(), 9);
    assert_eq!(VarInt::encode(-1), vec![0xff; 9]);
}
