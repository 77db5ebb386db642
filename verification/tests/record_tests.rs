use dbfile::error::Error;
use dbfile::record::{decode_record, decode_table_leaf_cell, Value};

#[test]
fn decodes_constant_serial_types() {
    // Header length 3 covering itself and codes 8 and 9; no body at all.
    let record = decode_record(&[0x03, 0x08, 0x09]).unwrap();
    assert_eq!(record, vec![Value::Integer(0), Value::Integer(1)]);
}

#[test]
fn decodes_empty_record() {
    let record = decode_record(&[0x01]).unwrap();
    assert_eq!(record, vec![]);
}

#[test]
fn decodes_typed_values() {
    // Codes: null, one-byte integer, five-byte text, three-byte blob.
    let mut payload: Vec<u8> = vec![0x05, 0x00, 0x01, 23, 18];
    payload.push(0x85); // -123 as a signed byte
    payload.extend_from_slice(b"hello");
    payload.extend_from_slice(&[0xde, 0xad, 0xbe]);
    let record = decode_record(&payload).unwrap();
    assert_eq!(
        record,
        vec![
            Value::Null,
            Value::Integer(-123),
            Value::Text(b"hello".to_vec()),
            Value::Blob(vec![0xde, 0xad, 0xbe]),
        ]
    );
}

#[test]
fn decodes_integer_widths() {
    // Codes 2 (two bytes), 4 (four bytes) and 6 (eight bytes).
    let mut payload: Vec<u8> = vec![0x04, 0x02, 0x04, 0x06];
    payload.extend_from_slice(&[0x01, 0x00]); // 256
    payload.extend_from_slice(&[0xff, 0xff, 0xff, 0xff]); // -1
    payload.extend_from_slice(&[0x80, 0x00, 0x00, 0x00, 0x00, 0x00, 0x00, 0x00]); // i64::MIN
    let record = decode_record(&payload).unwrap();
    assert_eq!(
        record,
        vec![Value::Integer(256), Value::Integer(-1), Value::Integer(i64::MIN)]
    );
}

#[test]
fn decodes_float_bits() {
    let mut payload: Vec<u8> = vec![0x02, 0x07];
    payload.extend_from_slice(&[0x3f, 0xf0, 0x00, 0x00, 0x00, 0x00, 0x00, 0x00]);
    let record = decode_record(&payload).unwrap();
    assert_eq!(record.len(), 1);
    match &record[0] {
        Value::Float(bits) => assert_eq!(f64::from_bits(*bits), 1.0),
        other => panic!("expected a float, got {:?}", other),
    }
}

#[test]
fn rejects_reserved_serial_types() {
    assert_eq!(decode_record(&[0x02, 0x0a]), Err(Error::UnsupportedSerialType));
    assert_eq!(decode_record(&[0x02, 0x0b]), Err(Error::UnsupportedSerialType));
}

#[test]
fn rejects_missing_body() {
    // Code 1 wants one body byte; none follows the header.
    assert_eq!(decode_record(&[0x02, 0x01]), Err(Error::TruncatedInput));
}

#[test]
fn rejects_header_longer_than_payload() {
    assert_eq!(decode_record(&[0x09, 0x00]), Err(Error::TruncatedInput));
}

#[test]
fn decodes_cell_at_local_capacity() {
    // A payload of exactly page_size - 35 = 4061 bytes: a three-byte record
    // header (length, then the two-byte code for a 4058-byte blob) and the
    // blob body.
    let blob_len = 4058;
    let mut cell: Vec<u8> = vec![0x9f, 0x5d]; // payload length 4061
    cell.push(0x01); // row id 1
    cell.push(0x03); // record header length 3
    cell.extend_from_slice(&[0xbf, 0x40]); // serial type 12 + 2 * 4058 = 8128
    cell.extend_from_slice(&vec![0u8; blob_len]);
    let decoded = decode_table_leaf_cell(&cell, 0, 4096).unwrap();
    assert_eq!(decoded.row_id, 1);
    assert_eq!(decoded.record, vec![Value::Blob(vec![0u8; blob_len])]);
}

#[test]
fn rejects_cell_one_byte_past_local_capacity() {
    // One byte more: a 4059-byte blob makes the payload 4062 bytes.
    let blob_len = 4059;
    let mut cell: Vec<u8> = vec![0x9f, 0x5e]; // payload length 4062
    cell.push(0x01);
    cell.push(0x03);
    cell.extend_from_slice(&[0xbf, 0x42]); // serial type 12 + 2 * 4059 = 8130
    cell.extend_from_slice(&vec![0u8; blob_len]);
    assert_eq!(
        decode_table_leaf_cell(&cell, 0, 4096),
        Err(Error::PayloadOverflowUnsupported)
    );
}
