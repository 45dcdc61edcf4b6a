use fire_stream::protobuf::decode::{
    decode_message, read_field_at, read_value_at, DecodeError,
};
use fire_stream::protobuf::encode::{encode_message, write_field, write_value, EncodeError};
use fire_stream::protobuf::varint::{read_varint_at, write_varint, VarintError};
use fire_stream::protobuf::wire::{Field, Value, MAX_FIELD_NUMBER};

fn varint(v: u64) -> Vec<u8> {
    let mut out = Vec::new();
    write_varint(v, &mut out);
    out
}

#[test]
fn varint_bytes_are_exact() {
    assert_eq!(varint(0), vec![0x00]);
    assert_eq!(varint(1), vec![0x01]);
    assert_eq!(varint(127), vec![0x7f]);
    assert_eq!(varint(128), vec![0x80, 0x01]);
    assert_eq!(varint(300), vec![0xac, 0x02]);
    assert_eq!(
        varint(u64::MAX),
        vec![0xff, 0xff, 0xff, 0xff, 0xff, 0xff, 0xff, 0xff, 0xff, 0x01]
    );
}

#[test]
fn varint_appends_to_what_is_there() {
    let mut out = vec![9, 9];
    write_varint(300, &mut out);
    assert_eq!(out, vec![9, 9, 0xac, 0x02]);
}

#[test]
fn varint_round_trip() {
    for v in [0u64, 1, 127, 128, 255, 256, 16383, 16384, 1 << 32, u64::MAX - 1, u64::MAX] {
        let mut bytes = varint(v);
        let len = bytes.len();
        bytes.push(0x55);
        assert_eq!(read_varint_at(&bytes, 0), Ok((v, len)));
    }
}

#[test]
fn varint_reads_from_an_offset() {
    let bytes = vec![0xff, 0xac, 0x02, 0x01];
    assert_eq!(read_varint_at(&bytes, 1), Ok((300, 2)));
    assert_eq!(read_varint_at(&bytes, 3), Ok((1, 1)));
}

#[test]
fn varint_errors() {
    assert_eq!(read_varint_at(&[], 0), Err(VarintError::UnexpectedEof));
    assert_eq!(read_varint_at(&[0x80], 0), Err(VarintError::UnexpectedEof));
    assert_eq!(read_varint_at(&[0x01], 1), Err(VarintError::UnexpectedEof));
    // eleven bytes
    let long = vec![0x80, 0x80, 0x80, 0x80, 0x80, 0x80, 0x80, 0x80, 0x80, 0x80, 0x00];
    assert_eq!(read_varint_at(&long, 0), Err(VarintError::Overflow));
    // ten bytes, but 65 bits
    let wide = vec![0xff, 0xff, 0xff, 0xff, 0xff, 0xff, 0xff, 0xff, 0xff, 0x02];
    assert_eq!(read_varint_at(&wide, 0), Err(VarintError::Overflow));
    // not the shortest form, but a number all the same
    assert_eq!(read_varint_at(&[0x80, 0x00], 0), Ok((0, 2)));
}

#[test]
fn values_are_exact() {
    let mut out = Vec::new();
    write_value(&Value::Fixed32(0x0102_0304), &mut out);
    assert_eq!(out, vec![4, 3, 2, 1]);
    let mut out = Vec::new();
    write_value(&Value::Fixed64(0x0102_0304_0506_0708), &mut out);
    assert_eq!(out, vec![8, 7, 6, 5, 4, 3, 2, 1]);
    let mut out = Vec::new();
    write_value(&Value::Bytes(vec![7, 8, 9]), &mut out);
    assert_eq!(out, vec![3, 7, 8, 9]);
    let mut out = Vec::new();
    write_value(&Value::Varint(150), &mut out);
    assert_eq!(out, vec![0x96, 0x01]);
}

#[test]
fn values_round_trip() {
    let bytes = vec![4, 3, 2, 1, 0xee];
    assert_eq!(read_value_at(5, &bytes, 0), Ok((Value::Fixed32(0x0102_0304), 4)));
    let bytes = vec![0, 8, 7, 6, 5, 4, 3, 2, 1];
    assert_eq!(read_value_at(1, &bytes, 1), Ok((Value::Fixed64(0x0102_0304_0506_0708), 8)));
    let bytes = vec![3, 7, 8, 9, 10];
    assert_eq!(read_value_at(2, &bytes, 0), Ok((Value::Bytes(vec![7, 8, 9]), 4)));
    assert_eq!(read_value_at(0, &[0x96, 0x01], 0), Ok((Value::Varint(150), 2)));
}

#[test]
fn value_errors() {
    assert_eq!(read_value_at(5, &[1, 2, 3], 0), Err(DecodeError::UnexpectedEof));
    assert_eq!(read_value_at(1, &[1, 2, 3, 4, 5, 6, 7], 0), Err(DecodeError::UnexpectedEof));
    assert_eq!(read_value_at(2, &[3, 7, 8], 0), Err(DecodeError::UnexpectedEof));
    assert_eq!(read_value_at(2, &[0x80], 0), Err(DecodeError::UnexpectedEof));
    assert_eq!(read_value_at(3, &[0], 0), Err(DecodeError::InvalidWireType(3)));
    assert_eq!(read_value_at(4, &[0], 0), Err(DecodeError::InvalidWireType(4)));
    assert_eq!(read_value_at(6, &[0], 0), Err(DecodeError::InvalidWireType(6)));
    assert_eq!(read_value_at(7, &[0], 0), Err(DecodeError::InvalidWireType(7)));
}

#[test]
fn field_bytes_are_exact() {
    let mut out = Vec::new();
    write_field(&Field { number: 1, value: Value::Varint(150) }, &mut out);
    assert_eq!(out, vec![0x08, 0x96, 0x01]);
    let mut out = Vec::new();
    write_field(&Field { number: 2, value: Value::Bytes(b"testing".to_vec()) }, &mut out);
    assert_eq!(out, vec![0x12, 0x07, b't', b'e', b's', b't', b'i', b'n', b'g']);
    let mut out = Vec::new();
    write_field(&Field { number: 200, value: Value::Fixed32(1) }, &mut out);
    assert_eq!(out, vec![0xc5, 0x0c, 1, 0, 0, 0]);
}

#[test]
fn field_round_trip() {
    let bytes = vec![0xff, 0x12, 0x02, 5, 6, 0x08];
    assert_eq!(
        read_field_at(&bytes, 1),
        Ok((Field { number: 2, value: Value::Bytes(vec![5, 6]) }, 4))
    );
}

#[test]
fn field_errors() {
    // field number zero
    assert_eq!(read_field_at(&[0x00, 0x01], 0), Err(DecodeError::InvalidFieldNumber));
    // field number over the largest
    let mut bytes = Vec::new();
    write_varint((MAX_FIELD_NUMBER as u64 + 1) * 8, &mut bytes);
    bytes.push(1);
    assert_eq!(read_field_at(&bytes, 0), Err(DecodeError::InvalidFieldNumber));
    // the largest itself is fine
    let mut bytes = Vec::new();
    write_varint(MAX_FIELD_NUMBER as u64 * 8, &mut bytes);
    bytes.push(1);
    assert_eq!(
        read_field_at(&bytes, 0),
        Ok((Field { number: MAX_FIELD_NUMBER, value: Value::Varint(1) }, 6))
    );
    assert_eq!(read_field_at(&[0x0b, 0x00], 0), Err(DecodeError::InvalidWireType(3)));
    assert_eq!(read_field_at(&[0x08], 0), Err(DecodeError::UnexpectedEof));
    assert_eq!(read_field_at(&[], 0), Err(DecodeError::UnexpectedEof));
    let long = vec![0x80, 0x80, 0x80, 0x80, 0x80, 0x80, 0x80, 0x80, 0x80, 0x80, 0x00];
    assert_eq!(read_field_at(&long, 0), Err(DecodeError::VarintOverflow));
}

#[test]
fn message_round_trip() {
    let fields = vec![
        Field { number: 1, value: Value::Varint(0) },
        Field { number: 1, value: Value::Varint(u64::MAX) },
        Field { number: 7, value: Value::Bytes(Vec::new()) },
        Field { number: 7, value: Value::Bytes(vec![1, 2, 3]) },
        Field { number: MAX_FIELD_NUMBER, value: Value::Fixed64(u64::MAX) },
        Field { number: 16, value: Value::Fixed32(0xdead_beef) },
    ];
    let bytes = encode_message(&fields).unwrap();
    assert_eq!(decode_message(&bytes), Ok(fields));
}

#[test]
fn empty_message() {
    assert_eq!(encode_message(&[]), Ok(Vec::new()));
    assert_eq!(decode_message(&[]), Ok(Vec::new()));
}

#[test]
fn message_keeps_the_order_of_its_fields() {
    let bytes = vec![0x10, 0x02, 0x08, 0x01, 0x10, 0x03];
    assert_eq!(
        decode_message(&bytes),
        Ok(vec![
            Field { number: 2, value: Value::Varint(2) },
            Field { number: 1, value: Value::Varint(1) },
            Field { number: 2, value: Value::Varint(3) },
        ])
    );
}

#[test]
fn message_errors() {
    assert_eq!(decode_message(&[0x08, 0x01, 0x08]), Err(DecodeError::UnexpectedEof));
    assert_eq!(decode_message(&[0x08, 0x01, 0x00, 0x00]), Err(DecodeError::InvalidFieldNumber));
    assert_eq!(decode_message(&[0x0c, 0x01]), Err(DecodeError::InvalidWireType(4)));
    let fields = vec![
        Field { number: 1, value: Value::Varint(1) },
        Field { number: 0, value: Value::Varint(1) },
        Field { number: MAX_FIELD_NUMBER + 1, value: Value::Varint(1) },
    ];
    assert_eq!(encode_message(&fields), Err(EncodeError::InvalidFieldNumber(1)));
    let fields = vec![Field { number: MAX_FIELD_NUMBER + 1, value: Value::Varint(1) }];
    assert_eq!(encode_message(&fields), Err(EncodeError::InvalidFieldNumber(0)));
}
