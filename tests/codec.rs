use mvm::codec::{decode_value, encode_value, AccountAddress, Layout, Value};

#[test]
fn u64_encodes_little_endian_and_decodes_back() {
    let v = Value::U64(0x0102030405060708);
    let bytes = encode_value(&v, Layout::U64).unwrap();
    assert_eq!(bytes, vec![8, 7, 6, 5, 4, 3, 2, 1]);
    assert_eq!(decode_value(&bytes, Layout::U64), Some(v));
}

#[test]
fn bytes_carry_a_four_byte_length_prefix() {
    let v = Value::Bytes(vec![1, 2, 3]);
    let bytes = encode_value(&v, Layout::Bytes).unwrap();
    assert_eq!(bytes, vec![3, 0, 0, 0, 1, 2, 3]);
    assert_eq!(decode_value(&bytes, Layout::Bytes), Some(v));
}

#[test]
fn every_shape_round_trips() {
    let cases = vec![
        (Value::Bool(true), Layout::Bool),
        (Value::Bool(false), Layout::Bool),
        (Value::U8(200), Layout::U8),
        (Value::U64(u64::MAX), Layout::U64),
        (Value::U128(u128::MAX - 5), Layout::U128),
        (Value::Address(AccountAddress(0xA550C18)), Layout::Address),
        (Value::Bytes(vec![]), Layout::Bytes),
    ];
    for (v, l) in cases {
        let bytes = encode_value(&v, l).unwrap();
        assert_eq!(decode_value(&bytes, l), Some(v));
    }
}

#[test]
fn truncated_input_is_rejected() {
    let bytes = encode_value(&Value::Bytes(vec![9, 9, 9]), Layout::Bytes).unwrap();
    for k in 0..bytes.len() {
        assert_eq!(decode_value(&bytes[..k], Layout::Bytes), None);
    }
    let bytes = encode_value(&Value::U128(77), Layout::U128).unwrap();
    assert_eq!(decode_value(&bytes[..15], Layout::U128), None);
}

#[test]
fn trailing_bytes_are_rejected() {
    let mut bytes = encode_value(&Value::U64(5), Layout::U64).unwrap();
    bytes.push(0);
    assert_eq!(decode_value(&bytes, Layout::U64), None);
    let mut bytes = encode_value(&Value::Bytes(vec![1]), Layout::Bytes).unwrap();
    bytes.push(1);
    assert_eq!(decode_value(&bytes, Layout::Bytes), None);
}

#[test]
fn out_of_range_bool_is_rejected() {
    assert_eq!(decode_value(&[2], Layout::Bool), None);
    assert_eq!(decode_value(&[1], Layout::Bool), Some(Value::Bool(true)));
}

#[test]
fn value_of_another_shape_does_not_encode() {
    assert_eq!(encode_value(&Value::U8(1), Layout::U64), None);
    assert_eq!(encode_value(&Value::Bool(true), Layout::Bytes), None);
}
