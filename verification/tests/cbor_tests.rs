use ic_response_verification::cbor::CborHashTree;
use ic_response_verification::cbor::CborSigned;
use ic_response_verification::cbor::CborUnsigned;
use ic_response_verification::cbor::CborValue;
use ic_response_verification::cbor::parse_cbor;

#[test]
fn decodes_arrays() {
    let cbor_hex = "83070809";
    let cbor = hex::decode(cbor_hex).expect("Failed to decode hex");

    let result = parse_cbor(cbor.as_slice()).expect("Failed to parse cbor");

    assert_eq!(
        result,
        CborValue::Array(vec![
            CborValue::Unsigned(CborUnsigned::UInt8(7)),
            CborValue::Unsigned(CborUnsigned::UInt8(8)),
            CborValue::Unsigned(CborUnsigned::UInt8(9)),
        ])
    );
}

#[test]
fn decodes_nested_arrays() {
    let cbor_hex = "8307820809820A0B";
    let cbor = hex::decode(cbor_hex).expect("Failed to decode hex");

    let result = parse_cbor(cbor.as_slice()).expect("Failed to parse cbor");

    assert_eq!(
        result,
        CborValue::Array(vec![
            CborValue::Unsigned(CborUnsigned::UInt8(7)),
            CborValue::Array(vec![
                CborValue::Unsigned(CborUnsigned::UInt8(8)),
                CborValue::Unsigned(CborUnsigned::UInt8(9)),
            ]),
            CborValue::Array(vec![
                CborValue::Unsigned(CborUnsigned::UInt8(10)),
                CborValue::Unsigned(CborUnsigned::UInt8(11)),
            ]),
        ])
    );
}

#[test]
fn decodes_array_with_nested_map() {
    let cbor_hex = "826161a161626163";
    let cbor = hex::decode(cbor_hex).expect("Failed to decode hex");

    let result = parse_cbor(cbor.as_slice()).expect("Failed to parse cbor");

    assert_eq!(
        result,
        CborValue::Array(vec![
            CborValue::ByteString(Vec::from("a")),
            CborValue::Dict(vec![(
                String::from("b"),
                CborValue::ByteString(Vec::from("c"))
            )]),
        ])
    );
}

#[test]
fn decodes_map_with_nested_array() {
    let cbor_hex = "A26161076162820809";
    let cbor = hex::decode(cbor_hex).expect("Failed to decode hex");

    let result = parse_cbor(cbor.as_slice()).expect("Failed to parse cbor");

    assert_eq!(
        result,
        CborValue::Dict(vec![
            (
                String::from("a"),
                CborValue::Unsigned(CborUnsigned::UInt8(7))
            ),
            (
                String::from("b"),
                CborValue::Array(vec![
                    CborValue::Unsigned(CborUnsigned::UInt8(8)),
                    CborValue::Unsigned(CborUnsigned::UInt8(9)),
                ])
            ),
        ])
    )
}

#[test]
fn rejects_trailing_bytes_after_complete_value() {
    // a complete one-byte value followed by an extra byte
    let cbor = hex::decode("0700").unwrap();
    assert!(parse_cbor(cbor.as_slice()).is_err());
}

#[test]
fn rejects_truncated_input() {
    // array of three elements with only two present
    let cbor = hex::decode("830708").unwrap();
    assert!(parse_cbor(cbor.as_slice()).is_err());
    // length-prefixed integer with the payload missing
    let cbor = hex::decode("18").unwrap();
    assert!(parse_cbor(cbor.as_slice()).is_err());
    assert!(parse_cbor(&[]).is_err());
}

#[test]
fn rejects_invalid_additional_info() {
    // additional information 28..=31 is invalid in every major type
    for info in 28u8..=31 {
        assert!(parse_cbor(&[info]).is_err());
    }
}

#[test]
fn inline_small_values_decode_as_tree_tags() {
    assert_eq!(
        parse_cbor(&[0x00]).unwrap(),
        CborValue::HashTree(CborHashTree::Empty)
    );
    assert_eq!(
        parse_cbor(&[0x01]).unwrap(),
        CborValue::HashTree(CborHashTree::Fork)
    );
    assert_eq!(
        parse_cbor(&[0x02]).unwrap(),
        CborValue::HashTree(CborHashTree::Labelled)
    );
    assert_eq!(
        parse_cbor(&[0x03]).unwrap(),
        CborValue::HashTree(CborHashTree::Leaf)
    );
    assert_eq!(
        parse_cbor(&[0x04]).unwrap(),
        CborValue::HashTree(CborHashTree::Pruned)
    );
    // 5 and above are ordinary integers even inline
    assert_eq!(
        parse_cbor(&[0x05]).unwrap(),
        CborValue::Unsigned(CborUnsigned::UInt8(5))
    );
}

#[test]
fn length_prefixed_small_values_decode_as_integers() {
    for v in 0u8..=4 {
        assert_eq!(
            parse_cbor(&[0x18, v]).unwrap(),
            CborValue::Unsigned(CborUnsigned::UInt8(v))
        );
    }
}

#[test]
fn decodes_wider_integers_and_negatives() {
    assert_eq!(
        parse_cbor(&[0x19, 0x01, 0x02]).unwrap(),
        CborValue::Unsigned(CborUnsigned::UInt16(0x0102))
    );
    assert_eq!(
        parse_cbor(&[0x1a, 0x01, 0x02, 0x03, 0x04]).unwrap(),
        CborValue::Unsigned(CborUnsigned::UInt32(0x01020304))
    );
    // major type 1: value is -1 - m
    assert_eq!(
        parse_cbor(&[0x29]).unwrap(),
        CborValue::Signed(CborSigned::Int8(-10))
    );
}

#[test]
fn skips_semantic_tags() {
    // 0xd9 0xd9 0xf7 is a semantic tag (55799); the decoder passes through
    // to the tagged value
    let cbor = hex::decode("d9d9f707").unwrap();
    assert_eq!(
        parse_cbor(cbor.as_slice()).unwrap(),
        CborValue::Unsigned(CborUnsigned::UInt8(7))
    );
}

#[test]
fn duplicate_map_keys_overwrite() {
    // {"a": 7, "a": 8} keeps one entry, the last value
    let cbor = hex::decode("A2616107616108").unwrap();
    assert_eq!(
        parse_cbor(cbor.as_slice()).unwrap(),
        CborValue::Dict(vec![(
            String::from("a"),
            CborValue::Unsigned(CborUnsigned::UInt8(8))
        )])
    );
}

#[test]
fn rejects_non_utf8_map_key() {
    // a map whose single key is the byte 0xff, not valid UTF-8
    let cbor = hex::decode("A141FF07").unwrap();
    assert!(parse_cbor(cbor.as_slice()).is_err());
}

#[test]
fn rejects_non_string_map_key() {
    // a map whose single key is an integer
    let cbor = hex::decode("A10707").unwrap();
    assert!(parse_cbor(cbor.as_slice()).is_err());
}

#[test]
fn header_byte_splits_into_type_and_info() {
    // 0x83: major type 4 (array), additional information 3
    assert_eq!(ic_response_verification::get_cbor_type(0x83), 4);
    assert_eq!(ic_response_verification::get_cbor_info(0x83), 3);
    assert_eq!(ic_response_verification::get_cbor_type(0x00), 0);
    assert_eq!(ic_response_verification::get_cbor_info(0x1f), 31);
}

#[test]
fn unsigned_values_convert_and_negate() {
    assert_eq!(CborUnsigned::UInt16(300).to_usize(), 300);
    assert_eq!(CborUnsigned::UInt8(9).to_signed(), CborSigned::Int8(-10));
    assert_eq!(CborUnsigned::UInt8(255).to_signed(), CborSigned::Int8(0));
    assert_eq!(
        CborUnsigned::UInt16(0xffff).to_signed(),
        CborSigned::Int16(0)
    );
    assert_eq!(CborUnsigned::UInt64(0).to_signed(), CborSigned::Int64(-1));
}
