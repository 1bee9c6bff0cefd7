use pystruct::error::StructError;
use pystruct::integer::Integer;
use pystruct::pack::struct_pack;
use pystruct::unpack::struct_unpack;
use pystruct::value::Value;

fn integer(v: i64) -> Value {
    Value::Int(Integer::from_i64(v))
}

#[test]
fn pack_int_1000() {
    assert_eq!(struct_pack("i", &vec![integer(1000)]), Ok(vec![0xE8, 0x03, 0x00, 0x00]));
}

#[test]
fn unpack_int_1000() {
    assert_eq!(struct_unpack("i", &[0xE8, 0x03, 0x00, 0x00]), Ok(vec![integer(1000)]));
}

#[test]
fn pack_signed_and_unsigned_byte() {
    assert_eq!(struct_pack("bB", &vec![integer(-1), integer(200)]), Ok(vec![0xFF, 0xC8]));
}

#[test]
fn pack_true_is_one() {
    assert_eq!(struct_pack("?", &vec![Value::Bool(true)]), Ok(vec![0x01]));
}

#[test]
fn pack_false_is_zero() {
    assert_eq!(struct_pack("?", &vec![Value::Bool(false)]), Ok(vec![0x00]));
}

#[test]
fn unpack_zero_is_false() {
    assert_eq!(struct_unpack("?", &[0x00]), Ok(vec![Value::Bool(false)]));
}

#[test]
fn unpack_any_other_byte_is_true() {
    assert_eq!(struct_unpack("?", &[0x01]), Ok(vec![Value::Bool(true)]));
    assert_eq!(struct_unpack("?", &[0x80]), Ok(vec![Value::Bool(true)]));
    assert_eq!(struct_unpack("?", &[0xFF]), Ok(vec![Value::Bool(true)]));
}

#[test]
fn double_round_trip_is_bit_identical() {
    let packed = struct_pack("d", &vec![Value::Double(3.14f64.to_bits())]).unwrap();
    assert_eq!(packed, 3.14f64.to_le_bytes().to_vec());
    let values = struct_unpack("d", &packed).unwrap();
    assert_eq!(values.len(), 1);
    match values[0] {
        Value::Double(bits) => assert_eq!(f64::from_bits(bits), 3.14f64),
        _ => panic!("a double was packed"),
    }
}

#[test]
fn single_round_trip_keeps_the_rounded_number() {
    let narrowed = 3.14f64 as f32;
    let packed = struct_pack("f", &vec![Value::Single(narrowed.to_bits())]).unwrap();
    assert_eq!(packed, narrowed.to_le_bytes().to_vec());
    let values = struct_unpack("f", &packed).unwrap();
    match values[0] {
        Value::Single(bits) => {
            let back = f32::from_bits(bits);
            assert_eq!(back, narrowed);
            assert!((f64::from(back) - 3.14f64).abs() < 1e-6);
        },
        _ => panic!("a single was packed"),
    }
}

#[test]
fn unsigned_byte_256_is_out_of_range() {
    assert_eq!(struct_pack("B", &vec![integer(256)]), Err(StructError::Range));
}

#[test]
fn unsigned_byte_255_fits() {
    assert_eq!(struct_pack("B", &vec![integer(255)]), Ok(vec![0xFF]));
}

#[test]
fn three_bytes_are_too_few_for_an_int() {
    assert_eq!(struct_unpack("i", &[0, 0, 0]), Err(StructError::BufferUnderrun));
}

#[test]
fn four_bytes_are_enough_for_an_int() {
    assert_eq!(struct_unpack("i", &[0, 0, 0, 0]), Ok(vec![integer(0)]));
}

#[test]
fn unknown_code_is_named() {
    assert_eq!(
        struct_pack("z", &vec![integer(1)]),
        Err(StructError::Format { code: 'z', position: 0 })
    );
}

#[test]
fn unknown_code_is_named_on_unpack() {
    assert_eq!(
        struct_unpack("iz", &[0, 0, 0, 0, 0]),
        Err(StructError::Format { code: 'z', position: 1 })
    );
}

#[test]
fn too_few_values() {
    assert_eq!(
        struct_pack("ii", &vec![integer(1)]),
        Err(StructError::Arity { expected: 2, got: 1 })
    );
}

#[test]
fn too_many_values() {
    assert_eq!(
        struct_pack("", &vec![integer(1), integer(2)]),
        Err(StructError::Arity { expected: 0, got: 2 })
    );
}

#[test]
fn arity_is_checked_before_any_field() {
    assert_eq!(
        struct_pack("B", &vec![integer(256), integer(1)]),
        Err(StructError::Arity { expected: 1, got: 2 })
    );
}

#[test]
fn format_is_checked_before_arity() {
    assert_eq!(
        struct_pack("b<", &vec![]),
        Err(StructError::Format { code: '<', position: 1 })
    );
}

#[test]
fn wrong_kind_is_a_type_error() {
    assert_eq!(struct_pack("?", &vec![integer(1)]), Err(StructError::Type));
    assert_eq!(struct_pack("i", &vec![Value::Bool(true)]), Err(StructError::Type));
    assert_eq!(struct_pack("f", &vec![integer(1)]), Err(StructError::Type));
    assert_eq!(struct_pack("d", &vec![Value::Bool(false)]), Err(StructError::Type));
    assert_eq!(struct_pack("d", &vec![Value::Single(0)]), Err(StructError::Type));
    assert_eq!(struct_pack("f", &vec![Value::Double(0)]), Err(StructError::Type));
    assert_eq!(struct_pack("Q", &vec![Value::Double(0)]), Err(StructError::Type));
}

#[test]
fn a_value_of_another_kind_fits_no_field() {
    for format in ["b", "B", "?", "h", "H", "i", "I", "l", "L", "q", "Q", "f", "d"] {
        assert_eq!(struct_pack(format, &vec![Value::Other]), Err(StructError::Type));
    }
}

#[test]
fn the_first_failing_field_decides() {
    assert_eq!(struct_pack("B?", &vec![integer(256), integer(1)]), Err(StructError::Range));
    assert_eq!(struct_pack("?B", &vec![integer(1), integer(256)]), Err(StructError::Type));
}

#[test]
fn empty_format_packs_nothing() {
    assert_eq!(struct_pack("", &vec![]), Ok(vec![]));
    assert_eq!(struct_unpack("", &[]), Ok(vec![]));
}

#[test]
fn trailing_bytes_are_passed_over() {
    assert_eq!(struct_unpack("b", &[0xFE, 1, 2, 3]), Ok(vec![integer(-2)]));
    assert_eq!(struct_unpack("", &[1, 2, 3]), Ok(vec![]));
}

#[test]
fn whitespace_digits_and_prefixes_are_no_codes() {
    assert_eq!(
        struct_unpack(" i", &[0; 8]),
        Err(StructError::Format { code: ' ', position: 0 })
    );
    assert_eq!(
        struct_unpack("2i", &[0; 8]),
        Err(StructError::Format { code: '2', position: 0 })
    );
    assert_eq!(
        struct_unpack("<i", &[0; 8]),
        Err(StructError::Format { code: '<', position: 0 })
    );
    assert_eq!(
        struct_unpack("i\u{e9}", &[0; 8]),
        Err(StructError::Format { code: '\u{e9}', position: 1 })
    );
}

#[test]
fn fields_follow_each_other_without_padding() {
    let values = vec![
        integer(-2),
        integer(0x1234),
        Value::Bool(true),
        integer(-0x0102_0304),
        integer(0x0102_0304_0506_0708),
    ];
    let bytes = struct_pack("bH?iq", &values).unwrap();
    assert_eq!(
        bytes,
        vec![
            0xFE, 0x34, 0x12, 0x01, 0xFC, 0xFC, 0xFD, 0xFE, 0x08, 0x07, 0x06, 0x05, 0x04, 0x03,
            0x02, 0x01
        ]
    );
    assert_eq!(struct_unpack("bH?iq", &bytes), Ok(values));
}

#[test]
fn underrun_in_a_later_field() {
    assert_eq!(struct_unpack("bH", &[1, 2]), Err(StructError::BufferUnderrun));
    assert_eq!(struct_unpack("bH", &[1, 2, 3]), Ok(vec![integer(1), integer(0x0302)]));
}
