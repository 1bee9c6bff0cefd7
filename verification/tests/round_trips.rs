use pystruct::error::StructError;
use pystruct::integer::Integer;
use pystruct::pack::struct_pack;
use pystruct::unpack::struct_unpack;
use pystruct::value::Value;

fn integer(v: i64) -> Value {
    Value::Int(Integer::from_i64(v))
}

fn unsigned(v: u64) -> Value {
    Value::Int(Integer::from_u64(v))
}

fn round_trip(format: &str, width: usize, value: Value) {
    let values = vec![value];
    let packed = struct_pack(format, &values).unwrap();
    assert_eq!(packed.len(), width);
    assert_eq!(struct_unpack(format, &packed), Ok(values));
}

#[test]
fn round_trip_signed() {
    for v in [0i64, 1, -1, 127, -128] {
        round_trip("b", 1, integer(v));
    }
    for v in [0i64, 1, -1, 255, -256, 32767, -32768] {
        round_trip("h", 2, integer(v));
    }
    for v in [0i64, 1, -1, 65536, -65537, 2147483647, -2147483648] {
        round_trip("i", 4, integer(v));
        round_trip("l", 4, integer(v));
    }
    for v in [0i64, 1, -1, 4294967296, -4294967297, i64::MAX, i64::MIN] {
        round_trip("q", 8, integer(v));
    }
}

#[test]
fn round_trip_unsigned() {
    for v in [0u64, 1, 127, 128, 255] {
        round_trip("B", 1, unsigned(v));
    }
    for v in [0u64, 255, 256, 32768, 65535] {
        round_trip("H", 2, unsigned(v));
    }
    for v in [0u64, 65535, 65536, 2147483648, 4294967295] {
        round_trip("I", 4, unsigned(v));
        round_trip("L", 4, unsigned(v));
    }
    for v in [0u64, 4294967296, 0x8000_0000_0000_0000, u64::MAX] {
        round_trip("Q", 8, unsigned(v));
    }
}

#[test]
fn round_trip_bool() {
    round_trip("?", 1, Value::Bool(true));
    round_trip("?", 1, Value::Bool(false));
}

#[test]
fn round_trip_floats() {
    for x in [0.0f64, -0.0, 1.0, -1.5, 3.14, 1e300, f64::MIN_POSITIVE, f64::INFINITY] {
        round_trip("d", 8, Value::Double(x.to_bits()));
    }
    for x in [0.0f32, -0.0, 1.0, -1.5, 3.14, 1e30, f32::MIN_POSITIVE, f32::NEG_INFINITY] {
        round_trip("f", 4, Value::Single(x.to_bits()));
    }
    round_trip("d", 8, Value::Double(f64::NAN.to_bits()));
    round_trip("f", 4, Value::Single(f32::NAN.to_bits()));
}

#[test]
fn round_trip_of_a_whole_record() {
    let values = vec![
        integer(-7),
        unsigned(200),
        Value::Bool(true),
        integer(-30000),
        unsigned(60000),
        integer(-2_000_000_000),
        unsigned(4_000_000_000),
        integer(2_000_000_000),
        unsigned(3_000_000_000),
        integer(i64::MIN),
        unsigned(u64::MAX),
        Value::Single(2.5f32.to_bits()),
        Value::Double((-2.5e-300f64).to_bits()),
    ];
    let packed = struct_pack("bB?hHiIlLqQfd", &values).unwrap();
    assert_eq!(packed.len(), 1 + 1 + 1 + 2 + 2 + 4 + 4 + 4 + 4 + 8 + 8 + 4 + 8);
    assert_eq!(struct_unpack("bB?hHiIlLqQfd", &packed), Ok(values));
}

#[test]
fn arity_is_held_against_the_number_of_codes() {
    for codes in 0usize..5 {
        let format = "b".repeat(codes);
        for got in 0usize..5 {
            let values: Vec<Value> = (0..got).map(|_| integer(1)).collect();
            let r = struct_pack(&format, &values);
            if got == codes {
                assert_eq!(r, Ok(vec![1u8; codes]));
            } else {
                assert_eq!(r, Err(StructError::Arity { expected: codes, got }));
            }
        }
    }
}

#[test]
fn underrun_goes_by_the_sum_of_the_widths() {
    let format = "bhiq";
    let buffer = [0u8; 20];
    for len in 0usize..=20 {
        let r = struct_unpack(format, &buffer[..len]);
        if len < 15 {
            assert_eq!(r, Err(StructError::BufferUnderrun));
        } else {
            assert_eq!(r, Ok(vec![integer(0), integer(0), integer(0), integer(0)]));
        }
    }
}
