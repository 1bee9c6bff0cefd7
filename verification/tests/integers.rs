use num_bigint::BigInt;
use pystruct::integer::Integer;

fn big(i: &Integer) -> BigInt {
    BigInt::from_signed_bytes_le(i.signed_bytes_le())
}

#[test]
fn from_i64_holds_the_number() {
    for v in [0i64, 1, -1, 127, 128, -128, -129, 255, 256, 1000, -1000, i64::MAX, i64::MIN] {
        assert_eq!(big(&Integer::from_i64(v)), BigInt::from(v));
    }
}

#[test]
fn from_u64_holds_the_number() {
    for v in [0u64, 1, 127, 128, 255, 256, 0x8000_0000_0000_0000, u64::MAX] {
        assert_eq!(big(&Integer::from_u64(v)), BigInt::from(v));
    }
}

#[test]
fn bytes_are_the_shortest_form() {
    assert_eq!(*Integer::from_i64(0).signed_bytes_le(), vec![0u8]);
    assert_eq!(*Integer::from_i64(1).signed_bytes_le(), vec![1u8]);
    assert_eq!(*Integer::from_i64(-1).signed_bytes_le(), vec![0xFFu8]);
    assert_eq!(*Integer::from_i64(127).signed_bytes_le(), vec![0x7Fu8]);
    assert_eq!(*Integer::from_i64(128).signed_bytes_le(), vec![0x80u8, 0x00]);
    assert_eq!(*Integer::from_i64(-128).signed_bytes_le(), vec![0x80u8]);
    assert_eq!(*Integer::from_i64(-129).signed_bytes_le(), vec![0x7Fu8, 0xFF]);
    assert_eq!(*Integer::from_i64(1000).signed_bytes_le(), vec![0xE8u8, 0x03]);
    assert_eq!(
        *Integer::from_u64(u64::MAX).signed_bytes_le(),
        vec![0xFFu8, 0xFF, 0xFF, 0xFF, 0xFF, 0xFF, 0xFF, 0xFF, 0x00]
    );
    assert_eq!(
        *Integer::from_i64(i64::MIN).signed_bytes_le(),
        vec![0u8, 0, 0, 0, 0, 0, 0, 0x80]
    );
}

#[test]
fn shortest_form_is_what_num_bigint_writes() {
    for v in [0i64, 1, -1, 127, 128, -128, -129, 255, 256, -256, 65535, -32768, i64::MAX, i64::MIN]
    {
        assert_eq!(*Integer::from_i64(v).signed_bytes_le(), BigInt::from(v).to_signed_bytes_le());
    }
    for v in [0u64, 255, 0x7FFF_FFFF_FFFF_FFFF, 0x8000_0000_0000_0000, u64::MAX] {
        assert_eq!(*Integer::from_u64(v).signed_bytes_le(), BigInt::from(v).to_signed_bytes_le());
    }
}

#[test]
fn from_signed_bytes_le_drops_spare_bytes() {
    assert_eq!(*Integer::from_signed_bytes_le(vec![]).signed_bytes_le(), vec![0u8]);
    assert_eq!(*Integer::from_signed_bytes_le(vec![0, 0, 0]).signed_bytes_le(), vec![0u8]);
    assert_eq!(*Integer::from_signed_bytes_le(vec![5, 0, 0]).signed_bytes_le(), vec![5u8]);
    assert_eq!(
        *Integer::from_signed_bytes_le(vec![0xFF, 0xFF, 0xFF]).signed_bytes_le(),
        vec![0xFFu8]
    );
    assert_eq!(
        *Integer::from_signed_bytes_le(vec![0x80, 0x00, 0x00]).signed_bytes_le(),
        vec![0x80u8, 0x00]
    );
    assert_eq!(
        *Integer::from_signed_bytes_le(vec![0x7F, 0xFF, 0xFF]).signed_bytes_le(),
        vec![0x7Fu8, 0xFF]
    );
    assert_eq!(
        *Integer::from_signed_bytes_le(vec![0x00, 0x80]).signed_bytes_le(),
        vec![0x00u8, 0x80]
    );
}

#[test]
fn from_signed_bytes_le_reads_as_num_bigint_does() {
    let samples: Vec<Vec<u8>> = vec![
        vec![],
        vec![0],
        vec![0xFF],
        vec![0x00, 0x80],
        vec![0xFF, 0x7F],
        vec![1, 2, 3, 4, 5, 6, 7, 8, 9, 10, 11, 12],
        vec![1, 2, 3, 4, 5, 6, 7, 8, 9, 10, 11, 0xF2],
        vec![0, 0, 0, 0, 0, 0, 0, 0, 1],
        vec![0xFF, 0xFF, 0xFF, 0x00, 0x00],
        vec![0x00, 0xFF, 0xFF, 0xFF],
    ];
    for bytes in samples {
        let expected = BigInt::from_signed_bytes_le(&bytes);
        let i = Integer::from_signed_bytes_le(bytes);
        assert_eq!(big(&i), expected);
        assert_eq!(*i.signed_bytes_le(), expected.to_signed_bytes_le());
    }
}

#[test]
fn equal_numbers_are_equal() {
    assert_eq!(Integer::from_i64(5), Integer::from_u64(5));
    assert_eq!(Integer::from_i64(5), Integer::from_signed_bytes_le(vec![5, 0, 0, 0]));
    assert_eq!(Integer::from_i64(-3), Integer::from_signed_bytes_le(vec![0xFD, 0xFF]));
    assert_eq!(Integer::from_u64(0), Integer::from_signed_bytes_le(vec![]));
    assert_ne!(Integer::from_i64(5), Integer::from_i64(-5));
    assert_ne!(Integer::from_i64(255), Integer::from_i64(-1));
}

#[test]
fn clone_is_the_same_number() {
    let i = Integer::from_i64(-123_456_789);
    assert_eq!(i.clone(), i);
}
