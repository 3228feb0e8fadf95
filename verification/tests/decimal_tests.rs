use mssql_parquet::decimal::{decimal_byte_length, decode_decimal, encode_decimal, pow10_i128};

#[test]
fn byte_length_follows_the_formula() {
    // ceil((p * log2(10) + 1) / 8) for the precisions the formula bends at
    assert_eq!(decimal_byte_length(1), 1);
    assert_eq!(decimal_byte_length(2), 1);
    assert_eq!(decimal_byte_length(3), 2);
    assert_eq!(decimal_byte_length(9), 4);
    assert_eq!(decimal_byte_length(10), 5);
    assert_eq!(decimal_byte_length(18), 8);
    assert_eq!(decimal_byte_length(19), 9);
    assert_eq!(decimal_byte_length(38), 16);
}

#[test]
fn encode_is_big_endian_right_aligned() {
    // 12345678 == 0xBC614E in a decimal(18, _) slot of 8 bytes
    let bytes = encode_decimal(12345678, 18, 8).unwrap();
    assert_eq!(bytes, vec![0x00, 0x00, 0x00, 0x00, 0x00, 0xBC, 0x61, 0x4E]);
}

#[test]
fn encode_sign_extends_negative_mantissas() {
    let bytes = encode_decimal(-1, 18, 8).unwrap();
    assert_eq!(bytes, vec![0xFF; 8]);
    let bytes = encode_decimal(-12345678, 18, 8).unwrap();
    assert_eq!(decode_decimal(&bytes), -12345678);
}

#[test]
fn round_trip_across_precisions() {
    for &(m, p) in &[
        (0i128, 1u32),
        (7, 1),
        (-9, 1),
        (12345678, 18),
        (-12345678, 18),
        (99999999999999999999999999999999999999, 38),
        (-99999999999999999999999999999999999999, 38),
        (1, 38),
        (-1, 5),
    ] {
        let len = decimal_byte_length(p);
        let bytes = encode_decimal(m, p, len).unwrap();
        assert_eq!(bytes.len(), len);
        assert_eq!(decode_decimal(&bytes), m, "mantissa {m} precision {p}");
    }
}

#[test]
fn mantissa_at_ten_to_precision_overflows() {
    // 10^precision itself is one past the largest representable mantissa
    let len = decimal_byte_length(4);
    assert!(encode_decimal(10_000, 4, len).is_none());
    assert!(encode_decimal(10_001, 4, len).is_none());
    let len = decimal_byte_length(18);
    assert!(encode_decimal(1_000_000_000_000_000_000, 18, len).is_none());
}

#[test]
fn mantissa_at_minus_ten_to_precision_succeeds() {
    // -10^precision is the smallest representable mantissa
    let len = decimal_byte_length(4);
    let bytes = encode_decimal(-10_000, 4, len).unwrap();
    assert_eq!(decode_decimal(&bytes), -10_000);
    assert!(encode_decimal(-10_001, 4, len).is_none());
}

#[test]
fn pow10_matches_ground_values() {
    assert_eq!(pow10_i128(0), 1);
    assert_eq!(pow10_i128(1), 10);
    assert_eq!(pow10_i128(18), 1_000_000_000_000_000_000);
    assert_eq!(pow10_i128(38), 100_000_000_000_000_000_000_000_000_000_000_000_000);
}
