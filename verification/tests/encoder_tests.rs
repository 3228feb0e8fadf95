use mssql_parquet::encode::{
    encode_bool_column, encode_bytes_column, encode_decimal_column, encode_f32_column,
    encode_int32_column, encode_int64_column,
};
use mssql_parquet::error::PqError;
use mssql_parquet::plan::TimeUnitKind;
use mssql_parquet::value::{DateTime2Value, DateTimeValue, NumericValue, TaggedValue};

#[test]
fn int32_values_pass_through_unchanged() {
    let col = vec![
        TaggedValue::I32(Some(1)),
        TaggedValue::I32(Some(-7)),
        TaggedValue::I16(Some(300)),
        TaggedValue::U8(Some(255)),
    ];
    let (values, levels) = encode_int32_column(&col, true, "n").unwrap();
    assert_eq!(values, vec![1, -7, 300, 255]);
    assert_eq!(levels, vec![1, 1, 1, 1]);
}

#[test]
fn optional_columns_mark_nulls_with_level_zero() {
    let col = vec![
        TaggedValue::I32(Some(1)),
        TaggedValue::I32(None),
        TaggedValue::I32(Some(3)),
    ];
    let (values, levels) = encode_int32_column(&col, false, "n").unwrap();
    assert_eq!(values, vec![1, 3]);
    assert_eq!(levels, vec![1, 0, 1]);
    // the count of 1s equals the number of values kept
    assert_eq!(levels.iter().filter(|&&l| l == 1).count(), values.len());
}

#[test]
fn null_in_required_column_is_rejected() {
    let col = vec![TaggedValue::I32(Some(1)), TaggedValue::I32(None)];
    match encode_int32_column(&col, true, "id") {
        Err(PqError::UnexpectedNull { column, row }) => {
            assert_eq!(column, "id");
            assert_eq!(row, 1);
        },
        other => panic!("expected UnexpectedNull, got {other:?}"),
    }
}

#[test]
fn foreign_kinds_count_as_null() {
    let col = vec![TaggedValue::Utf8(Some("x".to_owned()))];
    let (values, levels) = encode_int32_column(&col, false, "n").unwrap();
    assert!(values.is_empty());
    assert_eq!(levels, vec![0]);
}

#[test]
fn dates_shift_epochs_inside_the_int32_encoder() {
    let col = vec![TaggedValue::Date(Some(738156))];
    let (values, _) = encode_int32_column(&col, true, "d").unwrap();
    assert_eq!(values, vec![18994]);
}

#[test]
fn int64_handles_integers_datetimes_and_datetime2() {
    let col = vec![
        TaggedValue::I64(Some(123)),
        TaggedValue::DateTime(Some(DateTimeValue { days: 44560, ticks: 100 })),
        TaggedValue::DateTime2(Some(DateTime2Value { days: 738155, increments: 5, scale: 7 })),
    ];
    let (values, levels) = encode_int64_column(&col, true, "ts", TimeUnitKind::Nanos).unwrap();
    assert_eq!(values[0], 123);
    assert!((values[1] - 1640995200333i64).abs() <= 4);
    assert_eq!(values[2], 1_640_995_200_000_000_500);
    assert_eq!(levels, vec![1, 1, 1]);
}

#[test]
fn booleans_pass_through() {
    let col = vec![TaggedValue::Bit(Some(true)), TaggedValue::Bit(Some(false))];
    let (values, levels) = encode_bool_column(&col, true, "b").unwrap();
    assert_eq!(values, vec![true, false]);
    assert_eq!(levels, vec![1, 1]);
}

#[test]
fn float_bits_pass_through_untouched() {
    let bits = 1.5f32.to_bits();
    let col = vec![TaggedValue::F32(Some(bits)), TaggedValue::F32(None)];
    let (values, levels) = encode_f32_column(&col, false, "r").unwrap();
    assert_eq!(values, vec![bits]);
    assert_eq!(levels, vec![1, 0]);
    assert_eq!(f32::from_bits(values[0]), 1.5f32);
}

#[test]
fn strings_keep_their_exact_bytes() {
    let col = vec![
        TaggedValue::Utf8(Some("héllo".to_owned())),
        TaggedValue::Xml(Some("<a/>".to_owned())),
        TaggedValue::Binary(Some(vec![0, 255, 7])),
    ];
    let (values, levels) = encode_bytes_column(&col, true, "s").unwrap();
    assert_eq!(values[0], "héllo".as_bytes().to_vec());
    assert_eq!(values[1], b"<a/>".to_vec());
    assert_eq!(values[2], vec![0, 255, 7]);
    assert_eq!(levels, vec![1, 1, 1]);
}

#[test]
fn decimal_column_encodes_and_range_checks() {
    let col = vec![
        TaggedValue::Numeric(Some(NumericValue { mantissa: 12345678, scale: 4 })),
        TaggedValue::Numeric(None),
    ];
    let (values, levels) = encode_decimal_column(&col, false, "price", 18, 8).unwrap();
    assert_eq!(values, vec![vec![0x00, 0x00, 0x00, 0x00, 0x00, 0xBC, 0x61, 0x4E]]);
    assert_eq!(levels, vec![1, 0]);
}

#[test]
fn decimal_overflow_names_the_row() {
    let col = vec![
        TaggedValue::Numeric(Some(NumericValue { mantissa: 0, scale: 0 })),
        TaggedValue::Numeric(Some(NumericValue { mantissa: 10_000, scale: 0 })),
    ];
    match encode_decimal_column(&col, false, "price", 4, 2) {
        Err(PqError::DecimalOverflow { column, row }) => {
            assert_eq!(column, "price");
            assert_eq!(row, 1);
        },
        other => panic!("expected DecimalOverflow, got {other:?}"),
    }
    // the minimum representable mantissa still encodes
    let col = vec![TaggedValue::Numeric(Some(NumericValue { mantissa: -10_000, scale: 0 }))];
    assert!(encode_decimal_column(&col, false, "price", 4, 2).is_ok());
}

#[test]
fn all_null_optional_column_keeps_no_values() {
    let col = vec![TaggedValue::I32(None), TaggedValue::I32(None), TaggedValue::I32(None)];
    let (values, levels) = encode_int32_column(&col, false, "x").unwrap();
    assert!(values.is_empty());
    assert_eq!(levels, vec![0, 0, 0]);
}

#[test]
fn datetime2_scale_beyond_nine_counts_as_absent() {
    // no whole-nanosecond increment exists past scale 9
    let col = vec![TaggedValue::DateTime2(Some(DateTime2Value {
        days: 738155,
        increments: 5,
        scale: 10,
    }))];
    let (values, levels) = encode_int64_column(&col, false, "ts", TimeUnitKind::Nanos).unwrap();
    assert!(values.is_empty());
    assert_eq!(levels, vec![0]);
}
