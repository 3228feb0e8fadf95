use bytes::Bytes;
use parquet::basic::{LogicalType, Repetition, Type as PhysicalType};
use parquet::file::reader::{FileReader, SerializedFileReader};
use parquet::record::{Field, Row};

use mssql_parquet::catalog::MSchema;
use mssql_parquet::error::PqError;
use mssql_parquet::value::{DateTime2Value, DateTimeValue, NumericValue, RowBuffer, TaggedValue};
use mssql_parquet::writer::{create_schema_parquet, write_parquet_from_stream};

fn entry(name: &str, sql_type: &str, nullable: &str) -> MSchema {
    MSchema {
        column_name: Some(name.to_owned()),
        data_type: Some(sql_type.to_owned()),
        is_nullable: Some(nullable.to_owned()),
        numeric_precision: None,
        numeric_scale: None,
        datetime_precision: None,
    }
}

fn read_rows(bytes: Vec<u8>) -> Vec<Row> {
    let reader = SerializedFileReader::new(Bytes::from(bytes)).unwrap();
    reader.get_row_iter(None).unwrap().map(|r| r.unwrap()).collect()
}

fn fields_of(row: &Row) -> Vec<(String, Field)> {
    row.get_column_iter().map(|(n, f)| (n.clone(), f.clone())).collect()
}

#[test]
fn schema_emits_decimal_as_fixed_len_byte_array() {
    let mut price = entry("Price", "decimal(18,4)", "YES");
    price.numeric_precision = Some(18);
    price.numeric_scale = Some(4);
    let schema = create_schema_parquet(&vec![price]).unwrap();
    assert_eq!(schema.name(), "schema_mvsh");
    let fields = schema.get_fields();
    assert_eq!(fields.len(), 1);
    let f = &fields[0];
    assert_eq!(f.name(), "price");
    assert_eq!(f.get_physical_type(), PhysicalType::FIXED_LEN_BYTE_ARRAY);
    assert_eq!(f.get_precision(), 18);
    assert_eq!(f.get_scale(), 4);
    assert_eq!(f.get_basic_info().repetition(), Repetition::OPTIONAL);
    assert_eq!(
        f.get_basic_info().logical_type_ref(),
        Some(&LogicalType::decimal(4, 18))
    );
    match f.as_ref() {
        parquet::schema::types::Type::PrimitiveType { type_length, .. } => {
            assert_eq!(*type_length, 8);
        },
        _ => panic!("expected a primitive field"),
    }
}

#[test]
fn integers_and_strings_round_trip() {
    let cat = vec![entry("id", "int", "NO"), entry("name", "varchar", "YES")];
    let mut rows = RowBuffer::new(2);
    rows.push_row(vec![TaggedValue::I32(Some(1)), TaggedValue::Utf8(Some("a".into()))])
        .unwrap();
    rows.push_row(vec![TaggedValue::I32(Some(2)), TaggedValue::Utf8(None)]).unwrap();
    rows.push_row(vec![TaggedValue::I32(Some(3)), TaggedValue::Utf8(Some("c".into()))])
        .unwrap();
    let bytes = write_parquet_from_stream(&cat, &rows).unwrap();
    let out = read_rows(bytes);
    assert_eq!(out.len(), 3);
    let expect = [
        (1i32, Some("a")),
        (2, None),
        (3, Some("c")),
    ];
    for (row, (id, name)) in out.iter().zip(expect) {
        let cols = fields_of(row);
        assert_eq!(cols[0].0, "id");
        assert_eq!(cols[0].1, Field::Int(id));
        match (&cols[1].1, name) {
            (Field::Str(s), Some(n)) => assert_eq!(s, n),
            (Field::Null, None) => {},
            other => panic!("unexpected name field {other:?}"),
        }
    }
}

#[test]
fn decimal_round_trips_through_the_file() {
    let mut price = entry("price", "decimal", "YES");
    price.numeric_precision = Some(18);
    price.numeric_scale = Some(4);
    let mut rows = RowBuffer::new(1);
    rows.push_row(vec![TaggedValue::Numeric(Some(NumericValue { mantissa: 12345678, scale: 4 }))])
        .unwrap();
    let bytes = write_parquet_from_stream(&vec![price], &rows).unwrap();
    let out = read_rows(bytes);
    assert_eq!(out.len(), 1);
    match &fields_of(&out[0])[0].1 {
        Field::Decimal(d) => {
            assert_eq!(d.data(), &[0x00, 0x00, 0x00, 0x00, 0x00, 0xBC, 0x61, 0x4E]);
            assert_eq!(d.precision(), 18);
            assert_eq!(d.scale(), 4);
        },
        other => panic!("expected a decimal, got {other:?}"),
    }
}

#[test]
fn date_round_trips_with_the_epoch_shift() {
    let cat = vec![entry("d", "date", "YES")];
    let mut rows = RowBuffer::new(1);
    rows.push_row(vec![TaggedValue::Date(Some(738156))]).unwrap();
    let bytes = write_parquet_from_stream(&cat, &rows).unwrap();
    let out = read_rows(bytes);
    assert_eq!(fields_of(&out[0])[0].1, Field::Date(18994));
}

#[test]
fn datetime_round_trips_in_milliseconds() {
    let mut ts = entry("ts", "datetime", "YES");
    ts.datetime_precision = Some(3);
    let mut rows = RowBuffer::new(1);
    rows.push_row(vec![TaggedValue::DateTime(Some(DateTimeValue { days: 44560, ticks: 100 }))])
        .unwrap();
    let bytes = write_parquet_from_stream(&vec![ts], &rows).unwrap();
    let out = read_rows(bytes);
    match fields_of(&out[0])[0].1 {
        Field::TimestampMillis(ms) => assert!((ms - 1640995200333i64).abs() <= 4, "got {ms}"),
        ref other => panic!("expected a millisecond timestamp, got {other:?}"),
    }
}

#[test]
fn datetime2_at_scale_seven_round_trips_in_nanoseconds() {
    let mut ts = entry("ts", "datetime2", "YES");
    ts.datetime_precision = Some(7);
    let mut rows = RowBuffer::new(1);
    rows.push_row(vec![TaggedValue::DateTime2(Some(DateTime2Value {
        days: 738155,
        increments: 5,
        scale: 7,
    }))])
    .unwrap();
    let bytes = write_parquet_from_stream(&vec![ts], &rows).unwrap();
    // a NANOS timestamp has no legacy converted type; the record reader
    // hands the raw 64-bit count back
    let out = read_rows(bytes);
    match fields_of(&out[0])[0].1 {
        Field::Long(ns) => assert_eq!(ns, 1_640_995_200_000_000_500),
        ref other => panic!("expected a long, got {other:?}"),
    }
}

#[test]
fn empty_result_set_writes_a_valid_file_with_zero_rows() {
    let cat = vec![entry("x", "int", "YES"), entry("s", "nvarchar", "YES")];
    let rows = RowBuffer::new(2);
    let bytes = write_parquet_from_stream(&cat, &rows).unwrap();
    let reader = SerializedFileReader::new(Bytes::from(bytes)).unwrap();
    let meta = reader.metadata();
    assert_eq!(meta.file_metadata().num_rows(), 0);
    assert_eq!(meta.num_row_groups(), 1);
    assert_eq!(meta.row_group(0).num_columns(), 2);
    assert_eq!(read_rows_from(reader).len(), 0);
}

fn read_rows_from(reader: SerializedFileReader<Bytes>) -> Vec<Row> {
    reader.get_row_iter(None).unwrap().map(|r| r.unwrap()).collect()
}

#[test]
fn all_null_optional_column_is_present_and_empty() {
    let cat = vec![entry("x", "int", "YES")];
    let mut rows = RowBuffer::new(1);
    for _ in 0..3 {
        rows.push_row(vec![TaggedValue::I32(None)]).unwrap();
    }
    let bytes = write_parquet_from_stream(&cat, &rows).unwrap();
    let reader = SerializedFileReader::new(Bytes::from(bytes)).unwrap();
    assert_eq!(reader.metadata().file_metadata().num_rows(), 3);
    let out = read_rows_from(reader);
    assert_eq!(out.len(), 3);
    for row in &out {
        assert_eq!(fields_of(row)[0].1, Field::Null);
    }
}

#[test]
fn null_in_required_column_fails_the_write() {
    let cat = vec![entry("id", "int", "NO")];
    let mut rows = RowBuffer::new(1);
    rows.push_row(vec![TaggedValue::I32(Some(1))]).unwrap();
    rows.push_row(vec![TaggedValue::I32(None)]).unwrap();
    match write_parquet_from_stream(&cat, &rows) {
        Err(PqError::UnexpectedNull { column, row }) => {
            assert_eq!(column, "id");
            assert_eq!(row, 1);
            assert_eq!(PqError::UnexpectedNull { column, row }.kind(), "unexpected_null");
        },
        other => panic!("expected UnexpectedNull, got {other:?}"),
    }
}

#[test]
fn decimal_overflow_fails_the_write() {
    let mut price = entry("price", "decimal", "YES");
    price.numeric_precision = Some(4);
    price.numeric_scale = Some(0);
    let mut rows = RowBuffer::new(1);
    rows.push_row(vec![TaggedValue::Numeric(Some(NumericValue { mantissa: 10_000, scale: 0 }))])
        .unwrap();
    match write_parquet_from_stream(&vec![price], &rows) {
        Err(PqError::DecimalOverflow { column, row }) => {
            assert_eq!(column, "price");
            assert_eq!(row, 0);
        },
        other => panic!("expected DecimalOverflow, got {other:?}"),
    }
}

#[test]
fn width_mismatch_is_a_schema_mismatch() {
    let cat = vec![entry("a", "int", "YES"), entry("b", "int", "YES")];
    let rows = RowBuffer::new(1);
    match write_parquet_from_stream(&cat, &rows) {
        Err(PqError::SchemaMismatch { expected, actual }) => {
            assert_eq!(expected, 2);
            assert_eq!(actual, 1);
        },
        other => panic!("expected SchemaMismatch, got {other:?}"),
    }
}

#[test]
fn float_columns_are_left_to_the_caller() {
    let cat = vec![entry("r", "real", "YES")];
    let mut rows = RowBuffer::new(1);
    rows.push_row(vec![TaggedValue::F32(Some(1.5f32.to_bits()))]).unwrap();
    match write_parquet_from_stream(&cat, &rows) {
        Err(PqError::UnsupportedType { column }) => assert_eq!(column, "r"),
        other => panic!("expected UnsupportedType, got {other:?}"),
    }
}

#[test]
fn bigint_bit_and_binary_round_trip() {
    let cat = vec![
        entry("n", "bigint", "NO"),
        entry("f", "bit", "NO"),
        entry("b", "varbinary", "YES"),
    ];
    let mut rows = RowBuffer::new(3);
    rows.push_row(vec![
        TaggedValue::I64(Some(-5_000_000_000)),
        TaggedValue::Bit(Some(true)),
        TaggedValue::Binary(Some(vec![1, 2, 3])),
    ])
    .unwrap();
    let bytes = write_parquet_from_stream(&cat, &rows).unwrap();
    let out = read_rows(bytes);
    let cols = fields_of(&out[0]);
    assert_eq!(cols[0].1, Field::Long(-5_000_000_000));
    assert_eq!(cols[1].1, Field::Bool(true));
    match &cols[2].1 {
        Field::Bytes(b) => assert_eq!(b.data(), &[1, 2, 3]),
        other => panic!("expected bytes, got {other:?}"),
    }
}

#[test]
fn time_columns_get_a_micros_annotation_and_no_values() {
    // the INT64 encoder accepts no `time` payload: such entries count as
    // absent, so an OPTIONAL time column serializes as nulls
    let cat = vec![entry("t", "time", "YES")];
    let mut rows = RowBuffer::new(1);
    rows.push_row(vec![TaggedValue::Time(Some(mssql_parquet::value::TimeValue {
        increments: 123,
        scale: 7,
    }))])
    .unwrap();
    let bytes = write_parquet_from_stream(&cat, &rows).unwrap();
    let out = read_rows(bytes);
    assert_eq!(out.len(), 1);
    assert_eq!(fields_of(&out[0])[0].1, Field::Null);
}

#[test]
fn smalldatetime_maps_to_a_millis_timestamp_field() {
    let mut ts = entry("ts", "smalldatetime", "YES");
    ts.datetime_precision = Some(0);
    let schema = create_schema_parquet(&vec![ts]).unwrap();
    let f = &schema.get_fields()[0];
    assert_eq!(f.get_physical_type(), PhysicalType::INT64);
    assert_eq!(
        f.get_basic_info().logical_type_ref(),
        Some(&LogicalType::timestamp(false, parquet::basic::TimeUnit::MILLIS))
    );
}
