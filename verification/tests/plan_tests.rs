use mssql_parquet::catalog::MSchema;
use mssql_parquet::error::PqError;
use mssql_parquet::plan::{to_type_column, translate_catalog, LogicalKind, PhysicalKind, TimeUnitKind};

fn entry(name: &str, sql_type: &str, nullable: &str) -> MSchema {
    MSchema {
        column_name: Some(name.to_owned()),
        data_type: Some(sql_type.to_owned()),
        is_nullable: Some(nullable.to_owned()),
        numeric_precision: None,
        numeric_scale: None,
        datetime_precision: None,
    }
}

#[test]
fn integer_family_maps_to_int32() {
    for t in ["int", "smallint", "tinyint"] {
        let plan = to_type_column(&entry("n", t, "YES"), 0).unwrap();
        assert_eq!(plan.physical, PhysicalKind::Int32);
        assert!(plan.logical.is_none());
        assert!(!plan.required);
    }
}

#[test]
fn bigint_maps_to_int64_and_bit_to_boolean() {
    let plan = to_type_column(&entry("n", "bigint", "NO"), 0).unwrap();
    assert_eq!(plan.physical, PhysicalKind::Int64);
    assert!(plan.required);
    let plan = to_type_column(&entry("b", "bit", "YES"), 0).unwrap();
    assert_eq!(plan.physical, PhysicalKind::Boolean);
}

#[test]
fn float_family_keeps_its_width() {
    let plan = to_type_column(&entry("r", "real", "YES"), 0).unwrap();
    assert_eq!(plan.physical, PhysicalKind::Float);
    let plan = to_type_column(&entry("f", "float", "YES"), 0).unwrap();
    assert_eq!(plan.physical, PhysicalKind::Double);
}

#[test]
fn decimal_gets_fixed_slot_and_annotation() {
    let mut e = entry("price", "decimal", "YES");
    e.numeric_precision = Some(18);
    e.numeric_scale = Some(4);
    let plan = to_type_column(&e, 0).unwrap();
    assert_eq!(plan.physical, PhysicalKind::FixedLenByteArray);
    assert_eq!(plan.type_length, 8);
    assert_eq!(plan.precision, 18);
    assert_eq!(plan.scale, 4);
    assert_eq!(plan.logical, Some(LogicalKind::Decimal { precision: 18, scale: 4 }));
}

#[test]
fn decimal_out_of_range_parameters_are_unsupported() {
    let mut e = entry("price", "numeric", "YES");
    e.numeric_precision = Some(39);
    e.numeric_scale = Some(0);
    match to_type_column(&e, 0) {
        Err(PqError::UnsupportedType { column }) => assert_eq!(column, "price"),
        other => panic!("expected UnsupportedType, got {other:?}"),
    }
    let mut e = entry("price", "decimal", "YES");
    e.numeric_precision = Some(10);
    e.numeric_scale = Some(11);
    assert!(matches!(to_type_column(&e, 0), Err(PqError::UnsupportedType { .. })));
}

#[test]
fn strings_map_to_utf8_byte_arrays() {
    for t in ["char", "varchar", "text", "nchar", "nvarchar", "ntext"] {
        let plan = to_type_column(&entry("s", t, "YES"), 0).unwrap();
        assert_eq!(plan.physical, PhysicalKind::ByteArray);
        assert_eq!(plan.logical, Some(LogicalKind::Utf8String));
    }
}

#[test]
fn timestamps_pick_their_unit_from_the_precision() {
    let mut e = entry("ts", "datetime2", "YES");
    e.datetime_precision = Some(3);
    let plan = to_type_column(&e, 0).unwrap();
    assert_eq!(
        plan.logical,
        Some(LogicalKind::Timestamp { utc_adjusted: false, unit: TimeUnitKind::Millis })
    );
    e.datetime_precision = Some(6);
    let plan = to_type_column(&e, 0).unwrap();
    assert_eq!(
        plan.logical,
        Some(LogicalKind::Timestamp { utc_adjusted: false, unit: TimeUnitKind::Micros })
    );
    e.datetime_precision = Some(7);
    let plan = to_type_column(&e, 0).unwrap();
    assert_eq!(
        plan.logical,
        Some(LogicalKind::Timestamp { utc_adjusted: false, unit: TimeUnitKind::Nanos })
    );
}

#[test]
fn date_time_binary_and_fallback_arms() {
    let plan = to_type_column(&entry("d", "date", "YES"), 0).unwrap();
    assert_eq!(plan.physical, PhysicalKind::Int32);
    assert_eq!(plan.logical, Some(LogicalKind::Date));
    let plan = to_type_column(&entry("t", "time", "YES"), 0).unwrap();
    assert_eq!(plan.physical, PhysicalKind::Int64);
    assert_eq!(
        plan.logical,
        Some(LogicalKind::Time { utc_adjusted: false, unit: TimeUnitKind::Micros })
    );
    for t in ["binary", "varbinary", "image"] {
        let plan = to_type_column(&entry("b", t, "YES"), 0).unwrap();
        assert_eq!(plan.physical, PhysicalKind::ByteArray);
        assert!(plan.logical.is_none());
    }
    // unknown tags fall back to UTF-8 byte arrays
    let plan = to_type_column(&entry("u", "uniqueidentifier", "YES"), 0).unwrap();
    assert_eq!(plan.physical, PhysicalKind::ByteArray);
    assert_eq!(plan.logical, Some(LogicalKind::Utf8String));
}

#[test]
fn names_are_normalized_in_the_plan() {
    let plan = to_type_column(&entry("  Order  Id ", "int", "YES"), 0).unwrap();
    assert_eq!(plan.name, "order_id");
}

#[test]
fn whitespace_only_name_is_invalid() {
    match to_type_column(&entry("   ", "int", "YES"), 0) {
        Err(PqError::InvalidColumnName { column }) => assert_eq!(column, "   "),
        other => panic!("expected InvalidColumnName, got {other:?}"),
    }
}

#[test]
fn unnamed_entries_get_synthesized_names() {
    let e = MSchema {
        column_name: None,
        data_type: Some("int".to_owned()),
        is_nullable: None,
        numeric_precision: None,
        numeric_scale: None,
        datetime_precision: None,
    };
    let plan = to_type_column(&e, 12).unwrap();
    assert_eq!(plan.name, "col_12");
    // an absent is_nullable defaults to OPTIONAL
    assert!(!plan.required);
}

#[test]
fn catalog_translates_in_order_and_stops_at_the_first_rejection() {
    let cat = vec![entry("a", "int", "NO"), entry(" ", "int", "YES")];
    assert!(matches!(translate_catalog(&cat), Err(PqError::InvalidColumnName { .. })));
    let cat = vec![entry("a", "int", "NO"), entry("b", "varchar", "YES")];
    let plans = translate_catalog(&cat).unwrap();
    assert_eq!(plans.len(), 2);
    assert_eq!(plans[0].name, "a");
    assert!(plans[0].required);
    assert_eq!(plans[1].physical, PhysicalKind::ByteArray);
}
