use mssql_parquet::error::PqError;
use mssql_parquet::value::{RowBuffer, TaggedValue};

#[test]
fn rows_pivot_into_columns_of_equal_length() {
    let mut rows = RowBuffer::new(2);
    assert_eq!(rows.num_cols(), 2);
    assert_eq!(rows.num_rows(), 0);
    rows.push_row(vec![TaggedValue::I32(Some(1)), TaggedValue::Utf8(Some("a".into()))])
        .unwrap();
    rows.push_row(vec![TaggedValue::I32(Some(2)), TaggedValue::Utf8(None)]).unwrap();
    assert_eq!(rows.num_rows(), 2);
    assert_eq!(rows.col(0).len(), 2);
    assert_eq!(rows.col(1).len(), 2);
    assert!(matches!(rows.col(0)[1], TaggedValue::I32(Some(2))));
    assert!(matches!(rows.col(1)[1], TaggedValue::Utf8(None)));
}

#[test]
fn a_row_of_the_wrong_width_is_rejected_whole() {
    let mut rows = RowBuffer::new(2);
    match rows.push_row(vec![TaggedValue::I32(Some(1))]) {
        Err(PqError::SchemaMismatch { expected, actual }) => {
            assert_eq!(expected, 2);
            assert_eq!(actual, 1);
        },
        other => panic!("expected SchemaMismatch, got {other:?}"),
    }
    assert_eq!(rows.num_rows(), 0);
    assert_eq!(rows.col(0).len(), 0);
}
