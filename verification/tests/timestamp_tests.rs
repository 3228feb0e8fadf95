use mssql_parquet::plan::TimeUnitKind;
use mssql_parquet::timestamp::{date_to_epoch_days, datetime2_to_unix, datetime_to_unix_millis};

#[test]
fn date_shifts_by_the_epoch_constant() {
    // days since 0001-01-01 minus 719162 gives days since 1970-01-01
    assert_eq!(date_to_epoch_days(738156), 18994);
    assert_eq!(date_to_epoch_days(719162), 0);
    assert_eq!(date_to_epoch_days(719163), 1);
    assert_eq!(date_to_epoch_days(0), -719162);
}

#[test]
fn datetime_ticks_are_three_hundredths() {
    // 2022-01-01 is 44560 days after 1900-01-01; 100 ticks are 1/3 s
    let ms = datetime_to_unix_millis(44560, 100);
    assert!((ms - 1640995200333i64).abs() <= 4, "got {ms}");
    // whole days carry no fraction
    assert_eq!(datetime_to_unix_millis(25567, 0), 0);
    assert_eq!(datetime_to_unix_millis(25568, 0), 86_400_000);
    // the analytic formula holds tick by tick
    assert_eq!(datetime_to_unix_millis(44562, 100), (44562 - 25567) * 86_400_000 + 333);
    assert_eq!(datetime_to_unix_millis(44560, 300), 1640995201000);
}

#[test]
fn datetime2_nanos_combine_days_and_increments() {
    // 2022-01-01 is 738155 days (zero-based) after 0001-01-01; five
    // increments at scale 7 are 500 ns
    let ns = datetime2_to_unix(738155, 5, 7, TimeUnitKind::Nanos);
    assert_eq!(ns, 1_640_995_200_000_000_500);
    let expected = (738155i64 - 719162) * 86_400 * 1_000_000_000 + 500;
    assert_eq!(ns, expected);
}

#[test]
fn datetime2_truncates_to_the_column_unit() {
    let base = 1_640_995_200_000_000_500i64;
    assert_eq!(datetime2_to_unix(738155, 5, 7, TimeUnitKind::Micros), base / 1_000);
    assert_eq!(datetime2_to_unix(738155, 5, 7, TimeUnitKind::Millis), base / 1_000_000);
    // scale 3: each increment is one microsecond times a thousand
    assert_eq!(datetime2_to_unix(719162, 1500, 3, TimeUnitKind::Millis), 1500);
}

#[test]
fn datetime2_out_of_range_yields_zero() {
    // the year 9999 in nanoseconds does not fit a 64-bit count
    assert_eq!(datetime2_to_unix(3652058, 0, 7, TimeUnitKind::Nanos), 0);
    // but fits in microseconds
    let us = datetime2_to_unix(3652058, 0, 7, TimeUnitKind::Micros);
    assert_eq!(us, (3652058i64 - 719162) * 86_400 * 1_000_000);
}
