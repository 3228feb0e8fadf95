//! Epoch translation for the three SQL date/time families.
//!
//! `date` counts days since 0001-01-01; `datetime` counts days since
//! 1900-01-01 with 1/300-second ticks; `datetime2` counts days since
//! 0001-01-01 with sub-second increments of `10^(9-scale)` nanoseconds.
//! Parquet wants days or time units since 1970-01-01. Both calendars are
//! plain day counts, so the shift is a constant: 719162 days from
//! 0001-01-01 and 25567 days from 1900-01-01 to the Unix epoch.

use vstd::prelude::*;

use crate::decimal::pow10_i128;
use crate::plan::TimeUnitKind;
use vstd::arithmetic::mul::lemma_mul_inequality;
use vstd::arithmetic::power::{lemma_pow_increases, lemma_pow_positive, pow};

verus! {

/// Days from 0001-01-01 to 1970-01-01.
pub const DAYS_0001_TO_1970: u32 = 719162;

/// Days from 1900-01-01 to 1970-01-01.
pub const DAYS_1900_TO_1970: i64 = 25567;

/// Truncating division, rounding toward zero as machine division does.
pub open spec fn trunc_div(a: int, b: int) -> int {
    if a >= 0 {
        a / b
    } else {
        -((-a) / b)
    }
}

/// A `date` value shifted to days since 1970-01-01, or 0 when the shifted
/// count cannot be represented.
pub open spec fn spec_date_days(days: int) -> int {
    if i32::MIN <= days - 719162 <= i32::MAX {
        days - 719162
    } else {
        0
    }
}

/// A `datetime` value as milliseconds since the Unix epoch: whole days
/// plus the tick fraction, each tick worth 1000/300 of a millisecond.
pub open spec fn spec_datetime_millis(days: int, ticks: int) -> int {
    (days - 25567) * 86400000 + (ticks * 1000) / 300
}

/// A `datetime2` value as nanoseconds since the Unix epoch.
pub open spec fn spec_datetime2_nanos(days: int, increments: int, scale: int) -> int {
    (days - 719162) * 86400000000000 + increments * pow(10, (9 - scale) as nat)
}

/// Nanoseconds truncated to the given unit.
pub open spec fn spec_unit_of_nanos(nanos: int, unit: TimeUnitKind) -> int {
    match unit {
        TimeUnitKind::Nanos => nanos,
        TimeUnitKind::Micros => trunc_div(nanos, 1000),
        TimeUnitKind::Millis => trunc_div(nanos, 1000000),
    }
}

/// A value squeezed into `i64`, or 0 where it does not fit.
pub open spec fn spec_fit_i64(v: int) -> int {
    if i64::MIN <= v <= i64::MAX {
        v
    } else {
        0
    }
}

/// Shifts a `date` day count to the Parquet epoch.
pub fn date_to_epoch_days(days: u32) -> (r: i32)
    ensures
        r == spec_date_days(days as int),
{
    let d: i64 = days as i64 - DAYS_0001_TO_1970 as i64;
    if i32::MIN as i64 <= d && d <= i32::MAX as i64 {
        d as i32
    } else {
        0
    }
}

/// Converts a `datetime` payload to milliseconds since the Unix epoch.
pub fn datetime_to_unix_millis(days: i32, ticks: u32) -> (r: i64)
    ensures
        r == spec_datetime_millis(days as int, ticks as int),
{
    let d: i64 = days as i64 - DAYS_1900_TO_1970;
    let sub: i64 = (ticks as i64 * 1000) / 300;
    d * 86400000 + sub
}

/// Converts a `datetime2` payload to the column's time unit since the Unix
/// epoch, 0 where the result does not fit in 64 bits. Each increment is
/// `10^(9-scale)` nanoseconds, so the scale must not pass 9; the encoder
/// treats payloads beyond that as absent.
pub fn datetime2_to_unix(days: u32, increments: u64, scale: u8, unit: TimeUnitKind) -> (r: i64)
    requires
        scale <= 9,
    ensures
        r == spec_fit_i64(
            spec_unit_of_nanos(
                spec_datetime2_nanos(days as int, increments as int, scale as int),
                unit,
            ),
        ),
{
    let day_part: i128 = (days as i128 - DAYS_0001_TO_1970 as i128) * 86400000000000;
    let p: i128 = pow10_i128((9 - scale) as u32);
    proof {
        lemma_pow_positive(10, (9 - scale) as nat);
        lemma_pow_increases(10, (9 - scale) as nat, 9);
        lemma_pow_table_small();
        lemma_mul_inequality(increments as int, 0xFFFFFFFFFFFFFFFF, pow(10, 9));
        vstd::arithmetic::mul::lemma_mul_upper_bound(
            increments as int,
            0xFFFFFFFFFFFFFFFF,
            p as int,
            1000000000,
        );
        vstd::arithmetic::mul::lemma_mul_nonnegative(increments as int, p as int);
    }
    let sub_part: i128 = (increments as i128) * p;
    let nanos: i128 = day_part + sub_part;
    let in_unit: i128 = match unit {
        TimeUnitKind::Nanos => nanos,
        TimeUnitKind::Micros => {
            if nanos >= 0 {
                nanos / 1000
            } else {
                -((-nanos) / 1000)
            }
        },
        TimeUnitKind::Millis => {
            if nanos >= 0 {
                nanos / 1000000
            } else {
                -((-nanos) / 1000000)
            }
        },
    };
    if i64::MIN as i128 <= in_unit && in_unit <= i64::MAX as i128 {
        in_unit as i64
    } else {
        0
    }
}

/// `10^9` as a ground value.
proof fn lemma_pow_table_small()
    ensures
        pow(10, 9) == 1000000000,
{
    reveal(pow);
    vstd::arithmetic::power::lemma_pow0(10);
    assert(pow(10, 1) == 10 * pow(10, 0));
    assert(pow(10, 2) == 10 * pow(10, 1));
    assert(pow(10, 3) == 10 * pow(10, 2));
    assert(pow(10, 4) == 10 * pow(10, 3));
    assert(pow(10, 5) == 10 * pow(10, 4));
    assert(pow(10, 6) == 10 * pow(10, 5));
    assert(pow(10, 7) == 10 * pow(10, 6));
    assert(pow(10, 8) == 10 * pow(10, 7));
    assert(pow(10, 9) == 10 * pow(10, 8));
}

} // verus!
