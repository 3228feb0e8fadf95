//! The per-physical-type column encoders.
//!
//! Each encoder walks one column buffer and produces two parallel arrays:
//! the typed values of the present entries, in row order, and one
//! definition level per row — 1 where a value is present, 0 where it is
//! absent. A tagged value of a kind the encoder does not accept counts as
//! absent. An absent entry in a REQUIRED column fails with
//! `UnexpectedNull`; a decimal mantissa beyond the declared precision
//! fails with `DecimalOverflow`.

use vstd::prelude::*;

use crate::decimal::{encode_decimal, spec_decimal_byte_length, spec_encode_decimal};
use crate::error::PqError;
use crate::plan::{ColumnPlan, LogicalKind, PhysicalKind, TimeUnitKind};
use crate::timestamp::{
    date_to_epoch_days, datetime2_to_unix, datetime_to_unix_millis, spec_date_days,
    spec_datetime2_nanos, spec_datetime_millis, spec_fit_i64, spec_unit_of_nanos,
};
use crate::value::TaggedValue;
use vstd::arithmetic::power::pow;
use vstd::string::StringSliceAdditionalSpecFns;

verus! {

/// The present entries of a column under a value mapping, in row order.
pub open spec fn kept<B>(s: Seq<TaggedValue>, f: spec_fn(TaggedValue) -> Option<B>) -> Seq<B>
    decreases s.len(),
{
    if s.len() == 0 {
        Seq::empty()
    } else {
        kept(s.drop_last(), f) + match f(s.last()) {
            Some(b) => seq![b],
            None => Seq::empty(),
        }
    }
}

/// The definition level of one entry: 1 present, 0 absent.
pub open spec fn level_of<B>(v: TaggedValue, f: spec_fn(TaggedValue) -> Option<B>) -> i16 {
    if f(v) is Some {
        1
    } else {
        0
    }
}

/// The definition levels of a column under a value mapping.
pub open spec fn levels_of<B>(s: Seq<TaggedValue>, f: spec_fn(TaggedValue) -> Option<B>) -> Seq<
    i16,
> {
    s.map_values(|v: TaggedValue| level_of(v, f))
}

/// How many levels are 1.
pub open spec fn ones(levels: Seq<i16>) -> int
    decreases levels.len(),
{
    if levels.len() == 0 {
        0int
    } else {
        ones(levels.drop_last()) + if levels.last() == 1 {
            1int
        } else {
            0int
        }
    }
}

/// For every column and value mapping, the count of 1s in the definition
/// levels equals the number of values kept: each present entry contributes
/// one level of 1 and one value, each absent entry one level of 0 and no
/// value.
pub proof fn lemma_present_count<B>(s: Seq<TaggedValue>, f: spec_fn(TaggedValue) -> Option<B>)
    ensures
        ones(levels_of(s, f)) == kept(s, f).len(),
    decreases s.len(),
{
    if s.len() == 0 {
    } else {
        lemma_present_count(s.drop_last(), f);
        assert(levels_of(s, f).drop_last() =~= levels_of(s.drop_last(), f));
        assert(levels_of(s, f).last() == level_of(s.last(), f));
    }
}

/// A column whose entries are all present keeps one value per row: under
/// REQUIRED repetition the emitted value count equals the row count.
pub proof fn lemma_all_present<B>(s: Seq<TaggedValue>, f: spec_fn(TaggedValue) -> Option<B>)
    requires
        forall|i: int| 0 <= i < s.len() ==> f(#[trigger] s[i]) is Some,
    ensures
        kept(s, f).len() == s.len(),
    decreases s.len(),
{
    if s.len() == 0 {
    } else {
        assert(f(s.last()) is Some);
        lemma_all_present(s.drop_last(), f);
    }
}

/// The INT32 value of a tagged entry: 32-, 16- and 8-bit integers widened
/// sign-preservingly, and `date` shifted to days since 1970-01-01.
pub open spec fn int32_of(v: TaggedValue) -> Option<int> {
    match v {
        TaggedValue::I32(Some(x)) => Some(x as int),
        TaggedValue::U8(Some(x)) => Some(x as int),
        TaggedValue::I16(Some(x)) => Some(x as int),
        TaggedValue::Date(Some(d)) => Some(spec_date_days(d as int)),
        _ => None,
    }
}

/// The INT64 value of a tagged entry: 64-bit integers, `datetime` as
/// milliseconds since the Unix epoch, and `datetime2` in the column's
/// unit. A `datetime2` scale beyond 9 has no whole-nanosecond increment
/// and counts as absent.
pub open spec fn int64_of(v: TaggedValue, unit: TimeUnitKind) -> Option<int> {
    match v {
        TaggedValue::I64(Some(x)) => Some(x as int),
        TaggedValue::DateTime(Some(dt)) => Some(
            spec_datetime_millis(dt.days as int, dt.ticks as int),
        ),
        TaggedValue::DateTime2(Some(d2)) => if d2.scale <= 9 {
            Some(
                spec_fit_i64(
                    spec_unit_of_nanos(
                        spec_datetime2_nanos(d2.days as int, d2.increments as int, d2.scale as int),
                        unit,
                    ),
                ),
            )
        } else {
            None
        },
        _ => None,
    }
}

/// The BOOLEAN value of a tagged entry.
pub open spec fn bool_of(v: TaggedValue) -> Option<bool> {
    match v {
        TaggedValue::Bit(Some(b)) => Some(b),
        _ => None,
    }
}

/// The FLOAT value of a tagged entry, as its IEEE-754 bit pattern.
pub open spec fn f32_bits_of(v: TaggedValue) -> Option<u32> {
    match v {
        TaggedValue::F32(Some(b)) => Some(b),
        _ => None,
    }
}

/// The DOUBLE value of a tagged entry, as its IEEE-754 bit pattern.
pub open spec fn f64_bits_of(v: TaggedValue) -> Option<u64> {
    match v {
        TaggedValue::F64(Some(b)) => Some(b),
        _ => None,
    }
}

/// The BYTE_ARRAY value of a tagged entry: the UTF-8 bytes of a string or
/// XML payload, or raw binary bytes.
pub open spec fn bytes_of(v: TaggedValue) -> Option<Seq<u8>> {
    match v {
        TaggedValue::Utf8(Some(s)) => Some(vstd::utf8::encode_utf8(s@)),
        TaggedValue::Xml(Some(s)) => Some(vstd::utf8::encode_utf8(s@)),
        TaggedValue::Binary(Some(b)) => Some(b@),
        _ => None,
    }
}

/// The decimal mantissa of a tagged entry.
pub open spec fn numeric_of(v: TaggedValue) -> Option<int> {
    match v {
        TaggedValue::Numeric(Some(nv)) => Some(nv.mantissa as int),
        _ => None,
    }
}

/// The FIXED_LEN_BYTE_ARRAY value of a tagged entry: the mantissa's
/// two's-complement big-endian slot of `len` bytes.
pub open spec fn numeric_bytes_of(v: TaggedValue, len: nat) -> Option<Seq<u8>> {
    match numeric_of(v) {
        Some(m) => Some(spec_encode_decimal(m, len)),
        None => None,
    }
}

/// The INT32 value mapping as a function value.
pub open spec fn int32f() -> spec_fn(TaggedValue) -> Option<int> {
    |v: TaggedValue| int32_of(v)
}

/// The INT64 value mapping for a unit, as a function value.
pub open spec fn int64f(unit: TimeUnitKind) -> spec_fn(TaggedValue) -> Option<int> {
    |v: TaggedValue| int64_of(v, unit)
}

/// The BOOLEAN value mapping as a function value.
pub open spec fn boolf() -> spec_fn(TaggedValue) -> Option<bool> {
    |v: TaggedValue| bool_of(v)
}

/// The FLOAT bit mapping as a function value.
pub open spec fn f32f() -> spec_fn(TaggedValue) -> Option<u32> {
    |v: TaggedValue| f32_bits_of(v)
}

/// The DOUBLE bit mapping as a function value.
pub open spec fn f64f() -> spec_fn(TaggedValue) -> Option<u64> {
    |v: TaggedValue| f64_bits_of(v)
}

/// The BYTE_ARRAY value mapping as a function value.
pub open spec fn bytesf() -> spec_fn(TaggedValue) -> Option<Seq<u8>> {
    |v: TaggedValue| bytes_of(v)
}

/// The decimal slot mapping for a byte length, as a function value.
pub open spec fn numericf(len: nat) -> spec_fn(TaggedValue) -> Option<Seq<u8>> {
    |v: TaggedValue| numeric_bytes_of(v, len)
}

/// `i32` values as mathematical integers.
pub open spec fn i32_ints(s: Seq<i32>) -> Seq<int> {
    s.map_values(|x: i32| x as int)
}

/// `i64` values as mathematical integers.
pub open spec fn i64_ints(s: Seq<i64>) -> Seq<int> {
    s.map_values(|x: i64| x as int)
}

/// Byte vectors as byte sequences.
pub open spec fn byte_seqs(s: Seq<Vec<u8>>) -> Seq<Seq<u8>> {
    s.map_values(|b: Vec<u8>| b@)
}

/// Computes [`int32_of`].
fn int32_value(v: &TaggedValue) -> (r: Option<i32>)
    ensures
        match r {
            Some(x) => int32_of(*v) == Some(x as int),
            None => int32_of(*v) is None,
        },
{
    match v {
        TaggedValue::I32(o) => *o,
        TaggedValue::U8(Some(x)) => Some(*x as i32),
        TaggedValue::I16(Some(x)) => Some(*x as i32),
        TaggedValue::Date(Some(d)) => Some(date_to_epoch_days(*d)),
        _ => None,
    }
}

/// Computes [`int64_of`].
fn int64_value(v: &TaggedValue, unit: TimeUnitKind) -> (r: Option<i64>)
    ensures
        match r {
            Some(x) => int64_of(*v, unit) == Some(x as int),
            None => int64_of(*v, unit) is None,
        },
{
    match v {
        TaggedValue::I64(o) => *o,
        TaggedValue::DateTime(Some(dt)) => Some(datetime_to_unix_millis(dt.days, dt.ticks)),
        TaggedValue::DateTime2(Some(d2)) => {
            if d2.scale <= 9 {
                Some(datetime2_to_unix(d2.days, d2.increments, d2.scale, unit))
            } else {
                None
            }
        },
        _ => None,
    }
}

/// An `UnexpectedNull` for the named column at a row.
fn unexpected_null(name: &str, row: usize) -> (r: PqError)
    ensures
        r matches PqError::UnexpectedNull { column, row: rr } && column@ == name@ && rr == row,
{
    PqError::UnexpectedNull { column: String::from_str(name), row }
}

/// Encodes an INT32 column.
pub fn encode_int32_column(col: &Vec<TaggedValue>, required: bool, name: &str) -> (r: Result<
    (Vec<i32>, Vec<i16>),
    PqError,
>)
    ensures
        match r {
            Ok((values, levels)) => {
                &&& levels@ == levels_of(col@, int32f())
                &&& i32_ints(values@) == kept(col@, int32f())
                &&& required ==> forall|i: int|
                    0 <= i < col@.len() ==> int32f()(#[trigger] col@[i]) is Some
                &&& required ==> values@.len() == col@.len()
            },
            Err(e) => {
                &&& required
                &&& e matches PqError::UnexpectedNull { column, row } && column@ == name@ && 0
                    <= row < col@.len() && int32f()(col@[row as int]) is None && forall|j: int|
                    0 <= j < row ==> int32f()(#[trigger] col@[j]) is Some
            },
        },
{
    let mut values: Vec<i32> = Vec::new();
    let mut levels: Vec<i16> = Vec::new();
    let n = col.len();
    let mut i: usize = 0;
    while i < n
        invariant
            i <= n == col@.len(),
            levels@ == levels_of(col@.take(i as int), int32f()),
            i32_ints(values@) == kept(col@.take(i as int), int32f()),
            required ==> forall|j: int| 0 <= j < i ==> int32f()(#[trigger] col@[j]) is Some,
        decreases n - i,
    {
        proof {
            assert(col@.take(i + 1).drop_last() =~= col@.take(i as int));
            assert(col@.take(i + 1).last() == col@[i as int]);
            assert(levels_of(col@.take(i + 1), int32f()) =~= levels_of(
                col@.take(i as int),
                int32f(),
            ).push(level_of(col@[i as int], int32f())));
        }
        match int32_value(&col[i]) {
            Some(x) => {
                values.push(x);
                levels.push(1);
                proof {
                    assert(i32_ints(values@) =~= kept(col@.take(i + 1), int32f()));
                }
            },
            None => {
                if required {
                    return Err(unexpected_null(name, i));
                }
                levels.push(0);
                proof {
                    assert(i32_ints(values@) =~= kept(col@.take(i + 1), int32f()));
                }
            },
        }
        i = i + 1;
    }
    proof {
        assert(col@.take(n as int) =~= col@);
        if required {
            lemma_all_present(col@, int32f());
        }
    }
    Ok((values, levels))
}

/// Encodes an INT64 column in the given time unit.
pub fn encode_int64_column(
    col: &Vec<TaggedValue>,
    required: bool,
    name: &str,
    unit: TimeUnitKind,
) -> (r: Result<(Vec<i64>, Vec<i16>), PqError>)
    ensures
        match r {
            Ok((values, levels)) => {
                &&& levels@ == levels_of(col@, int64f(unit))
                &&& i64_ints(values@) == kept(col@, int64f(unit))
                &&& required ==> forall|i: int|
                    0 <= i < col@.len() ==> int64f(unit)(#[trigger] col@[i]) is Some
                &&& required ==> values@.len() == col@.len()
            },
            Err(e) => {
                &&& required
                &&& e matches PqError::UnexpectedNull { column, row } && column@ == name@ && 0
                    <= row < col@.len() && int64f(unit)(col@[row as int]) is None && forall|j: int|
                    0 <= j < row ==> int64f(unit)(#[trigger] col@[j]) is Some
            },
        },
{
    let mut values: Vec<i64> = Vec::new();
    let mut levels: Vec<i16> = Vec::new();
    let n = col.len();
    let mut i: usize = 0;
    while i < n
        invariant
            i <= n == col@.len(),
            levels@ == levels_of(col@.take(i as int), int64f(unit)),
            i64_ints(values@) == kept(col@.take(i as int), int64f(unit)),
            required ==> forall|j: int| 0 <= j < i ==> int64f(unit)(#[trigger] col@[j]) is Some,
        decreases n - i,
    {
        proof {
            assert(col@.take(i + 1).drop_last() =~= col@.take(i as int));
            assert(col@.take(i + 1).last() == col@[i as int]);
            assert(levels_of(col@.take(i + 1), int64f(unit)) =~= levels_of(
                col@.take(i as int),
                int64f(unit),
            ).push(level_of(col@[i as int], int64f(unit))));
        }
        match int64_value(&col[i], unit) {
            Some(x) => {
                values.push(x);
                levels.push(1);
                proof {
                    assert(i64_ints(values@) =~= kept(col@.take(i + 1), int64f(unit)));
                }
            },
            None => {
                if required {
                    return Err(unexpected_null(name, i));
                }
                levels.push(0);
                proof {
                    assert(i64_ints(values@) =~= kept(col@.take(i + 1), int64f(unit)));
                }
            },
        }
        i = i + 1;
    }
    proof {
        assert(col@.take(n as int) =~= col@);
        if required {
            lemma_all_present(col@, int64f(unit));
        }
    }
    Ok((values, levels))
}

/// Encodes a BOOLEAN column.
pub fn encode_bool_column(col: &Vec<TaggedValue>, required: bool, name: &str) -> (r: Result<
    (Vec<bool>, Vec<i16>),
    PqError,
>)
    ensures
        match r {
            Ok((values, levels)) => {
                &&& levels@ == levels_of(col@, boolf())
                &&& values@ == kept(col@, boolf())
                &&& required ==> forall|i: int|
                    0 <= i < col@.len() ==> boolf()(#[trigger] col@[i]) is Some
                &&& required ==> values@.len() == col@.len()
            },
            Err(e) => {
                &&& required
                &&& e matches PqError::UnexpectedNull { column, row } && column@ == name@ && 0
                    <= row < col@.len() && boolf()(col@[row as int]) is None && forall|j: int|
                    0 <= j < row ==> boolf()(#[trigger] col@[j]) is Some
            },
        },
{
    let mut values: Vec<bool> = Vec::new();
    let mut levels: Vec<i16> = Vec::new();
    let n = col.len();
    let mut i: usize = 0;
    while i < n
        invariant
            i <= n == col@.len(),
            levels@ == levels_of(col@.take(i as int), boolf()),
            values@ == kept(col@.take(i as int), boolf()),
            required ==> forall|j: int| 0 <= j < i ==> boolf()(#[trigger] col@[j]) is Some,
        decreases n - i,
    {
        proof {
            assert(col@.take(i + 1).drop_last() =~= col@.take(i as int));
            assert(col@.take(i + 1).last() == col@[i as int]);
            assert(levels_of(col@.take(i + 1), boolf()) =~= levels_of(
                col@.take(i as int),
                boolf(),
            ).push(level_of(col@[i as int], boolf())));
        }
        let opt: Option<bool> = match &col[i] {
            TaggedValue::Bit(o) => *o,
            _ => None,
        };
        match opt {
            Some(x) => {
                values.push(x);
                levels.push(1);
                proof {
                    assert(values@ =~= kept(col@.take(i + 1), boolf()));
                }
            },
            None => {
                if required {
                    return Err(unexpected_null(name, i));
                }
                levels.push(0);
                proof {
                    assert(values@ =~= kept(col@.take(i + 1), boolf()));
                }
            },
        }
        i = i + 1;
    }
    proof {
        assert(col@.take(n as int) =~= col@);
        if required {
            lemma_all_present(col@, boolf());
        }
    }
    Ok((values, levels))
}

/// Encodes a FLOAT column of bit patterns.
pub fn encode_f32_column(col: &Vec<TaggedValue>, required: bool, name: &str) -> (r: Result<
    (Vec<u32>, Vec<i16>),
    PqError,
>)
    ensures
        match r {
            Ok((values, levels)) => {
                &&& levels@ == levels_of(col@, f32f())
                &&& values@ == kept(col@, f32f())
                &&& required ==> forall|i: int|
                    0 <= i < col@.len() ==> f32f()(#[trigger] col@[i]) is Some
                &&& required ==> values@.len() == col@.len()
            },
            Err(e) => {
                &&& required
                &&& e matches PqError::UnexpectedNull { column, row } && column@ == name@ && 0
                    <= row < col@.len() && f32f()(col@[row as int]) is None && forall|j: int|
                    0 <= j < row ==> f32f()(#[trigger] col@[j]) is Some
            },
        },
{
    let mut values: Vec<u32> = Vec::new();
    let mut levels: Vec<i16> = Vec::new();
    let n = col.len();
    let mut i: usize = 0;
    while i < n
        invariant
            i <= n == col@.len(),
            levels@ == levels_of(col@.take(i as int), f32f()),
            values@ == kept(col@.take(i as int), f32f()),
            required ==> forall|j: int| 0 <= j < i ==> f32f()(#[trigger] col@[j]) is Some,
        decreases n - i,
    {
        proof {
            assert(col@.take(i + 1).drop_last() =~= col@.take(i as int));
            assert(col@.take(i + 1).last() == col@[i as int]);
            assert(levels_of(col@.take(i + 1), f32f()) =~= levels_of(
                col@.take(i as int),
                f32f(),
            ).push(level_of(col@[i as int], f32f())));
        }
        let opt: Option<u32> = match &col[i] {
            TaggedValue::F32(o) => *o,
            _ => None,
        };
        match opt {
            Some(x) => {
                values.push(x);
                levels.push(1);
                proof {
                    assert(values@ =~= kept(col@.take(i + 1), f32f()));
                }
            },
            None => {
                if required {
                    return Err(unexpected_null(name, i));
                }
                levels.push(0);
                proof {
                    assert(values@ =~= kept(col@.take(i + 1), f32f()));
                }
            },
        }
        i = i + 1;
    }
    proof {
        assert(col@.take(n as int) =~= col@);
        if required {
            lemma_all_present(col@, f32f());
        }
    }
    Ok((values, levels))
}

/// Encodes a DOUBLE column of bit patterns.
pub fn encode_f64_column(col: &Vec<TaggedValue>, required: bool, name: &str) -> (r: Result<
    (Vec<u64>, Vec<i16>),
    PqError,
>)
    ensures
        match r {
            Ok((values, levels)) => {
                &&& levels@ == levels_of(col@, f64f())
                &&& values@ == kept(col@, f64f())
                &&& required ==> forall|i: int|
                    0 <= i < col@.len() ==> f64f()(#[trigger] col@[i]) is Some
                &&& required ==> values@.len() == col@.len()
            },
            Err(e) => {
                &&& required
                &&& e matches PqError::UnexpectedNull { column, row } && column@ == name@ && 0
                    <= row < col@.len() && f64f()(col@[row as int]) is None && forall|j: int|
                    0 <= j < row ==> f64f()(#[trigger] col@[j]) is Some
            },
        },
{
    let mut values: Vec<u64> = Vec::new();
    let mut levels: Vec<i16> = Vec::new();
    let n = col.len();
    let mut i: usize = 0;
    while i < n
        invariant
            i <= n == col@.len(),
            levels@ == levels_of(col@.take(i as int), f64f()),
            values@ == kept(col@.take(i as int), f64f()),
            required ==> forall|j: int| 0 <= j < i ==> f64f()(#[trigger] col@[j]) is Some,
        decreases n - i,
    {
        proof {
            assert(col@.take(i + 1).drop_last() =~= col@.take(i as int));
            assert(col@.take(i + 1).last() == col@[i as int]);
            assert(levels_of(col@.take(i + 1), f64f()) =~= levels_of(
                col@.take(i as int),
                f64f(),
            ).push(level_of(col@[i as int], f64f())));
        }
        let opt: Option<u64> = match &col[i] {
            TaggedValue::F64(o) => *o,
            _ => None,
        };
        match opt {
            Some(x) => {
                values.push(x);
                levels.push(1);
                proof {
                    assert(values@ =~= kept(col@.take(i + 1), f64f()));
                }
            },
            None => {
                if required {
                    return Err(unexpected_null(name, i));
                }
                levels.push(0);
                proof {
                    assert(values@ =~= kept(col@.take(i + 1), f64f()));
                }
            },
        }
        i = i + 1;
    }
    proof {
        assert(col@.take(n as int) =~= col@);
        if required {
            lemma_all_present(col@, f64f());
        }
    }
    Ok((values, levels))
}

/// Encodes a BYTE_ARRAY column: UTF-8 text and XML as their bytes, binary
/// payloads unchanged.
pub fn encode_bytes_column(col: &Vec<TaggedValue>, required: bool, name: &str) -> (r: Result<
    (Vec<Vec<u8>>, Vec<i16>),
    PqError,
>)
    ensures
        match r {
            Ok((values, levels)) => {
                &&& levels@ == levels_of(col@, bytesf())
                &&& byte_seqs(values@) == kept(col@, bytesf())
                &&& required ==> forall|i: int|
                    0 <= i < col@.len() ==> bytesf()(#[trigger] col@[i]) is Some
                &&& required ==> values@.len() == col@.len()
            },
            Err(e) => {
                &&& required
                &&& e matches PqError::UnexpectedNull { column, row } && column@ == name@ && 0
                    <= row < col@.len() && bytesf()(col@[row as int]) is None && forall|j: int|
                    0 <= j < row ==> bytesf()(#[trigger] col@[j]) is Some
            },
        },
{
    let mut values: Vec<Vec<u8>> = Vec::new();
    let mut levels: Vec<i16> = Vec::new();
    let n = col.len();
    let mut i: usize = 0;
    while i < n
        invariant
            i <= n == col@.len(),
            levels@ == levels_of(col@.take(i as int), bytesf()),
            byte_seqs(values@) == kept(col@.take(i as int), bytesf()),
            required ==> forall|j: int| 0 <= j < i ==> bytesf()(#[trigger] col@[j]) is Some,
        decreases n - i,
    {
        proof {
            assert(col@.take(i + 1).drop_last() =~= col@.take(i as int));
            assert(col@.take(i + 1).last() == col@[i as int]);
            assert(levels_of(col@.take(i + 1), bytesf()) =~= levels_of(
                col@.take(i as int),
                bytesf(),
            ).push(level_of(col@[i as int], bytesf())));
        }
        let opt: Option<Vec<u8>> = match &col[i] {
            TaggedValue::Utf8(Some(s)) => Some(s.as_str().as_bytes_vec()),
            TaggedValue::Xml(Some(s)) => Some(s.as_str().as_bytes_vec()),
            TaggedValue::Binary(Some(b)) => Some(b.clone()),
            _ => None,
        };
        match opt {
            Some(x) => {
                values.push(x);
                levels.push(1);
                proof {
                    assert(byte_seqs(values@) =~= kept(col@.take(i + 1), bytesf()));
                }
            },
            None => {
                if required {
                    return Err(unexpected_null(name, i));
                }
                levels.push(0);
                proof {
                    assert(byte_seqs(values@) =~= kept(col@.take(i + 1), bytesf()));
                }
            },
        }
        i = i + 1;
    }
    proof {
        assert(col@.take(n as int) =~= col@);
        if required {
            lemma_all_present(col@, bytesf());
        }
    }
    Ok((values, levels))
}

/// Encodes a FIXED_LEN_BYTE_ARRAY decimal column: each present mantissa is
/// range-checked against the declared precision and laid out
/// two's-complement big-endian in its fixed slot.
pub fn encode_decimal_column(
    col: &Vec<TaggedValue>,
    required: bool,
    name: &str,
    precision: u32,
    length: usize,
) -> (r: Result<(Vec<Vec<u8>>, Vec<i16>), PqError>)
    requires
        1 <= precision <= 38,
        length == spec_decimal_byte_length(precision as int),
    ensures
        match r {
            Ok((values, levels)) => {
                &&& levels@ == levels_of(col@, numericf(length as nat))
                &&& byte_seqs(values@) == kept(col@, numericf(length as nat))
                &&& forall|i: int|
                    0 <= i < col@.len() ==> (numeric_of(#[trigger] col@[i]) matches Some(m) ==> -pow(
                        10,
                        precision as nat,
                    ) <= m <= pow(10, precision as nat) - 1)
                &&& required ==> forall|i: int|
                    0 <= i < col@.len() ==> numeric_of(#[trigger] col@[i]) is Some
                &&& required ==> values@.len() == col@.len()
            },
            Err(e) => match e {
                PqError::UnexpectedNull { column, row } => {
                    &&& required
                    &&& column@ == name@
                    &&& 0 <= row < col@.len()
                    &&& numeric_of(col@[row as int]) is None
                    &&& forall|j: int| 0 <= j < row ==> !row_faulty(col@[j], required, precision)
                },
                PqError::DecimalOverflow { column, row } => {
                    &&& column@ == name@
                    &&& 0 <= row < col@.len()
                    &&& numeric_of(col@[row as int]) matches Some(m) && !(-pow(
                        10,
                        precision as nat,
                    ) <= m <= pow(10, precision as nat) - 1)
                    &&& forall|j: int| 0 <= j < row ==> !row_faulty(col@[j], required, precision)
                },
                _ => false,
            },
        },
{
    let mut values: Vec<Vec<u8>> = Vec::new();
    let mut levels: Vec<i16> = Vec::new();
    let n = col.len();
    let mut i: usize = 0;
    while i < n
        invariant
            i <= n == col@.len(),
            1 <= precision <= 38,
            length == spec_decimal_byte_length(precision as int),
            levels@ == levels_of(col@.take(i as int), numericf(length as nat)),
            byte_seqs(values@) == kept(col@.take(i as int), numericf(length as nat)),
            forall|j: int| 0 <= j < i ==> !row_faulty(#[trigger] col@[j], required, precision),
        decreases n - i,
    {
        proof {
            assert(col@.take(i + 1).drop_last() =~= col@.take(i as int));
            assert(col@.take(i + 1).last() == col@[i as int]);
            assert(levels_of(col@.take(i + 1), numericf(length as nat)) =~= levels_of(
                col@.take(i as int),
                numericf(length as nat),
            ).push(level_of(col@[i as int], numericf(length as nat))));
        }
        let opt: Option<i128> = match &col[i] {
            TaggedValue::Numeric(Some(nv)) => Some(nv.mantissa),
            _ => None,
        };
        match opt {
            Some(m) => {
                match encode_decimal(m, precision, length) {
                    Some(slot) => {
                        values.push(slot);
                        levels.push(1);
                        proof {
                            assert(byte_seqs(values@) =~= kept(
                                col@.take(i + 1),
                                numericf(length as nat),
                            ));
                        }
                    },
                    None => {
                        return Err(
                            PqError::DecimalOverflow { column: String::from_str(name), row: i },
                        );
                    },
                }
            },
            None => {
                if required {
                    return Err(unexpected_null(name, i));
                }
                levels.push(0);
                proof {
                    assert(byte_seqs(values@) =~= kept(col@.take(i + 1), numericf(length as nat)));
                }
            },
        }
        i = i + 1;
    }
    proof {
        assert(col@.take(n as int) =~= col@);
        if required {
            assert forall|j: int| 0 <= j < col@.len() implies numeric_of(
                #[trigger] col@[j],
            ) is Some by {
                assert(!row_faulty(col@[j], required, precision));
            }
            lemma_all_present(col@, numericf(length as nat));
        }
    }
    Ok((values, levels))
}

/// Whether a decimal row fails: an absent entry in a REQUIRED column, or a
/// present mantissa beyond the declared precision.
pub open spec fn row_faulty(v: TaggedValue, required: bool, precision: u32) -> bool {
    match numeric_of(v) {
        None => required,
        Some(m) => !(-pow(10, precision as nat) <= m <= pow(10, precision as nat) - 1),
    }
}

/// One encoded column chunk: the typed value batch and its definition
/// levels.
#[derive(Debug)]
pub enum EncodedColumn {
    I32 { values: Vec<i32>, levels: Vec<i16> },
    I64 { values: Vec<i64>, levels: Vec<i16> },
    Bool { values: Vec<bool>, levels: Vec<i16> },
    F32 { values: Vec<u32>, levels: Vec<i16> },
    F64 { values: Vec<u64>, levels: Vec<i16> },
    Bytes { values: Vec<Vec<u8>>, levels: Vec<i16> },
    Fixed { values: Vec<Vec<u8>>, levels: Vec<i16> },
}

/// Whether a column has no failing entry for its physical type: no absent
/// entry under REQUIRED repetition, and no decimal mantissa beyond the
/// declared precision.
pub open spec fn col_clean(
    physical: PhysicalKind,
    required: bool,
    precision: u32,
    unit: TimeUnitKind,
    col: Seq<TaggedValue>,
) -> bool {
    match physical {
        PhysicalKind::Int32 => required ==> forall|i: int|
            0 <= i < col.len() ==> int32f()(#[trigger] col[i]) is Some,
        PhysicalKind::Int64 => required ==> forall|i: int|
            0 <= i < col.len() ==> int64f(unit)(#[trigger] col[i]) is Some,
        PhysicalKind::Boolean => required ==> forall|i: int|
            0 <= i < col.len() ==> boolf()(#[trigger] col[i]) is Some,
        PhysicalKind::Float => required ==> forall|i: int|
            0 <= i < col.len() ==> f32f()(#[trigger] col[i]) is Some,
        PhysicalKind::Double => required ==> forall|i: int|
            0 <= i < col.len() ==> f64f()(#[trigger] col[i]) is Some,
        PhysicalKind::ByteArray => required ==> forall|i: int|
            0 <= i < col.len() ==> bytesf()(#[trigger] col[i]) is Some,
        PhysicalKind::FixedLenByteArray => forall|i: int|
            0 <= i < col.len() ==> !row_faulty(#[trigger] col[i], required, precision),
    }
}

/// What an encoded chunk holds for its column: the variant of the physical
/// type, the levels and values of the matching encoder, and one value per
/// row under REQUIRED repetition.
pub open spec fn encoded_ok(
    physical: PhysicalKind,
    required: bool,
    precision: u32,
    length: nat,
    unit: TimeUnitKind,
    col: Seq<TaggedValue>,
    enc: &EncodedColumn,
) -> bool {
    match physical {
        PhysicalKind::Int32 => enc matches EncodedColumn::I32 { values, levels } && levels@
            == levels_of(col, int32f()) && i32_ints(values@) == kept(col, int32f()) && (required
            ==> values@.len() == col.len()),
        PhysicalKind::Int64 => enc matches EncodedColumn::I64 { values, levels } && levels@
            == levels_of(col, int64f(unit)) && i64_ints(values@) == kept(col, int64f(unit)) && (
        required ==> values@.len() == col.len()),
        PhysicalKind::Boolean => enc matches EncodedColumn::Bool { values, levels } && levels@
            == levels_of(col, boolf()) && values@ == kept(col, boolf()) && (required ==> values@.len()
            == col.len()),
        PhysicalKind::Float => enc matches EncodedColumn::F32 { values, levels } && levels@
            == levels_of(col, f32f()) && values@ == kept(col, f32f()) && (required ==> values@.len()
            == col.len()),
        PhysicalKind::Double => enc matches EncodedColumn::F64 { values, levels } && levels@
            == levels_of(col, f64f()) && values@ == kept(col, f64f()) && (required ==> values@.len()
            == col.len()),
        PhysicalKind::ByteArray => enc matches EncodedColumn::Bytes { values, levels } && levels@
            == levels_of(col, bytesf()) && byte_seqs(values@) == kept(col, bytesf()) && (required
            ==> values@.len() == col.len()),
        PhysicalKind::FixedLenByteArray => enc matches EncodedColumn::Fixed { values, levels }
            && levels@ == levels_of(col, numericf(length)) && byte_seqs(values@) == kept(
            col,
            numericf(length),
        ) && (required ==> values@.len() == col.len()),
    }
}

/// What the error of a failing column says: the column's name, the first
/// failing row, and the kind the failure calls for.
pub open spec fn col_error_matches(
    physical: PhysicalKind,
    required: bool,
    precision: u32,
    unit: TimeUnitKind,
    name: Seq<char>,
    col: Seq<TaggedValue>,
    e: PqError,
) -> bool {
    match physical {
        PhysicalKind::Int32 => e matches PqError::UnexpectedNull { column, row } && column@
            == name && required && 0 <= row < col.len() && int32f()(col[row as int]) is None
            && forall|j: int| 0 <= j < row ==> int32f()(#[trigger] col[j]) is Some,
        PhysicalKind::Int64 => e matches PqError::UnexpectedNull { column, row } && column@
            == name && required && 0 <= row < col.len() && int64f(unit)(col[row as int]) is None
            && forall|j: int| 0 <= j < row ==> int64f(unit)(#[trigger] col[j]) is Some,
        PhysicalKind::Boolean => e matches PqError::UnexpectedNull { column, row } && column@
            == name && required && 0 <= row < col.len() && boolf()(col[row as int]) is None
            && forall|j: int| 0 <= j < row ==> boolf()(#[trigger] col[j]) is Some,
        PhysicalKind::Float => e matches PqError::UnexpectedNull { column, row } && column@
            == name && required && 0 <= row < col.len() && f32f()(col[row as int]) is None
            && forall|j: int| 0 <= j < row ==> f32f()(#[trigger] col[j]) is Some,
        PhysicalKind::Double => e matches PqError::UnexpectedNull { column, row } && column@
            == name && required && 0 <= row < col.len() && f64f()(col[row as int]) is None
            && forall|j: int| 0 <= j < row ==> f64f()(#[trigger] col[j]) is Some,
        PhysicalKind::ByteArray => e matches PqError::UnexpectedNull { column, row } && column@
            == name && required && 0 <= row < col.len() && bytesf()(col[row as int]) is None
            && forall|j: int| 0 <= j < row ==> bytesf()(#[trigger] col[j]) is Some,
        PhysicalKind::FixedLenByteArray => match e {
            PqError::UnexpectedNull { column, row } => required && column@ == name && 0 <= row
                < col.len() && numeric_of(col[row as int]) is None && forall|j: int|
                0 <= j < row ==> !row_faulty(#[trigger] col[j], required, precision),
            PqError::DecimalOverflow { column, row } => column@ == name && 0 <= row < col.len()
                && (numeric_of(col[row as int]) matches Some(m) && !(-pow(10, precision as nat)
                <= m <= pow(10, precision as nat) - 1)) && forall|j: int|
                0 <= j < row ==> !row_faulty(#[trigger] col[j], required, precision),
            _ => false,
        },
    }
}

/// The chunk a column contributes to the sink, for its physical type,
/// repetition, precision and time unit: the kept values in row order, the
/// definition levels only under OPTIONAL repetition. Floating-point
/// columns never reach the sink — the driver refuses them first — so
/// their arm carries an arbitrary empty chunk.
pub open spec fn spec_chunk(
    physical: PhysicalKind,
    required: bool,
    precision: u32,
    unit: TimeUnitKind,
    col: Seq<TaggedValue>,
) -> crate::model::ChunkModel {
    match physical {
        PhysicalKind::Int32 => crate::model::ChunkModel::I32 {
            values: kept(col, int32f()),
            levels: if required {
                None
            } else {
                Some(levels_of(col, int32f()))
            },
        },
        PhysicalKind::Int64 => crate::model::ChunkModel::I64 {
            values: kept(col, int64f(unit)),
            levels: if required {
                None
            } else {
                Some(levels_of(col, int64f(unit)))
            },
        },
        PhysicalKind::Boolean => crate::model::ChunkModel::Bool {
            values: kept(col, boolf()),
            levels: if required {
                None
            } else {
                Some(levels_of(col, boolf()))
            },
        },
        PhysicalKind::ByteArray => crate::model::ChunkModel::Bytes {
            values: kept(col, bytesf()),
            levels: if required {
                None
            } else {
                Some(levels_of(col, bytesf()))
            },
        },
        PhysicalKind::FixedLenByteArray => crate::model::ChunkModel::Fixed {
            values: kept(col, numericf(spec_decimal_byte_length(precision as int) as nat)),
            levels: if required {
                None
            } else {
                Some(levels_of(col, numericf(spec_decimal_byte_length(precision as int) as nat)))
            },
        },
        PhysicalKind::Float => crate::model::ChunkModel::Bool {
            values: Seq::empty(),
            levels: None,
        },
        PhysicalKind::Double => crate::model::ChunkModel::Bool {
            values: Seq::empty(),
            levels: None,
        },
    }
}

/// Encodes one column by its plan, dispatching to the encoder of the
/// plan's physical type.
pub fn encode_column(plan: &ColumnPlan, col: &Vec<TaggedValue>) -> (r: Result<
    EncodedColumn,
    PqError,
>)
    requires
        plan.physical == PhysicalKind::FixedLenByteArray ==> 1 <= plan.precision <= 38
            && plan.type_length == spec_decimal_byte_length(plan.precision as int),
    ensures
        match r {
            Ok(enc) => col_clean(
                plan.physical,
                plan.required,
                plan.precision,
                crate::plan::spec_plan_unit(plan),
                col@,
            ) && encoded_ok(
                plan.physical,
                plan.required,
                plan.precision,
                plan.type_length as nat,
                crate::plan::spec_plan_unit(plan),
                col@,
                &enc,
            ),
            Err(e) => !col_clean(
                plan.physical,
                plan.required,
                plan.precision,
                crate::plan::spec_plan_unit(plan),
                col@,
            ) && col_error_matches(
                plan.physical,
                plan.required,
                plan.precision,
                crate::plan::spec_plan_unit(plan),
                plan.name@,
                col@,
                e,
            ),
        },
{
    match plan.physical {
        PhysicalKind::Int32 => match encode_int32_column(col, plan.required, plan.name.as_str()) {
            Ok((values, levels)) => Ok(EncodedColumn::I32 { values, levels }),
            Err(e) => Err(e),
        },
        PhysicalKind::Int64 => match encode_int64_column(
            col,
            plan.required,
            plan.name.as_str(),
            crate::plan::plan_unit(plan),
        ) {
            Ok((values, levels)) => Ok(EncodedColumn::I64 { values, levels }),
            Err(e) => Err(e),
        },
        PhysicalKind::Boolean => match encode_bool_column(col, plan.required, plan.name.as_str()) {
            Ok((values, levels)) => Ok(EncodedColumn::Bool { values, levels }),
            Err(e) => Err(e),
        },
        PhysicalKind::Float => match encode_f32_column(col, plan.required, plan.name.as_str()) {
            Ok((values, levels)) => Ok(EncodedColumn::F32 { values, levels }),
            Err(e) => Err(e),
        },
        PhysicalKind::Double => match encode_f64_column(col, plan.required, plan.name.as_str()) {
            Ok((values, levels)) => Ok(EncodedColumn::F64 { values, levels }),
            Err(e) => Err(e),
        },
        PhysicalKind::ByteArray => match encode_bytes_column(col, plan.required, plan.name.as_str()) {
            Ok((values, levels)) => Ok(EncodedColumn::Bytes { values, levels }),
            Err(e) => Err(e),
        },
        PhysicalKind::FixedLenByteArray => match encode_decimal_column(
            col,
            plan.required,
            plan.name.as_str(),
            plan.precision,
            plan.type_length,
        ) {
            Ok((values, levels)) => Ok(EncodedColumn::Fixed { values, levels }),
            Err(e) => Err(e),
        },
    }
}

/// Encodes every column of a pivoted result set, in catalog order,
/// stopping at the first failing column.
pub fn encode_all_columns(plans: &Vec<ColumnPlan>, rows: &crate::value::RowBuffer) -> (r: Result<
    Vec<EncodedColumn>,
    PqError,
>)
    requires
        plans@.len() == rows@.len(),
        forall|k: int|
            0 <= k < plans@.len() ==> ((#[trigger] plans@[k]).physical
                == PhysicalKind::FixedLenByteArray ==> 1 <= plans@[k].precision <= 38
                && plans@[k].type_length == spec_decimal_byte_length(plans@[k].precision as int)),
    ensures
        match r {
            Ok(encs) => {
                &&& encs@.len() == plans@.len()
                &&& forall|k: int|
                    0 <= k < plans@.len() ==> col_clean(
                        (#[trigger] plans@[k]).physical,
                        plans@[k].required,
                        plans@[k].precision,
                        crate::plan::spec_plan_unit(&plans@[k]),
                        rows@[k],
                    )
                &&& forall|k: int|
                    0 <= k < plans@.len() ==> encoded_ok(
                        (#[trigger] plans@[k]).physical,
                        plans@[k].required,
                        plans@[k].precision,
                        plans@[k].type_length as nat,
                        crate::plan::spec_plan_unit(&plans@[k]),
                        rows@[k],
                        &encs@[k],
                    )
            },
            Err(e) => exists|k: int|
                {
                    &&& 0 <= k < plans@.len()
                    &&& !col_clean(
                        (#[trigger] plans@[k]).physical,
                        plans@[k].required,
                        plans@[k].precision,
                        crate::plan::spec_plan_unit(&plans@[k]),
                        rows@[k],
                    )
                    &&& forall|j: int|
                        0 <= j < k ==> col_clean(
                            (#[trigger] plans@[j]).physical,
                            plans@[j].required,
                            plans@[j].precision,
                            crate::plan::spec_plan_unit(&plans@[j]),
                            rows@[j],
                        )
                    &&& col_error_matches(
                        plans@[k].physical,
                        plans@[k].required,
                        plans@[k].precision,
                        crate::plan::spec_plan_unit(&plans@[k]),
                        plans@[k].name@,
                        rows@[k],
                        e,
                    )
                },
        },
{
    let mut encs: Vec<EncodedColumn> = Vec::new();
    let n = plans.len();
    let mut k: usize = 0;
    while k < n
        invariant
            k <= n == plans@.len() == rows@.len(),
            encs@.len() == k,
            forall|j: int|
                0 <= j < n ==> ((#[trigger] plans@[j]).physical
                    == PhysicalKind::FixedLenByteArray ==> 1 <= plans@[j].precision <= 38
                    && plans@[j].type_length == spec_decimal_byte_length(
                    plans@[j].precision as int,
                )),
            forall|j: int|
                0 <= j < k ==> col_clean(
                    (#[trigger] plans@[j]).physical,
                    plans@[j].required,
                    plans@[j].precision,
                    crate::plan::spec_plan_unit(&plans@[j]),
                    rows@[j],
                ),
            forall|j: int|
                0 <= j < k ==> encoded_ok(
                    (#[trigger] plans@[j]).physical,
                    plans@[j].required,
                    plans@[j].precision,
                    plans@[j].type_length as nat,
                    crate::plan::spec_plan_unit(&plans@[j]),
                    rows@[j],
                    &encs@[j],
                ),
        decreases n - k,
    {
        match encode_column(&plans[k], rows.col(k)) {
            Ok(enc) => {
                encs.push(enc);
            },
            Err(e) => {
                return Err(e);
            },
        }
        k = k + 1;
    }
    Ok(encs)
}

} // verus!
