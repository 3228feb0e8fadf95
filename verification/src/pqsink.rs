//! Trusted boundary to the `parquet` crate.
//!
//! Everything here is a declaration or a thin wrapper around calls into
//! `parquet`; Verus believes the stated contracts without reading the
//! bodies. The contracts speak through names for the serializer's state
//! ([`field_model`], [`group_model`], [`file_schema`], [`file_chunks`],
//! [`rg_written`], [`rg_outcome`], [`parquet_file_bytes`]): nothing here
//! restates Parquet's encoding, but the names pin the output bytes as a
//! function of the schema and the sealed row groups' chunks, in order —
//! also for writers that open more than one row group, or abandon one.

use vstd::prelude::*;

use crate::encode::{byte_seqs, i32_ints, i64_ints};
use crate::model::{ChunkModel, FieldModel, SchemaModel};
use crate::plan::{LogicalKind, PhysicalKind, TimeUnitKind};
use parquet::column::writer::ColumnWriter;
use parquet::data_type::{ByteArray, FixedLenByteArray};
use parquet::file::writer::{SerializedFileWriter, SerializedRowGroupWriter};
use parquet::schema::types::Type;

verus! {

#[verifier::external_type_specification]
#[verifier::external_body]
pub struct ExType(Type);

#[verifier::external_type_specification]
#[verifier::external_body]
pub struct ExPhysicalType(parquet::basic::Type);

#[verifier::external_type_specification]
#[verifier::external_body]
pub struct ExLogicalType(parquet::basic::LogicalType);

/// A Parquet file writer over an owned in-memory byte sink.
///
/// `SerializedFileWriter` is generic over a `std::io::Write` sink, a trait
/// Verus does not accept in a type declaration, so the writer is held opaque
/// in this struct instead.
#[verifier::external_body]
pub struct ByteFileWriter {
    inner: SerializedFileWriter<Vec<u8>>,
}

/// An open row group of a [`ByteFileWriter`], opaque for the same reason.
#[verifier::external_body]
pub struct RowGroupHandle<'a> {
    inner: SerializedRowGroupWriter<'a, Vec<u8>>,
}

/// Names the [`PhysicalKind`] a `parquet::basic::Type` value denotes.
pub uninterp spec fn phys_model(t: parquet::basic::Type) -> PhysicalKind;

/// Names the [`LogicalKind`] a `parquet::basic::LogicalType` value denotes.
pub uninterp spec fn logical_model(l: parquet::basic::LogicalType) -> LogicalKind;

/// Names the layout of a built primitive field.
pub uninterp spec fn field_model(t: Type) -> FieldModel;

/// Names the root group and field layouts of a built group schema.
pub uninterp spec fn group_model(t: Type) -> SchemaModel;

/// Names the schema a file writer was opened with.
pub uninterp spec fn file_schema(w: ByteFileWriter) -> SchemaModel;

/// Names the chunk sequences of the row groups sealed in this writer, in
/// the order the groups were opened; a group that is never sealed
/// contributes nothing.
pub uninterp spec fn file_chunks(w: ByteFileWriter) -> Seq<Seq<ChunkModel>>;

/// Names the chunks appended to an open row group so far.
pub uninterp spec fn rg_written(rg: RowGroupHandle) -> Seq<ChunkModel>;

/// Names the chunk sequence an open row group seals when it is closed,
/// `None` for a handle that is never closed. Each successful append
/// preserves it; after a failed append it is unspecified, and so is
/// everything downstream of it.
pub uninterp spec fn rg_outcome(rg: RowGroupHandle) -> Option<Seq<ChunkModel>>;

/// Names the bytes of the finished Parquet file — SNAPPY-compressed pages
/// and footer included — for a schema and the chunk sequences of its
/// sealed row groups, group by group and column by column in order.
pub uninterp spec fn parquet_file_bytes(schema: SchemaModel, groups: Seq<Seq<ChunkModel>>) -> Seq<
    u8,
>;

/// The time unit the flag pair selects: `nanos` wins, then `micros`, else
/// milliseconds.
pub open spec fn spec_unit_of_flags(micros: bool, nanos: bool) -> TimeUnitKind {
    if nanos {
        TimeUnitKind::Nanos
    } else if micros {
        TimeUnitKind::Micros
    } else {
        TimeUnitKind::Millis
    }
}

/// The definition levels as the sink records them: absent for REQUIRED
/// columns.
pub open spec fn spec_levels(levels: Option<&Vec<i16>>) -> Option<Seq<i16>> {
    match levels {
        Some(l) => Some(l@),
        None => None,
    }
}

/// Relies on `parquet::basic::Type::BOOLEAN`.
#[verifier::external_body]
pub(crate) fn physical_boolean() -> (r: parquet::basic::Type)
    ensures
        phys_model(r) == PhysicalKind::Boolean,
{
    parquet::basic::Type::BOOLEAN
}

/// Relies on `parquet::basic::Type::INT32`.
#[verifier::external_body]
pub(crate) fn physical_int32() -> (r: parquet::basic::Type)
    ensures
        phys_model(r) == PhysicalKind::Int32,
{
    parquet::basic::Type::INT32
}

/// Relies on `parquet::basic::Type::INT64`.
#[verifier::external_body]
pub(crate) fn physical_int64() -> (r: parquet::basic::Type)
    ensures
        phys_model(r) == PhysicalKind::Int64,
{
    parquet::basic::Type::INT64
}

/// Relies on `parquet::basic::Type::FLOAT`.
#[verifier::external_body]
pub(crate) fn physical_float() -> (r: parquet::basic::Type)
    ensures
        phys_model(r) == PhysicalKind::Float,
{
    parquet::basic::Type::FLOAT
}

/// Relies on `parquet::basic::Type::DOUBLE`.
#[verifier::external_body]
pub(crate) fn physical_double() -> (r: parquet::basic::Type)
    ensures
        phys_model(r) == PhysicalKind::Double,
{
    parquet::basic::Type::DOUBLE
}

/// Relies on `parquet::basic::Type::BYTE_ARRAY`.
#[verifier::external_body]
pub(crate) fn physical_byte_array() -> (r: parquet::basic::Type)
    ensures
        phys_model(r) == PhysicalKind::ByteArray,
{
    parquet::basic::Type::BYTE_ARRAY
}

/// Relies on `parquet::basic::Type::FIXED_LEN_BYTE_ARRAY`.
#[verifier::external_body]
pub(crate) fn physical_fixed_len_byte_array() -> (r: parquet::basic::Type)
    ensures
        phys_model(r) == PhysicalKind::FixedLenByteArray,
{
    parquet::basic::Type::FIXED_LEN_BYTE_ARRAY
}

/// Relies on `parquet::basic::LogicalType::String`.
#[verifier::external_body]
pub(crate) fn logical_string() -> (r: parquet::basic::LogicalType)
    ensures
        logical_model(r) == LogicalKind::Utf8String,
{
    parquet::basic::LogicalType::String
}

/// Relies on `parquet::basic::LogicalType::Date`.
#[verifier::external_body]
pub(crate) fn logical_date() -> (r: parquet::basic::LogicalType)
    ensures
        logical_model(r) == LogicalKind::Date,
{
    parquet::basic::LogicalType::Date
}

/// Relies on `parquet::basic::LogicalType::decimal`: builds the Decimal
/// annotation with the given scale and precision.
#[verifier::external_body]
pub(crate) fn logical_decimal(scale: i32, precision: i32) -> (r: parquet::basic::LogicalType)
    ensures
        logical_model(r) == (LogicalKind::Decimal {
            precision: precision as u32,
            scale: scale as u32,
        }),
{
    parquet::basic::LogicalType::decimal(scale, precision)
}

/// Relies on `parquet::basic::LogicalType::time`: builds the Time
/// annotation, the unit flags converting one for one as
/// [`spec_unit_of_flags`] says.
#[verifier::external_body]
pub(crate) fn logical_time(utc_adjusted: bool, micros: bool, nanos: bool) -> (r:
    parquet::basic::LogicalType)
    ensures
        logical_model(r) == (LogicalKind::Time {
            utc_adjusted,
            unit: spec_unit_of_flags(micros, nanos),
        }),
{
    let unit = if nanos {
        parquet::basic::TimeUnit::NANOS
    } else if micros {
        parquet::basic::TimeUnit::MICROS
    } else {
        parquet::basic::TimeUnit::MILLIS
    };
    parquet::basic::LogicalType::time(utc_adjusted, unit)
}

/// Relies on `parquet::basic::LogicalType::timestamp`: builds the
/// Timestamp annotation, with the unit flags converted as in
/// [`logical_time`].
#[verifier::external_body]
pub(crate) fn logical_timestamp(utc_adjusted: bool, micros: bool, nanos: bool) -> (r:
    parquet::basic::LogicalType)
    ensures
        logical_model(r) == (LogicalKind::Timestamp {
            utc_adjusted,
            unit: spec_unit_of_flags(micros, nanos),
        }),
{
    let unit = if nanos {
        parquet::basic::TimeUnit::NANOS
    } else if micros {
        parquet::basic::TimeUnit::MICROS
    } else {
        parquet::basic::TimeUnit::MILLIS
    };
    parquet::basic::LogicalType::timestamp(utc_adjusted, unit)
}

/// Relies on `parquet::schema::types::Type::primitive_type_builder` and
/// its builder methods: builds one primitive field carrying exactly the
/// given name, physical type, annotation, repetition and decimal
/// parameters. Passing `-1` for `length`, `precision` or `scale` leaves
/// the builder's default in place (the defaults are `-1`); `build`
/// returns its validation failures as `Err` and never panics.
#[verifier::external_body]
pub(crate) fn build_primitive_field(
    name: &str,
    physical: parquet::basic::Type,
    logical: Option<parquet::basic::LogicalType>,
    required: bool,
    length: i32,
    precision: i32,
    scale: i32,
) -> (r: Result<Type, String>)
    ensures
        r matches Ok(t) ==> field_model(t) == (FieldModel {
            name: name@,
            physical: phys_model(physical),
            logical: match logical {
                Some(l) => Some(logical_model(l)),
                None => None,
            },
            required,
            length: length as int,
            precision: precision as int,
            scale: scale as int,
        }),
{
    Type::primitive_type_builder(name, physical)
        .with_logical_type(logical)
        .with_repetition(if required {
            parquet::basic::Repetition::REQUIRED
        } else {
            parquet::basic::Repetition::OPTIONAL
        })
        .with_length(length)
        .with_precision(precision)
        .with_scale(scale)
        .build()
        .map_err(|e| format!("{}", e))
}

/// Relies on `parquet::schema::types::Type::group_type_builder`: builds
/// the root group with the given name and fields, in order.
#[verifier::external_body]
pub(crate) fn build_group_schema(name: &str, fields: Vec<Type>) -> (r: Result<Type, String>)
    ensures
        r matches Ok(t) ==> group_model(t) == (SchemaModel {
            name: name@,
            fields: fields@.map_values(|f: Type| field_model(f)),
        }),
{
    Type::group_type_builder(name)
        .with_fields(fields.into_iter().map(std::sync::Arc::new).collect())
        .build()
        .map_err(|e| format!("{}", e))
}

/// Relies on `parquet::file::writer::SerializedFileWriter::new`: opens a
/// writer over a fresh in-memory byte sink with SNAPPY compression, for
/// the given schema, with no row group sealed yet.
#[verifier::external_body]
pub(crate) fn new_memory_file_writer(schema: Type) -> (r: Result<ByteFileWriter, String>)
    ensures
        r matches Ok(w) ==> file_schema(w) == group_model(schema) && file_chunks(w).len() == 0,
{
    let props = parquet::file::properties::WriterProperties::builder().set_compression(
        parquet::basic::Compression::SNAPPY,
    ).build();
    match SerializedFileWriter::new(
        Vec::new(),
        std::sync::Arc::new(schema),
        std::sync::Arc::new(props),
    ) {
        Ok(inner) => Ok(ByteFileWriter { inner }),
        Err(e) => Err(format!("{}", e)),
    }
}

/// Relies on `SerializedFileWriter::next_row_group`: opens the next row
/// group, with nothing appended yet. The writer's sealed groups grow by
/// whatever this handle seals — by nothing if it is never closed — and
/// its schema is unchanged.
#[verifier::external_body]
pub(crate) fn begin_row_group<'a>(w: &'a mut ByteFileWriter) -> (r: Result<
    RowGroupHandle<'a>,
    String,
>)
    ensures
        r matches Ok(rg) ==> {
            &&& rg_written(rg) == Seq::<ChunkModel>::empty()
            &&& file_schema(*final(w)) == file_schema(*old(w))
            &&& file_chunks(*final(w)) == match rg_outcome(rg) {
                Some(sealed) => file_chunks(*old(w)).push(sealed),
                None => file_chunks(*old(w)),
            }
        },
{
    match w.inner.next_row_group() {
        Ok(inner) => Ok(RowGroupHandle { inner }),
        Err(e) => Err(format!("{}", e)),
    }
}

/// Relies on `SerializedRowGroupWriter::next_column`,
/// `ColumnWriterImpl::<Int32Type>::write_batch` and
/// `SerializedColumnWriter::close`: appends one complete INT32 column
/// chunk — these values with these definition levels — to the open row
/// group. A schema column of any other physical type is refused with an
/// error.
#[verifier::external_body]
pub(crate) fn write_i32_column(
    rg: &mut RowGroupHandle<'_>,
    values: &Vec<i32>,
    levels: Option<&Vec<i16>>,
) -> (r: Result<(), String>)
    ensures
        r is Ok ==> {
            &&& rg_outcome(*final(rg)) == rg_outcome(*old(rg))
            &&& rg_written(*final(rg)) == rg_written(*old(rg)).push(
                ChunkModel::I32 { values: i32_ints(values@), levels: spec_levels(levels) },
            )
        },
{
    let mut cw = match rg.inner.next_column() {
        Ok(Some(cw)) => cw,
        Ok(None) => return Err(String::from("row group ended before the last column")),
        Err(e) => return Err(format!("{}", e)),
    };
    match cw.untyped() {
        ColumnWriter::Int32ColumnWriter(w) => {
            w.write_batch(values.as_slice(), levels.map(|l| l.as_slice()), None)
                .map_err(|e| format!("{}", e))?;
        },
        _ => return Err(String::from("the column writer is not an INT32 writer")),
    }
    cw.close().map_err(|e| format!("{}", e))
}

/// Relies on the same three entry points as [`write_i32_column`], for
/// INT64 columns.
#[verifier::external_body]
pub(crate) fn write_i64_column(
    rg: &mut RowGroupHandle<'_>,
    values: &Vec<i64>,
    levels: Option<&Vec<i16>>,
) -> (r: Result<(), String>)
    ensures
        r is Ok ==> {
            &&& rg_outcome(*final(rg)) == rg_outcome(*old(rg))
            &&& rg_written(*final(rg)) == rg_written(*old(rg)).push(
                ChunkModel::I64 { values: i64_ints(values@), levels: spec_levels(levels) },
            )
        },
{
    let mut cw = match rg.inner.next_column() {
        Ok(Some(cw)) => cw,
        Ok(None) => return Err(String::from("row group ended before the last column")),
        Err(e) => return Err(format!("{}", e)),
    };
    match cw.untyped() {
        ColumnWriter::Int64ColumnWriter(w) => {
            w.write_batch(values.as_slice(), levels.map(|l| l.as_slice()), None)
                .map_err(|e| format!("{}", e))?;
        },
        _ => return Err(String::from("the column writer is not an INT64 writer")),
    }
    cw.close().map_err(|e| format!("{}", e))
}

/// Relies on the same three entry points as [`write_i32_column`], for
/// BOOLEAN columns.
#[verifier::external_body]
pub(crate) fn write_bool_column(
    rg: &mut RowGroupHandle<'_>,
    values: &Vec<bool>,
    levels: Option<&Vec<i16>>,
) -> (r: Result<(), String>)
    ensures
        r is Ok ==> {
            &&& rg_outcome(*final(rg)) == rg_outcome(*old(rg))
            &&& rg_written(*final(rg)) == rg_written(*old(rg)).push(
                ChunkModel::Bool { values: values@, levels: spec_levels(levels) },
            )
        },
{
    let mut cw = match rg.inner.next_column() {
        Ok(Some(cw)) => cw,
        Ok(None) => return Err(String::from("row group ended before the last column")),
        Err(e) => return Err(format!("{}", e)),
    };
    match cw.untyped() {
        ColumnWriter::BoolColumnWriter(w) => {
            w.write_batch(values.as_slice(), levels.map(|l| l.as_slice()), None)
                .map_err(|e| format!("{}", e))?;
        },
        _ => return Err(String::from("the column writer is not a BOOLEAN writer")),
    }
    cw.close().map_err(|e| format!("{}", e))
}

/// Relies on the same three entry points as [`write_i32_column`], for
/// BYTE_ARRAY columns; each byte vector converts one for one into a
/// `ByteArray`.
#[verifier::external_body]
pub(crate) fn write_byte_array_column(
    rg: &mut RowGroupHandle<'_>,
    values: &Vec<Vec<u8>>,
    levels: Option<&Vec<i16>>,
) -> (r: Result<(), String>)
    ensures
        r is Ok ==> {
            &&& rg_outcome(*final(rg)) == rg_outcome(*old(rg))
            &&& rg_written(*final(rg)) == rg_written(*old(rg)).push(
                ChunkModel::Bytes { values: byte_seqs(values@), levels: spec_levels(levels) },
            )
        },
{
    let vals: Vec<ByteArray> = values.iter().map(|v| ByteArray::from(v.clone())).collect();
    let mut cw = match rg.inner.next_column() {
        Ok(Some(cw)) => cw,
        Ok(None) => return Err(String::from("row group ended before the last column")),
        Err(e) => return Err(format!("{}", e)),
    };
    match cw.untyped() {
        ColumnWriter::ByteArrayColumnWriter(w) => {
            w.write_batch(vals.as_slice(), levels.map(|l| l.as_slice()), None)
                .map_err(|e| format!("{}", e))?;
        },
        _ => return Err(String::from("the column writer is not a BYTE_ARRAY writer")),
    }
    cw.close().map_err(|e| format!("{}", e))
}

/// Relies on the same three entry points as [`write_i32_column`], for
/// FIXED_LEN_BYTE_ARRAY columns; each byte vector converts one for one
/// into a `FixedLenByteArray`.
#[verifier::external_body]
pub(crate) fn write_fixed_len_column(
    rg: &mut RowGroupHandle<'_>,
    values: &Vec<Vec<u8>>,
    levels: Option<&Vec<i16>>,
) -> (r: Result<(), String>)
    ensures
        r is Ok ==> {
            &&& rg_outcome(*final(rg)) == rg_outcome(*old(rg))
            &&& rg_written(*final(rg)) == rg_written(*old(rg)).push(
                ChunkModel::Fixed { values: byte_seqs(values@), levels: spec_levels(levels) },
            )
        },
{
    let vals: Vec<FixedLenByteArray> =
        values.iter().map(|v| FixedLenByteArray::from(ByteArray::from(v.clone()))).collect();
    let mut cw = match rg.inner.next_column() {
        Ok(Some(cw)) => cw,
        Ok(None) => return Err(String::from("row group ended before the last column")),
        Err(e) => return Err(format!("{}", e)),
    };
    match cw.untyped() {
        ColumnWriter::FixedLenByteArrayColumnWriter(w) => {
            w.write_batch(vals.as_slice(), levels.map(|l| l.as_slice()), None)
                .map_err(|e| format!("{}", e))?;
        },
        _ => return Err(String::from("the column writer is not a FIXED_LEN_BYTE_ARRAY writer")),
    }
    cw.close().map_err(|e| format!("{}", e))
}

/// Relies on `SerializedRowGroupWriter::close`: seals the row group, its
/// chunk sequence being exactly what was appended.
#[verifier::external_body]
pub(crate) fn close_row_group(rg: RowGroupHandle<'_>) -> (r: Result<(), String>)
    ensures
        r is Ok ==> rg_outcome(rg) == Some(rg_written(rg)),
{
    rg.inner.close().map(|_| ()).map_err(|e| format!("{}", e))
}

/// Relies on `SerializedFileWriter::into_inner`: writes the file footer
/// and hands back the accumulated bytes of the finished Parquet file.
#[verifier::external_body]
pub(crate) fn finish_file(w: ByteFileWriter) -> (r: Result<Vec<u8>, String>)
    ensures
        r matches Ok(bytes) ==> bytes@ == parquet_file_bytes(file_schema(w), file_chunks(w)),
{
    w.inner.into_inner().map_err(|e| format!("{}", e))
}

} // verus!
