//! The writer driver: catalog to schema to encoded columns to file bytes.
//!
//! The driver translates the catalog, refuses result sets it cannot
//! serialize, encodes every column, and only then touches the Parquet
//! serializer: one file, one row group, SNAPPY compression, the root group
//! named `schema_mvsh`, written into an in-memory byte sink that the
//! caller persists. On success the returned bytes are pinned, through the
//! sink model, as the Parquet file of exactly the translated schema and
//! one sealed row group holding the encoded chunks, in catalog order.

use vstd::prelude::*;

use parquet::schema::types::Type;

use crate::catalog::{normalize_name, spec_nullable, spec_plan_name, MSchema};
use crate::decimal::lemma_byte_length_fits;
use crate::encode::{
    col_clean, col_error_matches, encode_all_columns, spec_chunk, EncodedColumn,
};
use crate::error::PqError;
use crate::model::{ChunkModel, SchemaModel};
use crate::plan::{
    decimal_params_ok, entry_physical, entry_unit, is_decimal_tag, lemma_plan_entry_agree,
    plan_ok, spec_entry_field, spec_entry_rejects, spec_entry_tag, spec_plan_field,
    spec_plan_unit, spec_precision, translate_catalog, ColumnPlan, LogicalKind, PhysicalKind,
    TimeUnitKind,
};
use crate::pqsink::{
    begin_row_group, build_group_schema, build_primitive_field, close_row_group, field_model,
    file_chunks, file_schema, finish_file, group_model, logical_date, logical_decimal,
    logical_string, logical_time, logical_timestamp, new_memory_file_writer,
    parquet_file_bytes, physical_boolean, physical_byte_array, physical_double,
    physical_fixed_len_byte_array, physical_float, physical_int32, physical_int64, rg_outcome,
    rg_written, write_bool_column, write_byte_array_column, write_fixed_len_column,
    write_i32_column, write_i64_column,
};
use crate::value::RowBuffer;

verus! {

/// Whether a column of this entry is free of failing rows.
pub open spec fn entry_col_clean(e: &MSchema, col: Seq<crate::value::TaggedValue>) -> bool {
    col_clean(
        entry_physical(e),
        !spec_nullable(e),
        spec_precision(e) as u32,
        entry_unit(e),
        col,
    )
}

/// What an encoding error says of this entry's column.
pub open spec fn entry_col_error(
    e: &MSchema,
    index: int,
    col: Seq<crate::value::TaggedValue>,
    err: PqError,
) -> bool {
    col_error_matches(
        entry_physical(e),
        !spec_nullable(e),
        spec_precision(e) as u32,
        entry_unit(e),
        spec_plan_name(e, index),
        col,
        err,
    )
}

/// The chunk this entry's column hands to the sink.
pub open spec fn spec_entry_chunk(e: &MSchema, col: Seq<crate::value::TaggedValue>) -> ChunkModel {
    spec_chunk(
        entry_physical(e),
        !spec_nullable(e),
        spec_precision(e) as u32,
        entry_unit(e),
        col,
    )
}

/// The schema this catalog translates to, as the sink model reads it.
pub open spec fn spec_catalog_schema(schema_sql: Seq<MSchema>) -> SchemaModel {
    SchemaModel {
        name: "schema_mvsh"@,
        fields: Seq::new(schema_sql.len(), |k: int| spec_entry_field(&schema_sql[k], k)),
    }
}

/// Whether the entry maps to a floating-point physical type, which the
/// in-memory serializer of this library does not write.
pub open spec fn entry_is_float(e: &MSchema) -> bool {
    entry_physical(e) == PhysicalKind::Float || entry_physical(e) == PhysicalKind::Double
}

/// Builds one Parquet primitive field from a plan: the built field's
/// model is exactly the plan's.
fn build_field(plan: &ColumnPlan) -> (r: Result<Type, PqError>)
    requires
        plan.precision <= 38,
        plan.scale <= 38,
        plan.type_length <= 16,
        plan.logical matches Some(LogicalKind::Decimal { precision, scale }) ==> precision <= 38
            && scale <= 38,
    ensures
        r matches Ok(t) ==> field_model(t) == spec_plan_field(plan),
        r is Err ==> r->Err_0 matches PqError::IOFailure { .. },
{
    let physical = match plan.physical {
        PhysicalKind::Boolean => physical_boolean(),
        PhysicalKind::Int32 => physical_int32(),
        PhysicalKind::Int64 => physical_int64(),
        PhysicalKind::Float => physical_float(),
        PhysicalKind::Double => physical_double(),
        PhysicalKind::ByteArray => physical_byte_array(),
        PhysicalKind::FixedLenByteArray => physical_fixed_len_byte_array(),
    };
    let logical = match &plan.logical {
        None => None,
        Some(LogicalKind::Utf8String) => Some(logical_string()),
        Some(LogicalKind::Date) => Some(logical_date()),
        Some(LogicalKind::Decimal { precision, scale }) => Some(
            logical_decimal(*scale as i32, *precision as i32),
        ),
        Some(LogicalKind::Time { utc_adjusted, unit }) => {
            let micros = match unit {
                TimeUnitKind::Micros => true,
                _ => false,
            };
            let nanos = match unit {
                TimeUnitKind::Nanos => true,
                _ => false,
            };
            Some(logical_time(*utc_adjusted, micros, nanos))
        },
        Some(LogicalKind::Timestamp { utc_adjusted, unit }) => {
            let micros = match unit {
                TimeUnitKind::Micros => true,
                _ => false,
            };
            let nanos = match unit {
                TimeUnitKind::Nanos => true,
                _ => false,
            };
            Some(logical_timestamp(*utc_adjusted, micros, nanos))
        },
    };
    let is_fixed = match plan.physical {
        PhysicalKind::FixedLenByteArray => true,
        _ => false,
    };
    let length: i32 = if is_fixed {
        plan.type_length as i32
    } else {
        -1
    };
    let precision: i32 = if is_fixed {
        plan.precision as i32
    } else {
        -1
    };
    let scale: i32 = if is_fixed {
        plan.scale as i32
    } else {
        -1
    };
    match build_primitive_field(
        plan.name.as_str(),
        physical,
        logical,
        plan.required,
        length,
        precision,
        scale,
    ) {
        Ok(t) => Ok(t),
        Err(message) => Err(PqError::IOFailure { message }),
    }
}

/// Builds all fields of a plan set, in order, each field's model the
/// plan's.
fn build_fields(plans: &Vec<ColumnPlan>) -> (r: Result<Vec<Type>, PqError>)
    requires
        forall|k: int|
            0 <= k < plans@.len() ==> {
                &&& (#[trigger] plans@[k]).precision <= 38
                &&& plans@[k].scale <= 38
                &&& plans@[k].type_length <= 16
                &&& (plans@[k].logical matches Some(LogicalKind::Decimal { precision, scale })
                    ==> precision <= 38 && scale <= 38)
            },
    ensures
        r matches Ok(fields) ==> fields@.len() == plans@.len() && forall|k: int|
            0 <= k < plans@.len() ==> field_model(#[trigger] fields@[k]) == spec_plan_field(
                &plans@[k],
            ),
        r is Err ==> r->Err_0 matches PqError::IOFailure { .. },
{
    let mut fields: Vec<Type> = Vec::new();
    let n = plans.len();
    let mut k: usize = 0;
    while k < n
        invariant
            k <= n == plans@.len(),
            fields@.len() == k,
            forall|j: int|
                0 <= j < n ==> {
                    &&& (#[trigger] plans@[j]).precision <= 38
                    &&& plans@[j].scale <= 38
                    &&& plans@[j].type_length <= 16
                    &&& (plans@[j].logical matches Some(
                        LogicalKind::Decimal { precision, scale },
                    ) ==> precision <= 38 && scale <= 38)
                },
            forall|j: int|
                0 <= j < k ==> field_model(#[trigger] fields@[j]) == spec_plan_field(&plans@[j]),
        decreases n - k,
    {
        match build_field(&plans[k]) {
            Ok(t) => {
                fields.push(t);
            },
            Err(e) => {
                return Err(e);
            },
        }
        k = k + 1;
    }
    Ok(fields)
}

/// The bounds on a plan's parameters that an accepted catalog guarantees.
proof fn lemma_plan_bounds(e: &MSchema, index: int, plan: &ColumnPlan)
    requires
        plan_ok(e, index, *plan),
        !spec_entry_rejects(e),
    ensures
        plan.precision <= 38,
        plan.scale <= 38,
        plan.type_length <= 16,
        plan.logical matches Some(LogicalKind::Decimal { precision, scale }) ==> precision <= 38
            && scale <= 38,
        plan.physical == PhysicalKind::FixedLenByteArray ==> 1 <= plan.precision <= 38
            && plan.type_length == crate::decimal::spec_decimal_byte_length(
            plan.precision as int,
        ),
{
    lemma_plan_entry_agree(e, index, plan);
    if plan.physical == PhysicalKind::FixedLenByteArray {
        lemma_byte_length_fits(plan.precision as int);
    }
}

/// Translates a catalog into the Parquet group schema `schema_mvsh`, one
/// primitive field per entry, in order: the built schema's model is
/// exactly [`spec_catalog_schema`].
///
/// A failure of the Parquet type builder itself surfaces as `IOFailure`.
pub fn create_schema_parquet(schema_sql: &Vec<MSchema>) -> (r: Result<Type, PqError>)
    ensures
        match r {
            Ok(t) => {
                &&& forall|k: int|
                    0 <= k < schema_sql@.len() ==> !spec_entry_rejects(&schema_sql@[k])
                &&& group_model(t) == spec_catalog_schema(schema_sql@)
            },
            Err(e) => match e {
                PqError::InvalidColumnName { column } => exists|k: int|
                    {
                        &&& 0 <= k < schema_sql@.len()
                        &&& #[trigger] spec_entry_rejects(&schema_sql@[k])
                        &&& forall|j: int| 0 <= j < k ==> !spec_entry_rejects(&schema_sql@[j])
                        &&& schema_sql@[k].column_name matches Some(s) && column@ == s@
                            && normalize_name(s@).len() == 0
                    },
                PqError::UnsupportedType { column } => exists|k: int|
                    {
                        &&& 0 <= k < schema_sql@.len()
                        &&& #[trigger] spec_entry_rejects(&schema_sql@[k])
                        &&& forall|j: int| 0 <= j < k ==> !spec_entry_rejects(&schema_sql@[j])
                        &&& column@ == spec_plan_name(&schema_sql@[k], k)
                        &&& is_decimal_tag(spec_entry_tag(&schema_sql@[k]))
                        &&& !decimal_params_ok(&schema_sql@[k])
                        &&& (schema_sql@[k].column_name matches Some(s) ==> normalize_name(
                            s@,
                        ).len() > 0)
                    },
                PqError::IOFailure { .. } => forall|k: int|
                    0 <= k < schema_sql@.len() ==> !spec_entry_rejects(&schema_sql@[k]),
                _ => false,
            },
        },
{
    let plans = match translate_catalog(schema_sql) {
        Ok(p) => p,
        Err(e) => {
            return Err(e);
        },
    };
    proof {
        assert forall|k: int| 0 <= k < plans@.len() implies {
            &&& (#[trigger] plans@[k]).precision <= 38
            &&& plans@[k].scale <= 38
            &&& plans@[k].type_length <= 16
            &&& (plans@[k].logical matches Some(LogicalKind::Decimal { precision, scale })
                ==> precision <= 38 && scale <= 38)
        } by {
            lemma_plan_bounds(&schema_sql@[k], k, &plans@[k]);
        }
    }
    let fields = match build_fields(&plans) {
        Ok(f) => f,
        Err(e) => {
            return Err(e);
        },
    };
    match build_group_schema("schema_mvsh", fields) {
        Ok(t) => {
            proof {
                lemma_group_is_catalog_schema(t, schema_sql@, plans@, fields@);
            }
            Ok(t)
        },
        Err(message) => Err(PqError::IOFailure { message }),
    }
}

/// A group built as `schema_mvsh` from the fields of an accepted
/// catalog's plans models [`spec_catalog_schema`].
proof fn lemma_group_is_catalog_schema(
    t: Type,
    schema_sql: Seq<MSchema>,
    plans: Seq<ColumnPlan>,
    fields: Seq<Type>,
)
    requires
        group_model(t) == (SchemaModel {
            name: "schema_mvsh"@,
            fields: fields.map_values(|f: Type| field_model(f)),
        }),
        fields.len() == plans.len() == schema_sql.len(),
        forall|k: int|
            0 <= k < plans.len() ==> field_model(#[trigger] fields[k]) == spec_plan_field(
                &plans[k],
            ),
        forall|k: int| 0 <= k < plans.len() ==> plan_ok(&schema_sql[k], k, #[trigger] plans[k]),
        forall|k: int| 0 <= k < schema_sql.len() ==> !spec_entry_rejects(&#[trigger] schema_sql[k]),
    ensures
        group_model(t) == spec_catalog_schema(schema_sql),
{
    assert forall|k: int| 0 <= k < schema_sql.len() implies group_model(t).fields[k]
        == spec_entry_field(&schema_sql[k], k) by {
        lemma_plan_entry_agree(&schema_sql[k], k, &plans[k]);
        assert(group_model(t).fields[k] == field_model(fields[k]));
    }
    assert(group_model(t).fields =~= spec_catalog_schema(schema_sql).fields);
}

/// Serializes a pivoted result set into the bytes of a complete Parquet
/// file: the translated schema, one row group, each column's chunk
/// appended in catalog order, definition levels only for OPTIONAL
/// columns, the footer written last. On success the bytes are exactly the
/// sink's file for that schema and its one sealed row group of those
/// chunks.
///
/// The result set is rejected whole when its width disagrees with the
/// catalog (checked first), when the catalog rejects an entry, when an
/// entry maps to a floating-point physical type (this library's
/// serializer writes none), or when a column fails to encode. On a
/// serializable input the result is the file's bytes, or `IOFailure`
/// where the Parquet layer refused.
pub fn write_parquet_from_stream(schema_sql: &Vec<MSchema>, rows: &RowBuffer) -> (r: Result<
    Vec<u8>,
    PqError,
>)
    requires
        rows.wf(),
    ensures
        match r {
            Ok(bytes) => {
                &&& rows@.len() == schema_sql@.len()
                &&& forall|k: int|
                    0 <= k < schema_sql@.len() ==> !spec_entry_rejects(&schema_sql@[k])
                &&& forall|k: int| 0 <= k < schema_sql@.len() ==> !entry_is_float(&schema_sql@[k])
                &&& forall|k: int|
                    0 <= k < schema_sql@.len() ==> entry_col_clean(&schema_sql@[k], rows@[k])
                &&& bytes@ == parquet_file_bytes(
                    spec_catalog_schema(schema_sql@),
                    seq![
                        Seq::new(
                            schema_sql@.len(),
                            |k: int| spec_entry_chunk(&schema_sql@[k], rows@[k]),
                        ),
                    ],
                )
            },
            Err(e) => match e {
                PqError::SchemaMismatch { expected, actual } => expected == schema_sql@.len()
                    && actual == rows@.len() && expected != actual,
                PqError::InvalidColumnName { column } => rows@.len() == schema_sql@.len()
                    && exists|k: int|
                    {
                        &&& 0 <= k < schema_sql@.len()
                        &&& #[trigger] spec_entry_rejects(&schema_sql@[k])
                        &&& forall|j: int| 0 <= j < k ==> !spec_entry_rejects(&schema_sql@[j])
                        &&& schema_sql@[k].column_name matches Some(s) && column@ == s@
                            && normalize_name(s@).len() == 0
                    },
                PqError::UnsupportedType { column } => rows@.len() == schema_sql@.len() && (
                (exists|k: int|
                    {
                        &&& 0 <= k < schema_sql@.len()
                        &&& #[trigger] spec_entry_rejects(&schema_sql@[k])
                        &&& forall|j: int| 0 <= j < k ==> !spec_entry_rejects(&schema_sql@[j])
                        &&& column@ == spec_plan_name(&schema_sql@[k], k)
                        &&& is_decimal_tag(spec_entry_tag(&schema_sql@[k]))
                        &&& !decimal_params_ok(&schema_sql@[k])
                        &&& (schema_sql@[k].column_name matches Some(s) ==> normalize_name(
                            s@,
                        ).len() > 0)
                    }) || (exists|k: int|
                    {
                        &&& 0 <= k < schema_sql@.len()
                        &&& #[trigger] entry_is_float(&schema_sql@[k])
                        &&& forall|j: int| 0 <= j < k ==> !entry_is_float(&schema_sql@[j])
                        &&& forall|j: int|
                            0 <= j < schema_sql@.len() ==> !spec_entry_rejects(&schema_sql@[j])
                        &&& column@ == spec_plan_name(&schema_sql@[k], k)
                    })),
                PqError::UnexpectedNull { .. } | PqError::DecimalOverflow { .. } => {
                    &&& rows@.len() == schema_sql@.len()
                    &&& forall|k: int|
                        0 <= k < schema_sql@.len() ==> !spec_entry_rejects(&schema_sql@[k])
                    &&& forall|k: int|
                        0 <= k < schema_sql@.len() ==> !entry_is_float(&schema_sql@[k])
                    &&& exists|k: int|
                        {
                            &&& 0 <= k < schema_sql@.len()
                            &&& !entry_col_clean(&schema_sql@[k], rows@[k])
                            &&& forall|j: int|
                                0 <= j < k ==> entry_col_clean(
                                    &#[trigger] schema_sql@[j],
                                    rows@[j],
                                )
                            &&& #[trigger] entry_col_error(&schema_sql@[k], k, rows@[k], e)
                        }
                },
                PqError::IOFailure { .. } => {
                    &&& rows@.len() == schema_sql@.len()
                    &&& forall|k: int|
                        0 <= k < schema_sql@.len() ==> !spec_entry_rejects(&schema_sql@[k])
                    &&& forall|k: int|
                        0 <= k < schema_sql@.len() ==> !entry_is_float(&schema_sql@[k])
                    &&& forall|k: int|
                        0 <= k < schema_sql@.len() ==> entry_col_clean(&schema_sql@[k], rows@[k])
                },
                _ => false,
            },
        },
{
    let ncols = rows.num_cols();
    if ncols != schema_sql.len() {
        return Err(PqError::SchemaMismatch { expected: schema_sql.len(), actual: ncols });
    }
    let plans = match translate_catalog(schema_sql) {
        Ok(p) => p,
        Err(e) => {
            return Err(e);
        },
    };
    proof {
        assert forall|k: int| 0 <= k < plans@.len() implies {
            &&& (#[trigger] plans@[k]).precision <= 38
            &&& plans@[k].scale <= 38
            &&& plans@[k].type_length <= 16
            &&& (plans@[k].logical matches Some(LogicalKind::Decimal { precision, scale })
                ==> precision <= 38 && scale <= 38)
            &&& (plans@[k].physical == PhysicalKind::FixedLenByteArray ==> 1 <= plans@[k].precision
                <= 38 && plans@[k].type_length == crate::decimal::spec_decimal_byte_length(
                plans@[k].precision as int,
            ))
            &&& plans@[k].physical == entry_physical(&schema_sql@[k])
            &&& plans@[k].required == !spec_nullable(&schema_sql@[k])
            &&& spec_plan_unit(&plans@[k]) == entry_unit(&schema_sql@[k])
        } by {
            lemma_plan_bounds(&schema_sql@[k], k, &plans@[k]);
            lemma_plan_entry_agree(&schema_sql@[k], k, &plans@[k]);
        }
    }
    // this serializer writes no floating-point column
    let mut k: usize = 0;
    while k < plans.len()
        invariant
            k <= plans@.len() == schema_sql@.len(),
            rows@.len() == schema_sql@.len(),
            forall|j: int|
                0 <= j < plans@.len() ==> (#[trigger] plans@[j]).physical == entry_physical(
                    &schema_sql@[j],
                ),
            forall|j: int| 0 <= j < plans@.len() ==> plan_ok(&schema_sql@[j], j, plans@[j]),
            forall|j: int|
                0 <= j < schema_sql@.len() ==> !spec_entry_rejects(&#[trigger] schema_sql@[j]),
            forall|j: int| 0 <= j < k ==> !entry_is_float(&#[trigger] schema_sql@[j]),
        decreases plans@.len() - k,
    {
        let is_float = match plans[k].physical {
            PhysicalKind::Float | PhysicalKind::Double => true,
            _ => false,
        };
        if is_float {
            proof {
                let ki = k as int;
                assert(plan_ok(&schema_sql@[ki], ki, plans@[ki]));
                assert(plans@[ki].physical == entry_physical(&schema_sql@[ki]));
                assert(entry_is_float(&schema_sql@[ki]));
            }
            return Err(
                PqError::UnsupportedType { column: String::from_str(plans[k].name.as_str()) },
            );
        }
        k = k + 1;
    }
    let encs = match encode_all_columns(&plans, rows) {
        Ok(v) => v,
        Err(e) => {
            proof {
                let kk = choose|kk: int|
                    {
                        &&& 0 <= kk < plans@.len()
                        &&& !col_clean(
                            (#[trigger] plans@[kk]).physical,
                            plans@[kk].required,
                            plans@[kk].precision,
                            spec_plan_unit(&plans@[kk]),
                            rows@[kk],
                        )
                        &&& forall|j: int|
                            0 <= j < kk ==> col_clean(
                                (#[trigger] plans@[j]).physical,
                                plans@[j].required,
                                plans@[j].precision,
                                spec_plan_unit(&plans@[j]),
                                rows@[j],
                            )
                        &&& col_error_matches(
                            plans@[kk].physical,
                            plans@[kk].required,
                            plans@[kk].precision,
                            spec_plan_unit(&plans@[kk]),
                            plans@[kk].name@,
                            rows@[kk],
                            e,
                        )
                    };
                lemma_plan_entry_agree(&schema_sql@[kk], kk, &plans@[kk]);
                assert(entry_col_error(&schema_sql@[kk], kk, rows@[kk], e));
                assert(!entry_col_clean(&schema_sql@[kk], rows@[kk]));
                assert forall|j: int| 0 <= j < kk implies entry_col_clean(
                    &#[trigger] schema_sql@[j],
                    rows@[j],
                ) by {
                    lemma_plan_entry_agree(&schema_sql@[j], j, &plans@[j]);
                }
            }
            return Err(e);
        },
    };
    proof {
        assert forall|j: int| 0 <= j < schema_sql@.len() implies entry_col_clean(
            &#[trigger] schema_sql@[j],
            rows@[j],
        ) by {
            lemma_plan_entry_agree(&schema_sql@[j], j, &plans@[j]);
        }
    }
    let fields = match build_fields(&plans) {
        Ok(f) => f,
        Err(e) => {
            return Err(e);
        },
    };
    let schema = match build_group_schema("schema_mvsh", fields) {
        Ok(t) => t,
        Err(message) => {
            return Err(PqError::IOFailure { message });
        },
    };
    proof {
        lemma_group_is_catalog_schema(schema, schema_sql@, plans@, fields@);
    }
    let ghost target_schema = spec_catalog_schema(schema_sql@);
    let ghost target_chunks = Seq::new(
        schema_sql@.len(),
        |k: int|
            spec_chunk(
                plans@[k].physical,
                plans@[k].required,
                plans@[k].precision,
                spec_plan_unit(&plans@[k]),
                rows@[k],
            ),
    );
    let mut w = match new_memory_file_writer(schema) {
        Ok(w) => w,
        Err(message) => {
            return Err(PqError::IOFailure { message });
        },
    };
    let mut rg = match begin_row_group(&mut w) {
        Ok(rg) => rg,
        Err(message) => {
            return Err(PqError::IOFailure { message });
        },
    };
    let ghost outcome0 = rg_outcome(rg);
    let n = encs.len();
    let mut i: usize = 0;
    while i < n
        invariant
            i <= n == encs@.len() == plans@.len(),
            rows@.len() == schema_sql@.len() == plans@.len(),
            forall|j: int|
                0 <= j < schema_sql@.len() ==> !spec_entry_rejects(&#[trigger] schema_sql@[j]),
            forall|j: int|
                0 <= j < schema_sql@.len() ==> entry_col_clean(
                    &#[trigger] schema_sql@[j],
                    rows@[j],
                ),
            forall|j: int| 0 <= j < schema_sql@.len() ==> !entry_is_float(&#[trigger] schema_sql@[j]),
            forall|j: int|
                0 <= j < plans@.len() ==> !((#[trigger] plans@[j]).physical == PhysicalKind::Float
                    || plans@[j].physical == PhysicalKind::Double),
            forall|j: int|
                0 <= j < plans@.len() ==> ((#[trigger] plans@[j]).physical
                    == PhysicalKind::FixedLenByteArray ==> plans@[j].type_length
                    == crate::decimal::spec_decimal_byte_length(plans@[j].precision as int)),
            forall|j: int|
                0 <= j < plans@.len() ==> crate::encode::encoded_ok(
                    (#[trigger] plans@[j]).physical,
                    plans@[j].required,
                    plans@[j].precision,
                    plans@[j].type_length as nat,
                    spec_plan_unit(&plans@[j]),
                    rows@[j],
                    &encs@[j],
                ),
            target_chunks == Seq::new(
                schema_sql@.len(),
                |k: int|
                    spec_chunk(
                        plans@[k].physical,
                        plans@[k].required,
                        plans@[k].precision,
                        spec_plan_unit(&plans@[k]),
                        rows@[k],
                    ),
            ),
            rg_outcome(rg) == outcome0,
            rg_written(rg) == target_chunks.take(i as int),
        decreases n - i,
    {
        let required = plans[i].required;
        let ghost prev_written = rg_written(rg);
        let outcome: Result<(), String> = match &encs[i] {
            EncodedColumn::I32 { values, levels } => write_i32_column(
                &mut rg,
                values,
                if required {
                    None
                } else {
                    Some(levels)
                },
            ),
            EncodedColumn::I64 { values, levels } => write_i64_column(
                &mut rg,
                values,
                if required {
                    None
                } else {
                    Some(levels)
                },
            ),
            EncodedColumn::Bool { values, levels } => write_bool_column(
                &mut rg,
                values,
                if required {
                    None
                } else {
                    Some(levels)
                },
            ),
            EncodedColumn::Bytes { values, levels } => write_byte_array_column(
                &mut rg,
                values,
                if required {
                    None
                } else {
                    Some(levels)
                },
            ),
            EncodedColumn::Fixed { values, levels } => write_fixed_len_column(
                &mut rg,
                values,
                if required {
                    None
                } else {
                    Some(levels)
                },
            ),
            // no plan maps to FLOAT or DOUBLE past the check above, and
            // each encoded chunk carries its plan's physical type
            EncodedColumn::F32 { .. } => {
                proof {
                    assert(false);
                }
                Ok(())
            },
            EncodedColumn::F64 { .. } => {
                proof {
                    assert(false);
                }
                Ok(())
            },
        };
        match outcome {
            Ok(()) => {},
            Err(message) => {
                return Err(PqError::IOFailure { message });
            },
        }
        proof {
            let ii = i as int;
            assert(target_chunks[ii] == spec_chunk(
                plans@[ii].physical,
                plans@[ii].required,
                plans@[ii].precision,
                spec_plan_unit(&plans@[ii]),
                rows@[ii],
            ));
            assert(rg_written(rg) == prev_written.push(target_chunks[ii]));
            assert(target_chunks.take(ii + 1) =~= target_chunks.take(ii).push(target_chunks[ii]));
        }
        i = i + 1;
    }
    proof {
        assert(target_chunks.take(n as int) =~= target_chunks);
    }
    let ghost sealed = rg_written(rg);
    let ghost oc = rg_outcome(rg);
    match close_row_group(rg) {
        Ok(()) => {},
        Err(message) => {
            return Err(PqError::IOFailure { message });
        },
    }
    proof {
        assert(oc == Some(sealed));
        assert(sealed == target_chunks);
        assert(file_chunks(w) =~= seq![target_chunks]);
    }
    match finish_file(w) {
        Ok(bytes) => {
            proof {
                assert forall|k: int| 0 <= k < schema_sql@.len() implies target_chunks[k]
                    == spec_entry_chunk(&schema_sql@[k], rows@[k]) by {
                    lemma_plan_entry_agree(&schema_sql@[k], k, &plans@[k]);
                }
                assert(target_chunks =~= Seq::new(
                    schema_sql@.len(),
                    |k: int| spec_entry_chunk(&schema_sql@[k], rows@[k]),
                ));
            }
            Ok(bytes)
        },
        Err(message) => Err(PqError::IOFailure { message }),
    }
}

} // verus!
