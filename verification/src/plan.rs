//! Translation of a catalog into per-column Parquet layout plans.
//!
//! Each catalog entry maps to one primitive field: a physical type, an
//! optional logical annotation, a repetition, and — for decimals — the
//! fixed byte length derived from the precision. The mapping is the
//! authoritative SQL-to-Parquet lattice of this library.

use vstd::prelude::*;

use crate::catalog::{
    chars_eq_lit, index_digits, normalize_chars, normalize_name, spec_nullable, spec_plan_name,
    type_tag, type_tag_chars, MSchema,
};
use crate::decimal::spec_decimal_byte_length;
use crate::decimal::decimal_byte_length;
use crate::error::PqError;

verus! {

/// A Parquet physical type.
#[derive(Clone, Copy, Debug, PartialEq, Eq, Structural)]
pub enum PhysicalKind {
    Boolean,
    Int32,
    Int64,
    Float,
    Double,
    ByteArray,
    FixedLenByteArray,
}

/// A Parquet time unit.
#[derive(Clone, Copy, Debug, PartialEq, Eq, Structural)]
pub enum TimeUnitKind {
    Millis,
    Micros,
    Nanos,
}

/// A Parquet logical annotation.
#[derive(Clone, Copy, Debug, PartialEq, Eq, Structural)]
pub enum LogicalKind {
    Utf8String,
    Decimal { precision: u32, scale: u32 },
    Date,
    Time { utc_adjusted: bool, unit: TimeUnitKind },
    Timestamp { utc_adjusted: bool, unit: TimeUnitKind },
}

/// The layout of one Parquet column: field name, physical type, logical
/// annotation, repetition, and the decimal parameters where they apply.
#[derive(Debug)]
pub struct ColumnPlan {
    pub name: String,
    pub physical: PhysicalKind,
    pub logical: Option<LogicalKind>,
    pub required: bool,
    pub type_length: usize,
    pub precision: u32,
    pub scale: u32,
}

/// The canonical type tag of an entry; an absent declared type gives the
/// empty tag, which falls to the safe fallback mapping.
pub open spec fn spec_entry_tag(e: &MSchema) -> Seq<char> {
    match e.data_type {
        Some(s) => type_tag(s@),
        None => Seq::empty(),
    }
}

/// The declared numeric precision, absent meaning 0.
pub open spec fn spec_precision(e: &MSchema) -> int {
    match e.numeric_precision {
        Some(p) => p as int,
        None => 0,
    }
}

/// The declared numeric scale, absent meaning 0.
pub open spec fn spec_scale(e: &MSchema) -> int {
    match e.numeric_scale {
        Some(v) => v as int,
        None => 0,
    }
}

/// The declared temporal precision, absent meaning 0.
pub open spec fn spec_datetime_precision(e: &MSchema) -> int {
    match e.datetime_precision {
        Some(v) => v as int,
        None => 0,
    }
}

/// The timestamp unit a temporal precision selects: up to 3 fractional
/// digits milliseconds, up to 6 microseconds, beyond that nanoseconds.
pub open spec fn spec_unit_of_precision(p: int) -> TimeUnitKind {
    if p <= 3 {
        TimeUnitKind::Millis
    } else if p <= 6 {
        TimeUnitKind::Micros
    } else {
        TimeUnitKind::Nanos
    }
}

pub open spec fn is_int32_tag(t: Seq<char>) -> bool {
    t == "int"@ || t == "smallint"@ || t == "tinyint"@
}

pub open spec fn is_decimal_tag(t: Seq<char>) -> bool {
    t == "decimal"@ || t == "numeric"@
}

pub open spec fn is_string_tag(t: Seq<char>) -> bool {
    t == "char"@ || t == "varchar"@ || t == "text"@ || t == "nchar"@ || t == "nvarchar"@ || t
        == "ntext"@
}

pub open spec fn is_timestamp_tag(t: Seq<char>) -> bool {
    t == "datetime"@ || t == "datetime2"@ || t == "smalldatetime"@
}

pub open spec fn is_binary_tag(t: Seq<char>) -> bool {
    t == "binary"@ || t == "varbinary"@ || t == "image"@
}

/// Whether a decimal entry's parameters are usable: a precision between 1
/// and 38 and a scale between 0 and the precision.
pub open spec fn decimal_params_ok(e: &MSchema) -> bool {
    1 <= spec_precision(e) <= 38 && 0 <= spec_scale(e) <= spec_precision(e)
}

/// Whether translation rejects the entry: a present column name that
/// normalizes to nothing, or a decimal whose parameters are out of range.
pub open spec fn spec_entry_rejects(e: &MSchema) -> bool {
    ||| (e.column_name matches Some(s) && normalize_name(s@).len() == 0)
    ||| (is_decimal_tag(spec_entry_tag(e)) && !decimal_params_ok(e))
}

/// The SQL-to-Parquet type lattice: what the plan of an accepted entry
/// holds, arm by arm of the authoritative mapping table.
pub open spec fn plan_matches(e: &MSchema, plan: ColumnPlan) -> bool {
    let t = spec_entry_tag(e);
    let unit = spec_unit_of_precision(spec_datetime_precision(e));
    &&& plan.required == !spec_nullable(e)
    &&& if is_int32_tag(t) {
        plan.physical == PhysicalKind::Int32 && plan.logical is None
    } else if t == "bigint"@ {
        plan.physical == PhysicalKind::Int64 && plan.logical is None
    } else if t == "real"@ {
        plan.physical == PhysicalKind::Float && plan.logical is None
    } else if t == "float"@ {
        plan.physical == PhysicalKind::Double && plan.logical is None
    } else if t == "bit"@ {
        plan.physical == PhysicalKind::Boolean && plan.logical is None
    } else if is_decimal_tag(t) {
        &&& plan.physical == PhysicalKind::FixedLenByteArray
        &&& plan.precision == spec_precision(e)
        &&& plan.scale == spec_scale(e)
        &&& plan.type_length == spec_decimal_byte_length(spec_precision(e))
        &&& plan.logical == Some(
            LogicalKind::Decimal {
                precision: plan.precision,
                scale: plan.scale,
            },
        )
    } else if is_string_tag(t) {
        plan.physical == PhysicalKind::ByteArray && plan.logical == Some(LogicalKind::Utf8String)
    } else if is_timestamp_tag(t) {
        plan.physical == PhysicalKind::Int64 && plan.logical == Some(
            LogicalKind::Timestamp { utc_adjusted: false, unit },
        )
    } else if t == "date"@ {
        plan.physical == PhysicalKind::Int32 && plan.logical == Some(LogicalKind::Date)
    } else if t == "time"@ {
        plan.physical == PhysicalKind::Int64 && plan.logical == Some(
            LogicalKind::Time { utc_adjusted: false, unit: TimeUnitKind::Micros },
        )
    } else if is_binary_tag(t) {
        plan.physical == PhysicalKind::ByteArray && plan.logical is None
    } else {
        plan.physical == PhysicalKind::ByteArray && plan.logical == Some(LogicalKind::Utf8String)
    }
    &&& (plan.physical != PhysicalKind::FixedLenByteArray ==> plan.type_length == 0
        && plan.precision == 0 && plan.scale == 0)
}

/// What the translator promises of an accepted entry at `index`: the
/// mapped layout under the entry's normalized (or synthesized) name.
pub open spec fn plan_ok(e: &MSchema, index: int, plan: ColumnPlan) -> bool {
    &&& plan.name@ == spec_plan_name(e, index)
    &&& plan_matches(e, plan)
}

/// Translates one catalog entry into its column plan.
///
/// An entry whose present name normalizes to nothing is rejected with
/// `InvalidColumnName`; a decimal with parameters outside 1..=38 /
/// 0..=precision is rejected with `UnsupportedType`. Everything else maps
/// by the table, unknown tags falling back to UTF-8 byte arrays.
pub fn to_type_column(e: &MSchema, index: usize) -> (r: Result<ColumnPlan, PqError>)
    ensures
        match r {
            Ok(plan) => !spec_entry_rejects(e) && plan_ok(e, index as int, plan),
            Err(err) => spec_entry_rejects(e) && match err {
                PqError::InvalidColumnName { column } => e.column_name matches Some(s)
                    && column@ == s@ && normalize_name(s@).len() == 0,
                PqError::UnsupportedType { column } => column@ == spec_plan_name(
                    e,
                    index as int,
                ) && is_decimal_tag(spec_entry_tag(e)) && !decimal_params_ok(e) && (
                e.column_name matches Some(s) ==> normalize_name(s@).len() > 0),
                _ => false,
            },
        },
{
    proof {
        // string literals are opaque until revealed; the branches below
        // must know that no other tag of the table is `decimal` or
        // `numeric`, else the rejection clause could not be discharged
        reveal_strlit("int");
        reveal_strlit("smallint");
        reveal_strlit("tinyint");
        reveal_strlit("bigint");
        reveal_strlit("real");
        reveal_strlit("float");
        reveal_strlit("bit");
        reveal_strlit("char");
        reveal_strlit("varchar");
        reveal_strlit("text");
        reveal_strlit("nchar");
        reveal_strlit("nvarchar");
        reveal_strlit("ntext");
        reveal_strlit("datetime");
        reveal_strlit("datetime2");
        reveal_strlit("smalldatetime");
        reveal_strlit("date");
        reveal_strlit("time");
        reveal_strlit("binary");
        reveal_strlit("varbinary");
        reveal_strlit("image");
        reveal_strlit("decimal");
        reveal_strlit("numeric");
        assert("decimal"@.len() == 7);
        assert("numeric"@.len() == 7);
        assert("int"@ != "decimal"@);
        assert("int"@ != "numeric"@);
        assert("smallint"@ != "decimal"@);
        assert("smallint"@ != "numeric"@);
        assert("tinyint"@[0] == 't' && "decimal"@[0] == 'd' && "numeric"@[0] == 'n');
        assert("tinyint"@ != "decimal"@);
        assert("tinyint"@ != "numeric"@);
        assert("bigint"@ != "decimal"@);
        assert("bigint"@ != "numeric"@);
        assert("real"@ != "decimal"@);
        assert("real"@ != "numeric"@);
        assert("float"@ != "decimal"@);
        assert("float"@ != "numeric"@);
        assert("bit"@ != "decimal"@);
        assert("bit"@ != "numeric"@);
        assert("char"@ != "decimal"@);
        assert("char"@ != "numeric"@);
        assert("varchar"@[0] == 'v');
        assert("varchar"@ != "decimal"@);
        assert("varchar"@ != "numeric"@);
        assert("text"@ != "decimal"@);
        assert("text"@ != "numeric"@);
        assert("nchar"@ != "decimal"@);
        assert("nchar"@ != "numeric"@);
        assert("nvarchar"@ != "decimal"@);
        assert("nvarchar"@ != "numeric"@);
        assert("ntext"@ != "decimal"@);
        assert("ntext"@ != "numeric"@);
        assert("datetime"@ != "decimal"@);
        assert("datetime"@ != "numeric"@);
        assert("datetime2"@ != "decimal"@);
        assert("datetime2"@ != "numeric"@);
        assert("smalldatetime"@ != "decimal"@);
        assert("smalldatetime"@ != "numeric"@);
        assert("date"@ != "decimal"@);
        assert("date"@ != "numeric"@);
        assert("time"@ != "decimal"@);
        assert("time"@ != "numeric"@);
        assert("binary"@ != "decimal"@);
        assert("binary"@ != "numeric"@);
        assert("varbinary"@ != "decimal"@);
        assert("varbinary"@ != "numeric"@);
        assert("image"@ != "decimal"@);
        assert("image"@ != "numeric"@);
    }
    let name_chars: Vec<char> = match &e.column_name {
        Some(s) => {
            let v = normalize_chars(s.as_str());
            if v.len() == 0 {
                return Err(PqError::InvalidColumnName { column: String::from_str(s.as_str()) });
            }
            v
        },
        None => {
            let mut v: Vec<char> = Vec::new();
            v.push('c');
            v.push('o');
            v.push('l');
            v.push('_');
            let mut d = index_digits(index);
            v.append(&mut d);
            proof {
                assert(v@ =~= seq!['c', 'o', 'l', '_'] + crate::catalog::dec_digits(
                    index as nat,
                ));
            }
            v
        },
    };
    let name = crate::catalog::chars_to_string(name_chars);
    let tag: Vec<char> = match &e.data_type {
        Some(s) => type_tag_chars(s.as_str()),
        None => Vec::new(),
    };
    let required = !nullable_exec(e);
    let dtp: i16 = match e.datetime_precision {
        Some(v) => v,
        None => 0,
    };
    let unit = if dtp <= 3 {
        TimeUnitKind::Millis
    } else if dtp <= 6 {
        TimeUnitKind::Micros
    } else {
        TimeUnitKind::Nanos
    };
    if chars_eq_lit(&tag, "int") || chars_eq_lit(&tag, "smallint") || chars_eq_lit(
        &tag,
        "tinyint",
    ) {
        Ok(plain(name, PhysicalKind::Int32, None, required))
    } else if chars_eq_lit(&tag, "bigint") {
        Ok(plain(name, PhysicalKind::Int64, None, required))
    } else if chars_eq_lit(&tag, "real") {
        Ok(plain(name, PhysicalKind::Float, None, required))
    } else if chars_eq_lit(&tag, "float") {
        Ok(plain(name, PhysicalKind::Double, None, required))
    } else if chars_eq_lit(&tag, "bit") {
        Ok(plain(name, PhysicalKind::Boolean, None, required))
    } else if chars_eq_lit(&tag, "decimal") || chars_eq_lit(&tag, "numeric") {
        let prec: u32 = match e.numeric_precision {
            Some(p) => p as u32,
            None => 0,
        };
        let scal: i32 = match e.numeric_scale {
            Some(v) => v,
            None => 0,
        };
        if !(1 <= prec && prec <= 38 && 0 <= scal && scal <= prec as i32) {
            return Err(PqError::UnsupportedType { column: name });
        }
        let length = decimal_byte_length(prec);
        Ok(
            ColumnPlan {
                name,
                physical: PhysicalKind::FixedLenByteArray,
                logical: Some(LogicalKind::Decimal { precision: prec, scale: scal as u32 }),
                required,
                type_length: length,
                precision: prec,
                scale: scal as u32,
            },
        )
    } else if chars_eq_lit(&tag, "char") || chars_eq_lit(&tag, "varchar") || chars_eq_lit(
        &tag,
        "text",
    ) || chars_eq_lit(&tag, "nchar") || chars_eq_lit(&tag, "nvarchar") || chars_eq_lit(
        &tag,
        "ntext",
    ) {
        Ok(plain(name, PhysicalKind::ByteArray, Some(LogicalKind::Utf8String), required))
    } else if chars_eq_lit(&tag, "datetime") || chars_eq_lit(&tag, "datetime2") || chars_eq_lit(
        &tag,
        "smalldatetime",
    ) {
        Ok(
            plain(
                name,
                PhysicalKind::Int64,
                Some(LogicalKind::Timestamp { utc_adjusted: false, unit }),
                required,
            ),
        )
    } else if chars_eq_lit(&tag, "date") {
        Ok(plain(name, PhysicalKind::Int32, Some(LogicalKind::Date), required))
    } else if chars_eq_lit(&tag, "time") {
        Ok(
            plain(
                name,
                PhysicalKind::Int64,
                Some(
                    LogicalKind::Time { utc_adjusted: false, unit: TimeUnitKind::Micros },
                ),
                required,
            ),
        )
    } else if chars_eq_lit(&tag, "binary") || chars_eq_lit(&tag, "varbinary") || chars_eq_lit(
        &tag,
        "image",
    ) {
        Ok(plain(name, PhysicalKind::ByteArray, None, required))
    } else {
        Ok(plain(name, PhysicalKind::ByteArray, Some(LogicalKind::Utf8String), required))
    }
}

/// A plan with no decimal parameters.
fn plain(name: String, physical: PhysicalKind, logical: Option<LogicalKind>, required: bool) -> (r:
    ColumnPlan)
    ensures
        r.name == name,
        r.physical == physical,
        r.logical == logical,
        r.required == required,
        r.type_length == 0,
        r.precision == 0,
        r.scale == 0,
{
    ColumnPlan { name, physical, logical, required, type_length: 0, precision: 0, scale: 0 }
}

/// Decides [`spec_nullable`].
fn nullable_exec(e: &MSchema) -> (r: bool)
    ensures
        r == spec_nullable(e),
{
    match &e.is_nullable {
        Some(s) => {
            let t = type_tag_chars(s.as_str());
            !chars_eq_lit(&t, "no")
        },
        None => true,
    }
}

/// Translates the whole catalog, in order, stopping at the first rejected
/// entry.
pub fn translate_catalog(schema_sql: &Vec<MSchema>) -> (r: Result<Vec<ColumnPlan>, PqError>)
    ensures
        match r {
            Ok(plans) => {
                &&& plans@.len() == schema_sql@.len()
                &&& forall|k: int|
                    0 <= k < plans@.len() ==> plan_ok(&schema_sql@[k], k, #[trigger] plans@[k])
                &&& forall|k: int|
                    0 <= k < schema_sql@.len() ==> !spec_entry_rejects(&#[trigger] schema_sql@[k])
            },
            Err(err) => exists|k: int|
                {
                    &&& 0 <= k < schema_sql@.len()
                    &&& #[trigger] spec_entry_rejects(&schema_sql@[k])
                    &&& forall|j: int| 0 <= j < k ==> !spec_entry_rejects(&schema_sql@[j])
                    &&& match err {
                        PqError::InvalidColumnName { column } => schema_sql@[k].column_name
                            matches Some(s) && column@ == s@ && normalize_name(s@).len() == 0,
                        PqError::UnsupportedType { column } => column@ == spec_plan_name(
                            &schema_sql@[k],
                            k,
                        ) && is_decimal_tag(spec_entry_tag(&schema_sql@[k])) && !decimal_params_ok(
                            &schema_sql@[k],
                        ) && (schema_sql@[k].column_name matches Some(s) ==> normalize_name(
                            s@,
                        ).len() > 0),
                        _ => false,
                    }
                },
        },
{
    let mut plans: Vec<ColumnPlan> = Vec::new();
    let mut k: usize = 0;
    let n = schema_sql.len();
    while k < n
        invariant
            k <= n == schema_sql@.len(),
            plans@.len() == k,
            forall|j: int|
                0 <= j < k ==> plan_ok(&schema_sql@[j], j, #[trigger] plans@[j]),
            forall|j: int| 0 <= j < k ==> !spec_entry_rejects(&schema_sql@[j]),
        decreases n - k,
    {
        match to_type_column(&schema_sql[k], k) {
            Ok(plan) => {
                plans.push(plan);
            },
            Err(e) => {
                return Err(e);
            },
        }
        k = k + 1;
    }
    Ok(plans)
}

/// The unit an encoder uses for a plan: the Timestamp or Time annotation's
/// unit, milliseconds otherwise (plain 64-bit integers carry no unit).
pub open spec fn spec_plan_unit(plan: &ColumnPlan) -> TimeUnitKind {
    match plan.logical {
        Some(LogicalKind::Timestamp { unit, .. }) => unit,
        Some(LogicalKind::Time { unit, .. }) => unit,
        _ => TimeUnitKind::Millis,
    }
}

/// Computes [`spec_plan_unit`].
pub fn plan_unit(plan: &ColumnPlan) -> (r: TimeUnitKind)
    ensures
        r == spec_plan_unit(plan),
{
    match &plan.logical {
        Some(LogicalKind::Timestamp { unit, .. }) => *unit,
        Some(LogicalKind::Time { unit, .. }) => *unit,
        _ => TimeUnitKind::Millis,
    }
}

/// The physical type the mapping table assigns to an entry.
pub open spec fn entry_physical(e: &MSchema) -> PhysicalKind {
    let t = spec_entry_tag(e);
    if is_int32_tag(t) {
        PhysicalKind::Int32
    } else if t == "bigint"@ {
        PhysicalKind::Int64
    } else if t == "real"@ {
        PhysicalKind::Float
    } else if t == "float"@ {
        PhysicalKind::Double
    } else if t == "bit"@ {
        PhysicalKind::Boolean
    } else if is_decimal_tag(t) {
        PhysicalKind::FixedLenByteArray
    } else if is_string_tag(t) {
        PhysicalKind::ByteArray
    } else if is_timestamp_tag(t) {
        PhysicalKind::Int64
    } else if t == "date"@ {
        PhysicalKind::Int32
    } else if t == "time"@ {
        PhysicalKind::Int64
    } else {
        PhysicalKind::ByteArray
    }
}

/// The time unit the mapping table assigns to an entry, arm for arm of
/// the same chain as the physical mapping.
pub open spec fn entry_unit(e: &MSchema) -> TimeUnitKind {
    let t = spec_entry_tag(e);
    if is_int32_tag(t) || t == "bigint"@ || t == "real"@ || t == "float"@ || t == "bit"@
        || is_decimal_tag(t) || is_string_tag(t) {
        TimeUnitKind::Millis
    } else if is_timestamp_tag(t) {
        spec_unit_of_precision(spec_datetime_precision(e))
    } else if t == "date"@ {
        TimeUnitKind::Millis
    } else if t == "time"@ {
        TimeUnitKind::Micros
    } else {
        TimeUnitKind::Millis
    }
}

/// The logical annotation the mapping table assigns to an entry, arm for
/// arm of the same chain as the physical mapping.
pub open spec fn entry_logical(e: &MSchema) -> Option<LogicalKind> {
    let t = spec_entry_tag(e);
    if is_int32_tag(t) || t == "bigint"@ || t == "real"@ || t == "float"@ || t == "bit"@ {
        None
    } else if is_decimal_tag(t) {
        Some(
            LogicalKind::Decimal {
                precision: spec_precision(e) as u32,
                scale: spec_scale(e) as u32,
            },
        )
    } else if is_string_tag(t) {
        Some(LogicalKind::Utf8String)
    } else if is_timestamp_tag(t) {
        Some(
            LogicalKind::Timestamp {
                utc_adjusted: false,
                unit: spec_unit_of_precision(spec_datetime_precision(e)),
            },
        )
    } else if t == "date"@ {
        Some(LogicalKind::Date)
    } else if t == "time"@ {
        Some(LogicalKind::Time { utc_adjusted: false, unit: TimeUnitKind::Micros })
    } else if is_binary_tag(t) {
        None
    } else {
        Some(LogicalKind::Utf8String)
    }
}

/// The schema field a plan builds; the builder is handed `-1` for the
/// decimal parameters of a non-decimal column.
pub open spec fn spec_plan_field(plan: &ColumnPlan) -> crate::model::FieldModel {
    crate::model::FieldModel {
        name: plan.name@,
        physical: plan.physical,
        logical: plan.logical,
        required: plan.required,
        length: if plan.physical == PhysicalKind::FixedLenByteArray {
            plan.type_length as int
        } else {
            -1
        },
        precision: if plan.physical == PhysicalKind::FixedLenByteArray {
            plan.precision as int
        } else {
            -1
        },
        scale: if plan.physical == PhysicalKind::FixedLenByteArray {
            plan.scale as int
        } else {
            -1
        },
    }
}

/// The schema field the mapping table assigns to an entry at `index`.
pub open spec fn spec_entry_field(e: &MSchema, index: int) -> crate::model::FieldModel {
    crate::model::FieldModel {
        name: spec_plan_name(e, index),
        physical: entry_physical(e),
        logical: entry_logical(e),
        required: !spec_nullable(e),
        length: if entry_physical(e) == PhysicalKind::FixedLenByteArray {
            spec_decimal_byte_length(spec_precision(e))
        } else {
            -1
        },
        precision: if entry_physical(e) == PhysicalKind::FixedLenByteArray {
            spec_precision(e)
        } else {
            -1
        },
        scale: if entry_physical(e) == PhysicalKind::FixedLenByteArray {
            spec_scale(e)
        } else {
            -1
        },
    }
}

/// A plan's layout for an accepted entry agrees with the entry-level
/// readings the driver's contract speaks of.
pub proof fn lemma_plan_entry_agree(e: &MSchema, index: int, plan: &ColumnPlan)
    requires
        plan_ok(e, index, *plan),
        !spec_entry_rejects(e),
    ensures
        plan.physical == entry_physical(e),
        plan.required == !spec_nullable(e),
        spec_plan_unit(plan) == entry_unit(e),
        plan.logical == entry_logical(e),
        plan.physical == PhysicalKind::FixedLenByteArray ==> 1 <= plan.precision <= 38
            && plan.scale <= plan.precision && plan.precision == spec_precision(e)
            && plan.scale == spec_scale(e) && plan.type_length == spec_decimal_byte_length(
            plan.precision as int,
        ),
        plan.logical matches Some(LogicalKind::Decimal { precision, scale }) ==> precision
            == plan.precision && scale == plan.scale && precision <= 38 && scale <= 38,
        spec_plan_field(plan) == spec_entry_field(e, index),
{
}

} // verus!
