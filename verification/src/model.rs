//! The specification model of the built schema and the Parquet sink.
//!
//! The serializer itself is outside code; these datatypes say, at the
//! specification level, what was handed to it: the fields of the root
//! group, and one chunk of typed values and definition levels per column.
//! The trusted boundary names the serializer's state in terms of them.

use vstd::prelude::*;

use crate::plan::{LogicalKind, PhysicalKind};

verus! {

/// One column chunk as handed to the sink: the typed values of the
/// present entries in row order, and the definition levels — present for
/// OPTIONAL columns, omitted for REQUIRED ones.
pub enum ChunkModel {
    I32 { values: Seq<int>, levels: Option<Seq<i16>> },
    I64 { values: Seq<int>, levels: Option<Seq<i16>> },
    Bool { values: Seq<bool>, levels: Option<Seq<i16>> },
    Bytes { values: Seq<Seq<u8>>, levels: Option<Seq<i16>> },
    Fixed { values: Seq<Seq<u8>>, levels: Option<Seq<i16>> },
}

/// One primitive field of the built schema. `length`, `precision` and
/// `scale` are -1 where the builder's default was left in place.
pub struct FieldModel {
    pub name: Seq<char>,
    pub physical: PhysicalKind,
    pub logical: Option<LogicalKind>,
    pub required: bool,
    pub length: int,
    pub precision: int,
    pub scale: int,
}

/// The built schema: the root group's name and its fields in order.
pub struct SchemaModel {
    pub name: Seq<char>,
    pub fields: Seq<FieldModel>,
}

} // verus!
