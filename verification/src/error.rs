//! The error taxonomy of the bridge.
//!
//! Every failure of the core is one of these kinds; errors carry the column
//! name and row index where one applies.

use vstd::prelude::*;

verus! {

/// A fatal error of the bridge. No retry is performed: each error ends the
/// current invocation.
#[derive(Debug)]
pub enum PqError {
    /// The result-set schema could not be determined.
    CatalogUnavailable,
    /// The runtime column count disagrees with the catalog.
    SchemaMismatch { expected: usize, actual: usize },
    /// A transport or database error during streaming, carried verbatim.
    Upstream { message: String },
    /// A column name is empty after normalization.
    InvalidColumnName { column: String },
    /// A column's declared type cannot be translated.
    UnsupportedType { column: String },
    /// A decimal mantissa exceeds the column's declared precision.
    DecimalOverflow { column: String, row: usize },
    /// A null was observed in a column declared REQUIRED.
    UnexpectedNull { column: String, row: usize },
    /// File creation, write, or close failed.
    IOFailure { message: String },
}

impl PqError {
    /// A short stable tag for the error kind, for reporting.
    pub fn kind(&self) -> (r: &'static str)
        ensures
            r@ == self.spec_kind(),
    {
        match self {
            PqError::CatalogUnavailable => "catalog_unavailable",
            PqError::SchemaMismatch { .. } => "schema_mismatch",
            PqError::Upstream { .. } => "upstream",
            PqError::InvalidColumnName { .. } => "invalid_column_name",
            PqError::UnsupportedType { .. } => "unsupported_type",
            PqError::DecimalOverflow { .. } => "decimal_overflow",
            PqError::UnexpectedNull { .. } => "unexpected_null",
            PqError::IOFailure { .. } => "io_failure",
        }
    }

    /// The tag that `kind` returns, at the specification level.
    pub open spec fn spec_kind(&self) -> Seq<char> {
        match self {
            PqError::CatalogUnavailable => "catalog_unavailable"@,
            PqError::SchemaMismatch { .. } => "schema_mismatch"@,
            PqError::Upstream { .. } => "upstream"@,
            PqError::InvalidColumnName { .. } => "invalid_column_name"@,
            PqError::UnsupportedType { .. } => "unsupported_type"@,
            PqError::DecimalOverflow { .. } => "decimal_overflow"@,
            PqError::UnexpectedNull { .. } => "unexpected_null"@,
            PqError::IOFailure { .. } => "io_failure"@,
        }
    }
}

} // verus!
