//! A verified columnar bridge from SQL Server result sets to Parquet files.
//!
//! The library translates a SQL column catalog into a Parquet schema,
//! pivots row-oriented tagged values into per-column buffers, encodes each
//! column into typed value batches with definition levels, and drives the
//! Parquet serializer over an in-memory sink.

pub mod catalog;
pub mod decimal;
pub mod encode;
pub mod error;
pub mod model;
pub mod plan;
pub mod pqsink;
pub mod timestamp;
pub mod value;
pub mod writer;
