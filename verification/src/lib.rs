//! Core of a columnar, vectorized, pull-based query execution engine:
//! a row-group batch reader over a projected columnar file model, a
//! thread-isolating partition stream, and a two-phase hash aggregate
//! operator, with machine-checked contracts throughout.

pub mod error;
pub mod datatypes;
pub mod scalar;
pub mod column;
pub mod batch;
pub mod producer;
pub mod parquet;
pub mod partition;
pub mod physical_plan;
pub mod expressions;
pub mod hash_aggregate;
pub mod memory;
