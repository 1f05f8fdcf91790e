//! Selection of Parquet files for compaction, with the estimate of the memory that it needs, and
//! the configuration of the ingester that writes the files.
//!
//! - [`arrow_estimate`] estimates the memory that a file takes once it is decoded;
//!   [`estimate_laws`] states what holds of every estimate.
//! - [`selection`] says which level 1 files go with the level 0 files of a partition.
//! - [`parquet_file_filtering`] selects the files of hot and cold partitions; [`hot_laws`] and
//!   [`cold_laws`] state what holds of every such selection.
//! - [`fits`] decides beforehand whether a selection can be made in 64-bit numbers.
//! - [`metrics`] holds what is reported on a selection.
//! - [`ingester`] holds the configuration of the ingester.

pub mod arrow_estimate;
pub mod cold_laws;
pub mod column_type;
pub mod estimate_laws;
pub mod fits;
pub mod hot_laws;
pub mod ingester;
pub mod metrics;
pub mod parquet_file;
pub mod parquet_file_filtering;
pub mod partition;
pub mod selection;
pub mod wrapping;
