//! The partition whose files are compacted.

use crate::column_type::ColumnType;
use vstd::prelude::*;

verus! {

/// Where a partition stands in the catalog.
#[derive(Clone, Copy, Debug, PartialEq, Eq, Structural)]
pub struct PartitionParam {
    /// Id of the partition
    pub partition_id: i64,
    /// Shard that the data came from
    pub shard_id: i64,
    /// Namespace of the table
    pub namespace_id: i64,
    /// Table of the partition
    pub table_id: i64,
}

/// A table.
#[derive(Clone, Debug, PartialEq, Eq)]
pub struct Table {
    /// Id of the table
    pub id: i64,
    /// Namespace of the table
    pub namespace_id: i64,
    /// Name of the table
    pub name: String,
}

/// A namespace.
#[derive(Clone, Debug, PartialEq, Eq)]
pub struct Namespace {
    /// Id of the namespace
    pub id: i64,
    /// Name of the namespace
    pub name: String,
    /// How long data is kept
    pub retention_duration: Option<String>,
    /// Topic that the writes come through
    pub topic_id: i64,
    /// Query pool of the namespace
    pub query_pool_id: i64,
    /// Largest number of tables
    pub max_tables: i32,
    /// Largest number of columns of a table
    pub max_columns_per_table: i32,
}

/// A column of a table.
#[derive(Clone, Debug, PartialEq, Eq)]
pub struct ColumnSchema {
    /// Name of the column
    pub name: String,
    /// Id of the column
    pub id: i64,
    /// Type of the column
    pub column_type: ColumnType,
}

/// The columns of a table.
#[derive(Clone, Debug, PartialEq, Eq)]
pub struct TableSchema {
    /// Id of the table
    pub id: i64,
    /// Columns of the table
    pub columns: Vec<ColumnSchema>,
}

/// A partition that may be compacted, with what the compaction needs to know of its table.
#[derive(Clone, Debug, PartialEq, Eq)]
pub struct PartitionCompactionCandidateWithInfo {
    /// Where the partition stands in the catalog
    pub candidate: PartitionParam,
    /// Table of the partition
    pub table: Table,
    /// Namespace of the table
    pub namespace: Namespace,
    /// Columns of the table
    pub table_schema: TableSchema,
    /// Names of the columns that the rows are sorted by
    pub sort_key: Option<Vec<String>>,
    /// Key of the partition
    pub partition_key: String,
}

} // verus!
