//! Configuration of the ingester.

use vstd::prelude::*;

verus! {

/// Partition size at which a partition is persisted, where none is given: 300 MB.
pub const DEFAULT_PERSIST_PARTITION_SIZE_THRESHOLD_BYTES: usize = 314_572_800;

/// Age at which buffered data is persisted, where none is given: 30 minutes.
pub const DEFAULT_PERSIST_PARTITION_AGE_THRESHOLD_SECONDS: u64 = 1800;

/// Time without a write after which a partition is persisted, where none is given: 5 minutes.
pub const DEFAULT_PERSIST_PARTITION_COLD_THRESHOLD_SECONDS: u64 = 300;

/// Number of rows above which a partition is persisted, where none is given.
pub const DEFAULT_PERSIST_PARTITION_ROWS_MAX: usize = 500_000;

/// Number of `do_get` requests that panic, where none is given.
pub const DEFAULT_TEST_FLIGHT_DO_GET_PANIC: u64 = 0;

/// Number of requests handled at a time, where none is given.
pub const DEFAULT_CONCURRENT_REQUEST_LIMIT: usize = 20;

/// Configuration of the lifecycle of ingested data.
#[derive(Debug, Clone)]
pub struct IngesterConfig {
    /// Write buffer shard index to start (inclusive) range with
    pub shard_index_range_start: i32,
    /// Write buffer shard index to end (inclusive) range with
    pub shard_index_range_end: i32,
    /// The ingester pulls data from the write buffer as long as it buffers less than this size.
    /// Once it buffers as much, ingest pauses until it buffers less again.
    pub pause_ingest_size_bytes: usize,
    /// Once the data buffered across all shards crosses this threshold, the largest partitions are
    /// persisted until it falls below. An ingester in a steady state takes up this much memory.
    pub persist_memory_threshold_bytes: usize,
    /// A partition is persisted once the total bytes written to it cross this threshold.
    ///
    /// This number is related to the memory used to keep the partition buffered, but not the same.
    pub persist_partition_size_threshold_bytes: usize,
    /// A partition is persisted once it has had data buffered for longer than this. This bounds how
    /// far back the ingester may need to read from the write buffer on restart or recovery.
    pub persist_partition_age_threshold_seconds: u64,
    /// A partition with buffered data is persisted once it has not received a write for this long.
    pub persist_partition_cold_threshold_seconds: u64,
    /// A partition is persisted once it contains more than this many rows.
    pub persist_partition_rows_max: usize,
    /// If the catalog's max sequence number for the partition is no longer available in the write
    /// buffer due to the retention policy, the ingester panics, unless this is set: then it skips
    /// any sequence numbers that have not been retained and starts with the oldest available data.
    pub skip_to_oldest_available: bool,
    /// How many `do_get` flight requests panic, for testing purposes. The first ones panic, those
    /// after them pass.
    pub test_flight_do_get_panic: u64,
    /// How many concurrent requests the ingester handles before it rejects incoming ones.
    pub concurrent_request_limit: usize,
}

} // verus!
