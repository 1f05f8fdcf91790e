//! Parquet files of a partition, as far as their selection for compaction goes.

use vstd::prelude::*;

verus! {

/// How far the compaction of a file has come.
#[derive(Clone, Copy, Debug, PartialEq, Eq, Structural)]
pub enum CompactionLevel {
    /// Level 0: written by the ingester, may overlap other files
    Initial,
    /// Level 1: overlaps no other file of that level
    FileNonOverlapped,
}

/// The catalog's record of a Parquet file.
#[derive(Clone, Copy, Debug, PartialEq, Eq, Structural)]
pub struct CompactorParquetFile {
    /// Id of the file
    pub id: i64,
    /// Shard that the data came from
    pub shard_id: i64,
    /// Namespace of the table
    pub namespace_id: i64,
    /// Table that the rows belong to
    pub table_id: i64,
    /// Partition of the table that the rows belong to
    pub partition_id: i64,
    /// Highest sequence number of the writes in the file
    pub max_sequence_number: i64,
    /// Time of the earliest row, in nanoseconds
    pub min_time: i64,
    /// Time of the latest row, in nanoseconds
    pub max_time: i64,
    /// Size of the file
    pub file_size_bytes: i64,
    /// Number of rows in the file
    pub row_count: i64,
    /// How far the compaction of the file has come
    pub compaction_level: CompactionLevel,
    /// When the file was made, in nanoseconds
    pub created_at: i64,
}

/// The files of one partition that are considered for compaction.
#[derive(Clone, Debug, PartialEq, Eq)]
pub struct ParquetFilesForCompaction {
    /// Level 0 files, sorted by max sequence number
    pub level_0: Vec<CompactorParquetFile>,
    /// Level 1 files, in any order
    pub level_1: Vec<CompactorParquetFile>,
}

impl CompactorParquetFile {
    /// Whether the latest row is no earlier than the earliest one.
    pub open spec fn has_time_range(self) -> bool {
        self.min_time <= self.max_time
    }

    /// Whether the time ranges of two files meet: the file that starts first (this one, if both
    /// start at once) ends no earlier than the other one starts.
    pub open spec fn overlaps(self, other: Self) -> bool {
        if self.min_time <= other.min_time {
            other.min_time <= self.max_time
        } else {
            self.min_time <= other.max_time
        }
    }
}

/// Whether the time ranges of two files overlap.
pub fn overlaps_in_time(a: &CompactorParquetFile, b: &CompactorParquetFile) -> (res: bool)
    ensures
        res == a.overlaps(*b),
{
    (a.min_time <= b.min_time && a.max_time >= b.min_time) || (a.min_time > b.min_time
        && a.min_time <= b.max_time)
}

/// Overlap does not depend on which file is named first. (Of two files that start at once, one
/// with a time range and one without, the answer goes by the one named first.)
pub proof fn law_overlap_is_symmetric(a: CompactorParquetFile, b: CompactorParquetFile)
    requires
        a.min_time == b.min_time ==> a.has_time_range() == b.has_time_range(),
    ensures
        a.overlaps(b) == b.overlaps(a),
{
}

/// Two files overlap exactly when some instant lies in the time ranges of both.
pub proof fn law_overlap_is_a_shared_instant(a: CompactorParquetFile, b: CompactorParquetFile)
    requires
        a.has_time_range(),
        b.has_time_range(),
    ensures
        a.overlaps(b) <==> exists|t: int|
            #![trigger shared_instant(a, b, t)]
            shared_instant(a, b, t),
{
    let later_start: int = if a.min_time <= b.min_time {
        b.min_time as int
    } else {
        a.min_time as int
    };
    if a.overlaps(b) {
        assert(shared_instant(a, b, later_start));
    }
}

/// Whether the instant `t` lies in the time ranges of both files.
pub open spec fn shared_instant(a: CompactorParquetFile, b: CompactorParquetFile, t: int) -> bool {
    a.min_time <= t <= a.max_time && b.min_time <= t <= b.max_time
}

/// Two files overlap exactly when one of them starts within the time range of the other. (Of two
/// that start at once, it goes by the time range of the first.)
pub proof fn law_overlap_is_a_start_within_the_other(
    a: CompactorParquetFile,
    b: CompactorParquetFile,
)
    ensures
        a.overlaps(b) <==> a.min_time <= b.min_time <= a.max_time || b.min_time < a.min_time
            <= b.max_time,
        a.min_time <= a.max_time && b.min_time <= b.max_time ==> (a.overlaps(b) <==> !(a.max_time
            < b.min_time || b.max_time < a.min_time)),
{
}

} // verus!
