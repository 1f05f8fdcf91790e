//! Selection of the Parquet files of a partition for a compaction.
//!
//! A hot partition is compacted within a budget of memory, a cold one up to a number of bytes and
//! of files. Either way a prefix of the level 0 files is selected, together with the level 1 files
//! that overlap them.

use crate::arrow_estimate::{
    arrow_bytes, estimate_arrow_bytes_for_file, estimate_fits, first_invalid_code,
};
use crate::column_type::ColumnTypeCount;
use crate::metrics::{
    byte_series, file_observations, record_byte_metrics, record_file_metrics, GaugeLog,
    HistogramLog, ObservationView, SeriesView,
};
use crate::parquet_file::{CompactorParquetFile, ParquetFilesForCompaction};
use crate::partition::PartitionCompactionCandidateWithInfo;
use crate::selection::{
    claimed, claimed_by, lemma_claim_next, lemma_claimed_len, lemma_nothing_claimed,
    partition_by_overlap, selection, unclaimed,
};
use crate::wrapping::{is_i64, to_unsigned, unsigned};
use vstd::prelude::*;

verus! {

/// Files and the budget in bytes that is needed to compact them.
#[derive(Debug)]
pub struct FilteredFiles {
    /// Files with computed budget, which will be compacted
    pub files: Vec<CompactorParquetFile>,
    /// Budget needed to compact the files.
    ///
    /// If this value is 0 and there are no files, there is nothing to compact. If it is 0 and
    /// there are files, the budget could not be estimated, or it was estimated and none of the
    /// files needs any memory. If it is not 0 but there are no files, the budget is greater than
    /// the allowed one.
    pub budget_bytes: u64,
    /// Partition of the files
    pub partition: PartitionCompactionCandidateWithInfo,
}

/// What came of selecting files for compaction.
#[derive(Clone, Copy, Debug, PartialEq, Eq, Structural)]
pub enum FilterResult {
    /// There are no files to compact
    NothingToCompact,
    /// The budget could not be estimated, or is 0 although there are files
    ErrorEstimatingBudget,
    /// The budget is greater than the allowed one
    OverBudget,
    /// The files can be compacted
    Proceeed,
}

/// What came of a selection with so many files and bytes.
pub open spec fn result_of(file_count: nat, budget_bytes: nat) -> FilterResult {
    if budget_bytes == 0 {
        if file_count == 0 {
            FilterResult::NothingToCompact
        } else {
            FilterResult::ErrorEstimatingBudget
        }
    } else if file_count == 0 {
        FilterResult::OverBudget
    } else {
        FilterResult::Proceeed
    }
}

impl FilteredFiles {
    /// Files of a partition and the budget needed to compact them.
    pub fn new(
        files: Vec<CompactorParquetFile>,
        budget_bytes: u64,
        partition: PartitionCompactionCandidateWithInfo,
    ) -> (res: Self)
        ensures
            res.files == files,
            res.budget_bytes == budget_bytes,
            res.partition == partition,
    {
        Self { files, budget_bytes, partition }
    }

    /// What came of the selection.
    pub fn filter_result(&self) -> (res: FilterResult)
        ensures
            res == result_of(self.files@.len(), self.budget_bytes as nat),
    {
        if self.files.is_empty() && self.budget_bytes == 0 {
            FilterResult::NothingToCompact
        } else if !self.files.is_empty() && self.budget_bytes == 0 {
            FilterResult::ErrorEstimatingBudget
        } else if self.files.is_empty() && self.budget_bytes != 0 {
            FilterResult::OverBudget
        } else {
            FilterResult::Proceeed
        }
    }

    /// Budget needed to compact the files.
    pub fn budget_bytes(&self) -> (res: u64)
        ensures
            res == self.budget_bytes,
    {
        self.budget_bytes
    }
}

/// Bytes of memory that compacting a file is estimated to need.
pub open spec fn file_budget(columns: Seq<ColumnTypeCount>, file: CompactorParquetFile) -> nat {
    unsigned(arrow_bytes(columns, file.row_count))
}

/// Bytes of memory that compacting some files is estimated to need.
pub open spec fn total_budget(
    columns: Seq<ColumnTypeCount>,
    files: Seq<CompactorParquetFile>,
) -> nat
    decreases files.len(),
{
    if files.len() == 0 {
        0
    } else {
        total_budget(columns, files.drop_last()) + file_budget(columns, files.last())
    }
}

/// Bytes of memory for compacting what is selected with the first `n` level 0 files.
pub open spec fn selection_budget(
    columns: Seq<ColumnTypeCount>,
    level_0: Seq<CompactorParquetFile>,
    level_1: Seq<CompactorParquetFile>,
    n: int,
) -> nat {
    total_budget(columns, selection(level_0, level_1, n))
}

/// How many level 0 files are selected in a hot partition, given that at least `n` are: no more
/// are added once the selection with one more would need over `max_bytes`.
pub open spec fn hot_count_from(
    columns: Seq<ColumnTypeCount>,
    level_0: Seq<CompactorParquetFile>,
    level_1: Seq<CompactorParquetFile>,
    max_bytes: u64,
    n: int,
) -> int
    decreases level_0.len() - n,
{
    if n >= level_0.len() || selection_budget(columns, level_0, level_1, n + 1) > max_bytes {
        n
    } else {
        hot_count_from(columns, level_0, level_1, max_bytes, n + 1)
    }
}

/// How many level 0 files are selected in a hot partition.
pub open spec fn hot_count(
    columns: Seq<ColumnTypeCount>,
    level_0: Seq<CompactorParquetFile>,
    level_1: Seq<CompactorParquetFile>,
    max_bytes: u64,
) -> int {
    hot_count_from(columns, level_0, level_1, max_bytes, 0)
}

/// What came of selecting files in a hot partition.
#[verifier::ext_equal]
pub ghost struct HotSelection {
    /// Files of the selection
    pub files: Seq<CompactorParquetFile>,
    /// Budget of the selection
    pub budget_bytes: nat,
    /// What is reported on the number of files
    pub file_observations: Seq<ObservationView>,
    /// What is reported on the bytes of the files
    pub byte_series: Seq<SeriesView>,
}

impl HotSelection {
    /// A selection that nothing is reported on.
    pub open spec fn unreported(files: Seq<CompactorParquetFile>, budget_bytes: nat) -> Self {
        HotSelection {
            files,
            budget_bytes,
            file_observations: Seq::empty(),
            byte_series: Seq::empty(),
        }
    }
}

/// The sizes of some files, as they are reported.
pub open spec fn reported_sizes(files: Seq<CompactorParquetFile>) -> Seq<u64> {
    files.map_values(|f: CompactorParquetFile| unsigned(f.file_size_bytes as int) as u64)
}

/// The budgets of some files, as they are reported.
pub open spec fn reported_budgets(
    columns: Seq<ColumnTypeCount>,
    files: Seq<CompactorParquetFile>,
) -> Seq<u64> {
    files.map_values(|f: CompactorParquetFile| file_budget(columns, f) as u64)
}

/// What is selected in a hot partition.
///
/// Without level 0 files that is nothing. Where a column has no valid type, no budget can be
/// estimated, and the first level 0 file is returned with a budget of 0. Where the first files
/// that need any memory need more than `max_bytes`, no file is returned, but what they need.
/// Otherwise it is the level 0 files that the budget allows and the level 1 files that go with
/// them.
pub open spec fn hot_selection(
    columns: Seq<ColumnTypeCount>,
    level_0: Seq<CompactorParquetFile>,
    level_1: Seq<CompactorParquetFile>,
    max_bytes: u64,
) -> HotSelection {
    let n = hot_count(columns, level_0, level_1, max_bytes);
    if level_0.len() == 0 {
        HotSelection::unreported(Seq::empty(), 0)
    } else if first_invalid_code(columns) is Some {
        HotSelection::unreported(seq![level_0[0]], 0)
    } else if n < level_0.len() && selection_budget(columns, level_0, level_1, n) == 0 {
        HotSelection::unreported(
            Seq::empty(),
            selection_budget(columns, level_0, level_1, n + 1),
        )
    } else {
        HotSelection {
            files: selection(level_0, level_1, n),
            budget_bytes: selection_budget(columns, level_0, level_1, n),
            file_observations: file_observations(
                level_0.len(),
                level_1.len(),
                n as nat,
                claimed(level_0, level_1, n).len(),
            ),
            byte_series: byte_series(
                reported_sizes(level_0.take(n)),
                reported_sizes(claimed(level_0, level_1, n)),
                reported_budgets(columns, level_0.take(n)),
                reported_budgets(columns, claimed(level_0, level_1, n)),
            ),
        }
    }
}

/// Whether 64-bit numbers can hold the budgets that are estimated for level 0 file `i` and the
/// level 1 files that go with it, and their total with all files before.
pub open spec fn hot_step_fits(
    columns: Seq<ColumnTypeCount>,
    level_0: Seq<CompactorParquetFile>,
    level_1: Seq<CompactorParquetFile>,
    i: int,
) -> bool {
    let with_it = claimed_by(level_0, level_1, i);
    &&& estimate_fits(columns, level_0[i].row_count)
    &&& forall|k: int|
        0 <= k < with_it.len() ==> estimate_fits(columns, #[trigger] with_it[k].row_count)
    &&& selection_budget(columns, level_0, level_1, i + 1) <= u64::MAX
}

/// Whether 64-bit numbers can hold all budgets that are estimated in a hot partition: those of the
/// selected files, and those of the files that are then found to be over budget.
pub open spec fn hot_filter_fits(
    columns: Seq<ColumnTypeCount>,
    level_0: Seq<CompactorParquetFile>,
    level_1: Seq<CompactorParquetFile>,
    max_bytes: u64,
) -> bool {
    if level_0.len() == 0 {
        true
    } else if first_invalid_code(columns) is Some {
        estimate_fits(columns, level_0[0].row_count)
    } else {
        forall|i: int|
            0 <= i < level_0.len() && i <= hot_count(columns, level_0, level_1, max_bytes)
                ==> #[trigger] hot_step_fits(columns, level_0, level_1, i)
    }
}

/// The budget of two groups of files is the sum of their budgets.
pub proof fn lemma_total_budget_add(
    columns: Seq<ColumnTypeCount>,
    a: Seq<CompactorParquetFile>,
    b: Seq<CompactorParquetFile>,
)
    ensures
        total_budget(columns, a + b) == total_budget(columns, a) + total_budget(columns, b),
    decreases b.len(),
{
    if b.len() == 0 {
        assert(a + b =~= a);
    } else {
        assert((a + b).drop_last() =~= a + b.drop_last());
        lemma_total_budget_add(columns, a, b.drop_last());
    }
}

/// Selecting one more level 0 file adds its budget and those of the level 1 files with it.
pub proof fn lemma_selection_budget_next(
    columns: Seq<ColumnTypeCount>,
    level_0: Seq<CompactorParquetFile>,
    level_1: Seq<CompactorParquetFile>,
    n: int,
)
    requires
        0 <= n < level_0.len(),
    ensures
        selection_budget(columns, level_0, level_1, n + 1) == selection_budget(
            columns,
            level_0,
            level_1,
            n,
        ) + file_budget(columns, level_0[n]) + total_budget(
            columns,
            claimed_by(level_0, level_1, n),
        ),
{
    let before = claimed(level_0, level_1, n);
    let more = claimed_by(level_0, level_1, n);
    lemma_total_budget_add(columns, before, level_0.take(n));
    lemma_total_budget_add(columns, before, more);
    lemma_total_budget_add(columns, before + more, level_0.take(n + 1));
    assert(level_0.take(n + 1).drop_last() =~= level_0.take(n));
}

/// At least as many level 0 files are selected as are known to be.
pub proof fn lemma_hot_count_from_bounds(
    columns: Seq<ColumnTypeCount>,
    level_0: Seq<CompactorParquetFile>,
    level_1: Seq<CompactorParquetFile>,
    max_bytes: u64,
    n: int,
)
    requires
        0 <= n <= level_0.len(),
    ensures
        n <= hot_count_from(columns, level_0, level_1, max_bytes, n) <= level_0.len(),
    decreases level_0.len() - n,
{
    if n < level_0.len() && selection_budget(columns, level_0, level_1, n + 1) <= max_bytes {
        lemma_hot_count_from_bounds(columns, level_0, level_1, max_bytes, n + 1);
    }
}

/// The budget of the first files is no more than that of all of them.
proof fn lemma_total_budget_prefix(
    columns: Seq<ColumnTypeCount>,
    files: Seq<CompactorParquetFile>,
    n: int,
)
    requires
        0 <= n <= files.len(),
    ensures
        total_budget(columns, files.take(n)) <= total_budget(columns, files),
{
    lemma_total_budget_add(columns, files.take(n), files.skip(n));
    assert(files.take(n) + files.skip(n) =~= files);
}

/// The sizes of some files, as they are reported.
fn file_sizes(files: &Vec<CompactorParquetFile>) -> (res: Vec<u64>)
    ensures
        res@ == reported_sizes(files@),
{
    let mut sizes: Vec<u64> = Vec::new();
    for i in 0..files.len()
        invariant
            sizes@ =~= reported_sizes(files@.take(i as int)),
    {
        sizes.push(to_unsigned(files[i].file_size_bytes));
        assert(files@.take(i + 1) =~= files@.take(i as int).push(files@[i as int]));
    }
    assert(files@.take(files@.len() as int) =~= files@);
    sizes
}

/// Given the level 0 files of a hot partition, sorted by max sequence number, and its level 1
/// files, selects files that
///
/// - hold the level 0 files from the start of the list,
/// - need no more than `max_bytes` of memory to be compacted, and
/// - hold only those level 1 files that overlap the level 0 files in time.
///
/// The level 1 files come first, then the level 0 files in their order.
pub fn filter_hot_parquet_files(
    // partition of the files
    partition: PartitionCompactionCandidateWithInfo,
    // level 0 files sorted by max sequence number and level 1 files in any order
    parquet_files_for_compaction: ParquetFilesForCompaction,
    // no more level 0 files are taken once the memory needed would exceed this
    max_bytes: u64,
    // column types of the table and their counts
    column_types: &[ColumnTypeCount],
    // gauge for the number of files
    parquet_file_candidate_gauge: &mut GaugeLog,
    // histogram for the bytes of the files
    parquet_file_candidate_bytes: &mut HistogramLog,
) -> (res: FilteredFiles)
    requires
        hot_filter_fits(
            column_types@,
            parquet_files_for_compaction.level_0@,
            parquet_files_for_compaction.level_1@,
            max_bytes,
        ),
    ensures
        ({
            let selected = hot_selection(
                column_types@,
                parquet_files_for_compaction.level_0@,
                parquet_files_for_compaction.level_1@,
                max_bytes,
            );
            &&& res.files@ == selected.files
            &&& res.budget_bytes == selected.budget_bytes
            &&& res.partition == partition
            &&& final(parquet_file_candidate_gauge)@ == old(parquet_file_candidate_gauge)@
                + selected.file_observations
            &&& final(parquet_file_candidate_bytes)@ == old(parquet_file_candidate_bytes)@
                + selected.byte_series
        }),
{
    let level_0 = parquet_files_for_compaction.level_0;
    let level_1 = parquet_files_for_compaction.level_1;
    if level_0.is_empty() {
        return FilteredFiles::new(vec![], 0, partition);
    }
    let ghost count = hot_count(column_types@, level_0@, level_1@, max_bytes);
    proof {
        lemma_hot_count_from_bounds(column_types@, level_0@, level_1@, max_bytes, 0);
        lemma_nothing_claimed(level_0@, level_1@);
        assert(level_0@.take(0) =~= Seq::empty());
    }

    let num_level_0_considering: usize = level_0.len();
    let num_level_1_considering: usize = level_1.len();

    // Level 1 files that no level 0 file so far overlaps
    let mut remaining_level_1: Vec<CompactorParquetFile> = level_1;
    // Selected level 1 files; the level 0 files are added last
    let mut files_to_return: Vec<CompactorParquetFile> = Vec::new();
    // Memory needed for each of them
    let mut l1_estimated_budget: Vec<u64> = Vec::new();
    // Selected level 0 files, in order
    let mut level_0_to_return: Vec<CompactorParquetFile> = Vec::new();
    // Memory needed for each of them
    let mut l0_estimated_budget: Vec<u64> = Vec::new();
    // Memory needed for all selected files
    let mut total_estimated_budget: u64 = 0;

    let mut n: usize = 0;
    while n < level_0.len()
        invariant_except_break
            hot_count_from(column_types@, level_0@, level_1@, max_bytes, n as int) == count,
        invariant
            0 < level_0@.len(),
            level_0@ == parquet_files_for_compaction.level_0@,
            level_1@ == parquet_files_for_compaction.level_1@,
            count == hot_count(column_types@, level_0@, level_1@, max_bytes),
            hot_filter_fits(column_types@, level_0@, level_1@, max_bytes),
            n <= count <= level_0@.len(),
            n > 0 ==> first_invalid_code(column_types@) is None,
            remaining_level_1@ == unclaimed(level_0@, level_1@, n as int),
            files_to_return@ == claimed(level_0@, level_1@, n as int),
            level_0_to_return@ == level_0@.take(n as int),
            l0_estimated_budget@ == reported_budgets(column_types@, level_0@.take(n as int)),
            l1_estimated_budget@ == reported_budgets(
                column_types@,
                claimed(level_0@, level_1@, n as int),
            ),
            total_estimated_budget == selection_budget(
                column_types@,
                level_0@,
                level_1@,
                n as int,
            ),
            parquet_file_candidate_gauge@ == old(parquet_file_candidate_gauge)@,
            parquet_file_candidate_bytes@ == old(parquet_file_candidate_bytes)@,
        ensures
            n == count,
            n < level_0@.len() ==> total_estimated_budget > 0,
            first_invalid_code(column_types@) is None,
        decreases level_0.len() - n,
    {
        let level_0_file: CompactorParquetFile = level_0[n];
        assert(first_invalid_code(column_types@) is None ==> hot_step_fits(
            column_types@,
            level_0@,
            level_1@,
            n as int,
        ));
        // Memory needed for this level 0 file
        let l0_estimated_file_bytes: u64 = match estimate_arrow_bytes_for_file(
            column_types,
            level_0_file.row_count,
        ) {
            Ok(bytes) => bytes,
            Err(_) => {
                // No memory could be estimated: return the file and 0
                return FilteredFiles::new(vec![level_0_file], 0, partition);
            },
        };

        // Even where this file alone is over budget, the level 1 files that overlap it are
        // estimated as well, so as to return the memory needed for all of them.
        let (mut overlaps, non_overlaps) = partition_by_overlap(&remaining_level_1, &level_0_file);
        proof {
            lemma_claim_next(level_0@, level_1@, n as int);
            lemma_selection_budget_next(column_types@, level_0@, level_1@, n as int);
        }

        // Memory needed for each of the level 1 files
        let mut current_l1_estimated_file_bytes: Vec<u64> = Vec::new();
        let mut estimated_file_bytes: u64 = l0_estimated_file_bytes;
        for k in 0..overlaps.len()
            invariant
                n < level_0@.len(),
                first_invalid_code(column_types@) is None,
                hot_step_fits(column_types@, level_0@, level_1@, n as int),
                overlaps@ == claimed_by(level_0@, level_1@, n as int),
                l0_estimated_file_bytes + total_budget(column_types@, overlaps@) <= u64::MAX,
                current_l1_estimated_file_bytes@ =~= reported_budgets(
                    column_types@,
                    overlaps@.take(k as int),
                ),
                estimated_file_bytes == l0_estimated_file_bytes + total_budget(
                    column_types@,
                    overlaps@.take(k as int),
                ),
        {
            let file: CompactorParquetFile = overlaps[k];
            assert(estimate_fits(column_types@, overlaps@[k as int].row_count));
            let estimated_bytes: u64 = match estimate_arrow_bytes_for_file(
                column_types,
                file.row_count,
            ) {
                Ok(bytes) => bytes,
                Err(_) => {
                    return FilteredFiles::new(vec![file], 0, partition);
                },
            };
            proof {
                assert(overlaps@.take(k + 1).drop_last() =~= overlaps@.take(k as int));
                lemma_total_budget_prefix(column_types@, overlaps@, k + 1);
                assert(overlaps@.take(k + 1) =~= overlaps@.take(k as int).push(file));
            }
            current_l1_estimated_file_bytes.push(estimated_bytes);
            estimated_file_bytes = estimated_file_bytes + estimated_bytes;
        }
        assert(overlaps@.take(overlaps@.len() as int) =~= overlaps@);

        if total_estimated_budget + estimated_file_bytes > max_bytes {
            if total_estimated_budget == 0 {
                // The partition cannot be compacted within the budget
                return FilteredFiles::new(vec![], estimated_file_bytes, partition);
            } else {
                // Compact what is within the budget
                break;
            }
        }
        proof {
            lemma_hot_count_from_bounds(column_types@, level_0@, level_1@, max_bytes, n + 1);
            assert(level_0@.take(n + 1) =~= level_0@.take(n as int).push(level_0_file));
            assert(reported_budgets(column_types@, level_0@.take(n + 1)) =~= reported_budgets(
                column_types@,
                level_0@.take(n as int),
            ).push(l0_estimated_file_bytes));
            assert(reported_budgets(
                column_types@,
                claimed(level_0@, level_1@, n + 1),
            ) =~= reported_budgets(column_types@, claimed(level_0@, level_1@, n as int))
                + reported_budgets(column_types@, claimed_by(level_0@, level_1@, n as int)));
        }
        total_estimated_budget = total_estimated_budget + estimated_file_bytes;
        l0_estimated_budget.push(l0_estimated_file_bytes);
        l1_estimated_budget.append(&mut current_l1_estimated_file_bytes);
        // A level 1 file that overlaps one level 0 file is not considered again
        files_to_return.append(&mut overlaps);
        remaining_level_1 = non_overlaps;
        level_0_to_return.push(level_0_file);
        n = n + 1;
    }

    let num_level_0_compacting: usize = level_0_to_return.len();
    let num_level_1_compacting: usize = files_to_return.len();
    proof {
        lemma_claimed_len(level_0@, level_1@, count);
    }
    record_file_metrics(
        parquet_file_candidate_gauge,
        num_level_0_considering as u64,
        num_level_1_considering as u64,
        num_level_0_compacting as u64,
        num_level_1_compacting as u64,
    );
    record_byte_metrics(
        parquet_file_candidate_bytes,
        file_sizes(&level_0_to_return),
        file_sizes(&files_to_return),
        l0_estimated_budget,
        l1_estimated_budget,
    );

    files_to_return.append(&mut level_0_to_return);
    FilteredFiles::new(files_to_return, total_estimated_budget, partition)
}

/// Sum of the sizes of some files.
pub open spec fn size_sum(files: Seq<CompactorParquetFile>) -> int
    decreases files.len(),
{
    if files.len() == 0 {
        0
    } else {
        size_sum(files.drop_last()) + files.last().file_size_bytes
    }
}

/// Bytes of the first `n` level 0 files and of the level 1 files that go with them.
///
/// The size of a level 0 file is read as an unsigned number, and so is the sum of the sizes of the
/// level 1 files that go with it.
pub open spec fn cold_bytes(
    level_0: Seq<CompactorParquetFile>,
    level_1: Seq<CompactorParquetFile>,
    n: int,
) -> nat
    decreases n,
{
    if n <= 0 {
        0
    } else {
        cold_bytes(level_0, level_1, n - 1) + unsigned(level_0[n - 1].file_size_bytes as int)
            + unsigned(size_sum(claimed_by(level_0, level_1, n - 1)))
    }
}

/// How many level 0 files are selected in a cold partition, given that at least `n` are.
///
/// None is added once `input_file_count_threshold` files are selected, nor after one with which
/// the selected files have `max_bytes` or more.
pub open spec fn cold_count_from(
    level_0: Seq<CompactorParquetFile>,
    level_1: Seq<CompactorParquetFile>,
    max_bytes: u64,
    input_file_count_threshold: usize,
    n: int,
) -> int
    decreases level_0.len() - n,
{
    if n >= level_0.len() || selection(level_0, level_1, n).len() >= input_file_count_threshold {
        n
    } else if cold_bytes(level_0, level_1, n + 1) >= max_bytes {
        n + 1
    } else {
        cold_count_from(level_0, level_1, max_bytes, input_file_count_threshold, n + 1)
    }
}

/// How many level 0 files are selected in a cold partition.
pub open spec fn cold_count(
    level_0: Seq<CompactorParquetFile>,
    level_1: Seq<CompactorParquetFile>,
    max_bytes: u64,
    input_file_count_threshold: usize,
) -> int {
    cold_count_from(level_0, level_1, max_bytes, input_file_count_threshold, 0)
}

/// Whether 64-bit numbers can hold the bytes that are counted up to level 0 file `i`: the sizes of
/// the level 1 files that go with it, added up in order, and the bytes of all files up to it.
pub open spec fn cold_step_fits(
    level_0: Seq<CompactorParquetFile>,
    level_1: Seq<CompactorParquetFile>,
    i: int,
) -> bool {
    let with_it = claimed_by(level_0, level_1, i);
    &&& forall|k: int| 0 <= k <= with_it.len() ==> is_i64(size_sum(#[trigger] with_it.take(k)))
    &&& cold_bytes(level_0, level_1, i + 1) <= u64::MAX
}

/// Whether 64-bit numbers can hold all bytes that are counted in a cold partition.
pub open spec fn cold_filter_fits(
    level_0: Seq<CompactorParquetFile>,
    level_1: Seq<CompactorParquetFile>,
    max_bytes: u64,
    input_file_count_threshold: usize,
) -> bool {
    forall|i: int|
        0 <= i < cold_count(level_0, level_1, max_bytes, input_file_count_threshold)
            ==> #[trigger] cold_step_fits(level_0, level_1, i)
}

/// What is reported on the number of files in a cold partition.
pub open spec fn cold_file_observations(
    level_0: Seq<CompactorParquetFile>,
    level_1: Seq<CompactorParquetFile>,
    n: int,
) -> Seq<ObservationView> {
    if level_0.len() == 0 {
        Seq::empty()
    } else {
        file_observations(
            level_0.len(),
            level_1.len(),
            n as nat,
            claimed(level_0, level_1, n).len(),
        )
    }
}

/// What is reported on the bytes of the files in a cold partition, where a file is taken to need
/// as much memory as it is large.
pub open spec fn cold_byte_series(
    level_0: Seq<CompactorParquetFile>,
    level_1: Seq<CompactorParquetFile>,
    n: int,
) -> Seq<SeriesView> {
    if level_0.len() == 0 {
        Seq::empty()
    } else {
        let level_0_sizes = reported_sizes(level_0.take(n));
        let level_1_sizes = reported_sizes(claimed(level_0, level_1, n));
        byte_series(level_0_sizes, level_1_sizes, level_0_sizes, level_1_sizes)
    }
}

/// At least as many level 0 files are selected as are known to be.
pub proof fn lemma_cold_count_from_bounds(
    level_0: Seq<CompactorParquetFile>,
    level_1: Seq<CompactorParquetFile>,
    max_bytes: u64,
    input_file_count_threshold: usize,
    n: int,
)
    requires
        0 <= n <= level_0.len(),
    ensures
        n <= cold_count_from(level_0, level_1, max_bytes, input_file_count_threshold, n)
            <= level_0.len(),
    decreases level_0.len() - n,
{
    if n < level_0.len() {
        lemma_cold_count_from_bounds(
            level_0,
            level_1,
            max_bytes,
            input_file_count_threshold,
            n + 1,
        );
    }
}

/// Sum of the sizes of the files that go with a level 0 file.
fn sum_of_sizes(files: &Vec<CompactorParquetFile>) -> (res: i64)
    requires
        forall|k: int| 0 <= k <= files@.len() ==> is_i64(size_sum(#[trigger] files@.take(k))),
    ensures
        res == size_sum(files@),
{
    let mut total: i64 = 0;
    for k in 0..files.len()
        invariant
            forall|k: int| 0 <= k <= files@.len() ==> is_i64(size_sum(#[trigger] files@.take(k))),
            total == size_sum(files@.take(k as int)),
    {
        assert(files@.take(k + 1).drop_last() =~= files@.take(k as int));
        assert(is_i64(size_sum(files@.take(k + 1))));
        total = total + files[k].file_size_bytes;
    }
    assert(files@.take(files@.len() as int) =~= files@);
    total
}

/// Given the level 0 files of a cold partition, sorted by max sequence number, and its level 1
/// files, selects files that
///
/// - hold the level 0 files from the start of the list, up to and with the one that brings the
///   selected files to `max_bytes` or more, and as long as there are fewer than
///   `input_file_count_threshold` selected files, and
/// - hold only those level 1 files that overlap the level 0 files in time.
///
/// The level 1 files come first, then the level 0 files in their order.
///
/// If only one file is returned, it can be upgraded to level 1 without running compaction.
pub fn filter_cold_parquet_files(
    // level 0 files sorted by max sequence number and level 1 files in any order
    parquet_files_for_compaction: ParquetFilesForCompaction,
    // no more level 0 files are taken once the selected files have this size
    max_bytes: u64,
    // no more level 0 files are taken once so many files of both levels are selected
    input_file_count_threshold: usize,
    // gauge for the number of files
    parquet_file_candidate_gauge: &mut GaugeLog,
    // histogram for the bytes of the files
    parquet_file_candidate_bytes: &mut HistogramLog,
) -> (res: Vec<CompactorParquetFile>)
    requires
        cold_filter_fits(
            parquet_files_for_compaction.level_0@,
            parquet_files_for_compaction.level_1@,
            max_bytes,
            input_file_count_threshold,
        ),
    ensures
        ({
            let level_0 = parquet_files_for_compaction.level_0@;
            let level_1 = parquet_files_for_compaction.level_1@;
            let n = cold_count(level_0, level_1, max_bytes, input_file_count_threshold);
            &&& res@ == selection(level_0, level_1, n)
            &&& final(parquet_file_candidate_gauge)@ == old(parquet_file_candidate_gauge)@
                + cold_file_observations(level_0, level_1, n)
            &&& final(parquet_file_candidate_bytes)@ == old(parquet_file_candidate_bytes)@
                + cold_byte_series(level_0, level_1, n)
        }),
{
    let level_0 = parquet_files_for_compaction.level_0;
    let level_1 = parquet_files_for_compaction.level_1;
    proof {
        lemma_cold_count_from_bounds(level_0@, level_1@, max_bytes, input_file_count_threshold, 0);
        lemma_nothing_claimed(level_0@, level_1@);
        assert(level_0@.take(0) =~= Seq::empty());
    }
    if level_0.is_empty() {
        return Vec::new();
    }
    let ghost count = cold_count(level_0@, level_1@, max_bytes, input_file_count_threshold);

    let num_level_0_considering: usize = level_0.len();
    let num_level_1_considering: usize = level_1.len();

    // Level 1 files that no level 0 file so far overlaps
    let mut remaining_level_1: Vec<CompactorParquetFile> = level_1;
    // Selected level 1 files; the level 0 files are added last
    let mut files_to_return: Vec<CompactorParquetFile> = Vec::new();
    // Selected level 0 files, in order
    let mut level_0_to_return: Vec<CompactorParquetFile> = Vec::new();
    // Bytes of the selected files, by level
    let mut total_level_0_bytes: u64 = 0;
    let mut total_level_1_bytes: u64 = 0;

    let mut n: usize = 0;
    while n < level_0.len()
        invariant_except_break
            cold_count_from(
                level_0@,
                level_1@,
                max_bytes,
                input_file_count_threshold,
                n as int,
            ) == count,
        invariant
            level_0@ == parquet_files_for_compaction.level_0@,
            level_1@ == parquet_files_for_compaction.level_1@,
            count == cold_count(level_0@, level_1@, max_bytes, input_file_count_threshold),
            cold_filter_fits(level_0@, level_1@, max_bytes, input_file_count_threshold),
            n <= count <= level_0@.len(),
            remaining_level_1@ == unclaimed(level_0@, level_1@, n as int),
            files_to_return@ == claimed(level_0@, level_1@, n as int),
            level_0_to_return@ == level_0@.take(n as int),
            total_level_0_bytes + total_level_1_bytes == cold_bytes(level_0@, level_1@, n as int),
        ensures
            n == count,
        decreases level_0.len() - n,
    {
        // Stop once as many files are selected as are allowed
        if level_0_to_return.len() >= input_file_count_threshold || files_to_return.len()
            >= input_file_count_threshold - level_0_to_return.len() {
            break;
        }
        proof {
            lemma_cold_count_from_bounds(
                level_0@,
                level_1@,
                max_bytes,
                input_file_count_threshold,
                n + 1,
            );
            assert(cold_step_fits(level_0@, level_1@, n as int));
            lemma_claim_next(level_0@, level_1@, n as int);
            assert(level_0@.take(n + 1) =~= level_0@.take(n as int).push(level_0@[n as int]));
        }

        // The size of the first level 0 file is not held against `max_bytes`
        let level_0_file: CompactorParquetFile = level_0[n];
        total_level_0_bytes = total_level_0_bytes + to_unsigned(level_0_file.file_size_bytes);

        let (mut overlaps, non_overlaps) = partition_by_overlap(&remaining_level_1, &level_0_file);
        total_level_1_bytes = total_level_1_bytes + to_unsigned(sum_of_sizes(&overlaps));

        // A level 1 file that overlaps one level 0 file is not considered again
        files_to_return.append(&mut overlaps);
        remaining_level_1 = non_overlaps;
        level_0_to_return.push(level_0_file);
        n = n + 1;

        if total_level_0_bytes + total_level_1_bytes >= max_bytes {
            break;
        }
    }

    let num_level_0_compacting: usize = level_0_to_return.len();
    let num_level_1_compacting: usize = files_to_return.len();
    proof {
        lemma_claimed_len(level_0@, level_1@, count);
    }
    record_file_metrics(
        parquet_file_candidate_gauge,
        num_level_0_considering as u64,
        num_level_1_considering as u64,
        num_level_0_compacting as u64,
        num_level_1_compacting as u64,
    );
    record_byte_metrics(
        parquet_file_candidate_bytes,
        file_sizes(&level_0_to_return),
        file_sizes(&files_to_return),
        file_sizes(&level_0_to_return),
        file_sizes(&files_to_return),
    );

    files_to_return.append(&mut level_0_to_return);
    files_to_return
}

} // verus!
