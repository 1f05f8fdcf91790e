//! What holds of every selection in a hot partition.

use crate::arrow_estimate::{arrow_bytes, estimate_fits, first_invalid_code};
use crate::column_type::ColumnTypeCount;
use crate::estimate_laws::law_first_invalid_code;
use crate::metrics::{law_byte_series, law_file_observations, ObservationView};
use crate::parquet_file::CompactorParquetFile;
use crate::parquet_file_filtering::{
    hot_count, hot_count_from, hot_filter_fits, hot_selection, hot_step_fits,
    lemma_hot_count_from_bounds, lemma_selection_budget_next, lemma_total_budget_add,
    reported_budgets, reported_sizes, result_of, selection_budget, total_budget, FilterResult,
};
use crate::selection::{
    claimed, claimed_by, law_claimed_are_the_overlapping, law_selection_grows, lemma_claim_next,
    lemma_claimed_by, lemma_claimed_len, lemma_filter_contains, lemma_nothing_claimed, overlaps_any,
    selection, unclaimed,
};
use vstd::prelude::*;

verus! {

/// The budget of a selection does not fall as level 0 files are added.
pub proof fn law_selection_budget_grows(
    columns: Seq<ColumnTypeCount>,
    level_0: Seq<CompactorParquetFile>,
    level_1: Seq<CompactorParquetFile>,
    m: int,
    n: int,
)
    requires
        0 <= m <= n <= level_0.len(),
    ensures
        selection_budget(columns, level_0, level_1, m) <= selection_budget(
            columns,
            level_0,
            level_1,
            n,
        ),
    decreases n - m,
{
    if m < n {
        law_selection_budget_grows(columns, level_0, level_1, m, n - 1);
        lemma_selection_budget_next(columns, level_0, level_1, n - 1);
    }
}

/// A hot partition has as many level 0 files selected as the budget allows: the first `m` of them
/// can be compacted, with the level 1 files that overlap them, in `max_bytes` of memory exactly
/// when no more than the selected ones are taken.
pub proof fn law_hot_count_is_the_greatest_within_budget(
    columns: Seq<ColumnTypeCount>,
    level_0: Seq<CompactorParquetFile>,
    level_1: Seq<CompactorParquetFile>,
    max_bytes: u64,
    m: int,
)
    requires
        0 <= m <= level_0.len(),
    ensures
        0 <= hot_count(columns, level_0, level_1, max_bytes) <= level_0.len(),
        selection_budget(columns, level_0, level_1, m) <= max_bytes <==> m <= hot_count(
            columns,
            level_0,
            level_1,
            max_bytes,
        ),
{
    let n = hot_count(columns, level_0, level_1, max_bytes);
    assert(selection(level_0, level_1, 0) =~= Seq::empty());
    lemma_hot_count_from_bounds(columns, level_0, level_1, max_bytes, 0);
    lemma_hot_count_from_stops(columns, level_0, level_1, max_bytes, 0);
    if m <= n {
        law_selection_budget_grows(columns, level_0, level_1, m, n);
    } else {
        law_selection_budget_grows(columns, level_0, level_1, n + 1, m);
    }
}

/// The selected files are within the budget, and would not be with one level 0 file more.
proof fn lemma_hot_count_from_stops(
    columns: Seq<ColumnTypeCount>,
    level_0: Seq<CompactorParquetFile>,
    level_1: Seq<CompactorParquetFile>,
    max_bytes: u64,
    n: int,
)
    requires
        0 <= n <= level_0.len(),
        selection_budget(columns, level_0, level_1, n) <= max_bytes,
    ensures
        ({
            let count = hot_count_from(columns, level_0, level_1, max_bytes, n);
            &&& selection_budget(columns, level_0, level_1, count) <= max_bytes
            &&& count < level_0.len() ==> selection_budget(columns, level_0, level_1, count + 1)
                > max_bytes
        }),
    decreases level_0.len() - n,
{
    if n < level_0.len() && selection_budget(columns, level_0, level_1, n + 1) <= max_bytes {
        lemma_hot_count_from_stops(columns, level_0, level_1, max_bytes, n + 1);
    }
}

/// A larger budget selects no fewer level 0 files, and keeps the files that a smaller one selects.
pub proof fn law_hot_count_grows_with_the_budget(
    columns: Seq<ColumnTypeCount>,
    level_0: Seq<CompactorParquetFile>,
    level_1: Seq<CompactorParquetFile>,
    smaller: u64,
    larger: u64,
)
    requires
        smaller <= larger,
    ensures
        ({
            let m = hot_count(columns, level_0, level_1, smaller);
            let n = hot_count(columns, level_0, level_1, larger);
            &&& m <= n
            &&& claimed(level_0, level_1, m).is_prefix_of(claimed(level_0, level_1, n))
            &&& level_0.take(m).is_prefix_of(level_0.take(n))
        }),
        forall|f: CompactorParquetFile| #[trigger]
            hot_selection(columns, level_0, level_1, smaller).files.contains(f) ==> hot_selection(
                columns,
                level_0,
                level_1,
                larger,
            ).files.contains(f),
{
    let m = hot_count(columns, level_0, level_1, smaller);
    let n = hot_count(columns, level_0, level_1, larger);
    lemma_hot_count_from_bounds(columns, level_0, level_1, smaller, 0);
    law_hot_count_is_the_greatest_within_budget(columns, level_0, level_1, smaller, m);
    law_hot_count_is_the_greatest_within_budget(columns, level_0, level_1, larger, m);
    law_selection_grows(level_0, level_1, m, n);
    law_selection_budget_grows(columns, level_0, level_1, m, n);
}

/// The result of a selection in a hot partition tells which case it is: there was nothing to
/// compact, the budget could not be estimated or all files together need no memory, the first
/// files that need memory need more than `max_bytes`, or there are files to compact within it.
pub proof fn law_hot_result(
    columns: Seq<ColumnTypeCount>,
    level_0: Seq<CompactorParquetFile>,
    level_1: Seq<CompactorParquetFile>,
    max_bytes: u64,
)
    ensures
        ({
            let selected = hot_selection(columns, level_0, level_1, max_bytes);
            let n = hot_count(columns, level_0, level_1, max_bytes);
            let result = result_of(selected.files.len(), selected.budget_bytes);
            let estimable = level_0.len() > 0 && first_invalid_code(columns) is None;
            let all = selection_budget(columns, level_0, level_1, level_0.len() as int);
            let within = selection_budget(columns, level_0, level_1, n) > 0;
            &&& result is NothingToCompact <==> level_0.len() == 0
            &&& result is ErrorEstimatingBudget <==> level_0.len() > 0 && (first_invalid_code(
                columns,
            ) is Some || all == 0)
            &&& result is OverBudget <==> estimable && all > 0 && !within
            &&& result is Proceeed <==> estimable && within
            &&& result is OverBudget ==> selected.budget_bytes > max_bytes
            &&& result is Proceeed ==> {
                &&& 0 < selected.budget_bytes <= max_bytes
                &&& selected.budget_bytes == total_budget(columns, selected.files)
                &&& n > 0
            }
        }),
{
    let n = hot_count(columns, level_0, level_1, max_bytes);
    let len = level_0.len() as int;
    lemma_hot_count_from_bounds(columns, level_0, level_1, max_bytes, 0);
    law_hot_count_is_the_greatest_within_budget(columns, level_0, level_1, max_bytes, n);
    law_hot_count_is_the_greatest_within_budget(columns, level_0, level_1, max_bytes, len);
    law_selection_budget_grows(columns, level_0, level_1, n, len);
    if n < len {
        law_hot_count_is_the_greatest_within_budget(columns, level_0, level_1, max_bytes, n + 1);
    }
    assert(selection(level_0, level_1, 0) =~= Seq::empty());
}

/// The claimed and the unclaimed level 1 files together need what all level 1 files need.
proof fn lemma_claimed_budget(
    columns: Seq<ColumnTypeCount>,
    level_0: Seq<CompactorParquetFile>,
    level_1: Seq<CompactorParquetFile>,
    n: int,
)
    requires
        0 <= n <= level_0.len(),
    ensures
        total_budget(columns, claimed(level_0, level_1, n)) + total_budget(
            columns,
            unclaimed(level_0, level_1, n),
        ) == total_budget(columns, level_1),
    decreases n,
{
    if n == 0 {
        lemma_nothing_claimed(level_0, level_1);
    } else {
        lemma_claimed_budget(columns, level_0, level_1, n - 1);
        lemma_claim_next(level_0, level_1, n - 1);
        lemma_total_budget_splits(
            columns,
            unclaimed(level_0, level_1, n - 1),
            |f: CompactorParquetFile| f.overlaps(level_0[n - 1]),
            |f: CompactorParquetFile| !f.overlaps(level_0[n - 1]),
        );
        lemma_total_budget_add(
            columns,
            claimed(level_0, level_1, n - 1),
            claimed_by(level_0, level_1, n - 1),
        );
    }
}

/// The files that meet a condition and those that do not together need what all of them need.
proof fn lemma_total_budget_splits(
    columns: Seq<ColumnTypeCount>,
    files: Seq<CompactorParquetFile>,
    p: spec_fn(CompactorParquetFile) -> bool,
    not_p: spec_fn(CompactorParquetFile) -> bool,
)
    requires
        forall|f: CompactorParquetFile| #[trigger] p(f) != not_p(f),
    ensures
        total_budget(columns, files.filter(p)) + total_budget(columns, files.filter(not_p))
            == total_budget(columns, files),
    decreases files.len(),
{
    reveal(Seq::filter);
    if files.len() > 0 {
        lemma_total_budget_splits(columns, files.drop_last(), p, not_p);
        assert(p(files.last()) != not_p(files.last()));
        let kept = files.drop_last().filter(p);
        let left = files.drop_last().filter(not_p);
        assert(kept.push(files.last()).drop_last() =~= kept);
        assert(left.push(files.last()).drop_last() =~= left);
    }
}

/// The selection in a hot partition stays within 64-bit numbers if the estimate for each file does
/// and the budget of all files together does.
pub proof fn law_hot_filter_fits_if_the_budgets_do(
    columns: Seq<ColumnTypeCount>,
    level_0: Seq<CompactorParquetFile>,
    level_1: Seq<CompactorParquetFile>,
    max_bytes: u64,
)
    requires
        forall|i: int|
            0 <= i < level_0.len() ==> estimate_fits(columns, #[trigger] level_0[i].row_count),
        forall|i: int|
            0 <= i < level_1.len() ==> estimate_fits(columns, #[trigger] level_1[i].row_count),
        total_budget(columns, level_0) + total_budget(columns, level_1) <= u64::MAX,
    ensures
        hot_filter_fits(columns, level_0, level_1, max_bytes),
{
    assert forall|i: int| 0 <= i < level_0.len() implies #[trigger] hot_step_fits(
        columns,
        level_0,
        level_1,
        i,
    ) by {
        let with_it = claimed_by(level_0, level_1, i);
        assert forall|k: int| 0 <= k < with_it.len() implies estimate_fits(
            columns,
            #[trigger] with_it[k].row_count,
        ) by {
            lemma_filter_contains(
                level_1,
                |f: CompactorParquetFile| !overlaps_any(f, level_0, i) && f.overlaps(level_0[i]),
                with_it[k],
            );
            assert(with_it.contains(with_it[k]));
            let j = choose|j: int| 0 <= j < level_1.len() && level_1[j] == with_it[k];
            assert(estimate_fits(columns, level_1[j].row_count));
        }
        lemma_claimed_budget(columns, level_0, level_1, i + 1);
        lemma_total_budget_add(
            columns,
            claimed(level_0, level_1, i + 1),
            level_0.take(i + 1),
        );
        lemma_total_budget_add(columns, level_0.take(i + 1), level_0.skip(i + 1));
        assert(level_0.take(i + 1) + level_0.skip(i + 1) =~= level_0);
    }
}

/// What compacting files needs: nothing for no files, for one file the estimate for its rows, read
/// as an unsigned number, and for two groups of files what both of them need.
pub proof fn law_budget_of_files(
    columns: Seq<ColumnTypeCount>,
    file: CompactorParquetFile,
    a: Seq<CompactorParquetFile>,
    b: Seq<CompactorParquetFile>,
)
    ensures
        total_budget(columns, Seq::empty()) == 0,
        total_budget(columns, a + b) == total_budget(columns, a) + total_budget(columns, b),
        ({
            let bytes = arrow_bytes(columns, file.row_count);
            &&& 0 <= bytes <= i64::MAX ==> total_budget(columns, seq![file]) == bytes
            &&& i64::MIN <= bytes < 0 ==> total_budget(columns, seq![file]) == bytes
                + 0x1_0000_0000_0000_0000
        }),
{
    lemma_total_budget_add(columns, a, b);
    assert(seq![file].drop_last() =~= Seq::empty());
}

/// Some number of level 0 files is the largest that can be compacted within the budget, together
/// with the level 1 files that overlap them.
pub proof fn law_some_selection_is_the_largest_within_budget(
    columns: Seq<ColumnTypeCount>,
    level_0: Seq<CompactorParquetFile>,
    level_1: Seq<CompactorParquetFile>,
    max_bytes: u64,
)
    ensures
        exists|k: int|
            0 <= k <= level_0.len() && total_budget(
                columns,
                #[trigger] selection(level_0, level_1, k),
            ) <= max_bytes && (k < level_0.len() ==> total_budget(
                columns,
                selection(level_0, level_1, k + 1),
            ) > max_bytes),
{
    let k = hot_count(columns, level_0, level_1, max_bytes);
    lemma_hot_count_from_bounds(columns, level_0, level_1, max_bytes, 0);
    law_hot_count_is_the_greatest_within_budget(columns, level_0, level_1, max_bytes, k);
    if k < level_0.len() {
        law_hot_count_is_the_greatest_within_budget(columns, level_0, level_1, max_bytes, k + 1);
    }
    assert(total_budget(columns, selection(level_0, level_1, k)) <= max_bytes);
}

/// The files that come out of a hot partition. Without level 0 files there are none. Where a code
/// is not that of a column type, it is the first level 0 file. Otherwise, with `k` for the largest
/// number of level 0 files that can be compacted within the budget, together with the level 1
/// files that overlap them, it is all of these files, with what they need, unless they need
/// nothing and there are more level 0 files: then there are no files, but what they need with one
/// level 0 file more.
pub proof fn law_hot_selection_is_the_largest_within_budget(
    columns: Seq<ColumnTypeCount>,
    level_0: Seq<CompactorParquetFile>,
    level_1: Seq<CompactorParquetFile>,
    max_bytes: u64,
    k: int,
)
    requires
        0 <= k <= level_0.len(),
        total_budget(columns, selection(level_0, level_1, k)) <= max_bytes,
        k < level_0.len() ==> total_budget(columns, selection(level_0, level_1, k + 1)) > max_bytes,
    ensures
        ({
            let out = hot_selection(columns, level_0, level_1, max_bytes);
            let valid = forall|i: int|
                0 <= i < columns.len() ==> 1 <= (#[trigger] columns[i]).col_type <= 7;
            let need = total_budget(columns, selection(level_0, level_1, k));
            &&& level_0.len() == 0 ==> out.files.len() == 0 && out.budget_bytes == 0
            &&& level_0.len() > 0 && !valid ==> out.files == seq![level_0[0]] && out.budget_bytes
                == 0
            &&& level_0.len() > 0 && valid && (need > 0 || k == level_0.len()) ==> out.files
                == selection(level_0, level_1, k) && out.budget_bytes == need
            &&& level_0.len() > 0 && valid && need == 0 && k < level_0.len() ==> out.files.len()
                == 0 && out.budget_bytes == total_budget(
                columns,
                selection(level_0, level_1, k + 1),
            )
        }),
{
    lemma_largest_is_the_count(columns, level_0, level_1, max_bytes, k);
    law_first_invalid_code(columns, 0);
}

/// The largest number of level 0 files within the budget is the one that is selected.
proof fn lemma_largest_is_the_count(
    columns: Seq<ColumnTypeCount>,
    level_0: Seq<CompactorParquetFile>,
    level_1: Seq<CompactorParquetFile>,
    max_bytes: u64,
    k: int,
)
    requires
        0 <= k <= level_0.len(),
        total_budget(columns, selection(level_0, level_1, k)) <= max_bytes,
        k < level_0.len() ==> total_budget(columns, selection(level_0, level_1, k + 1)) > max_bytes,
    ensures
        hot_count(columns, level_0, level_1, max_bytes) == k,
{
    law_hot_count_is_the_greatest_within_budget(columns, level_0, level_1, max_bytes, k);
    if k < level_0.len() {
        law_hot_count_is_the_greatest_within_budget(columns, level_0, level_1, max_bytes, k + 1);
    }
}

/// Whatever can be compacted within the budget comes out of a hot partition: where the first `m`
/// level 0 files and the level 1 files that overlap them need some memory, but no more than
/// `max_bytes`, all of them are among the files that come out, which need no less than they do, and
/// no more than `max_bytes` either.
pub proof fn law_files_within_budget_come_out(
    columns: Seq<ColumnTypeCount>,
    level_0: Seq<CompactorParquetFile>,
    level_1: Seq<CompactorParquetFile>,
    max_bytes: u64,
    m: int,
)
    requires
        0 <= m <= level_0.len(),
        forall|i: int| 0 <= i < columns.len() ==> 1 <= (#[trigger] columns[i]).col_type <= 7,
        total_budget(columns, selection(level_0, level_1, m)) <= max_bytes,
        total_budget(columns, selection(level_0, level_1, m)) > 0,
    ensures
        ({
            let out = hot_selection(columns, level_0, level_1, max_bytes);
            &&& forall|i: int| 0 <= i < m ==> out.files.contains(#[trigger] level_0[i])
            &&& forall|i: int|
                0 <= i < level_1.len() && (exists|j: int|
                    0 <= j < m && level_1[i].overlaps(#[trigger] level_0[j]))
                    ==> out.files.contains(#[trigger] level_1[i])
            &&& total_budget(columns, selection(level_0, level_1, m)) <= out.budget_bytes
                <= max_bytes
            &&& out.budget_bytes == total_budget(columns, out.files)
        }),
{
    let n = hot_count(columns, level_0, level_1, max_bytes);
    let out = hot_selection(columns, level_0, level_1, max_bytes);
    law_first_invalid_code(columns, 0);
    assert(selection(level_0, level_1, 0) =~= Seq::empty());
    lemma_hot_count_from_bounds(columns, level_0, level_1, max_bytes, 0);
    law_hot_count_is_the_greatest_within_budget(columns, level_0, level_1, max_bytes, m);
    law_hot_count_is_the_greatest_within_budget(columns, level_0, level_1, max_bytes, n);
    law_selection_budget_grows(columns, level_0, level_1, m, n);
    law_claimed_are_the_overlapping(level_0, level_1, n);
    let with = claimed(level_0, level_1, n);
    assert(out.files == with + level_0.take(n));
    assert forall|i: int| 0 <= i < m implies out.files.contains(#[trigger] level_0[i]) by {
        assert(out.files[with.len() + i] == level_0[i]);
    }
    assert forall|i: int|
        0 <= i < level_1.len() && (exists|j: int|
            0 <= j < m && level_1[i].overlaps(#[trigger] level_0[j])) implies out.files.contains(
        #[trigger] level_1[i],
    ) by {
        let j = choose|j: int| 0 <= j < m && level_1[i].overlaps(#[trigger] level_0[j]);
        assert(0 <= j < n && level_1[i].overlaps(level_0[j]));
        assert(level_1.contains(level_1[i]));
        assert(with.contains(level_1[i]));
        let p = choose|p: int| 0 <= p < with.len() && with[p] == level_1[i];
        assert(out.files[p] == level_1[i]);
    }
}

/// Where a hot partition is over budget, what it says it needs is the least budget with which there
/// are files to compact: with less there are none, and with as much or more there are.
pub proof fn law_over_budget_names_the_least_budget(
    columns: Seq<ColumnTypeCount>,
    level_0: Seq<CompactorParquetFile>,
    level_1: Seq<CompactorParquetFile>,
    max_bytes: u64,
    other_max_bytes: u64,
)
    requires
        hot_selection(columns, level_0, level_1, max_bytes).files.len() == 0,
        hot_selection(columns, level_0, level_1, max_bytes).budget_bytes > 0,
    ensures
        ({
            let out = hot_selection(columns, level_0, level_1, max_bytes);
            let other = hot_selection(columns, level_0, level_1, other_max_bytes);
            &&& out.budget_bytes > max_bytes
            &&& other.files.len() > 0 <==> other_max_bytes >= out.budget_bytes
            &&& other_max_bytes >= out.budget_bytes ==> other.budget_bytes >= out.budget_bytes
            &&& other_max_bytes < out.budget_bytes ==> other.budget_bytes == out.budget_bytes
        }),
{
    let n = hot_count(columns, level_0, level_1, max_bytes);
    let m = hot_count(columns, level_0, level_1, other_max_bytes);
    assert(selection(level_0, level_1, 0) =~= Seq::empty());
    lemma_hot_count_from_bounds(columns, level_0, level_1, max_bytes, 0);
    lemma_hot_count_from_bounds(columns, level_0, level_1, other_max_bytes, 0);
    law_hot_result(columns, level_0, level_1, max_bytes);
    law_hot_result(columns, level_0, level_1, other_max_bytes);
    law_hot_count_is_the_greatest_within_budget(columns, level_0, level_1, max_bytes, n + 1);
    law_hot_count_is_the_greatest_within_budget(columns, level_0, level_1, other_max_bytes, n);
    law_hot_count_is_the_greatest_within_budget(columns, level_0, level_1, other_max_bytes, n + 1);
    if other_max_bytes >= selection_budget(columns, level_0, level_1, n + 1) {
        law_selection_budget_grows(columns, level_0, level_1, n + 1, m);
    }
}

/// What is reported on a hot partition: nothing, unless its files are selected within the budget.
/// Then it is, for each level, how many of the considered files are selected and how many are not,
/// and of each selected file the size and the estimate for its rows, both read as unsigned numbers.
pub proof fn law_hot_report(
    columns: Seq<ColumnTypeCount>,
    level_0: Seq<CompactorParquetFile>,
    level_1: Seq<CompactorParquetFile>,
    max_bytes: u64,
    k: int,
)
    requires
        0 <= k <= level_0.len(),
        total_budget(columns, selection(level_0, level_1, k)) <= max_bytes,
        k < level_0.len() ==> total_budget(columns, selection(level_0, level_1, k + 1)) > max_bytes,
    ensures
        ({
            let out = hot_selection(columns, level_0, level_1, max_bytes);
            let valid = forall|i: int|
                0 <= i < columns.len() ==> 1 <= (#[trigger] columns[i]).col_type <= 7;
            let files = selection(level_0, level_1, k);
            let within = level_0.len() > 0 && valid && (total_budget(columns, files) > 0 || k
                == level_0.len());
            let with = files.len() - k;
            &&& !within ==> out.file_observations.len() == 0 && out.byte_series.len() == 0
            &&& within ==> {
                &&& 0 <= with <= level_1.len()
                &&& out.file_observations == seq![
                    ObservationView {
                        attributes: seq![
                            ("compaction_level"@, "0"@),
                            ("status"@, "selected_for_compaction"@),
                        ],
                        value: k as nat,
                    },
                    ObservationView {
                        attributes: seq![
                            ("compaction_level"@, "0"@),
                            ("status"@, "not_selected_for_compaction"@),
                        ],
                        value: (level_0.len() - k) as nat,
                    },
                    ObservationView {
                        attributes: seq![
                            ("compaction_level"@, "1"@),
                            ("status"@, "selected_for_compaction"@),
                        ],
                        value: with as nat,
                    },
                    ObservationView {
                        attributes: seq![
                            ("compaction_level"@, "1"@),
                            ("status"@, "not_selected_for_compaction"@),
                        ],
                        value: (level_1.len() - with) as nat,
                    },
                ]
                &&& out.byte_series.len() == 4
                &&& out.byte_series[0].attributes == seq![("file_size_compaction_level"@, "0"@)]
                &&& out.byte_series[1].attributes == seq![("file_size_compaction_level"@, "1"@)]
                &&& out.byte_series[2].attributes == seq![
                    ("file_estimated_compacting_budget_compaction_level"@, "0"@),
                ]
                &&& out.byte_series[3].attributes == seq![
                    ("file_estimated_compacting_budget_compaction_level"@, "1"@),
                ]
                &&& out.byte_series[0].values.len() == k
                &&& out.byte_series[1].values.len() == with
                &&& out.byte_series[2].values.len() == k
                &&& out.byte_series[3].values.len() == with
                &&& forall|i: int|
                    #![trigger out.byte_series[0].values[i]]
                    0 <= i < k ==> out.byte_series[0].values[i] == (
                    if level_0[i].file_size_bytes >= 0 {
                        level_0[i].file_size_bytes as int
                    } else {
                        level_0[i].file_size_bytes + 0x1_0000_0000_0000_0000
                    })
                &&& forall|i: int|
                    #![trigger out.byte_series[1].values[i]]
                    0 <= i < with ==> out.byte_series[1].values[i] == (
                    if files[i].file_size_bytes >= 0 {
                        files[i].file_size_bytes as int
                    } else {
                        files[i].file_size_bytes + 0x1_0000_0000_0000_0000
                    })
                &&& forall|i: int|
                    #![trigger out.byte_series[2].values[i]]
                    0 <= i < k && i64::MIN <= arrow_bytes(columns, level_0[i].row_count) <= i64::MAX
                        ==> out.byte_series[2].values[i] == (if arrow_bytes(
                        columns,
                        level_0[i].row_count,
                    ) >= 0 {
                        arrow_bytes(columns, level_0[i].row_count)
                    } else {
                        arrow_bytes(columns, level_0[i].row_count) + 0x1_0000_0000_0000_0000
                    })
                &&& forall|i: int|
                    #![trigger out.byte_series[3].values[i]]
                    0 <= i < with && i64::MIN <= arrow_bytes(columns, files[i].row_count)
                        <= i64::MAX ==> out.byte_series[3].values[i] == (if arrow_bytes(
                        columns,
                        files[i].row_count,
                    ) >= 0 {
                        arrow_bytes(columns, files[i].row_count)
                    } else {
                        arrow_bytes(columns, files[i].row_count) + 0x1_0000_0000_0000_0000
                    })
            }
        }),
{
    lemma_largest_is_the_count(columns, level_0, level_1, max_bytes, k);
    law_first_invalid_code(columns, 0);
    lemma_claimed_len(level_0, level_1, k);
    let with = claimed(level_0, level_1, k);
    law_file_observations(level_0.len(), level_1.len(), k as nat, with.len());
    law_byte_series(
        reported_sizes(level_0.take(k)),
        reported_sizes(with),
        reported_budgets(columns, level_0.take(k)),
        reported_budgets(columns, with),
    );
}

/// The sizes of files are reported one for each file, in their order, and read as unsigned numbers.
pub proof fn law_reported_sizes(files: Seq<CompactorParquetFile>)
    ensures
        reported_sizes(files).len() == files.len(),
        forall|i: int|
            0 <= i < files.len() ==> (#[trigger] reported_sizes(files)[i]) == (
            if files[i].file_size_bytes >= 0 {
                files[i].file_size_bytes as int
            } else {
                files[i].file_size_bytes + 0x1_0000_0000_0000_0000
            }),
{
}

/// A selection in a hot partition can be made exactly when 64-bit numbers can hold what it adds up:
/// without level 0 files always, where a code is not that of a column type as far as the first file
/// is estimated, and otherwise the estimates for, and the budget with, each level 0 file up to and
/// with the first one that is over budget, and the level 1 files that go with it.
pub proof fn law_hot_filter_fits_exactly(
    columns: Seq<ColumnTypeCount>,
    level_0: Seq<CompactorParquetFile>,
    level_1: Seq<CompactorParquetFile>,
    max_bytes: u64,
)
    ensures
        ({
            let valid = forall|i: int|
                0 <= i < columns.len() ==> 1 <= (#[trigger] columns[i]).col_type <= 7;
            let fits = hot_filter_fits(columns, level_0, level_1, max_bytes);
            &&& level_0.len() == 0 ==> fits
            &&& level_0.len() > 0 && !valid ==> (fits <==> estimate_fits(
                columns,
                level_0[0].row_count,
            ))
            &&& level_0.len() > 0 && valid ==> (fits <==> forall|i: int|
                #![trigger level_0[i]]
                0 <= i < level_0.len() && total_budget(columns, selection(level_0, level_1, i))
                    <= max_bytes ==> {
                    let with = level_1.filter(
                        |f: CompactorParquetFile|
                            f.overlaps(level_0[i]) && forall|j: int|
                                0 <= j < i ==> !f.overlaps(#[trigger] level_0[j]),
                    );
                    &&& estimate_fits(columns, level_0[i].row_count)
                    &&& forall|k: int|
                        0 <= k < with.len() ==> estimate_fits(columns, #[trigger] with[k].row_count)
                    &&& total_budget(columns, selection(level_0, level_1, i + 1)) <= u64::MAX
                })
        }),
{
    law_first_invalid_code(columns, 0);
    if level_0.len() > 0 && first_invalid_code(columns) is None {
        assert forall|i: int| 0 <= i < level_0.len() implies {
            &&& total_budget(columns, selection(level_0, level_1, i)) <= max_bytes <==> i
                <= hot_count(columns, level_0, level_1, max_bytes)
            &&& #[trigger] claimed_by(level_0, level_1, i) == level_1.filter(
                |f: CompactorParquetFile|
                    f.overlaps(level_0[i]) && forall|j: int|
                        0 <= j < i ==> !f.overlaps(#[trigger] level_0[j]),
            )
        } by {
            law_hot_count_is_the_greatest_within_budget(columns, level_0, level_1, max_bytes, i);
            lemma_claimed_by(level_0, level_1, i);
        }
        if hot_filter_fits(columns, level_0, level_1, max_bytes) {
            assert forall|i: int|
                #![trigger level_0[i]]
                0 <= i < level_0.len() && total_budget(columns, selection(level_0, level_1, i))
                    <= max_bytes implies hot_step_fits(columns, level_0, level_1, i) by {
                let with = claimed_by(level_0, level_1, i);
                assert(hot_step_fits(columns, level_0, level_1, i));
            }
        } else {
            let i = choose|i: int|
                0 <= i < level_0.len() && i <= hot_count(columns, level_0, level_1, max_bytes)
                    && !#[trigger] hot_step_fits(columns, level_0, level_1, i);
            let with = claimed_by(level_0, level_1, i);
            let f = level_0[i];
        }
    }
}

/// What came of a selection, by whether there are files and whether they need any memory.
pub proof fn law_result_goes_by_files_and_budget(file_count: nat, budget_bytes: nat)
    ensures
        result_of(file_count, budget_bytes) == FilterResult::NothingToCompact <==> file_count == 0
            && budget_bytes == 0,
        result_of(file_count, budget_bytes) == FilterResult::ErrorEstimatingBudget <==> file_count
            > 0 && budget_bytes == 0,
        result_of(file_count, budget_bytes) == FilterResult::OverBudget <==> file_count == 0
            && budget_bytes > 0,
        result_of(file_count, budget_bytes) == FilterResult::Proceeed <==> file_count > 0
            && budget_bytes > 0,
{
}

} // verus!
