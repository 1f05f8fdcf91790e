//! Whether a selection can be made in 64-bit numbers, decided before it is made.

use crate::arrow_estimate::{
    can_estimate, estimate_arrow_bytes_for_file, estimate_fits, first_invalid_code,
};
use crate::column_type::ColumnTypeCount;
use crate::parquet_file::{CompactorParquetFile, ParquetFilesForCompaction};
use crate::parquet_file_filtering::{
    cold_bytes, cold_count, cold_count_from, cold_filter_fits, cold_step_fits, file_budget,
    hot_count, hot_count_from, hot_filter_fits, hot_step_fits, lemma_cold_count_from_bounds,
    lemma_hot_count_from_bounds, lemma_selection_budget_next, lemma_total_budget_add,
    selection_budget, size_sum, total_budget,
};
use crate::selection::{
    claimed, lemma_claim_next, lemma_claimed_len, lemma_nothing_claimed, partition_by_overlap,
    selection, unclaimed,
};
use crate::wrapping::{is_i64, to_unsigned};
use vstd::prelude::*;

verus! {

/// The budget `total` with that of another file added, if it can be estimated and 64-bit numbers
/// can hold the sum.
fn plus_budget(total: u64, column_types: &[ColumnTypeCount], file: &CompactorParquetFile) -> (res:
    Option<u64>)
    requires
        first_invalid_code(column_types@) is None,
    ensures
        match res {
            Some(bytes) => estimate_fits(column_types@, file.row_count) && bytes == total
                + file_budget(column_types@, *file),
            None => !estimate_fits(column_types@, file.row_count) || total + file_budget(
                column_types@,
                *file,
            ) > u64::MAX,
        },
{
    if !can_estimate(column_types, file.row_count) {
        return None;
    }
    match estimate_arrow_bytes_for_file(column_types, file.row_count) {
        Ok(bytes) => total.checked_add(bytes),
        Err(_) => None,
    }
}

/// The budget `total` with those of other files added, if they can be estimated and 64-bit numbers
/// can hold the sum.
fn plus_budgets(
    total: u64,
    column_types: &[ColumnTypeCount],
    files: &Vec<CompactorParquetFile>,
) -> (res: Option<u64>)
    requires
        first_invalid_code(column_types@) is None,
    ensures
        res is Some <==> (forall|k: int|
            0 <= k < files@.len() ==> estimate_fits(column_types@, #[trigger] files@[k].row_count))
            && total + total_budget(column_types@, files@) <= u64::MAX,
        res matches Some(bytes) ==> bytes == total + total_budget(column_types@, files@),
{
    let mut sum: u64 = total;
    for k in 0..files.len()
        invariant
            first_invalid_code(column_types@) is None,
            forall|j: int|
                0 <= j < k ==> estimate_fits(column_types@, #[trigger] files@[j].row_count),
            sum == total + total_budget(column_types@, files@.take(k as int)),
    {
        proof {
            assert(files@.take(k + 1).drop_last() =~= files@.take(k as int));
            lemma_total_budget_add(column_types@, files@.take(k + 1), files@.skip(k + 1));
            assert(files@.take(k + 1) + files@.skip(k + 1) =~= files@);
        }
        match plus_budget(sum, column_types, &files[k]) {
            Some(bytes) => {
                sum = bytes;
            },
            None => {
                assert(!estimate_fits(column_types@, files@[k as int].row_count) || total
                    + total_budget(column_types@, files@) > u64::MAX);
                return None;
            },
        }
    }
    assert(files@.take(files@.len() as int) =~= files@);
    Some(sum)
}

/// Whether the files of a hot partition can be selected in 64-bit numbers.
pub fn can_filter_hot(
    files: &ParquetFilesForCompaction,
    max_bytes: u64,
    column_types: &[ColumnTypeCount],
) -> (res: bool)
    ensures
        res == hot_filter_fits(column_types@, files.level_0@, files.level_1@, max_bytes),
{
    let level_0 = &files.level_0;
    if level_0.is_empty() {
        return true;
    }
    let ghost level_1 = files.level_1@;
    let ghost count = hot_count(column_types@, level_0@, level_1, max_bytes);
    proof {
        lemma_hot_count_from_bounds(column_types@, level_0@, level_1, max_bytes, 0);
        lemma_nothing_claimed(level_0@, level_1);
        assert(selection(level_0@, level_1, 0) =~= Seq::empty());
    }
    if !can_estimate(column_types, level_0[0].row_count) {
        assert(!hot_step_fits(column_types@, level_0@, level_1, 0));
        return false;
    }
    if estimate_arrow_bytes_for_file(column_types, level_0[0].row_count).is_err() {
        return true;
    }

    let mut remaining_level_1: Vec<CompactorParquetFile> = files.level_1.clone();
    assert(remaining_level_1@ =~= level_1);
    let mut total: u64 = 0;
    for n in 0..level_0.len()
        invariant
            0 < level_0@.len(),
            first_invalid_code(column_types@) is None,
            level_0@ == files.level_0@,
            level_1 == files.level_1@,
            count == hot_count(column_types@, level_0@, level_1, max_bytes),
            hot_count_from(column_types@, level_0@, level_1, max_bytes, n as int) == count,
            forall|i: int|
                0 <= i < n ==> #[trigger] hot_step_fits(column_types@, level_0@, level_1, i),
            remaining_level_1@ == unclaimed(level_0@, level_1, n as int),
            total == selection_budget(column_types@, level_0@, level_1, n as int),
    {
        proof {
            lemma_hot_count_from_bounds(column_types@, level_0@, level_1, max_bytes, n as int);
            lemma_selection_budget_next(column_types@, level_0@, level_1, n as int);
            lemma_claim_next(level_0@, level_1, n as int);
        }
        let level_0_file: CompactorParquetFile = level_0[n];
        let (overlaps, non_overlaps) = partition_by_overlap(&remaining_level_1, &level_0_file);
        let with_them: Option<u64> = match plus_budget(total, column_types, &level_0_file) {
            Some(bytes) => plus_budgets(bytes, column_types, &overlaps),
            None => None,
        };
        assert(with_them is Some <==> hot_step_fits(column_types@, level_0@, level_1, n as int));
        match with_them {
            Some(bytes) => {
                if bytes > max_bytes {
                    return true;
                }
                total = bytes;
            },
            None => {
                return false;
            },
        }
        remaining_level_1 = non_overlaps;
    }
    true
}

/// The sum of the sizes of some files, if 64-bit signed numbers can hold it and the sums of the
/// first of them.
fn checked_sum_of_sizes(files: &Vec<CompactorParquetFile>) -> (res: Option<i64>)
    ensures
        res is Some <==> (forall|k: int|
            0 <= k <= files@.len() ==> is_i64(size_sum(#[trigger] files@.take(k)))),
        res matches Some(total) ==> total == size_sum(files@),
{
    let mut total: i64 = 0;
    for k in 0..files.len()
        invariant
            forall|j: int| 0 <= j <= k ==> is_i64(size_sum(#[trigger] files@.take(j))),
            total == size_sum(files@.take(k as int)),
    {
        assert(files@.take(k + 1).drop_last() =~= files@.take(k as int));
        match total.checked_add(files[k].file_size_bytes) {
            Some(sum) => {
                total = sum;
            },
            None => {
                assert(!is_i64(size_sum(files@.take(k + 1))));
                return None;
            },
        }
    }
    assert(files@.take(files@.len() as int) =~= files@);
    Some(total)
}

/// Whether the files of a cold partition can be selected in 64-bit numbers.
pub fn can_filter_cold(
    files: &ParquetFilesForCompaction,
    max_bytes: u64,
    input_file_count_threshold: usize,
) -> (res: bool)
    ensures
        res == cold_filter_fits(
            files.level_0@,
            files.level_1@,
            max_bytes,
            input_file_count_threshold,
        ),
{
    let level_0 = &files.level_0;
    let ghost level_1 = files.level_1@;
    let ghost count = cold_count(level_0@, level_1, max_bytes, input_file_count_threshold);
    let mut remaining_level_1: Vec<CompactorParquetFile> = files.level_1.clone();
    assert(remaining_level_1@ =~= level_1);
    proof {
        lemma_nothing_claimed(level_0@, level_1);
    }
    // Number of selected level 1 files, and bytes of all selected files
    let mut level_1_count: usize = 0;
    let mut total: u64 = 0;
    for n in 0..level_0.len()
        invariant
            level_0@ == files.level_0@,
            level_1 == files.level_1@,
            count == cold_count(level_0@, level_1, max_bytes, input_file_count_threshold),
            cold_count_from(level_0@, level_1, max_bytes, input_file_count_threshold, n as int)
                == count,
            forall|i: int| 0 <= i < n ==> #[trigger] cold_step_fits(level_0@, level_1, i),
            remaining_level_1@ == unclaimed(level_0@, level_1, n as int),
            level_1_count == claimed(level_0@, level_1, n as int).len(),
            total == cold_bytes(level_0@, level_1, n as int),
    {
        if n >= input_file_count_threshold || level_1_count >= input_file_count_threshold - n {
            return true;
        }
        proof {
            lemma_cold_count_from_bounds(
                level_0@,
                level_1,
                max_bytes,
                input_file_count_threshold,
                n + 1,
            );
            lemma_claim_next(level_0@, level_1, n as int);
            lemma_claimed_len(level_0@, level_1, n + 1);
            assert(files.level_1.len() == level_1.len());
        }
        let level_0_file: CompactorParquetFile = level_0[n];
        let (overlaps, non_overlaps) = partition_by_overlap(&remaining_level_1, &level_0_file);
        let with_level_0: Option<u64> = total.checked_add(
            to_unsigned(level_0_file.file_size_bytes),
        );
        let with_them: Option<u64> = match (with_level_0, checked_sum_of_sizes(&overlaps)) {
            (Some(bytes), Some(sum)) => bytes.checked_add(to_unsigned(sum)),
            _ => None,
        };
        assert(with_them is Some <==> cold_step_fits(level_0@, level_1, n as int));
        match with_them {
            Some(bytes) => {
                if bytes >= max_bytes {
                    return true;
                }
                total = bytes;
            },
            None => {
                return false;
            },
        }
        level_1_count = level_1_count + overlaps.len();
        remaining_level_1 = non_overlaps;
    }
    true
}

} // verus!
