//! What holds of every selection in a cold partition.

use crate::metrics::{law_byte_series, law_file_observations, ObservationView};
use crate::parquet_file::CompactorParquetFile;
use crate::parquet_file_filtering::{
    cold_byte_series, cold_bytes, cold_count, cold_count_from, cold_file_observations,
    cold_filter_fits, cold_step_fits, lemma_cold_count_from_bounds, reported_sizes, size_sum,
};
use crate::selection::{
    claimed, claimed_by, law_claimed_are_the_overlapping, law_selection_grows, lemma_claim_next,
    lemma_claimed_by, lemma_claimed_len, lemma_nothing_claimed, overlaps_any, selection, unclaimed,
};
use crate::wrapping::is_i64;
use vstd::prelude::*;

verus! {

/// Whether level 0 file `i` is taken, given that those before it are: fewer files than the
/// threshold are selected by then, and they have fewer bytes than the maximum, unless there are
/// none yet.
pub open spec fn takes_level_0_file(
    level_0: Seq<CompactorParquetFile>,
    level_1: Seq<CompactorParquetFile>,
    max_bytes: u64,
    input_file_count_threshold: usize,
    i: int,
) -> bool {
    &&& selection(level_0, level_1, i).len() < input_file_count_threshold
    &&& i == 0 || cold_bytes(level_0, level_1, i) < max_bytes
}

/// The selected level 0 files of a cold partition are those before the first one that is not
/// taken. As bytes and files only ever add up, that is also each one that may be taken.
pub proof fn law_cold_count_is_the_files_taken(
    level_0: Seq<CompactorParquetFile>,
    level_1: Seq<CompactorParquetFile>,
    max_bytes: u64,
    input_file_count_threshold: usize,
    i: int,
)
    requires
        0 <= i < level_0.len(),
    ensures
        0 <= cold_count(level_0, level_1, max_bytes, input_file_count_threshold) <= level_0.len(),
        takes_level_0_file(level_0, level_1, max_bytes, input_file_count_threshold, i) <==> i
            < cold_count(level_0, level_1, max_bytes, input_file_count_threshold),
{
    let n = cold_count(level_0, level_1, max_bytes, input_file_count_threshold);
    lemma_cold_count_from_bounds(level_0, level_1, max_bytes, input_file_count_threshold, 0);
    lemma_cold_count_from_stops(level_0, level_1, max_bytes, input_file_count_threshold, 0);
    if i < n {
        lemma_cold_grows(level_0, level_1, i, n - 1);
    } else {
        lemma_cold_grows(level_0, level_1, n, i);
    }
}

/// The last selected level 0 file is taken, and the one after it is not.
proof fn lemma_cold_count_from_stops(
    level_0: Seq<CompactorParquetFile>,
    level_1: Seq<CompactorParquetFile>,
    max_bytes: u64,
    input_file_count_threshold: usize,
    n: int,
)
    requires
        0 <= n <= level_0.len(),
        n == 0 || cold_bytes(level_0, level_1, n) < max_bytes,
        n > 0 ==> takes_level_0_file(
            level_0,
            level_1,
            max_bytes,
            input_file_count_threshold,
            n - 1,
        ),
    ensures
        ({
            let count = cold_count_from(
                level_0,
                level_1,
                max_bytes,
                input_file_count_threshold,
                n,
            );
            &&& count > 0 ==> takes_level_0_file(
                level_0,
                level_1,
                max_bytes,
                input_file_count_threshold,
                count - 1,
            )
            &&& count < level_0.len() ==> !takes_level_0_file(
                level_0,
                level_1,
                max_bytes,
                input_file_count_threshold,
                count,
            )
        }),
    decreases level_0.len() - n,
{
    if n < level_0.len() && selection(level_0, level_1, n).len() < input_file_count_threshold
        && cold_bytes(level_0, level_1, n + 1) < max_bytes {
        lemma_cold_count_from_stops(
            level_0,
            level_1,
            max_bytes,
            input_file_count_threshold,
            n + 1,
        );
    }
}

/// Neither the bytes nor the number of the selected files fall as level 0 files are added.
proof fn lemma_cold_grows(
    level_0: Seq<CompactorParquetFile>,
    level_1: Seq<CompactorParquetFile>,
    m: int,
    n: int,
)
    requires
        0 <= m <= n <= level_0.len(),
    ensures
        cold_bytes(level_0, level_1, m) <= cold_bytes(level_0, level_1, n),
        selection(level_0, level_1, m).len() <= selection(level_0, level_1, n).len(),
    decreases n - m,
{
    law_selection_grows(level_0, level_1, m, n);
    if m < n {
        lemma_cold_grows(level_0, level_1, m, n - 1);
    }
}

/// As long as any file may be selected, the first level 0 file is, whatever its size.
pub proof fn law_cold_takes_the_first_level_0_file(
    level_0: Seq<CompactorParquetFile>,
    level_1: Seq<CompactorParquetFile>,
    max_bytes: u64,
    input_file_count_threshold: usize,
)
    requires
        level_0.len() > 0,
    ensures
        cold_count(level_0, level_1, max_bytes, input_file_count_threshold) > 0
            <==> input_file_count_threshold > 0,
{
    law_cold_count_is_the_files_taken(level_0, level_1, max_bytes, input_file_count_threshold, 0);
}

/// All level 0 files are selected exactly when the last one is taken.
pub proof fn law_cold_takes_all_level_0_files(
    level_0: Seq<CompactorParquetFile>,
    level_1: Seq<CompactorParquetFile>,
    max_bytes: u64,
    input_file_count_threshold: usize,
)
    requires
        level_0.len() > 0,
    ensures
        cold_count(level_0, level_1, max_bytes, input_file_count_threshold) == level_0.len()
            <==> takes_level_0_file(
            level_0,
            level_1,
            max_bytes,
            input_file_count_threshold,
            level_0.len() - 1,
        ),
{
    law_cold_count_is_the_files_taken(
        level_0,
        level_1,
        max_bytes,
        input_file_count_threshold,
        level_0.len() - 1,
    );
}

/// Larger limits select no fewer level 0 files, and keep the files that smaller ones select.
pub proof fn law_cold_count_grows_with_the_limits(
    level_0: Seq<CompactorParquetFile>,
    level_1: Seq<CompactorParquetFile>,
    fewer_bytes: u64,
    more_bytes: u64,
    lower_threshold: usize,
    higher_threshold: usize,
)
    requires
        fewer_bytes <= more_bytes,
        lower_threshold <= higher_threshold,
    ensures
        ({
            let m = cold_count(level_0, level_1, fewer_bytes, lower_threshold);
            let n = cold_count(level_0, level_1, more_bytes, higher_threshold);
            &&& m <= n
            &&& claimed(level_0, level_1, m).is_prefix_of(claimed(level_0, level_1, n))
            &&& level_0.take(m).is_prefix_of(level_0.take(n))
            &&& forall|f: CompactorParquetFile| #[trigger]
                selection(level_0, level_1, m).contains(f) ==> selection(
                    level_0,
                    level_1,
                    n,
                ).contains(f)
        }),
{
    let m = cold_count(level_0, level_1, fewer_bytes, lower_threshold);
    let n = cold_count(level_0, level_1, more_bytes, higher_threshold);
    lemma_cold_count_from_bounds(level_0, level_1, fewer_bytes, lower_threshold, 0);
    lemma_cold_count_from_bounds(level_0, level_1, more_bytes, higher_threshold, 0);
    if m > 0 {
        law_cold_count_is_the_files_taken(level_0, level_1, fewer_bytes, lower_threshold, m - 1);
        law_cold_count_is_the_files_taken(level_0, level_1, more_bytes, higher_threshold, m - 1);
    }
    law_selection_grows(level_0, level_1, m, n);
}

/// If only one file is selected, it is the first level 0 file, and no level 1 file overlaps it: it
/// can be upgraded to level 1 as it is.
pub proof fn law_single_file_can_be_upgraded(
    level_0: Seq<CompactorParquetFile>,
    level_1: Seq<CompactorParquetFile>,
    max_bytes: u64,
    input_file_count_threshold: usize,
)
    requires
        selection(
            level_0,
            level_1,
            cold_count(level_0, level_1, max_bytes, input_file_count_threshold),
        ).len() == 1,
    ensures
        level_0.len() > 0,
        selection(
            level_0,
            level_1,
            cold_count(level_0, level_1, max_bytes, input_file_count_threshold),
        ) == seq![level_0[0]],
        forall|j: int| 0 <= j < level_1.len() ==> !(#[trigger] level_1[j]).overlaps(level_0[0]),
{
    let n = cold_count(level_0, level_1, max_bytes, input_file_count_threshold);
    lemma_cold_count_from_bounds(level_0, level_1, max_bytes, input_file_count_threshold, 0);
    assert(n == 1);
    assert(selection(level_0, level_1, n) =~= seq![level_0[0]]);
    law_claimed_are_the_overlapping(level_0, level_1, n);
    assert forall|j: int| 0 <= j < level_1.len() implies !(#[trigger] level_1[j]).overlaps(
        level_0[0],
    ) by {
        assert(!claimed(level_0, level_1, n).contains(level_1[j]));
        assert(level_1.contains(level_1[j]));
        assert(!overlaps_any(level_1[j], level_0, n));
    }
}

/// Whether no file has a negative size.
pub open spec fn sizes_are_natural(files: Seq<CompactorParquetFile>) -> bool {
    forall|i: int| 0 <= i < files.len() ==> (#[trigger] files[i]).file_size_bytes >= 0
}

/// The size of two groups of files is the sum of their sizes.
proof fn lemma_size_sum_add(a: Seq<CompactorParquetFile>, b: Seq<CompactorParquetFile>)
    ensures
        size_sum(a + b) == size_sum(a) + size_sum(b),
    decreases b.len(),
{
    if b.len() == 0 {
        assert(a + b =~= a);
    } else {
        assert((a + b).drop_last() =~= a + b.drop_last());
        lemma_size_sum_add(a, b.drop_last());
    }
}

/// The files that meet a condition and those that do not together have the size of all of them.
proof fn lemma_size_sum_splits(
    files: Seq<CompactorParquetFile>,
    p: spec_fn(CompactorParquetFile) -> bool,
    not_p: spec_fn(CompactorParquetFile) -> bool,
)
    requires
        forall|f: CompactorParquetFile| #[trigger] p(f) != not_p(f),
    ensures
        size_sum(files.filter(p)) + size_sum(files.filter(not_p)) == size_sum(files),
    decreases files.len(),
{
    reveal(Seq::filter);
    if files.len() > 0 {
        lemma_size_sum_splits(files.drop_last(), p, not_p);
        assert(p(files.last()) != not_p(files.last()));
        let kept = files.drop_last().filter(p);
        let left = files.drop_last().filter(not_p);
        assert(kept.push(files.last()).drop_last() =~= kept);
        assert(left.push(files.last()).drop_last() =~= left);
    }
}

/// The claimed and the unclaimed level 1 files together have the size of all level 1 files.
proof fn lemma_claimed_size(
    level_0: Seq<CompactorParquetFile>,
    level_1: Seq<CompactorParquetFile>,
    n: int,
)
    requires
        0 <= n <= level_0.len(),
    ensures
        size_sum(claimed(level_0, level_1, n)) + size_sum(unclaimed(level_0, level_1, n))
            == size_sum(level_1),
    decreases n,
{
    if n == 0 {
        lemma_nothing_claimed(level_0, level_1);
    } else {
        lemma_claimed_size(level_0, level_1, n - 1);
        lemma_claim_next(level_0, level_1, n - 1);
        lemma_size_sum_splits(
            unclaimed(level_0, level_1, n - 1),
            |f: CompactorParquetFile| f.overlaps(level_0[n - 1]),
            |f: CompactorParquetFile| !f.overlaps(level_0[n - 1]),
        );
        lemma_size_sum_add(claimed(level_0, level_1, n - 1), claimed_by(level_0, level_1, n - 1));
    }
}

/// Files without negative sizes have a size that is not negative, and the first of them no larger
/// a one.
proof fn lemma_size_sum_prefix(files: Seq<CompactorParquetFile>, n: int)
    requires
        sizes_are_natural(files),
        0 <= n <= files.len(),
    ensures
        0 <= size_sum(files.take(n)) <= size_sum(files),
    decreases files.len(),
{
    if n == files.len() {
        assert(files.take(n) =~= files);
        if n > 0 {
            lemma_size_sum_prefix(files.drop_last(), n - 1);
            assert(files.drop_last().take(n - 1) =~= files.drop_last());
        }
    } else {
        lemma_size_sum_prefix(files.drop_last(), n);
        assert(files.drop_last().take(n) =~= files.take(n));
    }
}

/// Of files without negative sizes, those that meet a condition have no negative sizes either, and
/// together no larger a size.
proof fn lemma_filter_sizes(
    files: Seq<CompactorParquetFile>,
    p: spec_fn(CompactorParquetFile) -> bool,
)
    requires
        sizes_are_natural(files),
    ensures
        sizes_are_natural(files.filter(p)),
        0 <= size_sum(files.filter(p)) <= size_sum(files),
    decreases files.len(),
{
    reveal(Seq::filter);
    if files.len() > 0 {
        lemma_filter_sizes(files.drop_last(), p);
        let kept = files.drop_last().filter(p);
        assert(kept.push(files.last()).drop_last() =~= kept);
        assert(files.last().file_size_bytes >= 0);
    }
}

/// Where no file has a negative size, the bytes that are held against the maximum are the size of
/// the selected files.
pub proof fn law_cold_bytes_are_the_size_of_the_selection(
    level_0: Seq<CompactorParquetFile>,
    level_1: Seq<CompactorParquetFile>,
    n: int,
)
    requires
        0 <= n <= level_0.len(),
        sizes_are_natural(level_0),
        sizes_are_natural(level_1),
    ensures
        cold_bytes(level_0, level_1, n) == size_sum(selection(level_0, level_1, n)),
    decreases n,
{
    lemma_size_sum_add(claimed(level_0, level_1, n), level_0.take(n));
    if n > 0 {
        law_cold_bytes_are_the_size_of_the_selection(level_0, level_1, n - 1);
        let before = claimed(level_0, level_1, n - 1);
        let more = claimed_by(level_0, level_1, n - 1);
        lemma_size_sum_add(before, level_0.take(n - 1));
        lemma_size_sum_add(before, more);
        assert(level_0.take(n).drop_last() =~= level_0.take(n - 1));
        assert(level_0[n - 1].file_size_bytes >= 0);
        lemma_filter_sizes(
            level_1,
            |f: CompactorParquetFile|
                !overlaps_any(f, level_0, n - 1) && f.overlaps(level_0[n - 1]),
        );
    }
}

/// The selection in a cold partition stays within 64-bit numbers if no file has a negative size and
/// the size of all files together fits one.
pub proof fn law_cold_filter_fits_if_the_sizes_do(
    level_0: Seq<CompactorParquetFile>,
    level_1: Seq<CompactorParquetFile>,
    max_bytes: u64,
    input_file_count_threshold: usize,
)
    requires
        sizes_are_natural(level_0),
        sizes_are_natural(level_1),
        size_sum(level_0) + size_sum(level_1) <= i64::MAX,
    ensures
        cold_filter_fits(level_0, level_1, max_bytes, input_file_count_threshold),
{
    lemma_cold_count_from_bounds(level_0, level_1, max_bytes, input_file_count_threshold, 0);
    assert forall|i: int| 0 <= i < level_0.len() implies #[trigger] cold_step_fits(
        level_0,
        level_1,
        i,
    ) by {
        let with_it = claimed_by(level_0, level_1, i);
        lemma_filter_sizes(
            level_1,
            |f: CompactorParquetFile| !overlaps_any(f, level_0, i) && f.overlaps(level_0[i]),
        );
        lemma_size_sum_prefix(level_0, i + 1);
        assert forall|k: int| 0 <= k <= with_it.len() implies is_i64(
            size_sum(#[trigger] with_it.take(k)),
        ) by {
            lemma_size_sum_prefix(with_it, k);
        }
        law_cold_bytes_are_the_size_of_the_selection(level_0, level_1, i + 1);
        lemma_size_sum_add(claimed(level_0, level_1, i + 1), level_0.take(i + 1));
        lemma_claimed_size(level_0, level_1, i + 1);
        lemma_filter_sizes(
            level_1,
            |f: CompactorParquetFile| !overlaps_any(f, level_0, i + 1),
        );
    }
}

/// The size of files is the sum of the sizes in their records: that of one file is the size in its
/// record, and that of two groups of files is the sum of both.
pub proof fn law_size_of_files(
    file: CompactorParquetFile,
    a: Seq<CompactorParquetFile>,
    b: Seq<CompactorParquetFile>,
)
    ensures
        size_sum(Seq::empty()) == 0,
        size_sum(seq![file]) == file.file_size_bytes,
        size_sum(a + b) == size_sum(a) + size_sum(b),
        size_sum(a) == a.fold_left(
            0int,
            |total: int, f: CompactorParquetFile| total + f.file_size_bytes,
        ),
{
    reveal_with_fuel(size_sum, 2);
    assert(seq![file].drop_last() =~= Seq::empty());
    lemma_size_sum_add(a, b);
    lemma_size_sum_is_fold(a);
}

/// Adding up sizes one by one.
proof fn lemma_size_sum_is_fold(files: Seq<CompactorParquetFile>)
    ensures
        size_sum(files) == files.fold_left(
            0int,
            |total: int, f: CompactorParquetFile| total + f.file_size_bytes,
        ),
    decreases files.len(),
{
    if files.len() > 0 {
        lemma_size_sum_is_fold(files.drop_last());
    }
}

/// With each level 0 file that is added, the bytes that are held against the maximum grow by its
/// size and by the sum of the sizes of the level 1 files that overlap it and none of the level 0
/// files before it, both read as unsigned numbers. With no level 0 file there are none.
pub proof fn law_cold_bytes_with_one_more(
    level_0: Seq<CompactorParquetFile>,
    level_1: Seq<CompactorParquetFile>,
    n: int,
)
    requires
        0 <= n < level_0.len(),
    ensures
        cold_bytes(level_0, level_1, 0) == 0,
        ({
            let size = level_0[n].file_size_bytes as int;
            let more = level_1.filter(
                |f: CompactorParquetFile|
                    f.overlaps(level_0[n]) && forall|j: int|
                        0 <= j < n ==> !f.overlaps(#[trigger] level_0[j]),
            ).fold_left(0int, |total: int, f: CompactorParquetFile| total + f.file_size_bytes);
            i64::MIN <= more <= i64::MAX ==> cold_bytes(level_0, level_1, n + 1) == cold_bytes(
                level_0,
                level_1,
                n,
            ) + (if size >= 0 {
                size
            } else {
                size + 0x1_0000_0000_0000_0000
            }) + (if more >= 0 {
                more
            } else {
                more + 0x1_0000_0000_0000_0000
            })
        }),
{
    lemma_claimed_by(level_0, level_1, n);
    lemma_size_sum_is_fold(claimed_by(level_0, level_1, n));
}

/// Where no file has a negative size, the bytes that are held against the maximum are the sizes of
/// the selected files, added up.
pub proof fn law_cold_bytes_add_up_the_sizes(
    level_0: Seq<CompactorParquetFile>,
    level_1: Seq<CompactorParquetFile>,
    n: int,
)
    requires
        0 <= n <= level_0.len(),
        forall|i: int| 0 <= i < level_0.len() ==> (#[trigger] level_0[i]).file_size_bytes >= 0,
        forall|i: int| 0 <= i < level_1.len() ==> (#[trigger] level_1[i]).file_size_bytes >= 0,
    ensures
        cold_bytes(level_0, level_1, n) == selection(level_0, level_1, n).fold_left(
            0int,
            |total: int, f: CompactorParquetFile| total + f.file_size_bytes,
        ),
{
    law_cold_bytes_are_the_size_of_the_selection(level_0, level_1, n);
    lemma_size_sum_is_fold(selection(level_0, level_1, n));
}

/// How many level 0 files a cold partition has selected: with each of them but the first, fewer
/// bytes than the maximum were selected before, and with each of them fewer files than the
/// threshold; and then there are no more of them, or the files have reached the threshold, or the
/// bytes the maximum. No other number is like that.
pub proof fn law_cold_count_stops_at_the_limits(
    level_0: Seq<CompactorParquetFile>,
    level_1: Seq<CompactorParquetFile>,
    max_bytes: u64,
    input_file_count_threshold: usize,
    n: int,
)
    ensures
        cold_count(level_0, level_1, max_bytes, input_file_count_threshold) == n <==> {
            &&& 0 <= n <= level_0.len()
            &&& forall|m: int|
                0 <= m < n ==> (#[trigger] selection(level_0, level_1, m)).len()
                    < input_file_count_threshold
            &&& forall|m: int|
                0 < m < n ==> #[trigger] cold_bytes(level_0, level_1, m) < max_bytes
            &&& n == level_0.len() || selection(level_0, level_1, n).len()
                >= input_file_count_threshold || n > 0 && cold_bytes(level_0, level_1, n)
                >= max_bytes
        },
{
    let count = cold_count(level_0, level_1, max_bytes, input_file_count_threshold);
    lemma_cold_count_from_bounds(level_0, level_1, max_bytes, input_file_count_threshold, 0);
    assert forall|m: int| 0 <= m < level_0.len() implies (m < count <==> {
        &&& (#[trigger] selection(level_0, level_1, m)).len() < input_file_count_threshold
        &&& m == 0 || cold_bytes(level_0, level_1, m) < max_bytes
    }) by {
        law_cold_count_is_the_files_taken(
            level_0,
            level_1,
            max_bytes,
            input_file_count_threshold,
            m,
        );
    }
    assert forall|m: int| 0 < m < count implies #[trigger] cold_bytes(level_0, level_1, m)
        < max_bytes by {
        assert(selection(level_0, level_1, m).len() < input_file_count_threshold);
    }
    assert(count < level_0.len() ==> selection(level_0, level_1, count).len()
        >= input_file_count_threshold || count > 0 && cold_bytes(level_0, level_1, count)
        >= max_bytes);
    if 0 <= n < count {
        assert(selection(level_0, level_1, n).len() < input_file_count_threshold);
    }
    if count < n <= level_0.len() {
        assert(selection(level_0, level_1, count).len() >= 0);
        if count > 0 {
            assert(cold_bytes(level_0, level_1, count) >= 0);
        }
    }
}

/// What is reported on a cold partition with `n` selected level 0 files: nothing without level 0
/// files; otherwise, for each level, how many of the considered files are selected and how many are
/// not, and the size of each selected file, read as an unsigned number, as its size and as what it
/// needs.
pub proof fn law_cold_report(
    level_0: Seq<CompactorParquetFile>,
    level_1: Seq<CompactorParquetFile>,
    n: int,
)
    requires
        0 <= n <= level_0.len(),
    ensures
        ({
            let counts = cold_file_observations(level_0, level_1, n);
            let bytes = cold_byte_series(level_0, level_1, n);
            let files = selection(level_0, level_1, n);
            let with = files.len() - n;
            &&& level_0.len() == 0 ==> counts.len() == 0 && bytes.len() == 0
            &&& level_0.len() > 0 ==> {
                &&& 0 <= with <= level_1.len()
                &&& counts == seq![
                    ObservationView {
                        attributes: seq![
                            ("compaction_level"@, "0"@),
                            ("status"@, "selected_for_compaction"@),
                        ],
                        value: n as nat,
                    },
                    ObservationView {
                        attributes: seq![
                            ("compaction_level"@, "0"@),
                            ("status"@, "not_selected_for_compaction"@),
                        ],
                        value: (level_0.len() - n) as nat,
                    },
                    ObservationView {
                        attributes: seq![
                            ("compaction_level"@, "1"@),
                            ("status"@, "selected_for_compaction"@),
                        ],
                        value: with as nat,
                    },
                    ObservationView {
                        attributes: seq![
                            ("compaction_level"@, "1"@),
                            ("status"@, "not_selected_for_compaction"@),
                        ],
                        value: (level_1.len() - with) as nat,
                    },
                ]
                &&& bytes.len() == 4
                &&& bytes[0].attributes == seq![("file_size_compaction_level"@, "0"@)]
                &&& bytes[1].attributes == seq![("file_size_compaction_level"@, "1"@)]
                &&& bytes[2].attributes == seq![
                    ("file_estimated_compacting_budget_compaction_level"@, "0"@),
                ]
                &&& bytes[3].attributes == seq![
                    ("file_estimated_compacting_budget_compaction_level"@, "1"@),
                ]
                &&& bytes[2].values == bytes[0].values
                &&& bytes[3].values == bytes[1].values
                &&& bytes[0].values.len() == n
                &&& bytes[1].values.len() == with
                &&& forall|i: int|
                    #![trigger bytes[0].values[i]]
                    0 <= i < n ==> bytes[0].values[i] == (if level_0[i].file_size_bytes >= 0 {
                        level_0[i].file_size_bytes as int
                    } else {
                        level_0[i].file_size_bytes + 0x1_0000_0000_0000_0000
                    })
                &&& forall|i: int|
                    #![trigger bytes[1].values[i]]
                    0 <= i < with ==> bytes[1].values[i] == (if files[i].file_size_bytes >= 0 {
                        files[i].file_size_bytes as int
                    } else {
                        files[i].file_size_bytes + 0x1_0000_0000_0000_0000
                    })
            }
        }),
{
    lemma_claimed_len(level_0, level_1, n);
    let with = claimed(level_0, level_1, n);
    let level_0_sizes = reported_sizes(level_0.take(n));
    law_file_observations(level_0.len(), level_1.len(), n as nat, with.len());
    law_byte_series(level_0_sizes, reported_sizes(with), level_0_sizes, reported_sizes(with));
}

/// A selection in a cold partition can be made exactly when 64-bit numbers can hold what it adds
/// up: for each selected level 0 file the sizes of the level 1 files that overlap it and none
/// before it, one by one, and the bytes up to it.
pub proof fn law_cold_filter_fits_exactly(
    level_0: Seq<CompactorParquetFile>,
    level_1: Seq<CompactorParquetFile>,
    max_bytes: u64,
    input_file_count_threshold: usize,
)
    ensures
        cold_filter_fits(level_0, level_1, max_bytes, input_file_count_threshold)
            <==> forall|i: int|
            #![trigger level_0[i]]
            0 <= i < cold_count(level_0, level_1, max_bytes, input_file_count_threshold) ==> {
                let with = level_1.filter(
                    |f: CompactorParquetFile|
                        f.overlaps(level_0[i]) && forall|j: int|
                            0 <= j < i ==> !f.overlaps(#[trigger] level_0[j]),
                );
                &&& forall|k: int|
                    0 <= k <= with.len() ==> i64::MIN <= (#[trigger] with.take(k)).fold_left(
                        0int,
                        |total: int, f: CompactorParquetFile| total + f.file_size_bytes,
                    ) <= i64::MAX
                &&& cold_bytes(level_0, level_1, i + 1) <= u64::MAX
            },
{
    let count = cold_count(level_0, level_1, max_bytes, input_file_count_threshold);
    assert forall|i: int| 0 <= i < count implies (#[trigger] cold_step_fits(level_0, level_1, i)
        <==> {
        let with = level_1.filter(
            |f: CompactorParquetFile|
                f.overlaps(level_0[i]) && forall|j: int|
                    0 <= j < i ==> !f.overlaps(#[trigger] level_0[j]),
        );
        &&& forall|k: int|
            0 <= k <= with.len() ==> i64::MIN <= (#[trigger] with.take(k)).fold_left(
                0int,
                |total: int, f: CompactorParquetFile| total + f.file_size_bytes,
            ) <= i64::MAX
        &&& cold_bytes(level_0, level_1, i + 1) <= u64::MAX
    }) by {
        lemma_claimed_by(level_0, level_1, i);
        let with = claimed_by(level_0, level_1, i);
        assert forall|k: int| 0 <= k <= with.len() implies size_sum(#[trigger] with.take(k))
            == with.take(k).fold_left(
            0int,
            |total: int, f: CompactorParquetFile| total + f.file_size_bytes,
        ) by {
            lemma_size_sum_is_fold(with.take(k));
        }
    }
    if cold_filter_fits(level_0, level_1, max_bytes, input_file_count_threshold) {
        assert forall|i: int| #![trigger level_0[i]] 0 <= i < count implies cold_step_fits(
            level_0,
            level_1,
            i,
        ) by {}
    } else {
        let i = choose|i: int| 0 <= i < count && !#[trigger] cold_step_fits(level_0, level_1, i);
        let f = level_0[i];
    }
}

} // verus!
