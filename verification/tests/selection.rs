use compactor::column_type::{ColumnType, ColumnTypeCount};
use compactor::fits::{can_filter_cold, can_filter_hot};
use compactor::metrics::{GaugeLog, HistogramLog};
use compactor::parquet_file::{
    overlaps_in_time, CompactionLevel, CompactorParquetFile, ParquetFilesForCompaction,
};
use compactor::parquet_file_filtering::{
    filter_cold_parquet_files, filter_hot_parquet_files, FilterResult, FilteredFiles,
};
use compactor::partition::{
    ColumnSchema, Namespace, PartitionCompactionCandidateWithInfo, PartitionParam, Table,
    TableSchema,
};
use compactor::selection::partition_by_overlap;

/// A file with 10 bytes and 11 rows.
fn file(id: i64, min_time: i64, max_time: i64) -> CompactorParquetFile {
    CompactorParquetFile {
        id,
        shard_id: 2,
        namespace_id: 3,
        table_id: 4,
        partition_id: 5,
        max_sequence_number: id,
        min_time,
        max_time,
        file_size_bytes: 10,
        row_count: 11,
        compaction_level: CompactionLevel::Initial,
        created_at: 12,
    }
}

fn partition() -> PartitionCompactionCandidateWithInfo {
    PartitionCompactionCandidateWithInfo {
        candidate: PartitionParam {
            partition_id: 5,
            shard_id: 2,
            namespace_id: 3,
            table_id: 4,
        },
        table: Table {
            id: 4,
            namespace_id: 3,
            name: "table_name".to_string(),
        },
        namespace: Namespace {
            id: 3,
            name: "namespace_name".to_string(),
            retention_duration: None,
            topic_id: 1,
            query_pool_id: 1,
            max_tables: 100,
            max_columns_per_table: 100,
        },
        table_schema: TableSchema {
            id: 4,
            columns: vec![ColumnSchema {
                name: "time".to_string(),
                id: 6,
                column_type: ColumnType::Time,
            }],
        },
        sort_key: Some(vec!["time".to_string()]),
        partition_key: "partition_key".to_string(),
    }
}

/// Three level 0 files, and six level 1 files of which the first and the last overlap none.
fn files() -> ParquetFilesForCompaction {
    ParquetFilesForCompaction {
        level_0: vec![file(1, 200, 300), file(2, 280, 310), file(3, 309, 350)],
        level_1: vec![
            file(101, 1, 50),
            file(106, 340, 360),
            file(105, 308, 311),
            file(103, 290, 300),
            file(102, 199, 201),
            file(107, 390, 399),
        ],
    }
}

/// Each file of 11 rows needs 88 bytes.
fn one_time_column() -> Vec<ColumnTypeCount> {
    vec![ColumnTypeCount::new(ColumnType::Time, 1)]
}

fn ids(files: &[CompactorParquetFile]) -> Vec<i64> {
    files.iter().map(|f| f.id).collect()
}

fn hot(
    files: ParquetFilesForCompaction,
    max_bytes: u64,
    columns: &[ColumnTypeCount],
) -> (FilteredFiles, GaugeLog, HistogramLog) {
    assert!(can_filter_hot(&files, max_bytes, columns));
    let (mut gauge, mut histogram) = (GaugeLog::new(), HistogramLog::new());
    let filtered = filter_hot_parquet_files(
        partition(),
        files,
        max_bytes,
        columns,
        &mut gauge,
        &mut histogram,
    );
    assert_eq!(filtered.partition, partition());
    (filtered, gauge, histogram)
}

fn cold(
    files: ParquetFilesForCompaction,
    max_bytes: u64,
    threshold: usize,
) -> (Vec<CompactorParquetFile>, GaugeLog, HistogramLog) {
    assert!(can_filter_cold(&files, max_bytes, threshold));
    let (mut gauge, mut histogram) = (GaugeLog::new(), HistogramLog::new());
    let selected =
        filter_cold_parquet_files(files, max_bytes, threshold, &mut gauge, &mut histogram);
    (selected, gauge, histogram)
}

fn values(log: &GaugeLog) -> Vec<u64> {
    log.observations.iter().map(|o| o.value).collect()
}

/// The samples of each series: sizes of level 0 and 1, then budgets of level 0 and 1.
fn samples(log: &HistogramLog) -> Vec<Vec<u64>> {
    log.series.iter().map(|s| s.values.clone()).collect()
}

#[test]
fn filter_result_goes_by_files_and_budget() {
    let result = |files: Vec<CompactorParquetFile>, budget: u64| {
        let filtered = FilteredFiles::new(files, budget, partition());
        assert_eq!(filtered.budget_bytes(), budget);
        filtered.filter_result()
    };
    assert_eq!(result(vec![], 0), FilterResult::NothingToCompact);
    assert_eq!(
        result(vec![file(1, 0, 1)], 0),
        FilterResult::ErrorEstimatingBudget
    );
    assert_eq!(result(vec![], 1), FilterResult::OverBudget);
    assert_eq!(result(vec![file(1, 0, 1)], 1), FilterResult::Proceeed);
}

#[test]
fn overlap_is_symmetric_and_a_shared_instant() {
    let ranges = [(1, 3), (2, 4), (3, 3), (4, 9), (-5, 0), (0, 0)];
    for (a_min, a_max) in ranges {
        for (b_min, b_max) in ranges {
            let (a, b) = (file(1, a_min, a_max), file(2, b_min, b_max));
            let shared = (-10..10).any(|t| a_min <= t && t <= a_max && b_min <= t && t <= b_max);
            assert_eq!(overlaps_in_time(&a, &b), shared);
            assert_eq!(overlaps_in_time(&b, &a), shared);
        }
    }
}

#[test]
fn of_two_files_that_start_at_once_the_first_named_decides() {
    let (empty, whole) = (file(1, 4, 3), file(2, 4, 9));
    assert!(overlaps_in_time(&whole, &empty));
    assert!(!overlaps_in_time(&empty, &whole));
}

#[test]
fn files_are_parted_by_overlap() {
    let (overlaps, non_overlaps) = partition_by_overlap(&files().level_1, &file(2, 280, 310));
    assert_eq!(ids(&overlaps), [105, 103]);
    assert_eq!(ids(&non_overlaps), [101, 106, 102, 107]);
}

#[test]
fn hot_level_1_files_come_in_the_order_of_their_level_0_files() {
    let (filtered, gauge, histogram) = hot(files(), u64::MAX, &one_time_column());
    assert_eq!(ids(&filtered.files), [103, 102, 105, 106, 1, 2, 3]);
    assert_eq!(filtered.budget_bytes(), 7 * 88);
    assert_eq!(filtered.filter_result(), FilterResult::Proceeed);
    assert_eq!(values(&gauge), [3, 0, 4, 2]);
    assert_eq!(
        samples(&histogram),
        [vec![10; 3], vec![10; 4], vec![88; 3], vec![88; 4]]
    );
}

#[test]
fn hot_budget_may_be_used_up() {
    let (filtered, ..) = hot(files(), 3 * 88, &one_time_column());
    assert_eq!(ids(&filtered.files), [103, 102, 1]);
    assert_eq!(filtered.budget_bytes(), 3 * 88);

    let (filtered, gauge, histogram) = hot(files(), 3 * 88 - 1, &one_time_column());
    assert_eq!(filtered.filter_result(), FilterResult::OverBudget);
    assert_eq!(filtered.budget_bytes(), 3 * 88);
    assert!(filtered.files.is_empty());
    assert!(gauge.observations.is_empty());
    assert!(histogram.series.is_empty());
}

#[test]
fn hot_selection_grows_with_the_budget() {
    let mut smaller: Vec<i64> = vec![];
    for max_bytes in 0..(8 * 88) {
        let (filtered, ..) = hot(files(), max_bytes, &one_time_column());
        let larger = ids(&filtered.files);
        assert!(smaller.iter().all(|id| larger.contains(id)));
        if filtered.filter_result() == FilterResult::Proceeed {
            assert!(filtered.budget_bytes() <= max_bytes);
            assert_eq!(filtered.budget_bytes(), 88 * larger.len() as u64);
        } else {
            assert!(filtered.budget_bytes() > max_bytes);
        }
        smaller = larger;
    }
    assert_eq!(smaller.len(), 7);
}

#[test]
fn hot_invalid_column_returns_the_first_level_0_file() {
    let columns = [ColumnTypeCount {
        col_type: 0,
        count: 1,
    }];
    let (filtered, gauge, histogram) = hot(files(), u64::MAX, &columns);
    assert_eq!(
        filtered.filter_result(),
        FilterResult::ErrorEstimatingBudget
    );
    assert_eq!(ids(&filtered.files), [1]);
    assert_eq!(filtered.budget_bytes(), 0);
    assert!(gauge.observations.is_empty());
    assert!(histogram.series.is_empty());
}

#[test]
fn hot_files_that_need_no_memory_are_dropped_with_the_first_over_budget() {
    let mut considered = files();
    considered.level_1.clear();
    considered.level_0[0].row_count = 0;
    let (filtered, gauge, _) = hot(considered.clone(), 87, &one_time_column());
    assert_eq!(filtered.filter_result(), FilterResult::OverBudget);
    assert!(filtered.files.is_empty());
    assert_eq!(filtered.budget_bytes(), 88);
    assert!(gauge.observations.is_empty());

    let (filtered, ..) = hot(considered, 88, &one_time_column());
    assert_eq!(ids(&filtered.files), [1, 2]);
    assert_eq!(filtered.budget_bytes(), 88);
}

#[test]
fn hot_files_that_all_need_no_memory_have_a_budget_of_0() {
    let (filtered, gauge, _) = hot(files(), 0, &[]);
    assert_eq!(filtered.budget_bytes(), 0);
    assert_eq!(filtered.files.len(), 7);
    assert_eq!(
        filtered.filter_result(),
        FilterResult::ErrorEstimatingBudget
    );
    assert_eq!(values(&gauge), [3, 0, 4, 2]);
}

#[test]
fn hot_metrics_are_added_after_earlier_ones() {
    let (mut gauge, mut histogram) = (GaugeLog::new(), HistogramLog::new());
    for max_bytes in [3 * 88, u64::MAX] {
        filter_hot_parquet_files(
            partition(),
            files(),
            max_bytes,
            &one_time_column(),
            &mut gauge,
            &mut histogram,
        );
    }
    assert_eq!(values(&gauge), [1, 2, 2, 4, 3, 0, 4, 2]);
    assert_eq!(histogram.series.len(), 4 + 4);
}

#[test]
fn cold_stops_at_the_number_of_files() {
    for (threshold, expected) in [
        (0, vec![]),
        (1, vec![103, 102, 1]),
        (3, vec![103, 102, 1]),
        (4, vec![103, 102, 105, 1, 2]),
        (5, vec![103, 102, 105, 1, 2]),
        (6, vec![103, 102, 105, 106, 1, 2, 3]),
    ] {
        let (selected, ..) = cold(files(), u64::MAX, threshold);
        assert_eq!(ids(&selected), expected);
    }
}

#[test]
fn cold_stops_once_the_bytes_are_reached() {
    for (max_bytes, expected) in [
        (0, vec![103, 102, 1]),
        (30, vec![103, 102, 1]),
        (31, vec![103, 102, 105, 1, 2]),
        (50, vec![103, 102, 105, 1, 2]),
        (51, vec![103, 102, 105, 106, 1, 2, 3]),
    ] {
        let (selected, ..) = cold(files(), max_bytes, 100);
        assert_eq!(ids(&selected), expected);
    }
}

#[test]
fn cold_without_room_for_files_is_reported() {
    let (selected, gauge, histogram) = cold(files(), u64::MAX, 0);
    assert!(selected.is_empty());
    assert_eq!(values(&gauge), [0, 3, 0, 6]);
    assert_eq!(samples(&histogram), vec![Vec::<u64>::new(); 4]);
}

#[test]
fn cold_without_level_0_files_is_not_reported() {
    let mut considered = files();
    considered.level_0.clear();
    let (selected, gauge, histogram) = cold(considered, u64::MAX, 100);
    assert!(selected.is_empty());
    assert!(gauge.observations.is_empty());
    assert!(histogram.series.is_empty());
}

#[test]
fn cold_negative_sizes_are_read_as_unsigned() {
    let mut considered = files();
    considered.level_0[0].file_size_bytes = -50;
    considered.level_1[3].file_size_bytes = 7;
    let (selected, _, histogram) = cold(considered, 1000, 100);
    assert_eq!(ids(&selected), [103, 102, 1]);
    let size = u64::MAX - 49;
    assert_eq!(
        samples(&histogram),
        [vec![size], vec![7, 10], vec![size], vec![7, 10]]
    );
}

#[test]
fn cold_takes_each_overlapping_level_1_file_once() {
    let (selected, ..) = cold(files(), u64::MAX, 100);
    let considered = files();
    for f in &considered.level_1 {
        let overlaps = considered.level_0.iter().any(|g| overlaps_in_time(f, g));
        let times = selected.iter().filter(|g| g.id == f.id).count();
        assert_eq!(times, overlaps as usize);
    }
    let level_0: Vec<i64> = ids(&selected)[4..].to_vec();
    assert_eq!(level_0, [1, 2, 3]);
}

#[test]
fn cold_single_file_overlaps_no_level_1_file() {
    let mut considered = files();
    considered.level_0.truncate(1);
    considered.level_1.truncate(3);
    let (selected, ..) = cold(considered.clone(), 0, 100);
    assert_eq!(ids(&selected), [1]);
    assert!(considered
        .level_1
        .iter()
        .all(|f| !overlaps_in_time(f, &selected[0])));
}

#[test]
fn hot_without_level_1_files_reports_series_without_samples() {
    let mut considered = files();
    considered.level_1.clear();
    let (filtered, gauge, histogram) = hot(considered, u64::MAX, &one_time_column());
    assert_eq!(ids(&filtered.files), [1, 2, 3]);
    assert_eq!(values(&gauge), [3, 0, 0, 0]);
    assert_eq!(
        samples(&histogram),
        [vec![10; 3], vec![], vec![88; 3], vec![]]
    );
}

#[test]
fn hot_selection_may_not_fit() {
    let columns = one_time_column();
    // 8 bytes for each row are more than 64 bits hold
    let mut considered = files();
    considered.level_0[1].row_count = i64::MAX;
    assert!(!can_filter_hot(&considered, u64::MAX, &columns));
    // but the second level 0 file is not looked at once the first is over budget
    assert!(can_filter_hot(&considered, 0, &columns));
    // each file fits, but not all of them together
    let mut considered = files();
    for f in &mut considered.level_0 {
        f.row_count = i64::MAX / 8;
    }
    assert!(!can_filter_hot(&considered, u64::MAX, &columns));
    considered.level_0.truncate(2);
    assert!(can_filter_hot(&considered, i64::MAX as u64 + 88, &columns));
    // after an invalid code nothing is estimated
    let invalid = [ColumnTypeCount {
        col_type: 0,
        count: 1,
    }];
    considered.level_0[0].row_count = i64::MAX;
    assert!(can_filter_hot(&considered, u64::MAX, &invalid));
    assert!(!can_filter_hot(&considered, u64::MAX, &columns));
}

#[test]
fn cold_selection_may_not_fit() {
    // the level 1 files of one level 0 file are added up as signed numbers
    let mut considered = files();
    considered.level_1[3].file_size_bytes = i64::MAX;
    assert!(!can_filter_cold(&considered, u64::MAX, 100));
    considered.level_1[4].file_size_bytes = -1;
    assert!(can_filter_cold(&considered, u64::MAX, 100));
    // a negative size is read as an unsigned one
    considered.level_0[0].file_size_bytes = -1;
    assert!(!can_filter_cold(&considered, u64::MAX, 100));
    // nothing is added up once enough files are selected
    assert!(can_filter_cold(&considered, u64::MAX, 0));
}
