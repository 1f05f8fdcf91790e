use compactor::arrow_estimate::estimate_arrow_bytes_for_file;
use compactor::column_type::{ColumnType, ColumnTypeCount};
use compactor::metrics::{GaugeLog, HistogramLog};
use compactor::parquet_file::{
    overlaps_in_time, CompactionLevel, CompactorParquetFile, ParquetFilesForCompaction,
};
use compactor::parquet_file_filtering::{
    filter_cold_parquet_files, filter_hot_parquet_files, FilterResult,
};
use compactor::partition::{
    Namespace, PartitionCompactionCandidateWithInfo, PartitionParam, Table, TableSchema,
};

const BUCKET_500_KB: u64 = 500 * 1024;
const BUCKET_1_MB: u64 = 1024 * 1024;

const BUCKETS: [u64; 6] = [
    BUCKET_500_KB,    // 500 KB
    BUCKET_1_MB,      // 1 MB
    3 * 1024 * 1024,  // 3 MB
    10 * 1024 * 1024, // 10 MB
    30 * 1024 * 1024, // 30 MB
    u64::MAX,         // Inf
];

const MEMORY_BUDGET: u64 = 1024 * 1024 * 10;

const DEFAULT_MAX_FILE_SIZE: u64 = 1024 * 1024 * 10;
const DEFAULT_INPUT_FILE_COUNT: usize = 100;

#[test]
fn test_overlaps_in_time() {
    assert_overlap((1, 3), (2, 4));
    assert_overlap((1, 3), (1, 3));
    assert_overlap((1, 3), (3, 4));
    assert_overlap((1, 4), (2, 3));
    assert_overlap((1, 3), (2, 3));
    assert_overlap((1, 3), (1, 2));

    assert_no_overlap((1, 2), (3, 4));
}

fn assert_overlap((a_min, a_max): (i64, i64), (b_min, b_max): (i64, i64)) {
    let a = ParquetFileBuilder::level_0()
        .min_time(a_min)
        .max_time(a_max)
        .build();
    let b = ParquetFileBuilder::level_1()
        .min_time(b_min)
        .max_time(b_max)
        .build();

    assert!(
        overlaps_in_time(&a, &b),
        "Expected ({a_min}, {a_max}) to overlap with ({b_min}, {b_max}) but it didn't",
    );
    assert!(
        overlaps_in_time(&b, &a),
        "Expected ({b_min}, {b_max}) to overlap with ({a_min}, {a_max}) but it didn't",
    );
}

fn assert_no_overlap((a_min, a_max): (i64, i64), (b_min, b_max): (i64, i64)) {
    let a = ParquetFileBuilder::level_0()
        .min_time(a_min)
        .max_time(a_max)
        .build();
    let b = ParquetFileBuilder::level_1()
        .min_time(b_min)
        .max_time(b_max)
        .build();

    assert!(
        !overlaps_in_time(&a, &b),
        "Expected ({a_min}, {a_max}) to not overlap with ({b_min}, {b_max}) but it did",
    );
    assert!(
        !overlaps_in_time(&b, &a),
        "Expected ({b_min}, {b_max}) to not overlap with ({a_min}, {a_max}) but it did",
    );
}

fn metrics() -> (GaugeLog, HistogramLog) {
    (GaugeLog::new(), HistogramLog::new())
}

#[test]
fn test_estimate_arrow_bytes_for_file() {
    let row_count = 11;

    // Time, U64, I64, F64
    let columns = vec![
        ColumnTypeCount::new(ColumnType::Time, 1),
        ColumnTypeCount::new(ColumnType::U64, 2),
        ColumnTypeCount::new(ColumnType::F64, 3),
        ColumnTypeCount::new(ColumnType::I64, 4),
    ];
    let bytes = estimate_arrow_bytes_for_file(&columns, row_count).unwrap();
    assert_eq!(bytes, 880); // 11 * (1+2+3+4) * 8

    // Tag
    let columns = vec![ColumnTypeCount::new(ColumnType::Tag, 1)];
    let bytes = estimate_arrow_bytes_for_file(&columns, row_count).unwrap();
    assert_eq!(bytes, 1088); // 5 * 200 + 11 * 8

    // String
    let columns = vec![ColumnTypeCount::new(ColumnType::String, 1)];
    let bytes = estimate_arrow_bytes_for_file(&columns, row_count).unwrap();
    assert_eq!(bytes, 11000); // 11 * 1000

    // Bool
    let columns = vec![ColumnTypeCount::new(ColumnType::Bool, 1)];
    let bytes = estimate_arrow_bytes_for_file(&columns, row_count).unwrap();
    assert_eq!(bytes, 11); // 11 * 1

    // all types
    let columns = vec![
        ColumnTypeCount::new(ColumnType::Time, 1),
        ColumnTypeCount::new(ColumnType::U64, 2),
        ColumnTypeCount::new(ColumnType::F64, 3),
        ColumnTypeCount::new(ColumnType::I64, 4),
        ColumnTypeCount::new(ColumnType::Tag, 1),
        ColumnTypeCount::new(ColumnType::String, 1),
        ColumnTypeCount::new(ColumnType::Bool, 1),
    ];
    let bytes = estimate_arrow_bytes_for_file(&columns, row_count).unwrap();
    assert_eq!(bytes, 12979); // 880 + 1088 + 11000 + 11
}

#[test]
fn empty_in_empty_out() {
    let parquet_files_for_compaction = ParquetFilesForCompaction {
        level_0: vec![],
        level_1: vec![],
    };
    let (mut files_metric, mut bytes_metric) = metrics();

    // values of these inputs do not mean much in this test case
    let partition = ParquetFileBuilder::level_0()
        .id(1)
        .build_partition_with_extra_info();
    let table_columns = vec![];

    let to_compact = filter_hot_parquet_files(
        partition,
        parquet_files_for_compaction,
        MEMORY_BUDGET,
        &table_columns,
        &mut files_metric,
        &mut bytes_metric,
    );

    let result = to_compact.filter_result();
    assert_eq!(result, FilterResult::NothingToCompact);
}

#[test]
fn budget_0_returns_over_budget() {
    let parquet_files_for_compaction = ParquetFilesForCompaction {
        level_0: vec![ParquetFileBuilder::level_0().id(1).build()],
        level_1: vec![],
    };
    let (mut files_metric, mut bytes_metric) = metrics();

    let partition = ParquetFileBuilder::level_0()
        .id(1)
        .build_partition_with_extra_info();
    let table_columns = one_tag_one_time_cols();

    let to_compact = filter_hot_parquet_files(
        partition,
        parquet_files_for_compaction,
        0,
        &table_columns,
        &mut files_metric,
        &mut bytes_metric,
    );

    let result = to_compact.filter_result();
    assert_eq!(result, FilterResult::OverBudget);
}

#[test]
fn budget_1000_returns_over_budget() {
    let parquet_files_for_compaction = ParquetFilesForCompaction {
        level_0: vec![ParquetFileBuilder::level_0().id(1).build()],
        level_1: vec![],
    };
    let (mut files_metric, mut bytes_metric) = metrics();

    let partition = ParquetFileBuilder::level_0()
        .id(1)
        .build_partition_with_extra_info();
    // 2 columns including a tag and 11 rows will have budget over 1000 bytes
    let table_columns = one_tag_one_time_cols();

    // One tag and one time, the budget will be as below for a file of 11 rows
    // time_bytes = 1 * 11 * 8 = 88
    // tag:
    //   dictionary_key_bytes = 1 * floor(11/2) * 200 = 1000
    //   dictionary_value_bytes = 1 * 11 * 8 = 88
    // total memory for 1 file = 88 + 1100 + 88 = 1176

    let to_compact = filter_hot_parquet_files(
        partition,
        parquet_files_for_compaction,
        1000,
        &table_columns,
        &mut files_metric,
        &mut bytes_metric,
    );

    let result = to_compact.filter_result();
    assert_eq!(result, FilterResult::OverBudget);
}

#[test]
fn large_budget_returns_one_level_0_file_and_its_level_1_overlaps() {
    let parquet_files_for_compaction = ParquetFilesForCompaction {
        level_0: vec![ParquetFileBuilder::level_0()
            .id(1)
            .min_time(200)
            .max_time(300)
            .build()],
        level_1: vec![
            // Too early
            ParquetFileBuilder::level_1()
                .id(101)
                .min_time(1)
                .max_time(50)
                .build(),
            // Completely contains the level 0 times
            ParquetFileBuilder::level_1()
                .id(102)
                .min_time(150)
                .max_time(350)
                .build(),
            // Too late
            ParquetFileBuilder::level_1()
                .id(103)
                .min_time(400)
                .max_time(500)
                .build(),
        ],
    };
    let (mut files_metric, mut bytes_metric) = metrics();

    let partition = ParquetFileBuilder::level_0()
        .id(1)
        .build_partition_with_extra_info();
    let table_columns = one_tag_one_time_cols();

    let to_compact = filter_hot_parquet_files(
        partition,
        parquet_files_for_compaction,
        MEMORY_BUDGET,
        &table_columns,
        &mut files_metric,
        &mut bytes_metric,
    );

    let result = to_compact.filter_result();
    assert_eq!(result, FilterResult::Proceeed);
    // memory budget for 2 files each has a tag and a u64
    assert_eq!(to_compact.budget_bytes(), 2 * 1176);

    let files = to_compact.files;
    assert_eq!(files.len(), 2);
    assert_eq!(files[0].id, 102);
    assert_eq!(files[1].id, 1);
}

#[test]
fn returns_only_overlapping_level_1_files_in_order() {
    let parquet_files_for_compaction = ParquetFilesForCompaction {
        level_0: vec![
            // Level 0 files that overlap in time slightly.
            ParquetFileBuilder::level_0()
                .id(1)
                .min_time(200)
                .max_time(300)
                .file_size_bytes(10)
                .build(),
            ParquetFileBuilder::level_0()
                .id(2)
                .min_time(280)
                .max_time(310)
                .file_size_bytes(10)
                .build(),
            ParquetFileBuilder::level_0()
                .id(3)
                .min_time(309)
                .max_time(350)
                .file_size_bytes(10)
                .build(),
        ],
        // Level 1 files can be assumed not to overlap each other.
        level_1: vec![
            // Does not overlap any level 0, times are too early
            ParquetFileBuilder::level_1()
                .id(101)
                .min_time(1)
                .max_time(50)
                .file_size_bytes(10)
                .build(),
            // Overlaps file 1
            ParquetFileBuilder::level_1()
                .id(102)
                .min_time(199)
                .max_time(201)
                .file_size_bytes(10)
                .build(),
            // Overlaps files 1 and 2
            ParquetFileBuilder::level_1()
                .id(103)
                .min_time(290)
                .max_time(300)
                .file_size_bytes(10)
                .build(),
            // Overlaps file 2
            ParquetFileBuilder::level_1()
                .id(104)
                .min_time(305)
                .max_time(305)
                .file_size_bytes(10)
                .build(),
            // Overlaps files 2 and 3
            ParquetFileBuilder::level_1()
                .id(105)
                .min_time(308)
                .max_time(311)
                .file_size_bytes(10)
                .build(),
            // Overlaps file 3
            ParquetFileBuilder::level_1()
                .id(106)
                .min_time(340)
                .max_time(360)
                .file_size_bytes(BUCKET_500_KB as i64 + 1) // exercise metrics
                .build(),
            // Does not overlap any level 0, times are too late
            ParquetFileBuilder::level_1()
                .id(107)
                .min_time(390)
                .max_time(399)
                .file_size_bytes(10)
                .build(),
        ],
    };

    // total needed budget for one file with a tag, a time and 11 rows = 1176
    let (mut files_metric, mut bytes_metric) = metrics();
    let partition = ParquetFileBuilder::level_0()
        .id(1)
        .build_partition_with_extra_info();
    let table_columns = one_tag_one_time_cols();

    let to_compact = filter_hot_parquet_files(
        partition.clone(),
        parquet_files_for_compaction.clone(),
        1176 * 3 + 5, // enough for 3 files
        &table_columns,
        &mut files_metric,
        &mut bytes_metric,
    );

    let result = to_compact.filter_result();
    assert_eq!(result, FilterResult::Proceeed);
    // memory budget for 3 files
    assert_eq!(to_compact.budget_bytes(), 3 * 1176);

    let files = to_compact.files;
    let ids: Vec<_> = files.iter().map(|f| f.id).collect();
    assert_eq!(ids, [102, 103, 1]);
    assert_eq!(
        extract_file_metrics(&files_metric),
        ExtractedFileMetrics {
            level_0_selected: 1,
            level_0_not_selected: 2,
            level_1_selected: 2,
            level_1_not_selected: 5,
        }
    );

    // Increase budget to more than 6 files; 1st two level 0 files & their overlapping level 1 files get
    // returned
    let (mut files_metric, mut bytes_metric) = metrics();

    let to_compact = filter_hot_parquet_files(
        partition,
        parquet_files_for_compaction,
        1176 * 6 + 5,
        &table_columns,
        &mut files_metric,
        &mut bytes_metric,
    );

    let result = to_compact.filter_result();
    assert_eq!(result, FilterResult::Proceeed);

    // memory budget for 3 files
    assert_eq!(to_compact.budget_bytes(), 6 * 1176);

    let files = to_compact.files;
    let ids: Vec<_> = files.iter().map(|f| f.id).collect();
    assert_eq!(ids, [102, 103, 104, 105, 1, 2]);
    assert_eq!(
        extract_file_metrics(&files_metric),
        ExtractedFileMetrics {
            level_0_selected: 2,
            level_0_not_selected: 1,
            level_1_selected: 4,
            level_1_not_selected: 3,
        }
    );
}

#[test]
fn parquet_file_filtering_empty_in_empty_out() {
    let parquet_files_for_compaction = ParquetFilesForCompaction {
        level_0: vec![],
        level_1: vec![],
    };
    let (mut files_metric, mut bytes_metric) = metrics();

    let files = filter_cold_parquet_files(
        parquet_files_for_compaction,
        DEFAULT_MAX_FILE_SIZE,
        DEFAULT_INPUT_FILE_COUNT,
        &mut files_metric,
        &mut bytes_metric,
    );

    assert!(files.is_empty(), "Expected empty, got: {:#?}", files);
}

#[test]
fn max_size_0_returns_one_level_0_file() {
    let parquet_files_for_compaction = ParquetFilesForCompaction {
        level_0: vec![ParquetFileBuilder::level_0().id(1).build()],
        level_1: vec![],
    };
    let (mut files_metric, mut bytes_metric) = metrics();

    let files = filter_cold_parquet_files(
        parquet_files_for_compaction,
        0,
        DEFAULT_INPUT_FILE_COUNT,
        &mut files_metric,
        &mut bytes_metric,
    );

    assert_eq!(files.len(), 1);
    assert_eq!(files[0].id, 1);
}

#[test]
fn max_file_count_0_returns_empty() {
    let parquet_files_for_compaction = ParquetFilesForCompaction {
        level_0: vec![ParquetFileBuilder::level_0().id(1).build()],
        level_1: vec![],
    };
    let (mut files_metric, mut bytes_metric) = metrics();

    let files = filter_cold_parquet_files(
        parquet_files_for_compaction,
        DEFAULT_MAX_FILE_SIZE,
        0,
        &mut files_metric,
        &mut bytes_metric,
    );

    assert!(files.is_empty(), "Expected empty, got: {:#?}", files);
}

#[test]
fn one_level_0_file_no_level_1_overlaps() {
    let parquet_files_for_compaction = ParquetFilesForCompaction {
        level_0: vec![ParquetFileBuilder::level_0()
            .id(1)
            .min_time(200)
            .max_time(300)
            .build()],
        level_1: vec![
            // Too early
            ParquetFileBuilder::level_1()
                .id(101)
                .min_time(1)
                .max_time(50)
                .build(),
            // Too late
            ParquetFileBuilder::level_1()
                .id(103)
                .min_time(400)
                .max_time(500)
                .build(),
        ],
    };
    let (mut files_metric, mut bytes_metric) = metrics();

    let files = filter_cold_parquet_files(
        parquet_files_for_compaction,
        DEFAULT_MAX_FILE_SIZE,
        DEFAULT_INPUT_FILE_COUNT,
        &mut files_metric,
        &mut bytes_metric,
    );

    assert_eq!(files.len(), 1);
    assert_eq!(files[0].id, 1);
}

#[test]
fn one_level_0_file_with_level_1_overlaps() {
    let parquet_files_for_compaction = ParquetFilesForCompaction {
        level_0: vec![ParquetFileBuilder::level_0()
            .id(1)
            .min_time(200)
            .max_time(300)
            .build()],
        level_1: vec![
            // Too early
            ParquetFileBuilder::level_1()
                .id(101)
                .min_time(1)
                .max_time(50)
                .build(),
            // Completely contains the level 0 times
            ParquetFileBuilder::level_1()
                .id(102)
                .min_time(150)
                .max_time(350)
                .build(),
            // Too late
            ParquetFileBuilder::level_1()
                .id(103)
                .min_time(400)
                .max_time(500)
                .build(),
        ],
    };
    let (mut files_metric, mut bytes_metric) = metrics();

    let files = filter_cold_parquet_files(
        parquet_files_for_compaction,
        DEFAULT_MAX_FILE_SIZE,
        DEFAULT_INPUT_FILE_COUNT,
        &mut files_metric,
        &mut bytes_metric,
    );

    assert_eq!(files.len(), 2);
    assert_eq!(files[0].id, 102);
    assert_eq!(files[1].id, 1);
}

#[test]
fn multiple_level_0_files_no_level_1_overlaps() {
    let parquet_files_for_compaction = ParquetFilesForCompaction {
        level_0: vec![
            // Level 0 files, some of which overlap in time slightly.
            ParquetFileBuilder::level_0()
                .id(1)
                .min_time(200)
                .max_time(300)
                .file_size_bytes(10)
                .build(),
            ParquetFileBuilder::level_0()
                .id(2)
                .min_time(280)
                .max_time(310)
                .file_size_bytes(10)
                .build(),
            ParquetFileBuilder::level_0()
                .id(3)
                .min_time(320)
                .max_time(350)
                .file_size_bytes(10)
                .build(),
        ],
        // Level 1 files can be assumed not to overlap each other.
        level_1: vec![
            // too early
            ParquetFileBuilder::level_1()
                .id(101)
                .min_time(1)
                .max_time(50)
                .file_size_bytes(10)
                .build(),
            // between 2 and 3 (there can't be one between 1 and 2 because they overlap)
            ParquetFileBuilder::level_1()
                .id(103)
                .min_time(315)
                .max_time(316)
                .file_size_bytes(10)
                .build(),
            // too late
            ParquetFileBuilder::level_1()
                .id(107)
                .min_time(390)
                .max_time(399)
                .file_size_bytes(10)
                .build(),
        ],
    };

    // all level 0 files & no level 1 files get returned
    let (mut files_metric, mut bytes_metric) = metrics();
    let files = filter_cold_parquet_files(
        parquet_files_for_compaction,
        DEFAULT_MAX_FILE_SIZE,
        DEFAULT_INPUT_FILE_COUNT,
        &mut files_metric,
        &mut bytes_metric,
    );
    let ids: Vec<_> = files.iter().map(|f| f.id).collect();
    assert_eq!(ids, [1, 2, 3]);
    assert_eq!(
        extract_file_metrics(&files_metric),
        ExtractedFileMetrics {
            level_0_selected: 3,
            level_0_not_selected: 0,
            level_1_selected: 0,
            level_1_not_selected: 3,
        }
    );
    assert_eq!(
        extract_byte_metrics(&bytes_metric),
        ExtractedByteMetrics {
            level_0_sample_count: 3,
            level_0_buckets_with_counts: vec![(BUCKET_500_KB, 3)],
            level_1_sample_count: 0,
            level_1_buckets_with_counts: vec![],
        }
    );
}

#[test]
fn multiple_level_0_files_with_level_1_overlaps() {
    let parquet_files_for_compaction = ParquetFilesForCompaction {
        level_0: vec![
            // Level 0 files that overlap in time slightly.
            ParquetFileBuilder::level_0()
                .id(1)
                .min_time(200)
                .max_time(300)
                .file_size_bytes(10)
                .build(),
            ParquetFileBuilder::level_0()
                .id(2)
                .min_time(280)
                .max_time(310)
                .file_size_bytes(10)
                .build(),
            ParquetFileBuilder::level_0()
                .id(3)
                .min_time(309)
                .max_time(350)
                .file_size_bytes(10)
                .build(),
        ],
        // Level 1 files can be assumed not to overlap each other.
        level_1: vec![
            // Does not overlap any level 0, times are too early
            ParquetFileBuilder::level_1()
                .id(101)
                .min_time(1)
                .max_time(50)
                .file_size_bytes(10)
                .build(),
            // Overlaps file 1
            ParquetFileBuilder::level_1()
                .id(102)
                .min_time(199)
                .max_time(201)
                .file_size_bytes(10)
                .build(),
            // Overlaps files 1 and 2
            ParquetFileBuilder::level_1()
                .id(103)
                .min_time(290)
                .max_time(300)
                .file_size_bytes(10)
                .build(),
            // Overlaps file 2
            ParquetFileBuilder::level_1()
                .id(104)
                .min_time(305)
                .max_time(305)
                .file_size_bytes(10)
                .build(),
            // Overlaps files 2 and 3
            ParquetFileBuilder::level_1()
                .id(105)
                .min_time(308)
                .max_time(311)
                .file_size_bytes(10)
                .build(),
            // Overlaps file 3
            ParquetFileBuilder::level_1()
                .id(106)
                .min_time(340)
                .max_time(360)
                .file_size_bytes(10)
                .build(),
            // Does not overlap any level 0, times are too late
            ParquetFileBuilder::level_1()
                .id(107)
                .min_time(390)
                .max_time(399)
                .file_size_bytes(10)
                .build(),
        ],
    };

    // Max size 0; only the first level 0 file and its overlapping level 1 files get
    // returned
    let max_size = 0;
    let (mut files_metric, mut bytes_metric) = metrics();
    let files = filter_cold_parquet_files(
        parquet_files_for_compaction.clone(),
        max_size,
        DEFAULT_INPUT_FILE_COUNT,
        &mut files_metric,
        &mut bytes_metric,
    );
    let ids: Vec<_> = files.iter().map(|f| f.id).collect();
    assert_eq!(ids, [102, 103, 1]);
    assert_eq!(
        extract_file_metrics(&files_metric),
        ExtractedFileMetrics {
            level_0_selected: 1,
            level_0_not_selected: 2,
            level_1_selected: 2,
            level_1_not_selected: 5,
        }
    );
    assert_eq!(
        extract_byte_metrics(&bytes_metric),
        ExtractedByteMetrics {
            level_0_sample_count: 1,
            level_0_buckets_with_counts: vec![(BUCKET_500_KB, 1)],
            level_1_sample_count: 2,
            level_1_buckets_with_counts: vec![(BUCKET_500_KB, 2)],
        }
    );

    // Increase max size; 1st two level 0 files & their overlapping level 1 files get
    // returned
    let max_size = 40;
    let (mut files_metric, mut bytes_metric) = metrics();
    let files = filter_cold_parquet_files(
        parquet_files_for_compaction.clone(),
        max_size,
        DEFAULT_INPUT_FILE_COUNT,
        &mut files_metric,
        &mut bytes_metric,
    );
    let ids: Vec<_> = files.iter().map(|f| f.id).collect();
    assert_eq!(ids, [102, 103, 104, 105, 1, 2]);
    assert_eq!(
        extract_file_metrics(&files_metric),
        ExtractedFileMetrics {
            level_0_selected: 2,
            level_0_not_selected: 1,
            level_1_selected: 4,
            level_1_not_selected: 3,
        }
    );
    assert_eq!(
        extract_byte_metrics(&bytes_metric),
        ExtractedByteMetrics {
            level_0_sample_count: 2,
            level_0_buckets_with_counts: vec![(BUCKET_500_KB, 2)],
            level_1_sample_count: 4,
            level_1_buckets_with_counts: vec![(BUCKET_500_KB, 4)],
        }
    );

    // Increase max size to be exactly equal to the size of the 1st two level 0 files &
    // their overlapping level 1 files, which is all that should get returned
    let max_size = 60;
    let (mut files_metric, mut bytes_metric) = metrics();
    let files = filter_cold_parquet_files(
        parquet_files_for_compaction.clone(),
        max_size,
        DEFAULT_INPUT_FILE_COUNT,
        &mut files_metric,
        &mut bytes_metric,
    );
    let ids: Vec<_> = files.iter().map(|f| f.id).collect();
    assert_eq!(ids, [102, 103, 104, 105, 1, 2]);
    assert_eq!(
        extract_file_metrics(&files_metric),
        ExtractedFileMetrics {
            level_0_selected: 2,
            level_0_not_selected: 1,
            level_1_selected: 4,
            level_1_not_selected: 3,
        }
    );
    assert_eq!(
        extract_byte_metrics(&bytes_metric),
        ExtractedByteMetrics {
            level_0_sample_count: 2,
            level_0_buckets_with_counts: vec![(BUCKET_500_KB, 2)],
            level_1_sample_count: 4,
            level_1_buckets_with_counts: vec![(BUCKET_500_KB, 4)],
        }
    );

    // Increase max size; all level 0 files & their overlapping level 1 files get returned
    let (mut files_metric, mut bytes_metric) = metrics();
    let files = filter_cold_parquet_files(
        parquet_files_for_compaction,
        DEFAULT_MAX_FILE_SIZE,
        DEFAULT_INPUT_FILE_COUNT,
        &mut files_metric,
        &mut bytes_metric,
    );
    let ids: Vec<_> = files.iter().map(|f| f.id).collect();
    assert_eq!(ids, [102, 103, 104, 105, 106, 1, 2, 3]);
    assert_eq!(
        extract_file_metrics(&files_metric),
        ExtractedFileMetrics {
            level_0_selected: 3,
            level_0_not_selected: 0,
            level_1_selected: 5,
            level_1_not_selected: 2,
        }
    );
    assert_eq!(
        extract_byte_metrics(&bytes_metric),
        ExtractedByteMetrics {
            level_0_sample_count: 3,
            level_0_buckets_with_counts: vec![(BUCKET_500_KB, 3)],
            level_1_sample_count: 5,
            level_1_buckets_with_counts: vec![(BUCKET_500_KB, 5)],
        }
    );
}

/// Create files for testing. Only sets fields relevant to the filtering; other fields are set to
/// arbitrary values.
#[derive(Debug)]
struct ParquetFileBuilder {
    compaction_level: CompactionLevel,
    id: i64,
    min_time: i64,
    max_time: i64,
    file_size_bytes: i64,
}

impl ParquetFileBuilder {
    // Start building a level 0 file
    fn level_0() -> Self {
        Self {
            compaction_level: CompactionLevel::Initial,
            id: 1,
            min_time: 8,
            max_time: 9,
            file_size_bytes: 10,
        }
    }

    // Start building a level 1 file
    fn level_1() -> Self {
        Self {
            compaction_level: CompactionLevel::FileNonOverlapped,
            id: 1,
            min_time: 8,
            max_time: 9,
            file_size_bytes: 10,
        }
    }

    fn id(mut self, id: i64) -> Self {
        self.id = id;
        self
    }

    fn min_time(mut self, min_time: i64) -> Self {
        self.min_time = min_time;
        self
    }

    fn max_time(mut self, max_time: i64) -> Self {
        self.max_time = max_time;
        self
    }

    fn file_size_bytes(mut self, file_size_bytes: i64) -> Self {
        self.file_size_bytes = file_size_bytes;
        self
    }

    fn build(self) -> CompactorParquetFile {
        let Self {
            compaction_level,
            id,
            min_time,
            max_time,
            file_size_bytes,
        } = self;

        CompactorParquetFile {
            id,
            shard_id: 2,
            namespace_id: 3,
            table_id: 4,
            partition_id: 5,
            max_sequence_number: 7,
            min_time,
            max_time,
            file_size_bytes,
            row_count: 11,
            compaction_level,
            created_at: 12,
        }
    }

    fn build_partition_with_extra_info(self) -> PartitionCompactionCandidateWithInfo {
        // build the parquet file
        let p = self.build();

        // build the partition for the parquet file
        PartitionCompactionCandidateWithInfo {
            candidate: PartitionParam {
                partition_id: p.partition_id,
                shard_id: p.shard_id,
                namespace_id: p.namespace_id,
                table_id: p.table_id,
            },
            table: Table {
                id: p.table_id,
                namespace_id: p.namespace_id,
                name: "table_name".to_string(),
            },
            namespace: Namespace {
                id: p.namespace_id,
                name: "namespace_name".to_string(),
                retention_duration: Some("1 day".to_string()),
                topic_id: 1,
                query_pool_id: 1,
                max_tables: 100,
                max_columns_per_table: 100,
            },
            table_schema: TableSchema {
                id: p.table_id,
                columns: vec![],
            },
            sort_key: None,
            partition_key: "partition_key".into(),
        }
    }
}

#[derive(Debug, PartialEq)]
struct ExtractedFileMetrics {
    level_0_selected: u64,
    level_0_not_selected: u64,
    level_1_selected: u64,
    level_1_not_selected: u64,
}

/// The value that was set last under the attributes.
fn gauge_value(metric: &GaugeLog, attributes: &[(&str, &str)]) -> u64 {
    metric
        .observations
        .iter()
        .rev()
        .find(|o| o.attributes == attributes)
        .unwrap()
        .value
}

fn extract_file_metrics(metric: &GaugeLog) -> ExtractedFileMetrics {
    let level_0_selected = gauge_value(
        metric,
        &[
            ("compaction_level", "0"),
            ("status", "selected_for_compaction"),
        ],
    );
    let level_0_not_selected = gauge_value(
        metric,
        &[
            ("compaction_level", "0"),
            ("status", "not_selected_for_compaction"),
        ],
    );
    let level_1_selected = gauge_value(
        metric,
        &[
            ("compaction_level", "1"),
            ("status", "selected_for_compaction"),
        ],
    );
    let level_1_not_selected = gauge_value(
        metric,
        &[
            ("compaction_level", "1"),
            ("status", "not_selected_for_compaction"),
        ],
    );

    ExtractedFileMetrics {
        level_0_selected,
        level_0_not_selected,
        level_1_selected,
        level_1_not_selected,
    }
}

#[derive(Debug, PartialEq)]
struct ExtractedByteMetrics {
    level_0_sample_count: u64,
    level_0_buckets_with_counts: Vec<(u64, u64)>,
    level_1_sample_count: u64,
    level_1_buckets_with_counts: Vec<(u64, u64)>,
}

/// The samples for the attribute, or nothing if the histogram does not know of it.
fn observer(metric: &HistogramLog, attribute: (&str, &str)) -> Option<Vec<u64>> {
    let mut samples = None;
    for series in &metric.series {
        if series.attributes == [attribute] {
            samples
                .get_or_insert_with(Vec::new)
                .extend(series.values.iter().copied());
        }
    }
    samples
}

/// How many samples the smallest bucket that can hold them has, for each bucket with any.
fn buckets_with_counts(samples: &[u64]) -> Vec<(u64, u64)> {
    let mut counts = vec![];
    for (i, le) in BUCKETS.iter().enumerate() {
        let count = samples
            .iter()
            .filter(|v| **v <= *le && (i == 0 || **v > BUCKETS[i - 1]))
            .count() as u64;
        if count > 0 {
            counts.push((*le, count));
        }
    }
    counts
}

fn extract_byte_metrics(metric: &HistogramLog) -> ExtractedByteMetrics {
    let level_0 = observer(metric, ("file_size_compaction_level", "0")).unwrap();
    let level_1 = observer(metric, ("file_size_compaction_level", "1")).unwrap();

    ExtractedByteMetrics {
        level_0_sample_count: level_0.len() as u64,
        level_0_buckets_with_counts: buckets_with_counts(&level_0),
        level_1_sample_count: level_1.len() as u64,
        level_1_buckets_with_counts: buckets_with_counts(&level_1),
    }
}

fn one_tag_one_time_cols() -> Vec<ColumnTypeCount> {
    vec![
        ColumnTypeCount {
            col_type: ColumnType::Tag.code(),
            count: 1,
        },
        ColumnTypeCount {
            col_type: ColumnType::Time.code(),
            count: 1,
        },
    ]
}
