use compactor::ingester::{
    IngesterConfig, DEFAULT_CONCURRENT_REQUEST_LIMIT,
    DEFAULT_PERSIST_PARTITION_AGE_THRESHOLD_SECONDS,
    DEFAULT_PERSIST_PARTITION_COLD_THRESHOLD_SECONDS, DEFAULT_PERSIST_PARTITION_ROWS_MAX,
    DEFAULT_PERSIST_PARTITION_SIZE_THRESHOLD_BYTES, DEFAULT_TEST_FLIGHT_DO_GET_PANIC,
};
use compactor::metrics::{
    record_byte_metrics, record_file_metrics, GaugeLog, HistogramLog, Observation, Series,
};

fn count(level: &'static str, status: &'static str, value: u64) -> Observation {
    Observation {
        attributes: vec![("compaction_level", level), ("status", status)],
        value,
    }
}

const SIZE: &str = "file_size_compaction_level";
const BUDGET: &str = "file_estimated_compacting_budget_compaction_level";

fn series(name: &'static str, level: &'static str, values: Vec<u64>) -> Series {
    Series {
        attributes: vec![(name, level)],
        values,
    }
}

#[test]
fn file_metrics_split_the_considered_files() {
    let mut gauge = GaugeLog::new();
    record_file_metrics(&mut gauge, 3, 7, 2, 4);
    assert_eq!(
        gauge.observations,
        [
            count("0", "selected_for_compaction", 2),
            count("0", "not_selected_for_compaction", 1),
            count("1", "selected_for_compaction", 4),
            count("1", "not_selected_for_compaction", 3),
        ]
    );
}

#[test]
fn file_metrics_are_added_after_earlier_ones() {
    let mut gauge = GaugeLog::new();
    record_file_metrics(&mut gauge, 1, 1, 0, 0);
    record_file_metrics(&mut gauge, 1, 1, 1, 1);
    assert_eq!(gauge.observations.len(), 8);
    assert_eq!(
        gauge.observations[4],
        count("0", "selected_for_compaction", 1)
    );
    assert_eq!(
        gauge.observations[7],
        count("1", "not_selected_for_compaction", 0)
    );
}

#[test]
fn byte_metrics_hold_sizes_and_budgets_by_level() {
    let mut histogram = HistogramLog::new();
    record_byte_metrics(
        &mut histogram,
        vec![1, 2],
        vec![3],
        vec![40, 50],
        vec![60],
    );
    assert_eq!(
        histogram.series,
        [
            series(SIZE, "0", vec![1, 2]),
            series(SIZE, "1", vec![3]),
            series(BUDGET, "0", vec![40, 50]),
            series(BUDGET, "1", vec![60]),
        ]
    );
}

#[test]
fn byte_metrics_of_no_files_have_series_without_samples() {
    let mut histogram = HistogramLog::new();
    record_byte_metrics(&mut histogram, vec![], vec![], vec![], vec![]);
    assert_eq!(
        histogram.series,
        [
            series(SIZE, "0", vec![]),
            series(SIZE, "1", vec![]),
            series(BUDGET, "0", vec![]),
            series(BUDGET, "1", vec![]),
        ]
    );
}

#[test]
fn byte_metrics_of_one_level_have_series_for_both() {
    let mut histogram = HistogramLog::new();
    record_byte_metrics(
        &mut histogram,
        vec![10, 10, 10],
        vec![],
        vec![10, 10, 10],
        vec![],
    );
    assert_eq!(
        histogram.series,
        [
            series(SIZE, "0", vec![10, 10, 10]),
            series(SIZE, "1", vec![]),
            series(BUDGET, "0", vec![10, 10, 10]),
            series(BUDGET, "1", vec![]),
        ]
    );
}

#[test]
fn byte_metrics_are_added_after_earlier_ones() {
    let mut histogram = HistogramLog::new();
    record_byte_metrics(&mut histogram, vec![1], vec![], vec![2], vec![]);
    record_byte_metrics(&mut histogram, vec![3], vec![4], vec![5], vec![6]);
    assert_eq!(histogram.series.len(), 8);
    assert_eq!(histogram.series[0], series(SIZE, "0", vec![1]));
    assert_eq!(histogram.series[7], series(BUDGET, "1", vec![6]));
}

#[test]
fn ingester_defaults() {
    let config = IngesterConfig {
        shard_index_range_start: 0,
        shard_index_range_end: 9,
        pause_ingest_size_bytes: 100,
        persist_memory_threshold_bytes: 50,
        persist_partition_size_threshold_bytes: DEFAULT_PERSIST_PARTITION_SIZE_THRESHOLD_BYTES,
        persist_partition_age_threshold_seconds: DEFAULT_PERSIST_PARTITION_AGE_THRESHOLD_SECONDS,
        persist_partition_cold_threshold_seconds: DEFAULT_PERSIST_PARTITION_COLD_THRESHOLD_SECONDS,
        persist_partition_rows_max: DEFAULT_PERSIST_PARTITION_ROWS_MAX,
        skip_to_oldest_available: false,
        test_flight_do_get_panic: DEFAULT_TEST_FLIGHT_DO_GET_PANIC,
        concurrent_request_limit: DEFAULT_CONCURRENT_REQUEST_LIMIT,
    };
    assert_eq!(
        config.persist_partition_size_threshold_bytes,
        300 * 1024 * 1024
    );
    assert_eq!(config.persist_partition_age_threshold_seconds, 30 * 60);
    assert_eq!(config.persist_partition_cold_threshold_seconds, 5 * 60);
    assert_eq!(config.persist_partition_rows_max, 500_000);
    assert_eq!(config.test_flight_do_get_panic, 0);
    assert_eq!(config.concurrent_request_limit, 20);
}
