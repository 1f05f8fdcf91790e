# Compactor

Selection of the Parquet files of a partition for compaction, verified with Verus.

A partition has level 0 files, which may overlap in time, and level 1 files, which do not overlap
each other. A compaction takes level 0 files from the start of their list, together with the level 1
files that overlap them: in a hot partition as many as a budget of memory allows, in a cold one up
to a number of bytes and of files.

- `src/` is the library. `src/parquet_file_filtering.rs` holds the selection,
  `src/arrow_estimate.rs` the estimate of the memory that a file needs. `src/fits.rs` decides
  whether a selection can be made in 64-bit numbers. The laws of the selection
  are in `src/selection.rs`, `src/hot_laws.rs` and `src/cold_laws.rs`.
- `tests/` runs it on concrete files.
- `app/` holds the command line of the ingester, and makes selections and reports on them to
  metrics and to the log.
