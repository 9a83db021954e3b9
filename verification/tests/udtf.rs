use polars_bio::batch::{Column, ColumnData, DataType, Field, RecordBatch};
use polars_bio::error::BioError;
use polars_bio::operation::do_count_overlaps_coverage_naive;
use polars_bio::option::{FilterOp, RangeOp, RangeOptions};
use polars_bio::udtf::{
    build_coitree_from_batches, get_join_col_arrays, output_field, probe_batch, ContigArray,
    CountOverlapsProvider, PosArray,
};

fn names(items: &[&str]) -> Vec<String> {
    items.iter().map(|s| s.to_string()).collect()
}

fn key_names() -> (String, String, String) {
    ("contig".to_string(), "start".to_string(), "end".to_string())
}

fn batch32(rows: &[(&str, i32, i32)]) -> RecordBatch {
    let columns = vec![
        Column {
            name: "contig".to_string(),
            data: ColumnData::Utf8(rows.iter().map(|r| r.0.to_string()).collect()),
        },
        Column { name: "start".to_string(), data: ColumnData::Int32(rows.iter().map(|r| r.1).collect()) },
        Column { name: "end".to_string(), data: ColumnData::Int32(rows.iter().map(|r| r.2).collect()) },
    ];
    RecordBatch::try_new(columns, rows.len()).unwrap()
}

fn batch64(rows: &[(&str, i64, i64)]) -> RecordBatch {
    let columns = vec![
        Column {
            name: "contig".to_string(),
            data: ColumnData::LargeUtf8(rows.iter().map(|r| r.0.to_string()).collect()),
        },
        Column { name: "start".to_string(), data: ColumnData::Int64(rows.iter().map(|r| r.1).collect()) },
        Column { name: "end".to_string(), data: ColumnData::Int64(rows.iter().map(|r| r.2).collect()) },
    ];
    RecordBatch::try_new(columns, rows.len()).unwrap()
}

#[test]
fn batch_needs_columns_of_one_length() {
    let columns = vec![
        Column { name: "a".to_string(), data: ColumnData::Int32(vec![1, 2]) },
        Column { name: "b".to_string(), data: ColumnData::Int64(vec![1]) },
    ];
    assert!(RecordBatch::try_new(columns, 2).is_none());
    let columns = vec![
        Column { name: "a".to_string(), data: ColumnData::Int32(vec![1, 2]) },
        Column { name: "b".to_string(), data: ColumnData::Other },
    ];
    let batch = RecordBatch::try_new(columns, 2).unwrap();
    assert_eq!(batch.num_rows(), 2);
    assert_eq!(batch.columns().len(), 2);
}

#[test]
fn column_by_name_finds_the_first() {
    let columns = vec![
        Column { name: "x".to_string(), data: ColumnData::Int32(vec![1]) },
        Column { name: "y".to_string(), data: ColumnData::Int32(vec![2]) },
        Column { name: "x".to_string(), data: ColumnData::Int32(vec![3]) },
    ];
    let batch = RecordBatch::try_new(columns, 1).unwrap();
    assert_eq!(batch.column_by_name("x").unwrap().data, ColumnData::Int32(vec![1]));
    assert_eq!(batch.column_by_name("y").unwrap().data, ColumnData::Int32(vec![2]));
    assert!(batch.column_by_name("z").is_none());
    assert_eq!(batch.column_by_name("y").unwrap().data.data_type(), DataType::Int32);
}

#[test]
fn key_columns_of_each_type() {
    let batch = batch32(&[("chr1", 1, 10), ("chr2", 5, 6)]);
    let (contig, start, end) = get_join_col_arrays(&batch, &key_names()).unwrap();
    assert!(matches!(contig, ContigArray::Utf8(_)));
    assert!(matches!(start, PosArray::Int32(_)));
    assert!(matches!(end, PosArray::Int32(_)));
    assert_eq!(contig.data_type(), DataType::Utf8);
    assert_eq!(start.data_type(), DataType::Int32);
    assert_eq!(end.data_type(), DataType::Int32);
    assert_eq!(contig.value(1), "chr2");
    assert_eq!(start.value(0), 1);
    assert_eq!(end.value(1), 6);

    let batch = batch64(&[("chr1", 1, 10)]);
    let (contig, start, end) = get_join_col_arrays(&batch, &key_names()).unwrap();
    assert!(matches!(contig, ContigArray::GenericString(_)));
    assert!(matches!(start, PosArray::Int64(_)));
    assert!(matches!(end, PosArray::Int64(_)));
    assert_eq!(contig.data_type(), DataType::LargeUtf8);
    assert_eq!(start.data_type(), DataType::Int64);
    assert_eq!(end.data_type(), DataType::Int64);
    assert_eq!(contig.value(0), "chr1");
    assert_eq!(start.value(0), 1);
    assert_eq!(end.value(0), 10);

    let columns = vec![
        Column { name: "contig".to_string(), data: ColumnData::Utf8View(vec!["c".to_string()]) },
        Column { name: "start".to_string(), data: ColumnData::Int64(vec![7]) },
        Column { name: "end".to_string(), data: ColumnData::Int32(vec![9]) },
    ];
    let batch = RecordBatch::try_new(columns, 1).unwrap();
    let (contig, start, end) = get_join_col_arrays(&batch, &key_names()).unwrap();
    assert!(matches!(contig, ContigArray::Utf8View(_)));
    assert_eq!(contig.data_type(), DataType::Utf8View);
    assert!(matches!(start, PosArray::Int64(_)));
    assert!(matches!(end, PosArray::Int32(_)));
}

#[test]
fn wide_positions_keep_their_low_bits() {
    let batch = batch64(&[("chr1", (1i64 << 32) + 5, -1)]);
    let (_, start, end) = get_join_col_arrays(&batch, &key_names()).unwrap();
    assert_eq!(start.value(0), 5);
    assert_eq!(end.value(0), -1);
}

#[test]
fn key_column_errors() {
    let batch = batch32(&[("chr1", 1, 10)]);
    let missing = ("chrom".to_string(), "start".to_string(), "end".to_string());
    assert_eq!(get_join_col_arrays(&batch, &missing).err(), Some(BioError::UnknownColumn));
    let missing = ("contig".to_string(), "start".to_string(), "stop".to_string());
    assert_eq!(get_join_col_arrays(&batch, &missing).err(), Some(BioError::UnknownColumn));
    let wrong = ("start".to_string(), "start".to_string(), "end".to_string());
    assert_eq!(get_join_col_arrays(&batch, &wrong).err(), Some(BioError::UnsupportedColumnType));
    let wrong = ("contig".to_string(), "contig".to_string(), "end".to_string());
    assert_eq!(get_join_col_arrays(&batch, &wrong).err(), Some(BioError::UnsupportedColumnType));
    // The contig column is looked at before the others.
    let both = ("start".to_string(), "nowhere".to_string(), "end".to_string());
    assert_eq!(get_join_col_arrays(&batch, &both).err(), Some(BioError::UnsupportedColumnType));
    let columns = vec![
        Column { name: "contig".to_string(), data: ColumnData::Other },
        Column { name: "start".to_string(), data: ColumnData::Int32(vec![]) },
        Column { name: "end".to_string(), data: ColumnData::Int32(vec![]) },
    ];
    let batch = RecordBatch::try_new(columns, 0).unwrap();
    assert_eq!(get_join_col_arrays(&batch, &key_names()).err(), Some(BioError::UnsupportedColumnType));
}

#[test]
fn index_groups_rows_by_contig() {
    let batches = vec![
        batch32(&[("chr1", 1, 10), ("chr2", 5, 15), ("chr1", 20, 30)]),
        batch32(&[("chr2", 100, 200), ("chr3", 1, 1)]),
    ];
    let index = build_coitree_from_batches(batches, key_names(), false).unwrap();
    assert_eq!(index.get("chr1").unwrap().query_count(0, 1000), 2);
    assert_eq!(index.get("chr2").unwrap().query_count(0, 1000), 2);
    assert_eq!(index.get("chr3").unwrap().query_count(0, 1000), 1);
    assert!(index.get("chr4").is_none());
    assert!(index.get("CHR1").is_none());
    assert_eq!(index.get("chr1").unwrap().query_count(10, 19), 1);
    assert_eq!(index.get("chr2").unwrap().query_count(16, 99), 0);
}

#[test]
fn index_of_no_batches_is_empty() {
    let index = build_coitree_from_batches(vec![], key_names(), false).unwrap();
    assert!(index.get("chr1").is_none());
    assert_eq!(index.probe("chr1", 1, 10, FilterOp::Weak, false), 0);
    assert_eq!(index.probe("chr1", 1, 10, FilterOp::Weak, true), 0);
}

#[test]
fn index_build_fails_on_a_batch_that_cannot_be_read() {
    let good = batch32(&[("chr1", 1, 10)]);
    let columns = vec![
        Column { name: "contig".to_string(), data: ColumnData::Utf8(vec![]) },
        Column { name: "start".to_string(), data: ColumnData::Other },
        Column { name: "end".to_string(), data: ColumnData::Int32(vec![]) },
    ];
    let bad = RecordBatch::try_new(columns, 0).unwrap();
    let result = build_coitree_from_batches(vec![good, bad], key_names(), false);
    assert_eq!(result.err(), Some(BioError::UnsupportedColumnType));
}

#[test]
fn index_takes_contigs_that_span_the_whole_range() {
    let batch = batch32(&[("chr1", i32::MIN, 0), ("chr1", 0, i32::MAX), ("chr2", 1, 2), ("chr1", 9, 3)]);
    let index = build_coitree_from_batches(vec![batch], key_names(), false).unwrap();
    assert_eq!(index.probe("chr1", 0, 0, FilterOp::Weak, false), 2);
    assert_eq!(index.probe("chr1", 0, 0, FilterOp::Strict, false), 0);
    assert_eq!(index.probe("chr1", 1, 10, FilterOp::Weak, false), 2);
    assert_eq!(index.probe("chr2", 2, 2, FilterOp::Weak, false), 1);
}

#[test]
fn probe_counts_weak_and_strict() {
    let index =
        build_coitree_from_batches(vec![batch32(&[("chr1", 10, 20), ("chr1", 20, 30)])], key_names(), false)
            .unwrap();
    assert_eq!(index.probe("chr1", 20, 20, FilterOp::Weak, false), 2);
    assert_eq!(index.probe("chr1", 20, 20, FilterOp::Strict, false), 0);
    assert_eq!(index.probe("chr1", 1, 10, FilterOp::Weak, false), 1);
    assert_eq!(index.probe("chr1", 1, 10, FilterOp::Strict, false), 0);
    assert_eq!(index.probe("chr1", 1, 11, FilterOp::Strict, false), 1);
    assert_eq!(index.probe("chr1", 19, 21, FilterOp::Strict, false), 2);
    assert_eq!(index.probe("chr1", 30, 40, FilterOp::Weak, false), 1);
    assert_eq!(index.probe("chr1", 30, 40, FilterOp::Strict, false), 0);
    assert_eq!(index.probe("chr2", 1, 100, FilterOp::Weak, false), 0);
}

#[test]
fn probe_at_the_ends_of_the_range_of_positions() {
    let index = build_coitree_from_batches(
        vec![batch32(&[("chr1", i32::MAX - 5, i32::MAX - 1), ("chr2", i32::MIN, i32::MIN + 3)])],
        key_names(),
        false,
    )
    .unwrap();
    assert_eq!(index.probe("chr1", i32::MAX, i32::MAX, FilterOp::Strict, false), 0);
    assert_eq!(index.probe("chr1", i32::MAX - 1, i32::MAX, FilterOp::Weak, false), 1);
    assert_eq!(index.probe("chr1", i32::MAX - 3, i32::MAX, FilterOp::Strict, false), 1);
    assert_eq!(index.probe("chr2", i32::MIN, i32::MIN, FilterOp::Strict, false), 0);
    assert_eq!(index.probe("chr2", i32::MIN, i32::MIN, FilterOp::Weak, false), 1);
    // Narrowed to one position: min(MIN + 2, MIN + 3) - max(MIN, MIN) = 2.
    assert_eq!(index.probe("chr2", i32::MIN, i32::MIN + 2, FilterOp::Strict, true), 2);
}

#[test]
fn probe_coverage_uses_merged_intervals() {
    let rows = [("chr1", 1, 5), ("chr1", 3, 8), ("chr1", 20, 30)];
    let merged = build_coitree_from_batches(vec![batch32(&rows)], key_names(), true).unwrap();
    let plain = build_coitree_from_batches(vec![batch32(&rows)], key_names(), false).unwrap();
    // A probe at [4,4] meets one merged span, but two of the rows.
    assert_eq!(merged.get("chr1").unwrap().query_count(4, 4), 1);
    assert_eq!(plain.get("chr1").unwrap().query_count(4, 4), 2);
    // Merged span [1,8]: min(5, 8) - max(3, 1) = 2.
    assert_eq!(merged.probe("chr1", 4, 4, FilterOp::Weak, true), 2);
    // [1,8]: min(26, 8) - max(-1, 1) = 7; [20,30]: min(26, 30) - max(-1, 20) = 6.
    assert_eq!(merged.probe("chr1", 0, 25, FilterOp::Weak, true), 13);
    // Strict narrows the range to [1,24] first: 7 + (25 - 20).
    assert_eq!(merged.probe("chr1", 0, 25, FilterOp::Strict, true), 12);
    assert_eq!(merged.probe("chr9", 0, 25, FilterOp::Weak, true), 0);
}

#[test]
fn probe_batch_appends_one_value_per_row() {
    let index = build_coitree_from_batches(
        vec![batch32(&[("chr1", 1, 10), ("chr1", 5, 6), ("chr2", 1, 5)])],
        key_names(),
        false,
    )
    .unwrap();
    let right = batch32(&[("chr1", 5, 15), ("chr2", 1, 5), ("chr3", 1, 5), ("chr1", 11, 12)]);
    let counts = probe_batch(&index, &right, &key_names(), FilterOp::Weak, false).unwrap();
    assert_eq!(counts, vec![2, 1, 0, 0]);
    let empty = batch32(&[]);
    assert_eq!(probe_batch(&index, &empty, &key_names(), FilterOp::Weak, false).unwrap(), Vec::<i64>::new());
}

#[test]
fn probe_batch_fails_on_unreadable_keys() {
    let index = build_coitree_from_batches(vec![], key_names(), false).unwrap();
    let columns = vec![Column { name: "contig".to_string(), data: ColumnData::Utf8(vec![]) }];
    let right = RecordBatch::try_new(columns, 0).unwrap();
    assert_eq!(
        probe_batch(&index, &right, &key_names(), FilterOp::Weak, false).err(),
        Some(BioError::UnknownColumn)
    );
}

#[test]
fn mixed_integer_widths_give_the_same_counts() {
    let left32 = batch32(&[("chr1", 1, 10), ("chr1", 8, 20), ("chr2", 3, 4)]);
    let left64 = batch64(&[("chr1", 1, 10), ("chr1", 8, 20), ("chr2", 3, 4)]);
    let right32 = batch32(&[("chr1", 9, 9), ("chr1", 11, 30), ("chr2", 4, 8), ("chrX", 1, 2)]);
    let right64 = batch64(&[("chr1", 9, 9), ("chr1", 11, 30), ("chr2", 4, 8), ("chrX", 1, 2)]);
    let expected: Vec<i64> = vec![2, 1, 1, 0];
    let from32 = build_coitree_from_batches(vec![left32], key_names(), false).unwrap();
    let from64 = build_coitree_from_batches(vec![left64], key_names(), false).unwrap();
    assert_eq!(probe_batch(&from32, &right64, &key_names(), FilterOp::Weak, false).unwrap(), expected);
    assert_eq!(probe_batch(&from64, &right32, &key_names(), FilterOp::Weak, false).unwrap(), expected);
    assert_eq!(probe_batch(&from32, &right32, &key_names(), FilterOp::Weak, false).unwrap(), expected);
    assert_eq!(probe_batch(&from64, &right64, &key_names(), FilterOp::Weak, false).unwrap(), expected);
}

#[test]
fn native_count_equals_the_number_of_joined_rows() {
    let left = [("chr1", 1, 10), ("chr1", 5, 7), ("chr2", 1, 100), ("chr1", 10, 12), ("chr1", 30, 40)];
    let right = [("chr1", 10, 10), ("chr1", 7, 30), ("chr2", 100, 101), ("chr3", 1, 2), ("chr1", 13, 29)];
    let index = build_coitree_from_batches(vec![batch32(&left)], key_names(), false).unwrap();
    for filter_op in [FilterOp::Weak, FilterOp::Strict] {
        let counts = probe_batch(&index, &batch32(&right), &key_names(), filter_op, false).unwrap();
        for (row, count) in right.iter().zip(counts) {
            let joined = left
                .iter()
                .filter(|l| {
                    l.0 == row.0
                        && match filter_op {
                            FilterOp::Weak => l.2 >= row.1 && l.1 <= row.2,
                            FilterOp::Strict => l.2 > row.1 && l.1 < row.2,
                        }
                })
                .count();
            assert_eq!(count, joined as i64);
        }
    }
}

#[test]
fn output_field_is_named_by_what_is_computed() {
    let field = output_field(true);
    assert_eq!(field, Field { name: "coverage".to_string(), data_type: DataType::Int64, nullable: false });
    let field = output_field(false);
    assert_eq!(field, Field { name: "count".to_string(), data_type: DataType::Int64, nullable: false });
}

fn right_schema() -> Vec<Field> {
    vec![
        Field { name: "contig".to_string(), data_type: DataType::Utf8, nullable: true },
        Field { name: "start".to_string(), data_type: DataType::Int64, nullable: true },
        Field { name: "end".to_string(), data_type: DataType::Int64, nullable: true },
        Field { name: "name".to_string(), data_type: DataType::Other, nullable: true },
    ]
}

#[test]
fn provider_appends_the_output_field() {
    let provider = CountOverlapsProvider::new(
        "s1".to_string(),
        "s2".to_string(),
        right_schema(),
        names(&["contig", "start", "end"]),
        names(&["contig", "start", "end", "ignored"]),
        FilterOp::Strict,
        false,
    )
    .unwrap();
    let mut expected = right_schema();
    expected.push(Field { name: "count".to_string(), data_type: DataType::Int64, nullable: false });
    assert_eq!(provider.schema(), &expected);
    assert_eq!(provider.columns_1, key_names());
    assert_eq!(provider.columns_2, key_names());
    assert_eq!(provider.filter_op, FilterOp::Strict);
    assert!(!provider.coverage);
    assert_eq!(provider.left_table, "s1");
    assert_eq!(provider.right_table, "s2");
}

#[test]
fn provider_needs_three_key_columns() {
    let result = CountOverlapsProvider::new(
        "s1".to_string(),
        "s2".to_string(),
        right_schema(),
        names(&["contig", "start"]),
        names(&["contig", "start", "end"]),
        FilterOp::Weak,
        true,
    );
    assert_eq!(result.err(), Some(BioError::MissingKeyColumns));
}

#[test]
fn provider_scans_once_and_executes_per_batch() {
    let provider = CountOverlapsProvider::new(
        "s1".to_string(),
        "s2".to_string(),
        right_schema(),
        names(&["contig", "start", "end"]),
        names(&["contig", "start", "end"]),
        FilterOp::Weak,
        true,
    )
    .unwrap();
    let exec = provider.scan(vec![batch32(&[("chr1", 1, 5), ("chr1", 3, 8)])]).unwrap();
    assert_eq!(exec.name(), "CountOverlapsExec");
    assert_eq!(provider.schema().last().unwrap().name, "coverage");
    assert_eq!(exec.right_table, "s2");
    assert_eq!(exec.columns_2, key_names());
    assert!(exec.coverage);
    assert_eq!(exec.filter_op, FilterOp::Weak);
    assert_eq!(exec.execute(&batch64(&[("chr1", 4, 4), ("chr2", 4, 4)])).unwrap(), vec![2, 0]);
    assert_eq!(exec.execute(&batch32(&[("chr1", 8, 9)])).unwrap(), vec![1]);
}

#[test]
fn native_operator_from_options() {
    let opts = RangeOptions::new(
        RangeOp::CountOverlapsNaive,
        Some(FilterOp::Weak),
        None,
        Some(names(&["contig", "start", "end"])),
        Some(names(&["chrom", "s", "e"])),
        None,
        None,
        None,
    );
    let provider =
        do_count_overlaps_coverage_naive(opts, "s1".to_string(), "s2".to_string(), right_schema(), false)
            .unwrap();
    assert_eq!(provider.columns_2, ("chrom".to_string(), "s".to_string(), "e".to_string()));
    assert_eq!(provider.schema.len(), 5);
    assert_eq!(provider.schema[4].name, "count");
}

#[test]
fn native_operator_has_the_default_key_columns() {
    let opts = RangeOptions::new(RangeOp::Coverage, Some(FilterOp::Weak), None, None, None, None, None, None);
    let unnamed =
        do_count_overlaps_coverage_naive(opts, "a".to_string(), "b".to_string(), right_schema(), true)
            .unwrap();
    let opts = RangeOptions::new(
        RangeOp::Coverage,
        Some(FilterOp::Weak),
        None,
        Some(names(&["contig", "start", "end"])),
        Some(names(&["contig", "start", "end"])),
        None,
        None,
        None,
    );
    let named =
        do_count_overlaps_coverage_naive(opts, "a".to_string(), "b".to_string(), right_schema(), true)
            .unwrap();
    assert_eq!(unnamed.columns_1, key_names());
    assert_eq!(unnamed.columns_2, key_names());
    assert_eq!(unnamed.columns_1, named.columns_1);
    assert_eq!(unnamed.columns_2, named.columns_2);
    assert_eq!(unnamed.schema, named.schema);
    assert_eq!(unnamed.filter_op, named.filter_op);
    assert_eq!(unnamed.coverage, named.coverage);
    // One side named, the other not.
    let opts = RangeOptions::new(
        RangeOp::CountOverlapsNaive,
        Some(FilterOp::Strict),
        None,
        None,
        Some(names(&["chrom", "s", "e"])),
        None,
        None,
        None,
    );
    let mixed =
        do_count_overlaps_coverage_naive(opts, "a".to_string(), "b".to_string(), right_schema(), false)
            .unwrap();
    assert_eq!(mixed.columns_1, key_names());
    assert_eq!(mixed.columns_2, ("chrom".to_string(), "s".to_string(), "e".to_string()));
    let exec = unnamed.scan(vec![batch32(&[("chr1", 1, 5), ("chr1", 3, 8)])]).unwrap();
    assert_eq!(exec.execute(&batch32(&[("chr1", 4, 4)])).unwrap(), vec![2]);
}

#[test]
fn native_operator_needs_a_filter_and_three_columns() {
    let opts = RangeOptions::new(
        RangeOp::Coverage,
        None,
        None,
        Some(names(&["contig", "start", "end"])),
        Some(names(&["contig", "start", "end"])),
        None,
        None,
        None,
    );
    let result = do_count_overlaps_coverage_naive(opts, "a".to_string(), "b".to_string(), vec![], true);
    assert_eq!(result.err(), Some(BioError::MissingFilter));
    // The strictness is asked for before the key columns are counted.
    let opts = RangeOptions::new(
        RangeOp::Coverage,
        None,
        None,
        Some(names(&["contig", "start"])),
        Some(names(&["contig", "start", "end"])),
        None,
        None,
        None,
    );
    let result = do_count_overlaps_coverage_naive(opts, "a".to_string(), "b".to_string(), vec![], true);
    assert_eq!(result.err(), Some(BioError::MissingFilter));
    let opts = RangeOptions::new(
        RangeOp::Coverage,
        Some(FilterOp::Strict),
        None,
        Some(names(&["contig", "start", "end"])),
        Some(names(&["contig", "start"])),
        None,
        None,
        None,
    );
    let result = do_count_overlaps_coverage_naive(opts, "a".to_string(), "b".to_string(), vec![], true);
    assert_eq!(result.err(), Some(BioError::MissingKeyColumns));
}
