use polars_bio::error::BioError;
use polars_bio::operation::{
    default_cols_to_string, do_range_operation, AlgorithmHint, QueryKind, Route,
    ALGORITHM_OPTION, DEFAULT_COLUMN_NAMES, NATIVE_TABLE, RESERVED_ALGORITHM,
};
use polars_bio::option::{FilterOp, RangeOp, RangeOptions};
use polars_bio::{LEFT_TABLE, RIGHT_TABLE};

fn request(range_op: RangeOp, overlap_alg: Option<&str>, streaming: Option<bool>) -> RangeOptions {
    RangeOptions::new(
        range_op,
        Some(FilterOp::Weak),
        None,
        None,
        None,
        None,
        overlap_alg.map(|s| s.to_string()),
        streaming,
    )
}

#[test]
fn constants() {
    assert_eq!(LEFT_TABLE, "s1");
    assert_eq!(RIGHT_TABLE, "s2");
    assert_eq!(DEFAULT_COLUMN_NAMES, ["contig", "start", "end"]);
    assert_eq!(RESERVED_ALGORITHM, "coitreesnearest");
    assert_eq!(ALGORITHM_OPTION, "sequila.interval_join_algorithm");
    assert_eq!(NATIVE_TABLE, "count_overlaps_coverage");
}

#[test]
fn default_columns_as_strings() {
    assert_eq!(
        default_cols_to_string(&DEFAULT_COLUMN_NAMES),
        vec!["contig".to_string(), "start".to_string(), "end".to_string()]
    );
    assert_eq!(
        default_cols_to_string(&["contig", "pos_start", "pos_end"]),
        vec!["contig".to_string(), "pos_start".to_string(), "pos_end".to_string()]
    );
}

#[test]
fn routes() {
    let cases = [
        (RangeOp::Overlap, Route::Sql(QueryKind::Overlap)),
        (RangeOp::Nearest, Route::Sql(QueryKind::Nearest)),
        (RangeOp::CountOverlaps, Route::Sql(QueryKind::CountOverlaps)),
        (RangeOp::CountOverlapsNaive, Route::Native { coverage: false }),
        (RangeOp::Coverage, Route::Native { coverage: true }),
    ];
    for (range_op, route) in cases {
        let plan = do_range_operation(&request(range_op, None, None)).unwrap();
        assert_eq!(plan.route, route);
        assert!(!plan.streaming);
    }
}

#[test]
fn unsupported_operations() {
    for range_op in [RangeOp::Complement, RangeOp::Cluster] {
        let result = do_range_operation(&request(range_op, None, None));
        assert!(matches!(result, Err(BioError::UnsupportedOperation)));
    }
}

#[test]
fn reserved_algorithm_is_refused_for_every_operation() {
    let all = [
        RangeOp::Overlap,
        RangeOp::Complement,
        RangeOp::Cluster,
        RangeOp::Nearest,
        RangeOp::Coverage,
        RangeOp::CountOverlaps,
        RangeOp::CountOverlapsNaive,
    ];
    for range_op in all {
        let result = do_range_operation(&request(range_op, Some("coitreesnearest"), None));
        assert!(matches!(result, Err(BioError::ReservedAlgorithm)));
    }
}

#[test]
fn reserved_algorithm_is_matched_exactly() {
    let plan = do_range_operation(&request(RangeOp::Overlap, Some("CoitreesNearest"), None)).unwrap();
    assert!(matches!(plan.algorithm, AlgorithmHint::Named(name) if name == "CoitreesNearest"));
}

#[test]
fn algorithm_hint() {
    let plan = do_range_operation(&request(RangeOp::Overlap, None, None)).unwrap();
    assert!(matches!(plan.algorithm, AlgorithmHint::Default));
    let plan = do_range_operation(&request(RangeOp::Overlap, Some("lapper"), None)).unwrap();
    assert!(matches!(plan.algorithm, AlgorithmHint::Named(name) if name == "lapper"));
    let plan = do_range_operation(&request(RangeOp::Coverage, Some("lapper"), None)).unwrap();
    assert!(matches!(plan.algorithm, AlgorithmHint::Named(name) if name == "lapper"));
}

#[test]
fn nearest_forces_its_algorithm() {
    let plan = do_range_operation(&request(RangeOp::Nearest, None, None)).unwrap();
    assert!(matches!(plan.algorithm, AlgorithmHint::Named(name) if name == "coitreesnearest"));
    let plan = do_range_operation(&request(RangeOp::Nearest, Some("lapper"), None)).unwrap();
    assert!(matches!(plan.algorithm, AlgorithmHint::Named(name) if name == "coitreesnearest"));
}

#[test]
fn streaming_flag() {
    assert!(do_range_operation(&request(RangeOp::Overlap, None, Some(true))).unwrap().streaming);
    assert!(!do_range_operation(&request(RangeOp::Overlap, None, Some(false))).unwrap().streaming);
}
