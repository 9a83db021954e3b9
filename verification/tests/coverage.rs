use polars_bio::coverage::{get_coverage, IntervalTree, MAX_INTERVALS};
use polars_bio::error::{BioError, ErrorKind};
use polars_bio::interval::{merge_intervals, Interval};

fn iv(first: i32, last: i32) -> Interval {
    Interval { first, last }
}

#[test]
fn limit_is_the_largest_signed_count() {
    assert_eq!(MAX_INTERVALS, i32::MAX as usize);
}

#[test]
fn empty_tree_counts_nothing() {
    let tree = IntervalTree::new(vec![]).unwrap();
    assert_eq!(tree.query_count(0, 100), 0);
    assert_eq!(get_coverage(&tree, 0, 100), 0);
}

#[test]
fn count_is_inclusive_of_both_ends() {
    let tree = IntervalTree::new(vec![iv(10, 20), iv(30, 40)]).unwrap();
    assert_eq!(tree.query_count(20, 30), 2);
    assert_eq!(tree.query_count(21, 29), 0);
    assert_eq!(tree.query_count(1, 10), 1);
    assert_eq!(tree.query_count(1, 9), 0);
    assert_eq!(tree.query_count(40, 50), 1);
    assert_eq!(tree.query_count(41, 50), 0);
    assert_eq!(tree.query_count(0, 100), 2);
}

#[test]
fn count_keeps_duplicates() {
    let tree = IntervalTree::new(vec![iv(1, 5), iv(1, 5), iv(1, 5)]).unwrap();
    assert_eq!(tree.query_count(3, 3), 3);
}

#[test]
fn count_of_a_range_that_ends_before_it_starts() {
    // The endpoints are compared as they are: the interval starts no later
    // than 5 and ends no earlier than 10.
    let tree = IntervalTree::new(vec![iv(1, 20), iv(6, 20), iv(1, 9)]).unwrap();
    assert_eq!(tree.query_count(10, 5), 1);
}

#[test]
fn count_on_many_intervals() {
    let mut intervals = Vec::new();
    for i in 0..1000 {
        intervals.push(iv(i * 10, i * 10 + 5));
    }
    let tree = IntervalTree::new(intervals.clone()).unwrap();
    for (first, last) in [(0, 0), (5, 10), (6, 9), (0, 9999), (4995, 5005), (9996, 20000), (-5, -1)] {
        let expected = intervals.iter().filter(|x| x.first <= last && x.last >= first).count();
        assert_eq!(tree.query_count(first, last), expected);
    }
}

#[test]
fn coverage_of_one_interval() {
    // min(end + 1, last) - max(start - 1, first)
    let tree = IntervalTree::new(vec![iv(10, 20)]).unwrap();
    assert_eq!(get_coverage(&tree, 12, 15), 16 - 11);
    assert_eq!(get_coverage(&tree, 5, 15), 16 - 10);
    assert_eq!(get_coverage(&tree, 15, 30), 20 - 14);
    assert_eq!(get_coverage(&tree, 0, 100), 20 - 10);
    assert_eq!(get_coverage(&tree, 21, 30), 0);
}

#[test]
fn coverage_is_at_least_one_for_each_interval_met() {
    let tree = IntervalTree::new(vec![iv(10, 20)]).unwrap();
    // min(21, 20) - max(19, 10) = 1
    assert_eq!(get_coverage(&tree, 20, 20), 1);
    // min(11, 20) - max(9, 10) = 1
    assert_eq!(get_coverage(&tree, 10, 10), 1);
    let point = IntervalTree::new(vec![iv(7, 7)]).unwrap();
    // min(8, 7) - max(6, 7) = 0, raised to 1
    assert_eq!(get_coverage(&point, 7, 7), 1);
}

#[test]
fn coverage_sums_over_overlapping_intervals() {
    let tree = IntervalTree::new(vec![iv(1, 5), iv(3, 8)]).unwrap();
    // [1,5]: min(5, 5) - max(3, 1) = 2; [3,8]: min(5, 8) - max(3, 3) = 2
    assert_eq!(get_coverage(&tree, 4, 4), 4);
    assert_eq!(tree.query_count(4, 4), 2);
}

#[test]
fn merged_intervals_cover_a_point_once() {
    let tree = IntervalTree::new(merge_intervals(vec![iv(1, 5), iv(3, 8)])).unwrap();
    assert_eq!(tree.query_count(4, 4), 1);
    // [1,8]: min(5, 8) - max(3, 1) = 2
    assert_eq!(get_coverage(&tree, 4, 4), 2);
}

#[test]
fn intervals_far_apart_are_counted_all_the_same() {
    let tree = IntervalTree::new(vec![iv(i32::MIN, -5), iv(5, i32::MAX), iv(1, 2)]).unwrap();
    assert_eq!(tree.query_count(0, 0), 0);
    assert_eq!(tree.query_count(-5, 5), 3);
    assert_eq!(tree.query_count(-4, 0), 0);
    assert_eq!(tree.query_count(i32::MIN, i32::MAX), 3);
    assert_eq!(tree.query_count(i32::MAX, i32::MAX), 1);
    // [5, MAX]: min(11, MAX) - max(3, 5) = 6
    assert_eq!(get_coverage(&tree, 4, 10), 6);
    // [MIN,-5]: -5 - MIN; [5,MAX]: MAX - 5; [1,2]: 2 - 1.
    assert_eq!(
        get_coverage(&tree, i32::MIN, i32::MAX),
        (-5 - i32::MIN as i64) + (i32::MAX as i64 - 5) + 1
    );
    let tree = IntervalTree::new(vec![iv(0, i32::MAX)]).unwrap();
    assert_eq!(tree.query_count(7, 7), 1);
}

#[test]
fn widest_span_that_the_tree_measures() {
    let tree = IntervalTree::new(vec![iv(0, i32::MAX - 1), iv(1, 2)]).unwrap();
    assert_eq!(tree.query_count(i32::MAX - 1, i32::MAX), 1);
    assert_eq!(tree.query_count(1, 1), 2);
    let tree = IntervalTree::new(vec![iv(i32::MIN, -2)]).unwrap();
    assert_eq!(tree.query_count(i32::MIN, i32::MIN), 1);
}

#[test]
fn intervals_that_end_before_they_start_are_met_by_the_same_rule() {
    // [5,3] starts no later than 10 and ends no earlier than 1.
    let tree = IntervalTree::new(vec![iv(5, 3), iv(20, 1), iv(7, 6), iv(8, 9)]).unwrap();
    assert_eq!(tree.query_count(1, 10), 3);
    assert_eq!(tree.query_count(4, 4), 0);
    assert_eq!(tree.query_count(1, 30), 4);
    assert_eq!(tree.query_count(7, 8), 1);
    // [5,3]: max(1, min(11, 3) - max(0, 5)) = 1; [7,6]: 1; [8,9]: min(11, 9) - max(0, 8) = 1.
    assert_eq!(get_coverage(&tree, 1, 10), 3);
}

#[test]
fn error_kinds() {
    assert_eq!(BioError::TooManyIntervals.kind(), ErrorKind::Capacity);
    assert_eq!(BioError::UnsupportedOperation.kind(), ErrorKind::Configuration);
    assert_eq!(BioError::ReservedAlgorithm.kind(), ErrorKind::Configuration);
    assert_eq!(BioError::UnsupportedColumnType.kind(), ErrorKind::Configuration);
    assert_eq!(BioError::MissingFilter.kind(), ErrorKind::Configuration);
    assert_eq!(BioError::MissingKeyColumns.kind(), ErrorKind::Configuration);
    assert_eq!(BioError::UnknownColumn.kind(), ErrorKind::Schema);
    assert_eq!(BioError::UnsupportedFormat.kind(), ErrorKind::Format);
    assert_eq!(BioError::IndexedFormat.kind(), ErrorKind::Format);
}

#[test]
fn error_messages() {
    assert_eq!(BioError::UnsupportedOperation.to_string(), "Unsupported operation");
    assert_eq!(BioError::UnsupportedFormat.to_string(), "Unsupported format");
    assert_eq!(BioError::IndexedFormat.to_string(), "Indexed formats are not supported");
    assert_eq!(
        BioError::ReservedAlgorithm.to_string(),
        "CoitreesNearest is an internal algorithm for nearest operation. Can't be set explicitly."
    );
}

fn next(state: &mut u64) -> i32 {
    *state = state.wrapping_mul(6364136223846793005).wrapping_add(1442695040888963407);
    ((*state >> 33) % 2000) as i32 - 1000
}

#[test]
fn count_and_coverage_agree_with_a_scan_of_all_intervals() {
    let mut state = 7u64;
    for size in [1usize, 2, 63, 64, 65, 200, 1500] {
        let mut intervals = Vec::new();
        for _ in 0..size {
            let first = next(&mut state);
            // Mostly short intervals, some long, some that end before they start.
            let last = first + next(&mut state) % 40 + if size % 2 == 0 { 15 } else { 30 };
            intervals.push(iv(first, last));
        }
        let tree = IntervalTree::new(intervals.clone()).unwrap();
        for _ in 0..300 {
            let first = next(&mut state);
            let last = first + next(&mut state) % 50;
            let met: Vec<&Interval> =
                intervals.iter().filter(|x| x.first <= last && x.last >= first).collect();
            assert_eq!(tree.query_count(first, last), met.len());
            let coverage: i64 = met
                .iter()
                .map(|x| {
                    let upper = std::cmp::min(last as i64 + 1, x.last as i64);
                    let lower = std::cmp::max(first as i64 - 1, x.first as i64);
                    std::cmp::max(1, upper - lower)
                })
                .sum();
            assert_eq!(get_coverage(&tree, first, last), coverage);
        }
    }
}

fn next_large(state: &mut u64) -> i32 {
    *state = state.wrapping_mul(6364136223846793005).wrapping_add(1442695040888963407);
    ((*state >> 33) % (i32::MAX as u64)) as i32
}

#[test]
fn count_agrees_with_a_scan_on_large_positions() {
    let mut state = 11u64;
    for size in [1usize, 3, 70, 700] {
        let mut intervals = Vec::new();
        for k in 0..size {
            let a = next_large(&mut state);
            let b = next_large(&mut state);
            match k % 4 {
                0 => intervals.push(iv(a.min(b), a.max(b))),
                1 => intervals.push(iv(a, a)),
                2 => intervals.push(iv(a, a - 1)),
                _ => intervals.push(iv(a.min(b), a.min(b).saturating_add(1000))),
            }
        }
        intervals.push(iv(0, i32::MAX - 1));
        let tree = IntervalTree::new(intervals.clone()).unwrap();
        for _ in 0..200 {
            let a = next_large(&mut state);
            let b = next_large(&mut state);
            let (first, last) = (a.min(b), a.max(b));
            let expected = intervals.iter().filter(|x| x.first <= last && x.last >= first).count();
            assert_eq!(tree.query_count(first, last), expected);
            let expected = intervals.iter().filter(|x| x.first <= a && x.last >= a).count();
            assert_eq!(tree.query_count(a, a), expected);
        }
    }
}
