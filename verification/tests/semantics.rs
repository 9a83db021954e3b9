use polars_bio::interval::Interval;
use polars_bio::option::FilterOp;
use polars_bio::semantics::{nearest_distance, overlaps};

fn range(first: i32, last: i32) -> Interval {
    Interval { first, last }
}

#[test]
fn nearest_distance_of_separate_intervals() {
    assert_eq!(nearest_distance(range(10, 20), range(25, 30)), 5);
    assert_eq!(nearest_distance(range(25, 30), range(10, 20)), 5);
    assert!(!overlaps(FilterOp::Weak, range(10, 20), range(25, 30)));
    assert!(!overlaps(FilterOp::Strict, range(10, 20), range(25, 30)));
}

#[test]
fn nearest_distance_of_overlapping_intervals() {
    assert_eq!(nearest_distance(range(10, 20), range(15, 25)), 0);
    assert_eq!(nearest_distance(range(15, 25), range(10, 20)), 0);
    assert_eq!(nearest_distance(range(10, 20), range(12, 13)), 0);
}

#[test]
fn nearest_distance_of_touching_intervals() {
    assert_eq!(nearest_distance(range(10, 20), range(20, 30)), 0);
    assert_eq!(nearest_distance(range(20, 30), range(10, 20)), 0);
}

#[test]
fn nearest_distance_over_the_whole_range() {
    assert_eq!(nearest_distance(range(i32::MIN, i32::MIN), range(i32::MAX, i32::MAX)), 4294967295);
}

#[test]
fn weak_pairs_touching_intervals_and_strict_does_not() {
    assert!(overlaps(FilterOp::Weak, range(10, 20), range(20, 30)));
    assert!(!overlaps(FilterOp::Strict, range(10, 20), range(20, 30)));
    assert!(overlaps(FilterOp::Weak, range(20, 30), range(10, 20)));
    assert!(!overlaps(FilterOp::Strict, range(20, 30), range(10, 20)));
}

#[test]
fn weak_pairs_whatever_strict_pairs() {
    let intervals = [range(1, 10), range(5, 15), range(10, 10), range(11, 20), range(0, 0), range(15, 16)];
    for a in intervals {
        for b in intervals {
            if overlaps(FilterOp::Strict, a, b) {
                assert!(overlaps(FilterOp::Weak, a, b));
            }
        }
    }
}

#[test]
fn one_left_row_two_right_rows() {
    let left = [("chr1", range(1, 10))];
    let right = [("chr1", range(5, 15)), ("chr2", range(1, 5))];
    let mut pairs = Vec::new();
    for l in left {
        for r in right {
            if l.0 == r.0 && overlaps(FilterOp::Weak, r.1, l.1) {
                pairs.push((l, r));
            }
        }
    }
    assert_eq!(pairs, vec![(("chr1", range(1, 10)), ("chr1", range(5, 15)))]);
}

#[test]
fn running_sums_give_the_number_of_overlaps() {
    let left = [range(1, 10), range(5, 5), range(5, 15), range(10, 10), range(11, 20), range(0, 0), range(15, 16), range(20, 30)];
    for start in -1..32 {
        for end in start..32 {
            let row = range(start, end);
            let started = left.iter().filter(|x| x.first <= end).count() as i64;
            let ended = left.iter().filter(|x| x.last < start).count() as i64;
            let paired = left.iter().filter(|x| overlaps(FilterOp::Weak, **x, row)).count() as i64;
            assert_eq!(started - ended, paired);
            if start < end {
                let started = left.iter().filter(|x| x.first < end).count() as i64;
                let ended = left.iter().filter(|x| x.last <= start).count() as i64;
                let paired =
                    left.iter().filter(|x| overlaps(FilterOp::Strict, **x, row)).count() as i64;
                assert_eq!(started - ended, paired);
            }
        }
    }
}
