//! What the range operations mean, row by row: when two rows are paired by the
//! overlap join, how far apart two intervals are, and how the native operator
//! agrees with the join.

use vstd::prelude::*;
use crate::coverage::overlap_count;
use crate::interval::{meets, Interval};
use crate::option::FilterOp;
use crate::udtf::{contig_intervals, has_contig, probe_first, probe_last, row_value, KeyRow};

verus! {

/// The condition on positions under which the overlap query pairs two rows:
/// each interval starts before the other ends. With `Weak` an interval that
/// starts where the other ends is paired as well.
pub open spec fn overlap_condition(filter_op: FilterOp, a: Interval, b: Interval) -> bool {
    match filter_op {
        FilterOp::Weak => a.last >= b.first && a.first <= b.last,
        FilterOp::Strict => a.last > b.first && a.first < b.last,
    }
}

/// Whether the overlap query pairs two intervals of one contig.
pub fn overlaps(filter_op: FilterOp, a: Interval, b: Interval) -> (paired: bool)
    ensures
        paired == overlap_condition(filter_op, a, b),
{
    match filter_op {
        FilterOp::Weak => a.last >= b.first && a.first <= b.last,
        FilterOp::Strict => a.last > b.first && a.first < b.last,
    }
}

/// The distance that the nearest query reports for a pair: the gap from the
/// end of `a` to the start of `b` where `b` starts at or after the end of `a`,
/// the gap from the end of `b` to the start of `a` where `b` ends at or before
/// the start of `a`, and 0 for a pair that overlaps.
pub open spec fn distance(a: Interval, b: Interval) -> int {
    if b.first >= a.last {
        b.first - a.last
    } else if b.last <= a.first {
        a.first - b.last
    } else {
        0
    }
}

/// The distance between two intervals, as the nearest query reports it.
pub fn nearest_distance(a: Interval, b: Interval) -> (gap: i64)
    ensures
        gap == distance(a, b),
        gap >= 0,
{
    if b.first >= a.last {
        b.first as i64 - a.last as i64
    } else if b.last <= a.first {
        a.first as i64 - b.last as i64
    } else {
        0
    }
}

/// The predicate "is paired with the row from `start` to `end` on `contig`".
pub open spec fn pairs_with(filter_op: FilterOp, contig: Seq<char>, start: i32, end: i32) -> spec_fn(
    KeyRow,
) -> bool {
    |row: KeyRow|
        row.contig == contig && overlap_condition(
            filter_op,
            row.interval,
            Interval { first: start, last: end },
        )
}

/// Whatever `Strict` pairs, `Weak` pairs.
pub proof fn lemma_weak_includes_strict(a: Interval, b: Interval)
    ensures
        overlap_condition(FilterOp::Strict, a, b) ==> overlap_condition(FilterOp::Weak, a, b),
{
}

/// The rows that the overlap join pairs with a row under `Strict` are among
/// those that it pairs with it under `Weak`: every left row that is paired
/// under `Strict` is paired under `Weak`, so there are no more of them.
pub proof fn lemma_weak_is_superset(rows: Seq<KeyRow>, contig: Seq<char>, start: i32, end: i32)
    ensures
        forall|i: int|
            0 <= i < rows.len() && pairs_with(FilterOp::Strict, contig, start, end)(
                #[trigger] rows[i],
            ) ==> pairs_with(FilterOp::Weak, contig, start, end)(rows[i]),
        rows.filter(pairs_with(FilterOp::Strict, contig, start, end)).len() <= rows.filter(
            pairs_with(FilterOp::Weak, contig, start, end),
        ).len(),
    decreases rows.len(),
{
    let strict = pairs_with(FilterOp::Strict, contig, start, end);
    let weak = pairs_with(FilterOp::Weak, contig, start, end);
    if rows.len() == 0 {
        rows.lemma_filter_len(strict);
    } else {
        let head = rows.drop_last();
        lemma_weak_is_superset(head, contig, start, end);
        head.lemma_filter_push(rows.last(), strict);
        head.lemma_filter_push(rows.last(), weak);
        assert(head.push(rows.last()) =~= rows);
    }
}

/// The range that the index is asked for a row meets an interval exactly
/// when the overlap query pairs the two.
pub proof fn lemma_probe_is_condition(filter_op: FilterOp, iv: Interval, start: i32, end: i32)
    ensures
        iv.overlaps(probe_first(filter_op, start), probe_last(filter_op, end))
            == overlap_condition(filter_op, iv, Interval { first: start, last: end }),
{
}

/// The number of intervals of one contig that a row's range meets is the
/// number of rows that the overlap join pairs with the row.
pub proof fn lemma_count_is_join_size(
    rows: Seq<KeyRow>,
    filter_op: FilterOp,
    contig: Seq<char>,
    start: i32,
    end: i32,
)
    ensures
        overlap_count(
            contig_intervals(rows, contig),
            probe_first(filter_op, start),
            probe_last(filter_op, end),
        ) == rows.filter(pairs_with(filter_op, contig, start, end)).len(),
    decreases rows.len(),
{
    let p = meets(probe_first(filter_op, start), probe_last(filter_op, end));
    let q = pairs_with(filter_op, contig, start, end);
    if rows.len() == 0 {
        rows.lemma_filter_len(q);
        contig_intervals(rows, contig).lemma_filter_len(p);
    } else {
        let head = rows.drop_last();
        let row = rows.last();
        lemma_count_is_join_size(head, filter_op, contig, start, end);
        head.lemma_filter_push(row, q);
        assert(head.push(row) =~= rows);
        lemma_probe_is_condition(filter_op, row.interval, start, end);
        if row.contig == contig {
            contig_intervals(head, contig).lemma_filter_push(row.interval, p);
        }
    }
}

/// The native count agrees with the overlap join: where an index holds, for
/// every contig, the intervals of the left rows on it, what it counts for a
/// right row is the number of left rows that the join pairs with that row.
pub proof fn lemma_native_count_is_join_size(
    index: Map<Seq<char>, Seq<Interval>>,
    rows: Seq<KeyRow>,
    filter_op: FilterOp,
    contig: Seq<char>,
    start: i32,
    end: i32,
)
    requires
        forall|c: Seq<char>| #[trigger] index.contains_key(c) <==> has_contig(rows, c),
        forall|c: Seq<char>| #[trigger]
            index.contains_key(c) ==> index[c] == contig_intervals(rows, c),
    ensures
        row_value(index, contig, start, end, filter_op, false) == rows.filter(
            pairs_with(filter_op, contig, start, end),
        ).len(),
{
    lemma_count_is_join_size(rows, filter_op, contig, start, end);
    if !index.contains_key(contig) {
        crate::udtf::lemma_no_contig_no_intervals(rows, contig);
        contig_intervals(rows, contig).lemma_filter_len(
            meets(probe_first(filter_op, start), probe_last(filter_op, end)),
        );
    }
}

/// Under `Weak` the native count of a row is at least its count under
/// `Strict`, on any intervals.
pub proof fn lemma_weak_count_at_least_strict(intervals: Seq<Interval>, start: i32, end: i32)
    ensures
        overlap_count(
            intervals,
            probe_first(FilterOp::Strict, start),
            probe_last(FilterOp::Strict, end),
        ) <= overlap_count(
            intervals,
            probe_first(FilterOp::Weak, start),
            probe_last(FilterOp::Weak, end),
        ),
    decreases intervals.len(),
{
    let strict = meets(probe_first(FilterOp::Strict, start), probe_last(FilterOp::Strict, end));
    let weak = meets(probe_first(FilterOp::Weak, start), probe_last(FilterOp::Weak, end));
    if intervals.len() == 0 {
        intervals.lemma_filter_len(strict);
    } else {
        let head = intervals.drop_last();
        lemma_weak_count_at_least_strict(head, start, end);
        head.lemma_filter_push(intervals.last(), strict);
        head.lemma_filter_push(intervals.last(), weak);
        assert(head.push(intervals.last()) =~= intervals);
    }
}

/// The predicate "starts no later than `end`", or before it where touching
/// endpoints are not to count.
pub open spec fn starts_by(filter_op: FilterOp, end: i32) -> spec_fn(Interval) -> bool {
    |iv: Interval|
        match filter_op {
            FilterOp::Weak => iv.first <= end,
            FilterOp::Strict => iv.first < end,
        }
}

/// The predicate "ends before `start`", or no later than it where touching
/// endpoints are not to count.
pub open spec fn ends_by(filter_op: FilterOp, start: i32) -> spec_fn(Interval) -> bool {
    |iv: Interval|
        match filter_op {
            FilterOp::Weak => iv.last < start,
            FilterOp::Strict => iv.last <= start,
        }
}

/// What the count query computes is the number of overlaps: among intervals
/// that start no later than they end, the number of those that have started
/// by the end of a row, less the number of those that have ended by its
/// start, is the number of those that the overlap query pairs with the row.
/// Under `Strict` this needs a row that starts before it ends.
pub proof fn lemma_running_sums_count(
    intervals: Seq<Interval>,
    filter_op: FilterOp,
    start: i32,
    end: i32,
)
    requires
        forall|i: int| 0 <= i < intervals.len() ==> (#[trigger] intervals[i]).first
            <= intervals[i].last,
        filter_op == FilterOp::Weak ==> start <= end,
        filter_op == FilterOp::Strict ==> start < end,
    ensures
        intervals.filter(starts_by(filter_op, end)).len() - intervals.filter(
            ends_by(filter_op, start),
        ).len() == overlap_count(
            intervals,
            probe_first(filter_op, start),
            probe_last(filter_op, end),
        ),
    decreases intervals.len(),
{
    let started = starts_by(filter_op, end);
    let ended = ends_by(filter_op, start);
    let met = meets(probe_first(filter_op, start), probe_last(filter_op, end));
    if intervals.len() == 0 {
        intervals.lemma_filter_len(started);
        intervals.lemma_filter_len(ended);
        intervals.lemma_filter_len(met);
    } else {
        let head = intervals.drop_last();
        let iv = intervals.last();
        assert forall|i: int| 0 <= i < head.len() implies (#[trigger] head[i]).first
            <= head[i].last by {
            assert(head[i] == intervals[i]);
        }
        lemma_running_sums_count(head, filter_op, start, end);
        head.lemma_filter_push(iv, started);
        head.lemma_filter_push(iv, ended);
        head.lemma_filter_push(iv, met);
        assert(head.push(iv) =~= intervals);
        assert(iv == intervals[intervals.len() - 1]);
    }
}

} // verus!
