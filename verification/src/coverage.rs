//! What an interval index answers: how many of its intervals a range meets,
//! and the coverage aggregate over those it meets.

use vstd::prelude::*;
use vstd::multiset::*;
use vstd::seq_lib::*;
use crate::error::BioError;
use crate::interval::{
    covered, lemma_merged_covers, lemma_merged_holds_once, meets, merged, Interval,
};
use crate::tree::{
    none_inverted, spans_fit, tree_intervals, tree_new, tree_query, tree_query_count, CoiTree,
};

verus! {

/// The most intervals one tree takes: what a signed 32-bit count can report.
pub const MAX_INTERVALS: usize = 2147483647;

/// The number of intervals of `s` that meet the range from `first` to `last`.
pub open spec fn overlap_count(s: Seq<Interval>, first: int, last: int) -> nat {
    s.filter(meets(first, last)).len()
}

/// What one interval that meets the range adds to the coverage: the distance
/// from the later of `first - 1` and its start to the earlier of `last + 1` and
/// its end, and at least 1.
pub open spec fn overlap_length(iv: Interval, first: int, last: int) -> int {
    let upper = if last + 1 <= iv.last {
        last + 1
    } else {
        iv.last as int
    };
    let lower = if first - 1 >= iv.first {
        first - 1
    } else {
        iv.first as int
    };
    if upper - lower >= 1 {
        upper - lower
    } else {
        1
    }
}

/// What one interval adds to the coverage of a range: its overlap length if it
/// meets the range, nothing if it does not.
pub open spec fn contribution(iv: Interval, first: int, last: int) -> int {
    if iv.overlaps(first, last) {
        overlap_length(iv, first, last)
    } else {
        0
    }
}

/// The coverage of the range from `first` to `last` by `s`: the sum of what
/// each interval adds. Intervals that overlap each other are each counted.
pub open spec fn coverage_sum(s: Seq<Interval>, first: int, last: int) -> int
    decreases s.len(),
{
    if s.len() == 0 {
        0
    } else {
        coverage_sum(s.drop_last(), first, last) + contribution(s.last(), first, last)
    }
}

/// Filtering a sequence and counting its members commute.
pub proof fn lemma_filter_multiset(s: Seq<Interval>, p: spec_fn(Interval) -> bool)
    ensures
        s.to_multiset().filter(p) == s.filter(p).to_multiset(),
    decreases s.len(),
{
    broadcast use group_multiset_axioms;

    if s.len() == 0 {
        s.lemma_filter_len(p);
        to_multiset_len(s);
        to_multiset_len(s.filter(p));
        assert forall|v: Interval|
            s.to_multiset().filter(p).count(v) == s.filter(p).to_multiset().count(v) by {
            axiom_count_le_len(s.to_multiset(), v);
            axiom_count_le_len(s.filter(p).to_multiset(), v);
        }
        assert(s.to_multiset().filter(p) =~= s.filter(p).to_multiset());
    } else {
        let head = s.drop_last();
        let x = s.last();
        lemma_filter_multiset(head, p);
        assert(head.push(x) =~= s);
        to_multiset_build(head, x);
        head.lemma_filter_push(x, p);
        if p(x) {
            to_multiset_build(head.filter(p), x);
        }
        assert(s.to_multiset().filter(p) =~= s.filter(p).to_multiset());
    }
}

/// The count of a range is the number of members of the filtered multiset.
pub proof fn lemma_count_of_multiset(s: Seq<Interval>, first: int, last: int)
    ensures
        s.to_multiset().filter(meets(first, last)).len() == overlap_count(s, first, last),
        overlap_count(s, first, last) <= s.len(),
{
    lemma_filter_multiset(s, meets(first, last));
    to_multiset_len(s.filter(meets(first, last)));
    s.lemma_filter_len(meets(first, last));
}

/// Taking one interval out of a sequence takes its contribution out of the sum.
proof fn lemma_coverage_remove(s: Seq<Interval>, i: int, first: int, last: int)
    requires
        0 <= i < s.len(),
    ensures
        coverage_sum(s, first, last) == coverage_sum(s.remove(i), first, last) + contribution(
            s[i],
            first,
            last,
        ),
    decreases s.len(),
{
    if i == s.len() - 1 {
        assert(s.remove(i) =~= s.drop_last());
    } else {
        lemma_coverage_remove(s.drop_last(), i, first, last);
        assert(s.remove(i).drop_last() =~= s.drop_last().remove(i));
        assert(s.remove(i).last() == s.last());
    }
}

/// The coverage does not depend on the order of the intervals.
pub proof fn lemma_coverage_permutation(a: Seq<Interval>, b: Seq<Interval>, first: int, last: int)
    requires
        a.to_multiset() == b.to_multiset(),
    ensures
        coverage_sum(a, first, last) == coverage_sum(b, first, last),
    decreases a.len(),
{
    to_multiset_len(a);
    to_multiset_len(b);
    if a.len() > 0 {
        let x = a.last();
        assert(a.contains(x)) by {
            assert(a[a.len() - 1] == x);
        }
        to_multiset_contains(a, x);
        to_multiset_contains(b, x);
        let i = choose|i: int| 0 <= i < b.len() && b[i] == x;
        to_multiset_remove(b, i);
        to_multiset_remove(a, a.len() - 1);
        assert(a.remove(a.len() - 1) =~= a.drop_last());
        lemma_coverage_permutation(a.drop_last(), b.remove(i), first, last);
        lemma_coverage_remove(b, i, first, last);
    }
}

/// Intervals that do not meet the range add nothing to its coverage.
pub proof fn lemma_coverage_filter(s: Seq<Interval>, first: int, last: int)
    ensures
        coverage_sum(s.filter(meets(first, last)), first, last) == coverage_sum(s, first, last),
    decreases s.len(),
{
    let p = meets(first, last);
    if s.len() == 0 {
        s.lemma_filter_len(p);
    } else {
        let head = s.drop_last();
        lemma_coverage_filter(head, first, last);
        head.lemma_filter_push(s.last(), p);
        assert(head.push(s.last()) =~= s);
        if p(s.last()) {
            assert(head.filter(p).push(s.last()).drop_last() =~= head.filter(p));
        }
    }
}

/// Every interval adds at least nothing and less than the width of 32 bits.
pub proof fn lemma_coverage_bounds(s: Seq<Interval>, first: int, last: int)
    ensures
        0 <= coverage_sum(s, first, last) <= s.len() * 0x1_0000_0000,
        overlap_count(s, first, last) <= coverage_sum(s, first, last),
    decreases s.len(),
{
    let p = meets(first, last);
    if s.len() == 0 {
        s.lemma_filter_len(p);
    } else {
        lemma_coverage_bounds(s.drop_last(), first, last);
        s.drop_last().lemma_filter_push(s.last(), p);
        assert(s.drop_last().push(s.last()) =~= s);
    }
}

/// Where no interval meets the range, the count and the coverage are 0.
pub proof fn lemma_nothing_met(s: Seq<Interval>, first: int, last: int)
    requires
        forall|i: int| 0 <= i < s.len() ==> !(#[trigger] s[i]).overlaps(first, last),
    ensures
        overlap_count(s, first, last) == 0,
        coverage_sum(s, first, last) == 0,
    decreases s.len(),
{
    let p = meets(first, last);
    if s.len() == 0 {
        s.lemma_filter_len(p);
    } else {
        let head = s.drop_last();
        assert forall|i: int| 0 <= i < head.len() implies !(#[trigger] head[i]).overlaps(
            first,
            last,
        ) by {
            assert(head[i] == s[i]);
        }
        lemma_nothing_met(head, first, last);
        head.lemma_filter_push(s.last(), p);
        assert(head.push(s.last()) =~= s);
        assert(s.last() == s[s.len() - 1]);
    }
}

/// Where at most one interval meets a range, the count of the range is at
/// most 1.
proof fn lemma_single_count(s: Seq<Interval>, first: int, last: int)
    requires
        forall|i: int, j: int|
            0 <= i < s.len() && 0 <= j < s.len() && (#[trigger] s[i]).overlaps(first, last) && (
            #[trigger] s[j]).overlaps(first, last) ==> i == j,
    ensures
        overlap_count(s, first, last) <= 1,
        (exists|i: int| 0 <= i < s.len() && (#[trigger] s[i]).overlaps(first, last))
            ==> overlap_count(s, first, last) == 1,
    decreases s.len(),
{
    let p = meets(first, last);
    if s.len() == 0 {
        s.lemma_filter_len(p);
    } else {
        let head = s.drop_last();
        head.lemma_filter_push(s.last(), p);
        assert(head.push(s.last()) =~= s);
        assert(s[s.len() - 1] == s.last());
        if s.last().overlaps(first, last) {
            assert forall|i: int| 0 <= i < head.len() implies !(#[trigger] head[i]).overlaps(
                first,
                last,
            ) by {
                assert(head[i] == s[i]);
            }
            lemma_nothing_met(head, first, last);
        } else {
            assert forall|i: int, j: int|
                0 <= i < head.len() && 0 <= j < head.len() && (#[trigger] head[i]).overlaps(
                    first,
                    last,
                ) && (#[trigger] head[j]).overlaps(first, last) implies i == j by {
                assert(head[i] == s[i]);
                assert(head[j] == s[j]);
            }
            lemma_single_count(head, first, last);
            if exists|i: int| 0 <= i < s.len() && (#[trigger] s[i]).overlaps(first, last) {
                let i = choose|i: int| 0 <= i < s.len() && (#[trigger] s[i]).overlaps(first, last);
                assert(head[i].overlaps(first, last));
            }
        }
    }
}

/// After merging, a position is counted once if any of the intervals holds
/// it, and not at all if none does: intervals that overlap each other count
/// as one span.
pub proof fn lemma_merged_counts_once(s: Seq<Interval>, p: int)
    ensures
        overlap_count(merged(s), p, p) == if covered(s, p) {
            1nat
        } else {
            0nat
        },
{
    let m = merged(s);
    lemma_merged_covers(s, p);
    assert forall|i: int, j: int|
        0 <= i < m.len() && 0 <= j < m.len() && (#[trigger] m[i]).overlaps(p, p) && (
        #[trigger] m[j]).overlaps(p, p) implies i == j by {
        lemma_merged_holds_once(s, p, i, j);
    }
    lemma_single_count(m, p, p);
    if covered(s, p) {
        let i = choose|i: int| 0 <= i < m.len() && (#[trigger] m[i]).holds(p);
        assert(m[i].overlaps(p, p));
    } else {
        assert forall|i: int| 0 <= i < m.len() implies !(#[trigger] m[i]).overlaps(p, p) by {
            if m[i].overlaps(p, p) {
                assert(m[i].holds(p));
            }
        }
        lemma_nothing_met(m, p, p);
    }
}

/// The count of a range does not depend on the order of the intervals.
pub proof fn lemma_count_permutation(a: Seq<Interval>, b: Seq<Interval>, first: int, last: int)
    requires
        a.to_multiset() == b.to_multiset(),
    ensures
        overlap_count(a, first, last) == overlap_count(b, first, last),
{
    lemma_count_of_multiset(a, first, last);
    lemma_count_of_multiset(b, first, last);
}

/// The count of a range in two lists is the sum of its counts in each.
pub proof fn lemma_count_concat(a: Seq<Interval>, b: Seq<Interval>, first: int, last: int)
    ensures
        overlap_count(a + b, first, last) == overlap_count(a, first, last) + overlap_count(
            b,
            first,
            last,
        ),
{
    Seq::filter_distributes_over_add(a, b, meets(first, last));
}

/// The coverage of a range by two lists is the sum of its coverage by each.
pub proof fn lemma_coverage_concat(a: Seq<Interval>, b: Seq<Interval>, first: int, last: int)
    ensures
        coverage_sum(a + b, first, last) == coverage_sum(a, first, last) + coverage_sum(
            b,
            first,
            last,
        ),
    decreases b.len(),
{
    if b.len() == 0 {
        assert(a + b =~= a);
    } else {
        lemma_coverage_concat(a, b.drop_last(), first, last);
        assert((a + b).drop_last() =~= a + b.drop_last());
        assert((a + b).last() == b.last());
    }
}

/// A static set of intervals that answers how many of them a range meets.
///
/// Most intervals are held in a tree. The tree measures spans in 32 bits and
/// takes no interval that ends more than one position before it starts, so
/// intervals that it cannot take are held beside it and looked at one by one.
pub struct IntervalTree {
    tree: CoiTree,
    loose: Vec<Interval>,
    planted: Ghost<Seq<Interval>>,
    intervals: Ghost<Seq<Interval>>,
}

impl View for IntervalTree {
    type V = Seq<Interval>;

    /// The intervals the tree was built from, in the order they were given.
    closed spec fn view(&self) -> Seq<Interval> {
        self.intervals@
    }
}

/// The intervals are few enough for one tree.
pub open spec fn fits_a_tree(s: Seq<Interval>) -> bool {
    s.len() <= MAX_INTERVALS
}

/// Whether the spans of the intervals can be measured in 32 bits.
fn spans_within(intervals: &Vec<Interval>) -> (fit: bool)
    ensures
        fit == spans_fit(intervals@),
{
    let n = intervals.len();
    if n == 0 {
        return true;
    }
    let mut min_first: i32 = intervals[0].first;
    let mut max_first: i32 = intervals[0].first;
    let mut min_last: i32 = intervals[0].last;
    let mut max_last: i32 = intervals[0].last;
    let ghost mut at_min_first: int = 0;
    let ghost mut at_max_first: int = 0;
    let ghost mut at_min_last: int = 0;
    let ghost mut at_max_last: int = 0;
    let mut i: usize = 1;
    while i < n
        invariant
            n == intervals.len(),
            1 <= i <= n,
            0 <= at_min_first < i && intervals[at_min_first].first == min_first,
            0 <= at_max_first < i && intervals[at_max_first].first == max_first,
            0 <= at_min_last < i && intervals[at_min_last].last == min_last,
            0 <= at_max_last < i && intervals[at_max_last].last == max_last,
            forall|k: int|
                0 <= k < i ==> min_first <= (#[trigger] intervals[k]).first <= max_first
                    && min_last <= intervals[k].last <= max_last,
        decreases n - i,
    {
        let interval = intervals[i];
        if interval.first < min_first {
            min_first = interval.first;
            proof {
                at_min_first = i as int;
            }
        }
        if interval.first > max_first {
            max_first = interval.first;
            proof {
                at_max_first = i as int;
            }
        }
        if interval.last < min_last {
            min_last = interval.last;
            proof {
                at_min_last = i as int;
            }
        }
        if interval.last > max_last {
            max_last = interval.last;
            proof {
                at_max_last = i as int;
            }
        }
        i += 1;
    }
    let widest: i64 = max_last as i64 - min_first as i64 + 1;
    let narrowest: i64 = min_last as i64 - max_first as i64 + 1;
    if widest > i32::MAX as i64 || narrowest < i32::MIN as i64 {
        proof {
            if widest > i32::MAX as i64 {
                assert(intervals@[at_max_last].last - intervals@[at_min_first].first + 1
                    > i32::MAX);
            } else {
                assert(intervals@[at_min_last].last - intervals@[at_max_first].first + 1
                    < i32::MIN);
            }
        }
        return false;
    }
    assert(spans_fit(intervals@)) by {
        assert forall|a: int, b: int|
            0 <= a < intervals@.len() && 0 <= b < intervals@.len() implies i32::MIN
            <= #[trigger] intervals@[a].last - #[trigger] intervals@[b].first + 1
            <= i32::MAX by {
            assert(min_last <= intervals[a].last <= max_last);
            assert(min_first <= intervals[b].first <= max_first);
        }
    }
    true
}

impl IntervalTree {
    #[verifier::type_invariant]
    closed spec fn inv(self) -> bool {
        &&& tree_intervals(self.tree) == self.planted@.to_multiset()
        &&& (self.planted@ + self.loose@).to_multiset() == self.intervals@.to_multiset()
        &&& self.intervals@.len() <= MAX_INTERVALS
    }

    /// Builds the tree over the given intervals. More than
    /// [`MAX_INTERVALS`] of them are an error.
    pub fn new(intervals: Vec<Interval>) -> (result: Result<IntervalTree, BioError>)
        ensures
            match result {
                Ok(tree) => tree@ == intervals@ && fits_a_tree(intervals@),
                Err(e) => e == BioError::TooManyIntervals && !fits_a_tree(intervals@),
            },
    {
        let n = intervals.len();
        if n > MAX_INTERVALS {
            return Err(BioError::TooManyIntervals);
        }
        let mut planted: Vec<Interval> = Vec::new();
        let mut loose: Vec<Interval> = Vec::new();
        let mut i: usize = 0;
        proof {
            assert(planted@ + loose@ =~= intervals@.take(0));
        }
        while i < n
            invariant
                n == intervals.len(),
                i <= n,
                none_inverted(planted@),
                (planted@ + loose@).to_multiset() == intervals@.take(i as int).to_multiset(),
            decreases n - i,
        {
            let interval = intervals[i];
            let ghost before_planted = planted@;
            let ghost before_loose = loose@;
            if interval.first as i64 - 1 <= interval.last as i64 {
                planted.push(interval);
            } else {
                loose.push(interval);
            }
            proof {
                let so_far = intervals@.take(i as int);
                assert(so_far.push(interval) =~= intervals@.take(i + 1));
                to_multiset_build(so_far, interval);
                to_multiset_build(before_planted + before_loose, interval);
                if interval.first - 1 <= interval.last {
                    lemma_seq_union_to_multiset_commutative(planted@, before_loose);
                    lemma_seq_union_to_multiset_commutative(before_planted, before_loose);
                    assert(before_loose + planted@ =~= (before_loose + before_planted).push(
                        interval,
                    ));
                    to_multiset_build(before_loose + before_planted, interval);
                } else {
                    assert(before_planted + loose@ =~= (before_planted + before_loose).push(
                        interval,
                    ));
                }
            }
            i += 1;
        }
        proof {
            assert(intervals@.take(n as int) =~= intervals@);
        }
        if !spans_within(&planted) {
            let ghost moved = planted@;
            let ghost before_loose = loose@;
            loose.append(&mut planted);
            proof {
                lemma_seq_union_to_multiset_commutative(moved, before_loose);
                assert(planted@ + loose@ =~= before_loose + moved);
                assert(spans_fit(planted@));
            }
        }
        proof {
            to_multiset_len(planted@ + loose@);
            to_multiset_len(intervals@);
        }
        let tree = tree_new(&planted);
        Ok(IntervalTree { tree, loose, planted: Ghost(planted@), intervals: Ghost(intervals@) })
    }

    /// The number of intervals in the tree that meet the range from `first` to
    /// `last`, ends included.
    pub fn query_count(&self, first: i32, last: i32) -> (count: usize)
        ensures
            count == overlap_count(self@, first as int, last as int),
            count <= MAX_INTERVALS,
    {
        proof {
            use_type_invariant(self);
            lemma_count_of_multiset(self.planted@, first as int, last as int);
            lemma_count_concat(self.planted@, self.loose@, first as int, last as int);
            lemma_count_permutation(
                self.planted@ + self.loose@,
                self@,
                first as int,
                last as int,
            );
            lemma_count_of_multiset(self@, first as int, last as int);
            lemma_count_of_multiset(self.loose@, first as int, last as int);
        }
        let mut count = tree_query_count(&self.tree, first, last);
        let ghost in_tree = count;
        let mut i: usize = 0;
        while i < self.loose.len()
            invariant
                i <= self.loose.len(),
                count == in_tree + overlap_count(
                    self.loose@.take(i as int),
                    first as int,
                    last as int,
                ),
                in_tree + overlap_count(self.loose@, first as int, last as int) <= MAX_INTERVALS,
            decreases self.loose.len() - i,
        {
            let interval = self.loose[i];
            proof {
                let p = meets(first as int, last as int);
                self.loose@.take(i as int).lemma_filter_push(interval, p);
                assert(self.loose@.take(i as int).push(interval) =~= self.loose@.take(i + 1));
                self.loose@.lemma_filter_take_len(p, i + 1);
            }
            if interval.first <= last && interval.last >= first {
                count += 1;
            }
            i += 1;
        }
        proof {
            assert(self.loose@.take(self.loose.len() as int) =~= self.loose@);
        }
        count
    }
}

/// What one interval adds to the coverage of the range from `start` to `end`,
/// if it meets the range.
fn overlap_of(node: Interval, start: i32, end: i32) -> (overlap: i64)
    ensures
        overlap == overlap_length(node, start as int, end as int),
        1 <= overlap <= 0xffff_ffff,
{
    let upper: i64 = if end as i64 + 1 <= node.last as i64 {
        end as i64 + 1
    } else {
        node.last as i64
    };
    let lower: i64 = if start as i64 - 1 >= node.first as i64 {
        start as i64 - 1
    } else {
        node.first as i64
    };
    if upper - lower >= 1 {
        upper - lower
    } else {
        1
    }
}

/// The coverage of the range from `start` to `end` by the intervals of the
/// tree: for each interval that meets the range, the distance from the later
/// of `start - 1` and its start to the earlier of `end + 1` and its end, and
/// at least 1; summed over those intervals.
pub fn get_coverage(tree: &IntervalTree, start: i32, end: i32) -> (coverage: i64)
    ensures
        coverage == coverage_sum(tree@, start as int, end as int),
{
    let hits = tree_query(&tree.tree, start, end);
    let ghost first = start as int;
    let ghost last = end as int;
    let ghost p = meets(first, last);
    let ghost planted = tree.planted@;
    proof {
        use_type_invariant(tree);
        lemma_filter_multiset(planted, p);
        lemma_coverage_permutation(hits@, planted.filter(p), first, last);
        lemma_coverage_filter(planted, first, last);
        to_multiset_len(hits@);
        to_multiset_len(planted.filter(p));
        planted.lemma_filter_len(p);
        to_multiset_len(planted + tree.loose@);
        to_multiset_len(tree@);
        lemma_coverage_concat(planted, tree.loose@, first, last);
        lemma_coverage_permutation(planted + tree.loose@, tree@, first, last);
        assert forall|k: int| 0 <= k < hits.len() implies (#[trigger] hits@[k]).overlaps(
            first,
            last,
        ) by {
            assert(hits@.contains(hits@[k]));
            to_multiset_contains(hits@, hits@[k]);
            axiom_filter_count(planted.to_multiset(), p, hits@[k]);
        }
    }
    let mut coverage: i64 = 0;
    let mut i: usize = 0;
    while i < hits.len()
        invariant
            i <= hits.len(),
            hits.len() <= MAX_INTERVALS,
            first == start,
            last == end,
            forall|k: int| 0 <= k < hits.len() ==> (#[trigger] hits@[k]).overlaps(first, last),
            coverage == coverage_sum(hits@.take(i as int), first, last),
        decreases hits.len() - i,
    {
        let node = hits[i];
        proof {
            assert(hits@.take(i + 1).drop_last() =~= hits@.take(i as int));
            assert(hits@.take(i + 1).last() == node);
            lemma_coverage_bounds(hits@.take(i as int), first, last);
        }
        coverage = coverage + overlap_of(node, start, end);
        i += 1;
    }
    proof {
        assert(hits@.take(hits.len() as int) =~= hits@);
    }
    let ghost in_tree = coverage;
    let mut j: usize = 0;
    while j < tree.loose.len()
        invariant
            j <= tree.loose.len(),
            hits.len() + tree.loose.len() <= MAX_INTERVALS,
            first == start,
            last == end,
            in_tree == coverage_sum(hits@, first, last),
            coverage == in_tree + coverage_sum(tree.loose@.take(j as int), first, last),
        decreases tree.loose.len() - j,
    {
        let node = tree.loose[j];
        proof {
            assert(tree.loose@.take(j + 1).drop_last() =~= tree.loose@.take(j as int));
            assert(tree.loose@.take(j + 1).last() == node);
            lemma_coverage_bounds(tree.loose@.take(j as int), first, last);
            lemma_coverage_bounds(hits@, first, last);
        }
        if node.first <= end && node.last >= start {
            coverage = coverage + overlap_of(node, start, end);
        }
        j += 1;
    }
    proof {
        assert(tree.loose@.take(tree.loose.len() as int) =~= tree.loose@);
    }
    coverage
}

} // verus!
