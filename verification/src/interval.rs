//! Closed integer intervals: when two overlap, how a list of them is put in
//! order and how overlapping ones are merged.

use vstd::prelude::*;

verus! {

/// A closed interval of positions on one contig, from `first` to `last`.
///
/// Nothing asks that `first <= last`: an interval that ends before it starts
/// is kept as it is and overlaps whatever the comparison of endpoints says.
#[derive(Clone, Copy, PartialEq, Eq, Debug, Structural)]
pub struct Interval {
    pub first: i32,
    pub last: i32,
}

impl Interval {
    /// The interval meets the closed range from `first` to `last`.
    pub open spec fn overlaps(self, first: int, last: int) -> bool {
        self.first <= last && self.last >= first
    }

    /// The interval holds the position `p`.
    pub open spec fn holds(self, p: int) -> bool {
        self.first <= p <= self.last
    }
}

/// The predicate "meets the closed range from `first` to `last`".
pub open spec fn meets(first: int, last: int) -> spec_fn(Interval) -> bool {
    |iv: Interval| iv.overlaps(first, last)
}

/// The predicate "starts at `key`".
pub open spec fn starts_at(key: int) -> spec_fn(Interval) -> bool {
    |iv: Interval| iv.first == key
}

/// The intervals are in order of their starts.
pub open spec fn ordered_by_first(s: Seq<Interval>) -> bool {
    forall|i: int, j: int| 0 <= i <= j < s.len() ==> s[i].first <= s[j].first
}

/// `sorted` holds the intervals of `s` in order of their starts, those with
/// the same start in the order they have in `s`.
pub open spec fn is_stable_sort_of(sorted: Seq<Interval>, s: Seq<Interval>) -> bool {
    &&& ordered_by_first(sorted)
    &&& forall|key: int| #[trigger] sorted.filter(starts_at(key)) == s.filter(starts_at(key))
}

/// `s` with `iv` put behind every interval that starts no later than `iv`.
pub open spec fn insert_by_first(s: Seq<Interval>, iv: Interval) -> Seq<Interval>
    decreases s.len(),
{
    if s.len() == 0 {
        seq![iv]
    } else if s.last().first <= iv.first {
        s.push(iv)
    } else {
        insert_by_first(s.drop_last(), iv).push(s.last())
    }
}

/// The intervals of `s` in order of their starts, those with the same start in
/// the order they have in `s`.
pub open spec fn sort_by_first(s: Seq<Interval>) -> Seq<Interval>
    decreases s.len(),
{
    if s.len() == 0 {
        s
    } else {
        insert_by_first(sort_by_first(s.drop_last()), s.last())
    }
}

proof fn lemma_insert_len(s: Seq<Interval>, iv: Interval)
    ensures
        insert_by_first(s, iv).len() == s.len() + 1,
    decreases s.len(),
{
    if s.len() > 0 && s.last().first > iv.first {
        lemma_insert_len(s.drop_last(), iv);
    }
}

proof fn lemma_insert_members(s: Seq<Interval>, iv: Interval, i: int)
    requires
        0 <= i < insert_by_first(s, iv).len(),
    ensures
        insert_by_first(s, iv)[i] == iv || s.contains(insert_by_first(s, iv)[i]),
    decreases s.len(),
{
    lemma_insert_len(s, iv);
    if s.len() == 0 {
    } else if s.last().first <= iv.first {
        if i < s.len() {
            assert(s[i] == insert_by_first(s, iv)[i]);
        }
    } else {
        lemma_insert_len(s.drop_last(), iv);
        if i < s.len() {
            lemma_insert_members(s.drop_last(), iv, i);
            let x = insert_by_first(s.drop_last(), iv)[i];
            if x != iv {
                let j = choose|j: int| 0 <= j < s.drop_last().len() && s.drop_last()[j] == x;
                assert(s[j] == x);
            }
        } else {
            assert(s[s.len() - 1] == s.last());
        }
    }
}

proof fn lemma_insert_ordered(s: Seq<Interval>, iv: Interval)
    requires
        ordered_by_first(s),
    ensures
        ordered_by_first(insert_by_first(s, iv)),
    decreases s.len(),
{
    let r = insert_by_first(s, iv);
    lemma_insert_len(s, iv);
    if s.len() == 0 {
    } else if s.last().first <= iv.first {
        assert forall|i: int, j: int| 0 <= i <= j < r.len() implies r[i].first <= r[j].first by {
            if j == s.len() {
                if i < s.len() {
                    assert(s[i].first <= s[s.len() - 1].first);
                }
            }
        }
    } else {
        let head = s.drop_last();
        assert(ordered_by_first(head)) by {
            assert forall|i: int, j: int| 0 <= i <= j < head.len() implies head[i].first
                <= head[j].first by {
                assert(s[i].first <= s[j].first);
            }
        }
        lemma_insert_ordered(head, iv);
        lemma_insert_len(head, iv);
        let t = insert_by_first(head, iv);
        assert forall|i: int, j: int| 0 <= i <= j < r.len() implies r[i].first <= r[j].first by {
            if j == t.len() {
                if i < t.len() {
                    lemma_insert_members(head, iv, i);
                    if t[i] != iv {
                        let k = choose|k: int| 0 <= k < head.len() && head[k] == t[i];
                        assert(s[k].first <= s[s.len() - 1].first);
                    }
                }
            }
        }
    }
}

proof fn lemma_insert_filter(s: Seq<Interval>, iv: Interval, key: int)
    ensures
        insert_by_first(s, iv).filter(starts_at(key)) == if iv.first == key {
            s.filter(starts_at(key)).push(iv)
        } else {
            s.filter(starts_at(key))
        },
    decreases s.len(),
{
    let p = starts_at(key);
    if s.len() == 0 {
        assert(seq![iv] =~= Seq::<Interval>::empty().push(iv));
        Seq::<Interval>::empty().lemma_filter_push(iv, p);
        assert(s =~= Seq::<Interval>::empty());
    } else if s.last().first <= iv.first {
        s.lemma_filter_push(iv, p);
    } else {
        let head = s.drop_last();
        lemma_insert_filter(head, iv, key);
        insert_by_first(head, iv).lemma_filter_push(s.last(), p);
        head.lemma_filter_push(s.last(), p);
        assert(head.push(s.last()) =~= s);
        if iv.first == key {
            assert(!p(s.last()));
        } else if p(s.last()) {
        }
    }
}

/// Sorting keeps, for every start, the intervals with that start in their order.
pub proof fn lemma_sort_filter(s: Seq<Interval>, key: int)
    ensures
        sort_by_first(s).filter(starts_at(key)) == s.filter(starts_at(key)),
    decreases s.len(),
{
    if s.len() > 0 {
        let head = s.drop_last();
        lemma_sort_filter(head, key);
        lemma_insert_filter(sort_by_first(head), s.last(), key);
        head.lemma_filter_push(s.last(), starts_at(key));
        assert(head.push(s.last()) =~= s);
    }
}

/// Sorting puts the intervals in order of their starts.
pub proof fn lemma_sort_ordered(s: Seq<Interval>)
    ensures
        ordered_by_first(sort_by_first(s)),
        sort_by_first(s).len() == s.len(),
    decreases s.len(),
{
    if s.len() > 0 {
        lemma_sort_ordered(s.drop_last());
        lemma_insert_ordered(sort_by_first(s.drop_last()), s.last());
        lemma_insert_len(sort_by_first(s.drop_last()), s.last());
    }
}

/// `sort_by_first(s)` is a stable sort of `s`.
pub proof fn lemma_sort_is_stable(s: Seq<Interval>)
    ensures
        is_stable_sort_of(sort_by_first(s), s),
{
    lemma_sort_ordered(s);
    assert forall|key: int| #[trigger]
        sort_by_first(s).filter(starts_at(key)) == s.filter(starts_at(key)) by {
        lemma_sort_filter(s, key);
    }
}

proof fn lemma_ordered_drop_last(s: Seq<Interval>)
    requires
        ordered_by_first(s),
        s.len() > 0,
    ensures
        ordered_by_first(s.drop_last()),
{
    let head = s.drop_last();
    assert forall|i: int, j: int| 0 <= i <= j < head.len() implies head[i].first
        <= head[j].first by {
        assert(s[i].first <= s[j].first);
    }
}

/// In a sequence in order of starts, a start that occurs is at most the last start.
proof fn lemma_key_below_last(s: Seq<Interval>, key: int)
    requires
        ordered_by_first(s),
        s.filter(starts_at(key)).len() > 0,
    ensures
        s.len() > 0,
        key <= s.last().first,
{
    let f = s.filter(starts_at(key));
    s.lemma_filter_pred(starts_at(key), 0);
    assert(f.contains(f[0]));
    s.lemma_filter_contains_rev(starts_at(key), f[0]);
    let i = choose|i: int| 0 <= i < s.len() && s[i] == f[0];
    assert(s[i].first <= s[s.len() - 1].first);
}

proof fn lemma_filter_of_last(s: Seq<Interval>, key: int)
    requires
        s.len() > 0,
    ensures
        s.filter(starts_at(key)) == if s.last().first == key {
            s.drop_last().filter(starts_at(key)).push(s.last())
        } else {
            s.drop_last().filter(starts_at(key))
        },
{
    s.drop_last().lemma_filter_push(s.last(), starts_at(key));
    assert(s.drop_last().push(s.last()) =~= s);
}

/// Two sequences in order of starts that agree, for every start, on the
/// intervals with that start and on their order, are the same sequence.
pub proof fn lemma_stable_sort_unique(a: Seq<Interval>, b: Seq<Interval>)
    requires
        ordered_by_first(a),
        ordered_by_first(b),
        forall|key: int| #[trigger] a.filter(starts_at(key)) == b.filter(starts_at(key)),
    ensures
        a == b,
    decreases a.len(),
{
    if a.len() == 0 {
        if b.len() > 0 {
            let key = b[0].first as int;
            b.lemma_filter_contains(starts_at(key), 0);
            a.lemma_filter_len(starts_at(key));
            assert(a.filter(starts_at(key)) == b.filter(starts_at(key)));
        }
        assert(a =~= b);
    } else {
        let x = a.last();
        let k = x.first as int;
        lemma_filter_of_last(a, k);
        assert(a.filter(starts_at(k)) == b.filter(starts_at(k)));
        lemma_key_below_last(b, k);
        let y = b.last();
        let k2 = y.first as int;
        lemma_filter_of_last(b, k2);
        assert(a.filter(starts_at(k2)) == b.filter(starts_at(k2)));
        lemma_key_below_last(a, k2);
        assert(k == k2);
        let fa = a.drop_last().filter(starts_at(k));
        let fb = b.drop_last().filter(starts_at(k));
        assert(fa.push(x) == fb.push(y));
        assert(fa.push(x).last() == x);
        assert(fb.push(y).last() == y);
        assert(fa =~= fa.push(x).drop_last());
        assert(fb =~= fb.push(y).drop_last());
        lemma_ordered_drop_last(a);
        lemma_ordered_drop_last(b);
        assert forall|key: int| #[trigger]
            a.drop_last().filter(starts_at(key)) == b.drop_last().filter(starts_at(key)) by {
            lemma_filter_of_last(a, key);
            lemma_filter_of_last(b, key);
            assert(a.filter(starts_at(key)) == b.filter(starts_at(key)));
        }
        lemma_stable_sort_unique(a.drop_last(), b.drop_last());
        assert(a =~= a.drop_last().push(x));
        assert(b =~= b.drop_last().push(y));
    }
}

/// Sorts the intervals by their starts and keeps the order of those that
/// start together.
///
/// This is `sort_by_key` on a slice, of the standard library, with the start
/// as the key. Its documentation promises a sort that is stable: that is all
/// the contract claims.
#[verifier::external_body]
fn sort_by_start(intervals: &mut Vec<Interval>)
    ensures
        is_stable_sort_of(final(intervals)@, old(intervals)@),
{
    intervals.sort_by_key(|interval| interval.first);
}

/// The merge of a sequence that is in order of its starts: an interval that
/// starts no later than the one before it ends is joined to it.
pub open spec fn merge_sorted(s: Seq<Interval>) -> Seq<Interval>
    decreases s.len(),
{
    if s.len() == 0 {
        s
    } else {
        let merged = merge_sorted(s.drop_last());
        if merged.len() == 0 {
            seq![s.last()]
        } else if s.last().first <= merged.last().last {
            merged.drop_last().push(
                Interval {
                    first: merged.last().first,
                    last: if merged.last().last >= s.last().last {
                        merged.last().last
                    } else {
                        s.last().last
                    },
                },
            )
        } else {
            merged.push(s.last())
        }
    }
}

/// What [`merge_intervals`] returns: the intervals sorted by their starts,
/// then merged.
pub open spec fn merged(s: Seq<Interval>) -> Seq<Interval> {
    merge_sorted(sort_by_first(s))
}

/// Sorts the intervals by start and joins every interval to the one before it
/// that it overlaps or touches, so that what is left is separate spans.
pub fn merge_intervals(intervals: Vec<Interval>) -> (result: Vec<Interval>)
    ensures
        result@ == merged(intervals@),
{
    let mut intervals = intervals;
    let ghost given = intervals@;
    if intervals.len() == 0 {
        assert(sort_by_first(given) =~= given);
        return Vec::new();
    }
    sort_by_start(&mut intervals);
    proof {
        lemma_sort_is_stable(given);
        assert forall|key: int| #[trigger]
            intervals@.filter(starts_at(key)) == sort_by_first(given).filter(starts_at(key)) by {
            assert(intervals@.filter(starts_at(key)) == given.filter(starts_at(key)));
        }
        lemma_stable_sort_unique(intervals@, sort_by_first(given));
        lemma_sort_ordered(given);
    }
    let mut result: Vec<Interval> = Vec::new();
    let mut current = intervals[0];
    let mut i: usize = 1;
    proof {
        let first = intervals@.take(1);
        assert(first.drop_last() =~= Seq::<Interval>::empty());
        assert(merge_sorted(first.drop_last()).len() == 0);
        assert(first.last() == current);
        assert(merge_sorted(first) =~= result@.push(current));
    }
    while i < intervals.len()
        invariant
            1 <= i <= intervals.len(),
            result@.push(current) == merge_sorted(intervals@.take(i as int)),
        decreases intervals.len() - i,
    {
        let interval = intervals[i];
        proof {
            let next = intervals@.take(i + 1);
            assert(next.drop_last() =~= intervals@.take(i as int));
            assert(next.last() == interval);
            assert(result@.push(current).last() == current);
            assert(result@.push(current).drop_last() =~= result@);
        }
        if interval.first <= current.last {
            if interval.last > current.last {
                current = Interval { first: current.first, last: interval.last };
            }
        } else {
            result.push(current);
            current = interval;
        }
        i += 1;
    }
    result.push(current);
    proof {
        assert(intervals@.take(intervals.len() as int) =~= intervals@);
    }
    result
}

/// Every span ends before the next one starts.
pub open spec fn separate(s: Seq<Interval>) -> bool {
    forall|i: int, j: int| 0 <= i < j < s.len() ==> s[i].last < s[j].first
}

proof fn lemma_merge_sorted_shape(s: Seq<Interval>)
    requires
        ordered_by_first(s),
    ensures
        ordered_by_first(merge_sorted(s)),
        separate(merge_sorted(s)),
        s.len() > 0 ==> merge_sorted(s).len() > 0 && merge_sorted(s).last().first
            <= s.last().first,
        merge_sorted(s).len() <= s.len(),
    decreases s.len(),
{
    if s.len() > 0 {
        let head = s.drop_last();
        lemma_ordered_drop_last(s);
        lemma_merge_sorted_shape(head);
        let m = merge_sorted(head);
        let r = merge_sorted(s);
        if m.len() > 0 {
            assert(head.last().first <= s.last().first) by {
                assert(s[s.len() - 2].first <= s[s.len() - 1].first);
            }
            if s.last().first <= m.last().last {
                assert forall|i: int, j: int| 0 <= i <= j < r.len() implies r[i].first
                    <= r[j].first by {
                    assert(m[i].first <= m[j].first);
                }
                assert forall|i: int, j: int| 0 <= i < j < r.len() implies r[i].last
                    < r[j].first by {
                    assert(m[i].last < m[j].first);
                }
            } else {
                assert forall|i: int, j: int| 0 <= i <= j < r.len() implies r[i].first
                    <= r[j].first by {
                    if j == m.len() {
                        if i < m.len() {
                            assert(m[i].first <= m[m.len() - 1].first);
                        }
                    } else {
                        assert(m[i].first <= m[j].first);
                    }
                }
                assert forall|i: int, j: int| 0 <= i < j < r.len() implies r[i].last
                    < r[j].first by {
                    if j == m.len() {
                        if i < m.len() - 1 {
                            assert(m[i].last < m[m.len() - 1].first);
                            assert(m[m.len() - 1].first <= s.last().first);
                        }
                    } else {
                        assert(m[i].last < m[j].first);
                    }
                }
            }
        }
    }
}

/// What is left after merging is in order of starts, and every span ends
/// before the next one starts. This holds of any intervals, also of such that
/// end before they start.
pub proof fn lemma_merged_separate(s: Seq<Interval>)
    ensures
        ordered_by_first(merged(s)),
        separate(merged(s)),
        merged(s).len() <= s.len(),
{
    lemma_sort_ordered(s);
    lemma_merge_sorted_shape(sort_by_first(s));
}

/// After merging, no position lies in two spans.
pub proof fn lemma_merged_holds_once(s: Seq<Interval>, p: int, i: int, j: int)
    requires
        0 <= i < merged(s).len(),
        0 <= j < merged(s).len(),
        merged(s)[i].holds(p),
        merged(s)[j].holds(p),
    ensures
        i == j,
{
    lemma_merged_separate(s);
    let m = merged(s);
    if i < j {
        assert(m[i].last < m[j].first);
    } else if j < i {
        assert(m[j].last < m[i].first);
    }
}

/// Some interval of `s` holds the position `p`.
pub open spec fn covered(s: Seq<Interval>, p: int) -> bool {
    exists|i: int| 0 <= i < s.len() && (#[trigger] s[i]).holds(p)
}

proof fn lemma_covered_push(s: Seq<Interval>, iv: Interval, p: int)
    ensures
        covered(s.push(iv), p) <==> (covered(s, p) || iv.holds(p)),
{
    let t = s.push(iv);
    if covered(s, p) {
        let i = choose|i: int| 0 <= i < s.len() && (#[trigger] s[i]).holds(p);
        assert(t[i].holds(p));
    }
    if iv.holds(p) {
        assert(t[s.len() as int].holds(p));
    }
    if covered(t, p) {
        let i = choose|i: int| 0 <= i < t.len() && (#[trigger] t[i]).holds(p);
        if i < s.len() {
            assert(s[i].holds(p));
        }
    }
}

proof fn lemma_merge_sorted_covers(s: Seq<Interval>, p: int)
    requires
        ordered_by_first(s),
    ensures
        covered(merge_sorted(s), p) <==> covered(s, p),
    decreases s.len(),
{
    if s.len() > 0 {
        let head = s.drop_last();
        let iv = s.last();
        let m = merge_sorted(head);
        lemma_ordered_drop_last(s);
        lemma_merge_sorted_covers(head, p);
        lemma_merge_sorted_shape(head);
        assert(head.push(iv) =~= s);
        lemma_covered_push(head, iv, p);
        if m.len() == 0 {
            assert(head.len() == 0);
            assert(merge_sorted(s) =~= Seq::<Interval>::empty().push(iv));
            lemma_covered_push(Seq::<Interval>::empty(), iv, p);
        } else if iv.first <= m.last().last {
            let joined = Interval {
                first: m.last().first,
                last: if m.last().last >= iv.last {
                    m.last().last
                } else {
                    iv.last
                },
            };
            assert(m.drop_last().push(m.last()) =~= m);
            lemma_covered_push(m.drop_last(), m.last(), p);
            lemma_covered_push(m.drop_last(), joined, p);
            assert(head.last().first <= iv.first) by {
                assert(s[s.len() - 2].first <= s[s.len() - 1].first);
            }
        } else {
            lemma_covered_push(m, iv, p);
        }
    }
}

proof fn lemma_sort_members(s: Seq<Interval>, x: Interval)
    ensures
        sort_by_first(s).contains(x) <==> s.contains(x),
{
    let key = x.first as int;
    let t = sort_by_first(s);
    lemma_sort_filter(s, key);
    if s.contains(x) {
        let i = choose|i: int| 0 <= i < s.len() && s[i] == x;
        s.lemma_filter_contains(starts_at(key), i);
        t.lemma_filter_contains_rev(starts_at(key), x);
    }
    if t.contains(x) {
        let i = choose|i: int| 0 <= i < t.len() && t[i] == x;
        t.lemma_filter_contains(starts_at(key), i);
        s.lemma_filter_contains_rev(starts_at(key), x);
    }
}

/// Merging changes nothing about which positions are covered: a position lies
/// in one of the spans exactly when it lies in one of the intervals.
pub proof fn lemma_merged_covers(s: Seq<Interval>, p: int)
    ensures
        covered(merged(s), p) <==> covered(s, p),
{
    let t = sort_by_first(s);
    lemma_sort_ordered(s);
    lemma_merge_sorted_covers(t, p);
    if covered(s, p) {
        let i = choose|i: int| 0 <= i < s.len() && (#[trigger] s[i]).holds(p);
        assert(s.contains(s[i]));
        lemma_sort_members(s, s[i]);
        let j = choose|j: int| 0 <= j < t.len() && t[j] == s[i];
        assert(t[j].holds(p));
    }
    if covered(t, p) {
        let i = choose|i: int| 0 <= i < t.len() && (#[trigger] t[i]).holds(p);
        assert(t.contains(t[i]));
        lemma_sort_members(s, t[i]);
        let j = choose|j: int| 0 <= j < s.len() && s[j] == t[i];
        assert(s[j].holds(p));
    }
}

} // verus!
