//! The interval tree of the `coitrees` crate and the hash map of the `fnv`
//! crate, with what this library relies on of them. Nothing in this file is
//! proved: each item says what it takes from the outside code.

use vstd::prelude::*;
use vstd::multiset::Multiset;
use coitrees::{BasicCOITree, IntervalTree};
use fnv::FnvHashMap;
use crate::interval::{meets, Interval};

verus! {

/// The hasher of the `fnv` crate, which the slot map hashes its keys with.
#[verifier::external_type_specification]
#[verifier::external_body]
pub struct ExFnvHasher(fnv::FnvHasher);

/// The standard library's builder of default hashers, which `fnv` instantiates
/// with its hasher.
#[verifier::external_type_specification]
#[verifier::external_body]
#[verifier::reject_recursive_types(H)]
pub struct ExBuildHasherDefault<H>(std::hash::BuildHasherDefault<H>);

/// A `coitrees::BasicCOITree` without metadata and with 32-bit node indices.
///
/// The portable tree is named rather than the alias `COITree`: the alias picks
/// a SIMD variant by target feature, and those store endpoints shifted by one.
/// The tree is held in a struct that Verus does not look into, as the type
/// itself takes an index parameter bound by a trait of its crate, which Verus
/// cannot be told of.
#[verifier::external_body]
pub struct CoiTree {
    inner: BasicCOITree<(), u32>,
}

/// The intervals that a tree holds, each as often as it was given.
pub uninterp spec fn tree_intervals(tree: CoiTree) -> Multiset<Interval>;

/// No interval ends more than one position before it starts. The tree's
/// construction asserts, in a debug build, that the span of a subtree is not
/// negative.
pub open spec fn none_inverted(s: Seq<Interval>) -> bool {
    forall|i: int| 0 <= i < s.len() ==> (#[trigger] s[i]).first - 1 <= s[i].last
}

/// The tree's construction adds one to the difference of any end and any
/// start in 32 bits; this says that none of those sums leaves the 32 bits.
pub open spec fn spans_fit(s: Seq<Interval>) -> bool {
    forall|i: int, j: int|
        0 <= i < s.len() && 0 <= j < s.len() ==> i32::MIN <= #[trigger] s[i].last
            - #[trigger] s[j].first + 1 <= i32::MAX
}

/// Builds a tree with `BasicCOITree::new`.
///
/// The tree holds exactly the given intervals. `new` panics on `u32::MAX`
/// intervals or more. While it lays the tree out it computes the span
/// `last - first + 1` of every subtree, from the greatest end and the least
/// start in it, and asserts that the span of a subtree without a child is
/// not negative: hence the other two conditions.
#[verifier::external_body]
pub(crate) fn tree_new(intervals: &Vec<Interval>) -> (tree: CoiTree)
    requires
        intervals@.len() < u32::MAX,
        none_inverted(intervals@),
        spans_fit(intervals@),
    ensures
        tree_intervals(tree) == intervals@.to_multiset(),
{
    let nodes: Vec<coitrees::Interval<()>> = intervals.iter().map(
        |interval| coitrees::Interval::new(interval.first, interval.last, ()),
    ).collect();
    CoiTree { inner: BasicCOITree::new(&nodes) }
}

/// Counts with `BasicCOITree::query_count`: the number of intervals in the
/// tree with `first <= last_of_query` and `last >= first_of_query`. The tree
/// compares endpoints only, so a query that ends before it starts is answered
/// by the same rule.
#[verifier::external_body]
pub(crate) fn tree_query_count(tree: &CoiTree, first: i32, last: i32) -> (count: usize)
    ensures
        count == tree_intervals(*tree).filter(meets(first as int, last as int)).len(),
{
    tree.inner.query_count(first, last)
}

/// Collects what `BasicCOITree::query` visits: the intervals in the tree that
/// meet the query, each once for each time the tree holds it, in the order
/// in which the tree walks them.
#[verifier::external_body]
pub(crate) fn tree_query(tree: &CoiTree, first: i32, last: i32) -> (hits: Vec<Interval>)
    ensures
        hits@.to_multiset() == tree_intervals(*tree).filter(meets(first as int, last as int)),
{
    let mut hits: Vec<Interval> = Vec::new();
    tree.inner.query(first, last, |node| hits.push(Interval { first: node.first, last: node.last }));
    hits
}

/// The map from contig names to slots: a hash map of the standard library
/// that hashes with FNV.
pub type SlotMap = FnvHashMap<String, usize>;

/// What a map from contig names to slots holds.
pub uninterp spec fn slot_map(slots: SlotMap) -> Map<Seq<char>, usize>;

/// An empty map, from `FnvHashMap::default`.
#[verifier::external_body]
pub(crate) fn slots_new() -> (slots: SlotMap)
    ensures
        forall|contig: Seq<char>| !slot_map(slots).contains_key(contig),
{
    FnvHashMap::default()
}

/// Looks a contig up with `HashMap::get`.
#[verifier::external_body]
pub(crate) fn slots_get(slots: &SlotMap, contig: &str) -> (found: Option<usize>)
    ensures
        found == (if slot_map(*slots).contains_key(contig@) {
            Some(slot_map(*slots)[contig@])
        } else {
            None
        }),
{
    slots.get(contig).copied()
}

/// Binds a contig to a slot with `HashMap::insert`, in place of what it was
/// bound to before.
#[verifier::external_body]
pub(crate) fn slots_insert(slots: &mut SlotMap, contig: String, slot: usize)
    ensures
        slot_map(*final(slots)) == slot_map(*old(slots)).insert(contig@, slot),
{
    slots.insert(contig, slot);
}

} // verus!
