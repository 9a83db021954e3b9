//! The native count and coverage operator: an interval index over the left
//! table, probed with the rows of the right table.

use vstd::prelude::*;
use crate::batch::{find_column, Column, ColumnData, DataType, Field, RecordBatch};
use crate::coverage::{
    coverage_sum, fits_a_tree, get_coverage, lemma_nothing_met, overlap_count, IntervalTree,
    MAX_INTERVALS,
};
use crate::error::BioError;
use crate::interval::{merge_intervals, merged, Interval};
use crate::option::FilterOp;
use crate::tree::{slot_map, slots_get, slots_insert, slots_new, SlotMap};

verus! {

/// The contig column of a batch, in one of the string encodings.
pub enum ContigArray<'a> {
    GenericString(&'a Vec<String>),
    Utf8View(&'a Vec<String>),
    Utf8(&'a Vec<String>),
}

impl ContigArray<'_> {
    /// The contigs of the rows, in order.
    pub open spec fn values(&self) -> Seq<String> {
        match *self {
            ContigArray::GenericString(v) => v@,
            ContigArray::Utf8View(v) => v@,
            ContigArray::Utf8(v) => v@,
        }
    }

    /// The type of the column that is read: `GenericString` reads a column
    /// of large strings.
    pub open spec fn spec_data_type(&self) -> DataType {
        match *self {
            ContigArray::GenericString(_) => DataType::LargeUtf8,
            ContigArray::Utf8View(_) => DataType::Utf8View,
            ContigArray::Utf8(_) => DataType::Utf8,
        }
    }

    /// The type of the column that is read.
    #[verifier::when_used_as_spec(spec_data_type)]
    pub fn data_type(&self) -> (data_type: DataType)
        ensures
            data_type == self.spec_data_type(),
    {
        match self {
            ContigArray::GenericString(_) => DataType::LargeUtf8,
            ContigArray::Utf8View(_) => DataType::Utf8View,
            ContigArray::Utf8(_) => DataType::Utf8,
        }
    }

    /// The contig of row `i`.
    pub fn value(&self, i: usize) -> (contig: &str)
        requires
            i < self.values().len(),
        ensures
            contig@ == self.values()[i as int]@,
    {
        match self {
            ContigArray::GenericString(v) => v[i].as_str(),
            ContigArray::Utf8View(v) => v[i].as_str(),
            ContigArray::Utf8(v) => v[i].as_str(),
        }
    }
}

/// A 64-bit position as the operator uses it: its low 32 bits.
pub open spec fn narrowed(position: i64) -> i32 {
    position as i32
}

/// A start or end column of a batch, of 32-bit or of 64-bit integers.
pub enum PosArray<'a> {
    Int32(&'a Vec<i32>),
    Int64(&'a Vec<i64>),
}

impl PosArray<'_> {
    /// The positions of the rows, in order, each as 32 bits.
    pub open spec fn values(&self) -> Seq<i32> {
        match *self {
            PosArray::Int32(v) => v@,
            PosArray::Int64(v) => v@.map_values(|position: i64| narrowed(position)),
        }
    }

    /// The type of the column that is read.
    pub open spec fn spec_data_type(&self) -> DataType {
        match *self {
            PosArray::Int32(_) => DataType::Int32,
            PosArray::Int64(_) => DataType::Int64,
        }
    }

    /// The type of the column that is read.
    #[verifier::when_used_as_spec(spec_data_type)]
    pub fn data_type(&self) -> (data_type: DataType)
        ensures
            data_type == self.spec_data_type(),
    {
        match self {
            PosArray::Int32(_) => DataType::Int32,
            PosArray::Int64(_) => DataType::Int64,
        }
    }

    /// The position of row `i`.
    pub fn value(&self, i: usize) -> (position: i32)
        requires
            i < self.values().len(),
        ensures
            position == self.values()[i as int],
    {
        match self {
            PosArray::Int32(v) => v[i],
            PosArray::Int64(v) => {
                let wide: i64 = v[i];
                #[verifier::truncate]
                (wide as i32)
            },
        }
    }
}

/// The contigs of a column that was looked up as the contig column: it has to
/// be there, and to be of one of the string types.
pub open spec fn contig_values(column: Option<Column>) -> Result<Seq<String>, BioError> {
    match column {
        None => Err(BioError::UnknownColumn),
        Some(c) => match c.data {
            ColumnData::LargeUtf8(v) => Ok(v@),
            ColumnData::Utf8View(v) => Ok(v@),
            ColumnData::Utf8(v) => Ok(v@),
            _ => Err(BioError::UnsupportedColumnType),
        },
    }
}

/// The positions of a column that was looked up as a start or end column: it
/// has to be there, and to be of one of the two integer types.
pub open spec fn position_values(column: Option<Column>) -> Result<Seq<i32>, BioError> {
    match column {
        None => Err(BioError::UnknownColumn),
        Some(c) => match c.data {
            ColumnData::Int32(v) => Ok(v@),
            ColumnData::Int64(v) => Ok(v@.map_values(|position: i64| narrowed(position))),
            _ => Err(BioError::UnsupportedColumnType),
        },
    }
}

/// The type of a column that was looked up.
pub open spec fn column_type(column: Option<Column>) -> DataType {
    match column {
        Some(c) => c.data.spec_data_type(),
        None => DataType::Other,
    }
}

/// The three key columns of a batch, by value, and the types they are read
/// from.
pub struct KeyColumns {
    pub contigs: Seq<String>,
    pub starts: Seq<i32>,
    pub ends: Seq<i32>,
    pub contig_type: DataType,
    pub start_type: DataType,
    pub end_type: DataType,
}

/// The key columns of the given names, or the first thing that is wrong with
/// them: the contig column is looked at first, then the start, then the end.
pub open spec fn key_columns(columns: Seq<Column>, names: (String, String, String)) -> Result<
    KeyColumns,
    BioError,
> {
    match contig_values(find_column(columns, names.0@)) {
        Err(e) => Err(e),
        Ok(contigs) => match position_values(find_column(columns, names.1@)) {
            Err(e) => Err(e),
            Ok(starts) => match position_values(find_column(columns, names.2@)) {
                Err(e) => Err(e),
                Ok(ends) => Ok(
                    KeyColumns {
                        contigs,
                        starts,
                        ends,
                        contig_type: column_type(find_column(columns, names.0@)),
                        start_type: column_type(find_column(columns, names.1@)),
                        end_type: column_type(find_column(columns, names.2@)),
                    },
                ),
            },
        },
    }
}

fn contig_array<'a>(batch: &'a RecordBatch, name: &str) -> (result: Result<ContigArray<'a>, BioError>)
    ensures
        match contig_values(find_column(batch.spec_columns(), name@)) {
            Ok(values) => result matches Ok(array) && array.values() == values && values.len()
                == batch.spec_num_rows() && array.spec_data_type() == column_type(
                find_column(batch.spec_columns(), name@),
            ),
            Err(e) => result matches Err(err) && err == e,
        },
{
    match batch.column_by_name(name) {
        None => Err(BioError::UnknownColumn),
        Some(column) => match &column.data {
            ColumnData::LargeUtf8(v) => Ok(ContigArray::GenericString(v)),
            ColumnData::Utf8View(v) => Ok(ContigArray::Utf8View(v)),
            ColumnData::Utf8(v) => Ok(ContigArray::Utf8(v)),
            _ => Err(BioError::UnsupportedColumnType),
        },
    }
}

fn pos_array<'a>(batch: &'a RecordBatch, name: &str) -> (result: Result<PosArray<'a>, BioError>)
    ensures
        match position_values(find_column(batch.spec_columns(), name@)) {
            Ok(values) => result matches Ok(array) && array.values() == values && values.len()
                == batch.spec_num_rows() && array.spec_data_type() == column_type(
                find_column(batch.spec_columns(), name@),
            ),
            Err(e) => result matches Err(err) && err == e,
        },
{
    match batch.column_by_name(name) {
        None => Err(BioError::UnknownColumn),
        Some(column) => match &column.data {
            ColumnData::Int32(v) => Ok(PosArray::Int32(v)),
            ColumnData::Int64(v) => Ok(PosArray::Int64(v)),
            _ => Err(BioError::UnsupportedColumnType),
        },
    }
}

/// Finds the three key columns of a batch by name and tells by their types how
/// to read them. A column that is not there, or whose type is none of those
/// that can be read, is an error.
pub fn get_join_col_arrays<'a>(batch: &'a RecordBatch, columns: &(String, String, String)) -> (result:
    Result<(ContigArray<'a>, PosArray<'a>, PosArray<'a>), BioError>)
    ensures
        match key_columns(batch.spec_columns(), *columns) {
            Ok(keys) => result matches Ok(arrays) && arrays.0.values() == keys.contigs
                && arrays.1.values() == keys.starts && arrays.2.values() == keys.ends
                && arrays.0.spec_data_type() == keys.contig_type && arrays.1.spec_data_type()
                == keys.start_type && arrays.2.spec_data_type() == keys.end_type
                && keys.contigs.len() == batch.spec_num_rows() && keys.starts.len()
                == batch.spec_num_rows() && keys.ends.len() == batch.spec_num_rows(),
            Err(e) => result matches Err(err) && err == e,
        },
{
    let contig_arr = match contig_array(batch, columns.0.as_str()) {
        Ok(array) => array,
        Err(e) => {
            return Err(e);
        },
    };
    let start_arr = match pos_array(batch, columns.1.as_str()) {
        Ok(array) => array,
        Err(e) => {
            return Err(e);
        },
    };
    let end_arr = match pos_array(batch, columns.2.as_str()) {
        Ok(array) => array,
        Err(e) => {
            return Err(e);
        },
    };
    Ok((contig_arr, start_arr, end_arr))
}

/// One row of a table, as far as the operator reads it.
pub struct KeyRow {
    pub contig: Seq<char>,
    pub interval: Interval,
}

/// The rows that three key columns spell out.
pub open spec fn key_rows(keys: KeyColumns) -> Seq<KeyRow> {
    Seq::new(
        keys.contigs.len(),
        |i: int|
            KeyRow {
                contig: keys.contigs[i]@,
                interval: Interval { first: keys.starts[i], last: keys.ends[i] },
            },
    )
}

/// The rows of a batch whose key columns can be read.
pub open spec fn batch_rows(batch: RecordBatch, names: (String, String, String)) -> Seq<KeyRow> {
    match key_columns(batch.spec_columns(), names) {
        Ok(keys) => key_rows(keys),
        Err(_) => Seq::empty(),
    }
}

/// What is wrong with the key columns of the first batch that has something
/// wrong with them.
pub open spec fn first_key_error(batches: Seq<RecordBatch>, names: (String, String, String)) -> Option<
    BioError,
>
    decreases batches.len(),
{
    if batches.len() == 0 {
        None
    } else {
        match first_key_error(batches.drop_last(), names) {
            Some(e) => Some(e),
            None => match key_columns(batches.last().spec_columns(), names) {
                Err(e) => Some(e),
                Ok(_) => None,
            },
        }
    }
}

/// The rows of all batches, in order.
pub open spec fn collected_rows(batches: Seq<RecordBatch>, names: (String, String, String)) -> Seq<
    KeyRow,
>
    decreases batches.len(),
{
    if batches.len() == 0 {
        Seq::empty()
    } else {
        collected_rows(batches.drop_last(), names) + batch_rows(batches.last(), names)
    }
}

/// Some row lies on the contig.
pub open spec fn has_contig(rows: Seq<KeyRow>, contig: Seq<char>) -> bool {
    exists|i: int| 0 <= i < rows.len() && (#[trigger] rows[i]).contig == contig
}

/// The intervals of the rows that lie on the contig, in the order of the rows.
pub open spec fn contig_intervals(rows: Seq<KeyRow>, contig: Seq<char>) -> Seq<Interval>
    decreases rows.len(),
{
    if rows.len() == 0 {
        Seq::empty()
    } else if rows.last().contig == contig {
        contig_intervals(rows.drop_last(), contig).push(rows.last().interval)
    } else {
        contig_intervals(rows.drop_last(), contig)
    }
}

/// The intervals that one tree is built over: those of one contig, merged into
/// separate spans where the index is built for coverage.
pub open spec fn planted(group: Seq<Interval>, coverage: bool) -> Seq<Interval> {
    if coverage {
        merged(group)
    } else {
        group
    }
}

/// What the index holds for a contig: the intervals of its rows, merged into
/// separate spans where the index is built for coverage.
pub open spec fn indexed_intervals(rows: Seq<KeyRow>, contig: Seq<char>, coverage: bool) -> Seq<
    Interval,
> {
    planted(contig_intervals(rows, contig), coverage)
}

/// The error, if any of the groups has more intervals than fit one tree.
spec fn first_tree_error(groups: Seq<Seq<Interval>>, coverage: bool) -> Option<BioError>
    decreases groups.len(),
{
    if groups.len() == 0 {
        None
    } else {
        match first_tree_error(groups.drop_last(), coverage) {
            Some(e) => Some(e),
            None => if fits_a_tree(planted(groups.last(), coverage)) {
                None
            } else {
                Some(BioError::TooManyIntervals)
            },
        }
    }
}

/// Some contig of the rows has more intervals than fit one tree.
pub open spec fn overfull(rows: Seq<KeyRow>, coverage: bool) -> bool {
    exists|contig: Seq<char>|
        has_contig(rows, contig) && !fits_a_tree(
            #[trigger] indexed_intervals(rows, contig, coverage),
        )
}

/// Why no index can be built over the batches, if none can: the first batch
/// whose key columns cannot be read, or else a contig with more intervals
/// than fit one tree.
pub open spec fn build_error(
    batches: Seq<RecordBatch>,
    names: (String, String, String),
    coverage: bool,
) -> Option<BioError> {
    match first_key_error(batches, names) {
        Some(e) => Some(e),
        None => if overfull(collected_rows(batches, names), coverage) {
            Some(BioError::TooManyIntervals)
        } else {
            None
        },
    }
}

proof fn lemma_first_tree_error(groups: Seq<Seq<Interval>>, coverage: bool)
    ensures
        match first_tree_error(groups, coverage) {
            Some(e) => e == BioError::TooManyIntervals && exists|k: int|
                0 <= k < groups.len() && !fits_a_tree(planted(#[trigger] groups[k], coverage)),
            None => forall|k: int|
                0 <= k < groups.len() ==> fits_a_tree(planted(#[trigger] groups[k], coverage)),
        },
    decreases groups.len(),
{
    if groups.len() > 0 {
        let head = groups.drop_last();
        lemma_first_tree_error(head, coverage);
        match first_tree_error(head, coverage) {
            Some(e) => {
                let k = choose|k: int|
                    0 <= k < head.len() && !fits_a_tree(planted(#[trigger] head[k], coverage));
                assert(groups[k] == head[k]);
            },
            None => {
                let last = groups.len() - 1;
                assert(groups[last] == groups.last());
                assert forall|k: int| 0 <= k < last implies fits_a_tree(
                    planted(#[trigger] groups[k], coverage),
                ) by {
                    assert(groups[k] == head[k]);
                }
            },
        }
    }
}

proof fn lemma_first_tree_error_prefix(groups: Seq<Seq<Interval>>, coverage: bool, k: int)
    requires
        0 <= k <= groups.len(),
        first_tree_error(groups.take(k), coverage) is Some,
    ensures
        first_tree_error(groups, coverage) == first_tree_error(groups.take(k), coverage),
    decreases groups.len() - k,
{
    if k < groups.len() {
        assert(groups.take(k + 1).drop_last() =~= groups.take(k));
        lemma_first_tree_error_prefix(groups, coverage, k + 1);
    } else {
        assert(groups.take(k) =~= groups);
    }
}

proof fn lemma_first_key_error_prefix(
    batches: Seq<RecordBatch>,
    names: (String, String, String),
    k: int,
)
    requires
        0 <= k <= batches.len(),
        first_key_error(batches.take(k), names) is Some,
    ensures
        first_key_error(batches, names) == first_key_error(batches.take(k), names),
    decreases batches.len() - k,
{
    if k < batches.len() {
        assert(batches.take(k + 1).drop_last() =~= batches.take(k));
        lemma_first_key_error_prefix(batches, names, k + 1);
    } else {
        assert(batches.take(k) =~= batches);
    }
}

/// Where no row lies on a contig, the contig has no intervals.
pub proof fn lemma_no_contig_no_intervals(rows: Seq<KeyRow>, contig: Seq<char>)
    requires
        !has_contig(rows, contig),
    ensures
        contig_intervals(rows, contig).len() == 0,
    decreases rows.len(),
{
    if rows.len() > 0 {
        assert(rows[rows.len() - 1].contig != contig);
        assert(!has_contig(rows.drop_last(), contig)) by {
            if has_contig(rows.drop_last(), contig) {
                let i = choose|i: int|
                    0 <= i < rows.drop_last().len() && (#[trigger] rows.drop_last()[i]).contig
                        == contig;
                assert(rows[i].contig == contig);
            }
        }
        lemma_no_contig_no_intervals(rows.drop_last(), contig);
    }
}

proof fn lemma_push_row(rows: Seq<KeyRow>, row: KeyRow, contig: Seq<char>)
    ensures
        has_contig(rows.push(row), contig) <==> (has_contig(rows, contig) || row.contig == contig),
        contig_intervals(rows.push(row), contig) == if row.contig == contig {
            contig_intervals(rows, contig).push(row.interval)
        } else {
            contig_intervals(rows, contig)
        },
{
    let next = rows.push(row);
    assert(next.drop_last() =~= rows);
    assert(next.last() == row);
    if has_contig(rows, contig) {
        let i = choose|i: int| 0 <= i < rows.len() && (#[trigger] rows[i]).contig == contig;
        assert(next[i].contig == contig);
    }
    if row.contig == contig {
        assert(next[rows.len() as int].contig == contig);
    }
    if has_contig(next, contig) {
        let i = choose|i: int| 0 <= i < next.len() && (#[trigger] next[i]).contig == contig;
        if i < rows.len() {
            assert(rows[i].contig == contig);
        }
    }
}

/// An interval index: for each contig of the left table, a tree over the
/// intervals of its rows.
pub struct IntervalIndex {
    slots: SlotMap,
    trees: Vec<IntervalTree>,
}

impl View for IntervalIndex {
    type V = Map<Seq<char>, Seq<Interval>>;

    /// The intervals that the index holds, by contig.
    closed spec fn view(&self) -> Map<Seq<char>, Seq<Interval>> {
        Map::new(
            |contig: Seq<char>| slot_map(self.slots).contains_key(contig),
            |contig: Seq<char>| self.trees@[slot_map(self.slots)[contig] as int]@,
        )
    }
}

impl IntervalIndex {
    #[verifier::type_invariant]
    closed spec fn inv(self) -> bool {
        forall|contig: Seq<char>| #[trigger]
            slot_map(self.slots).contains_key(contig) ==> slot_map(self.slots)[contig]
                < self.trees@.len()
    }

    /// The tree of a contig, if the index has rows on it.
    pub fn get(&self, contig: &str) -> (found: Option<&IntervalTree>)
        ensures
            match found {
                Some(tree) => self@.contains_key(contig@) && tree@ == self@[contig@],
                None => !self@.contains_key(contig@),
            },
    {
        proof {
            use_type_invariant(self);
        }
        match slots_get(&self.slots, contig) {
            Some(slot) => Some(&self.trees[slot]),
            None => None,
        }
    }
}

/// The state of the grouping pass: what the slot map and the groups hold
/// after the rows `rows`.
spec fn grouped(
    slots: SlotMap,
    groups: Seq<Vec<Interval>>,
    owners: Seq<Seq<char>>,
    rows: Seq<KeyRow>,
) -> bool {
    &&& owners.len() == groups.len()
    &&& forall|contig: Seq<char>| #[trigger]
        slot_map(slots).contains_key(contig) <==> has_contig(rows, contig)
    &&& forall|contig: Seq<char>| #[trigger]
        slot_map(slots).contains_key(contig) ==> {
            &&& slot_map(slots)[contig] < groups.len()
            &&& owners[slot_map(slots)[contig] as int] == contig
            &&& groups[slot_map(slots)[contig] as int]@ == contig_intervals(rows, contig)
        }
    &&& forall|k: int|
        0 <= k < owners.len() ==> slot_map(slots).contains_key(#[trigger] owners[k]) && slot_map(
            slots,
        )[owners[k]] == k
}

/// Adds one row to the groups.
fn group_row(
    slots: &mut SlotMap,
    groups: &mut Vec<Vec<Interval>>,
    contig: &str,
    interval: Interval,
    Ghost(owners): Ghost<Seq<Seq<char>>>,
    Ghost(rows): Ghost<Seq<KeyRow>>,
) -> (next_owners: Ghost<Seq<Seq<char>>>)
    requires
        grouped(*old(slots), old(groups)@, owners, rows),
    ensures
        grouped(
            *final(slots),
            final(groups)@,
            next_owners@,
            rows.push(KeyRow { contig: contig@, interval }),
        ),
{
    let ghost row = KeyRow { contig: contig@, interval };
    let ghost before = slot_map(*slots);
    let ghost groups_before = groups@;
    proof {
        assert forall|c: Seq<char>| true implies (has_contig(rows.push(row), c) <==> (has_contig(
            rows,
            c,
        ) || row.contig == c)) && contig_intervals(rows.push(row), c) == (if row.contig == c {
            contig_intervals(rows, c).push(row.interval)
        } else {
            contig_intervals(rows, c)
        }) by {
            lemma_push_row(rows, row, c);
        }
    }
    match slots_get(slots, contig) {
        Some(slot) => {
            groups[slot].push(interval);
            proof {
                assert forall|c: Seq<char>| #[trigger] before.contains_key(c) implies {
                    &&& before[c] < groups@.len()
                    &&& owners[before[c] as int] == c
                    &&& groups@[before[c] as int]@ == contig_intervals(rows.push(row), c)
                } by {
                    if c != contig@ {
                        assert(before[c] != slot);
                        assert(groups@[before[c] as int] == groups_before[before[c] as int]);
                    }
                }
            }
            Ghost(owners)
        },
        None => {
            let slot = groups.len();
            let mut group: Vec<Interval> = Vec::new();
            group.push(interval);
            groups.push(group);
            slots_insert(slots, contig.to_string(), slot);
            proof {
                lemma_no_contig_no_intervals(rows, contig@);
                assert(group@ =~= contig_intervals(rows, contig@).push(interval));
                let next = owners.push(contig@);
                assert forall|c: Seq<char>| #[trigger]
                    slot_map(*slots).contains_key(c) implies {
                    &&& slot_map(*slots)[c] < groups@.len()
                    &&& next[slot_map(*slots)[c] as int] == c
                    &&& groups@[slot_map(*slots)[c] as int]@ == contig_intervals(
                        rows.push(row),
                        c,
                    )
                } by {
                    if c != contig@ {
                        assert(before.contains_key(c));
                        assert(groups@[before[c] as int] == groups_before[before[c] as int]);
                    }
                }
                assert forall|k: int| 0 <= k < next.len() implies slot_map(*slots).contains_key(
                    #[trigger] next[k],
                ) && slot_map(*slots)[next[k]] == k by {
                    if k < owners.len() {
                        assert(before.contains_key(owners[k]));
                    }
                }
            }
            Ghost(owners.push(contig@))
        },
    }
}

/// Adds the rows of one batch to the groups.
fn group_batch(
    slots: &mut SlotMap,
    groups: &mut Vec<Vec<Interval>>,
    batch: &RecordBatch,
    columns: &(String, String, String),
    Ghost(owners): Ghost<Seq<Seq<char>>>,
    Ghost(rows): Ghost<Seq<KeyRow>>,
) -> (result: Result<Ghost<Seq<Seq<char>>>, BioError>)
    requires
        grouped(*old(slots), old(groups)@, owners, rows),
    ensures
        match key_columns(batch.spec_columns(), *columns) {
            Ok(keys) => result matches Ok(next_owners) && grouped(
                *final(slots),
                final(groups)@,
                next_owners@,
                rows + key_rows(keys),
            ),
            Err(e) => result matches Err(err) && err == e,
        },
{
    let (contig_arr, start_arr, end_arr) = match get_join_col_arrays(batch, columns) {
        Ok(arrays) => arrays,
        Err(e) => {
            return Err(e);
        },
    };
    let ghost keys = key_columns(batch.spec_columns(), *columns)->Ok_0;
    let ghost added = key_rows(keys);
    let mut owners = Ghost(owners);
    let n = batch.num_rows();
    let mut i: usize = 0;
    proof {
        assert(rows + added.take(0) =~= rows);
    }
    while i < n
        invariant
            i <= n,
            n == added.len(),
            added == key_rows(keys),
            contig_arr.values() == keys.contigs,
            start_arr.values() == keys.starts,
            end_arr.values() == keys.ends,
            keys.contigs.len() == n,
            keys.starts.len() == n,
            keys.ends.len() == n,
            grouped(*slots, groups@, owners@, rows + added.take(i as int)),
        decreases n - i,
    {
        let contig = contig_arr.value(i);
        let pos_start = start_arr.value(i);
        let pos_end = end_arr.value(i);
        let interval = Interval { first: pos_start, last: pos_end };
        proof {
            assert((rows + added.take(i as int)).push(added[i as int]) =~= rows + added.take(
                i + 1,
            ));
            assert(added[i as int] == KeyRow { contig: contig@, interval });
        }
        owners = group_row(slots, groups, contig, interval, owners, Ghost(rows + added.take(i as int)));
        i += 1;
    }
    proof {
        assert(added.take(n as int) =~= added);
    }
    Ok(owners)
}

/// The intervals of the groups.
spec fn group_views(groups: Seq<Vec<Interval>>) -> Seq<Seq<Interval>> {
    groups.map_values(|group: Vec<Interval>| group@)
}

/// The trees of the groups, in the order of the groups: each over the
/// intervals of its group, merged into separate spans for coverage.
fn plant_trees(groups: Vec<Vec<Interval>>, coverage: bool) -> (result: Result<
    Vec<IntervalTree>,
    BioError,
>)
    ensures
        match first_tree_error(group_views(groups@), coverage) {
            Some(e) => result matches Err(err) && err == e,
            None => result matches Ok(trees) && trees@.len() == groups@.len() && forall|k: int|
                0 <= k < groups@.len() ==> (#[trigger] trees@[k])@ == planted(
                    groups@[k]@,
                    coverage,
                ) && fits_a_tree(trees@[k]@),
        },
{
    let ghost given = groups@;
    let ghost views = group_views(groups@);
    let mut pending = groups;
    let mut trees: Vec<IntervalTree> = Vec::new();
    let mut k: usize = 0;
    while k < pending.len()
        invariant
            k <= pending.len(),
            given == groups@,
            views == group_views(given),
            pending@.len() == given.len(),
            forall|j: int| k <= j < given.len() ==> #[trigger] pending@[j] == given[j],
            trees@.len() == k,
            first_tree_error(views.take(k as int), coverage) is None,
            forall|j: int|
                0 <= j < k ==> (#[trigger] trees@[j])@ == planted(given[j]@, coverage)
                    && fits_a_tree(trees@[j]@),
        decreases pending.len() - k,
    {
        let mut group: Vec<Interval> = Vec::new();
        core::mem::swap(&mut pending[k], &mut group);
        assert(group@ == given[k as int]@);
        proof {
            assert(views.take(k + 1).drop_last() =~= views.take(k as int));
            assert(views.take(k + 1).last() == given[k as int]@);
        }
        let intervals = if coverage {
            merge_intervals(group)
        } else {
            group
        };
        match IntervalTree::new(intervals) {
            Ok(tree) => {
                trees.push(tree);
            },
            Err(e) => {
                proof {
                    lemma_first_tree_error_prefix(views, coverage, k + 1);
                }
                return Err(e);
            },
        }
        k += 1;
    }
    proof {
        assert(views.take(pending.len() as int) =~= views);
    }
    Ok(trees)
}

/// Builds the interval index of the left table: the rows of all batches are
/// grouped by contig, and each group becomes one tree. For coverage the
/// intervals of a group are first sorted by start and merged into separate
/// spans.
///
/// A batch whose key columns cannot be read is an error, and so is a contig
/// with more intervals than fit one tree.
pub fn build_coitree_from_batches(
    batches: Vec<RecordBatch>,
    columns: (String, String, String),
    coverage: bool,
) -> (result: Result<IntervalIndex, BioError>)
    ensures
        match build_error(batches@, columns, coverage) {
            Some(e) => result matches Err(err) && err == e,
            None => result matches Ok(index) && {
                &&& forall|contig: Seq<char>| #[trigger]
                    index@.contains_key(contig) <==> has_contig(
                        collected_rows(batches@, columns),
                        contig,
                    )
                &&& forall|contig: Seq<char>| #[trigger]
                    index@.contains_key(contig) ==> index@[contig] == indexed_intervals(
                        collected_rows(batches@, columns),
                        contig,
                        coverage,
                    ) && fits_a_tree(index@[contig])
            },
        },
{
    let mut slots = slots_new();
    let mut groups: Vec<Vec<Interval>> = Vec::new();
    let mut owners: Ghost<Seq<Seq<char>>> = Ghost(Seq::empty());
    let mut b: usize = 0;
    while b < batches.len()
        invariant
            b <= batches.len(),
            first_key_error(batches@.take(b as int), columns) is None,
            grouped(slots, groups@, owners@, collected_rows(batches@.take(b as int), columns)),
        decreases batches.len() - b,
    {
        proof {
            assert(batches@.take(b + 1).drop_last() =~= batches@.take(b as int));
            assert(batches@.take(b + 1).last() == batches@[b as int]);
        }
        match group_batch(
            &mut slots,
            &mut groups,
            &batches[b],
            &columns,
            owners,
            Ghost(collected_rows(batches@.take(b as int), columns)),
        ) {
            Ok(next_owners) => {
                owners = next_owners;
            },
            Err(e) => {
                proof {
                    lemma_first_key_error_prefix(batches@, columns, b + 1);
                }
                return Err(e);
            },
        }
        b += 1;
    }
    proof {
        assert(batches@.take(batches.len() as int) =~= batches@);
    }
    let ghost rows = collected_rows(batches@, columns);
    let ghost grouped_intervals = groups@;
    proof {
        lemma_first_tree_error(group_views(grouped_intervals), coverage);
    }
    match plant_trees(groups, coverage) {
        Ok(trees) => {
            let index = IntervalIndex { slots, trees };
            proof {
                assert forall|contig: Seq<char>| #[trigger]
                    index@.contains_key(contig) implies index@[contig] == indexed_intervals(
                    rows,
                    contig,
                    coverage,
                ) && fits_a_tree(index@[contig]) by {
                    let slot = slot_map(slots)[contig] as int;
                    assert(grouped_intervals[slot]@ == contig_intervals(rows, contig));
                    assert(trees@[slot]@ == planted(grouped_intervals[slot]@, coverage));
                }
                assert(!overfull(rows, coverage)) by {
                    if overfull(rows, coverage) {
                        let contig = choose|contig: Seq<char>|
                            has_contig(rows, contig) && !fits_a_tree(
                                #[trigger] indexed_intervals(rows, contig, coverage),
                            );
                        assert(index@.contains_key(contig));
                    }
                }
            }
            Ok(index)
        },
        Err(e) => {
            proof {
                let views = group_views(grouped_intervals);
                let k = choose|k: int|
                    0 <= k < views.len() && !fits_a_tree(planted(#[trigger] views[k], coverage));
                let contig = owners@[k];
                assert(slot_map(slots).contains_key(contig));
                assert(grouped_intervals[k]@ == contig_intervals(rows, contig));
                assert(has_contig(rows, contig));
                assert(!fits_a_tree(indexed_intervals(rows, contig, coverage)));
            }
            Err(e)
        },
    }
}

/// The first position of the range that a row is looked up with: one more
/// than its start where touching endpoints are not to count.
pub open spec fn probe_first(filter_op: FilterOp, start: i32) -> int {
    match filter_op {
        FilterOp::Strict => start + 1,
        FilterOp::Weak => start as int,
    }
}

/// The last position of the range that a row is looked up with: one less than
/// its end where touching endpoints are not to count.
pub open spec fn probe_last(filter_op: FilterOp, end: i32) -> int {
    match filter_op {
        FilterOp::Strict => end - 1,
        FilterOp::Weak => end as int,
    }
}

/// What a row from `start` to `end` gets from a list of intervals: the number
/// of intervals that its range meets, or the coverage of its range.
pub open spec fn probe_value(
    intervals: Seq<Interval>,
    start: i32,
    end: i32,
    filter_op: FilterOp,
    coverage: bool,
) -> int {
    if coverage {
        coverage_sum(intervals, probe_first(filter_op, start), probe_last(filter_op, end))
    } else {
        overlap_count(intervals, probe_first(filter_op, start), probe_last(filter_op, end)) as int
    }
}

/// What a row gets from the index: what it gets from the intervals of its
/// contig, and 0 where the index has none on that contig.
pub open spec fn row_value(
    index: Map<Seq<char>, Seq<Interval>>,
    contig: Seq<char>,
    start: i32,
    end: i32,
    filter_op: FilterOp,
    coverage: bool,
) -> int {
    if index.contains_key(contig) {
        probe_value(index[contig], start, end, filter_op, coverage)
    } else {
        0
    }
}

/// Looks one range up in a tree: counts the intervals it meets, or sums the
/// coverage. Where touching endpoints are not to count, the range is narrowed
/// by one position at either end first.
pub fn probe_tree(tree: &IntervalTree, start: i32, end: i32, filter_op: FilterOp, coverage: bool) -> (value:
    i64)
    ensures
        value == probe_value(tree@, start, end, filter_op, coverage),
{
    match filter_op {
        FilterOp::Strict => {
            if start == i32::MAX || end == i32::MIN {
                proof {
                    lemma_nothing_met(
                        tree@,
                        probe_first(filter_op, start),
                        probe_last(filter_op, end),
                    );
                }
                0
            } else if coverage {
                get_coverage(tree, start + 1, end - 1)
            } else {
                tree.query_count(start + 1, end - 1) as i64
            }
        },
        FilterOp::Weak => {
            if coverage {
                get_coverage(tree, start, end)
            } else {
                tree.query_count(start, end) as i64
            }
        },
    }
}

impl IntervalIndex {
    /// What a row from `start` to `end` on `contig` gets from the index. A
    /// contig that the index does not know gives 0.
    pub fn probe(&self, contig: &str, start: i32, end: i32, filter_op: FilterOp, coverage: bool) -> (value:
        i64)
        ensures
            value == row_value(self@, contig@, start, end, filter_op, coverage),
    {
        match self.get(contig) {
            None => 0,
            Some(tree) => probe_tree(tree, start, end, filter_op, coverage),
        }
    }
}

/// Looks every row of a batch of the right table up in the index, and
/// returns the column of the results.
pub fn probe_batch(
    index: &IntervalIndex,
    batch: &RecordBatch,
    columns: &(String, String, String),
    filter_op: FilterOp,
    coverage: bool,
) -> (result: Result<Vec<i64>, BioError>)
    ensures
        match key_columns(batch.spec_columns(), *columns) {
            Ok(keys) => result matches Ok(values) && values@.len() == batch.spec_num_rows()
                && keys.contigs.len() == batch.spec_num_rows() && keys.starts.len()
                == batch.spec_num_rows() && keys.ends.len() == batch.spec_num_rows()
                && forall|i: int|
                0 <= i < values@.len() ==> #[trigger] values@[i] == row_value(
                    index@,
                    keys.contigs[i]@,
                    keys.starts[i],
                    keys.ends[i],
                    filter_op,
                    coverage,
                ),
            Err(e) => result matches Err(err) && err == e,
        },
{
    let (contig, pos_start, pos_end) = match get_join_col_arrays(batch, columns) {
        Ok(arrays) => arrays,
        Err(e) => {
            return Err(e);
        },
    };
    let ghost keys = key_columns(batch.spec_columns(), *columns)->Ok_0;
    let num_rows = batch.num_rows();
    let mut count_arr: Vec<i64> = Vec::with_capacity(num_rows);
    let mut i: usize = 0;
    while i < num_rows
        invariant
            i <= num_rows,
            count_arr@.len() == i,
            contig.values() == keys.contigs,
            pos_start.values() == keys.starts,
            pos_end.values() == keys.ends,
            keys.contigs.len() == num_rows,
            keys.starts.len() == num_rows,
            keys.ends.len() == num_rows,
            forall|k: int|
                0 <= k < i ==> #[trigger] count_arr@[k] == row_value(
                    index@,
                    keys.contigs[k]@,
                    keys.starts[k],
                    keys.ends[k],
                    filter_op,
                    coverage,
                ),
        decreases num_rows - i,
    {
        let value = index.probe(
            contig.value(i),
            pos_start.value(i),
            pos_end.value(i),
            filter_op,
            coverage,
        );
        count_arr.push(value);
        i += 1;
    }
    Ok(count_arr)
}

/// The name of the column that the operator appends.
pub open spec fn output_name(coverage: bool) -> Seq<char> {
    if coverage {
        "coverage"@
    } else {
        "count"@
    }
}

/// The field that the operator appends to the schema of the right table: a
/// 64-bit integer that is never null, named `coverage` or `count`.
pub fn output_field(coverage: bool) -> (field: Field)
    ensures
        field.name@ == output_name(coverage),
        field.data_type == DataType::Int64,
        !field.nullable,
{
    let name = if coverage {
        "coverage".to_string()
    } else {
        "count".to_string()
    };
    Field { name, data_type: DataType::Int64, nullable: false }
}

/// The first three names of a column list, as the key columns of one side.
pub fn key_triple(columns: &Vec<String>) -> (result: Result<(String, String, String), BioError>)
    ensures
        match result {
            Ok(triple) => columns@.len() >= 3 && triple.0@ == columns@[0]@ && triple.1@
                == columns@[1]@ && triple.2@ == columns@[2]@,
            Err(e) => columns@.len() < 3 && e == BioError::MissingKeyColumns,
        },
{
    if columns.len() < 3 {
        return Err(BioError::MissingKeyColumns);
    }
    Ok((columns[0].clone(), columns[1].clone(), columns[2].clone()))
}

/// The native operator before it has seen any rows: the two tables, their key
/// columns, what to compute, and the schema of what comes out.
#[derive(Debug)]
pub struct CountOverlapsProvider {
    pub left_table: String,
    pub right_table: String,
    pub columns_1: (String, String, String),
    pub columns_2: (String, String, String),
    pub filter_op: FilterOp,
    pub coverage: bool,
    pub schema: Vec<Field>,
}

impl CountOverlapsProvider {
    /// Sets the operator up. The schema of its output is the schema of the
    /// right table and one more field, `coverage` or `count`.
    pub fn new(
        left_table: String,
        right_table: String,
        right_table_schema: Vec<Field>,
        columns_1: Vec<String>,
        columns_2: Vec<String>,
        filter_op: FilterOp,
        coverage: bool,
    ) -> (result: Result<Self, BioError>)
        ensures
            result is Ok <==> columns_1@.len() >= 3 && columns_2@.len() >= 3,
            result matches Err(e) ==> e == BioError::MissingKeyColumns,
            result matches Ok(provider) ==> {
                &&& provider.left_table == left_table
                &&& provider.right_table == right_table
                &&& provider.filter_op == filter_op
                &&& provider.coverage == coverage
                &&& provider.columns_1.0@ == columns_1@[0]@
                &&& provider.columns_1.1@ == columns_1@[1]@
                &&& provider.columns_1.2@ == columns_1@[2]@
                &&& provider.columns_2.0@ == columns_2@[0]@
                &&& provider.columns_2.1@ == columns_2@[1]@
                &&& provider.columns_2.2@ == columns_2@[2]@
                &&& provider.schema@.len() == right_table_schema@.len() + 1
                &&& provider.schema@.drop_last() == right_table_schema@
                &&& provider.schema@.last().name@ == output_name(coverage)
                &&& provider.schema@.last().data_type == DataType::Int64
                &&& !provider.schema@.last().nullable
            },
    {
        let columns_1 = match key_triple(&columns_1) {
            Ok(triple) => triple,
            Err(e) => {
                return Err(e);
            },
        };
        let columns_2 = match key_triple(&columns_2) {
            Ok(triple) => triple,
            Err(e) => {
                return Err(e);
            },
        };
        let mut schema = right_table_schema;
        schema.push(output_field(coverage));
        proof {
            assert(schema@.drop_last() =~= right_table_schema@);
        }
        Ok(
            CountOverlapsProvider {
                left_table,
                right_table,
                columns_1,
                columns_2,
                filter_op,
                coverage,
                schema,
            },
        )
    }

    /// The schema of what the operator returns.
    pub fn schema(&self) -> (schema: &Vec<Field>)
        ensures
            schema == &self.schema,
    {
        &self.schema
    }

    /// The first phase: builds the interval index over the rows of the left
    /// table, once, and returns the operator that the right table is run
    /// through.
    pub fn scan(&self, left_table: Vec<RecordBatch>) -> (result: Result<CountOverlapsExec, BioError>)
        ensures
            match build_error(left_table@, self.columns_1, self.coverage) {
                Some(e) => result matches Err(err) && err == e,
                None => result matches Ok(exec) && {
                    &&& exec.filter_op == self.filter_op
                    &&& exec.coverage == self.coverage
                    &&& exec.columns_2 == self.columns_2
                    &&& exec.right_table == self.right_table
                    &&& forall|contig: Seq<char>| #[trigger]
                        exec.trees@.contains_key(contig) <==> has_contig(
                            collected_rows(left_table@, self.columns_1),
                            contig,
                        )
                    &&& forall|contig: Seq<char>| #[trigger]
                        exec.trees@.contains_key(contig) ==> exec.trees@[contig]
                            == indexed_intervals(
                            collected_rows(left_table@, self.columns_1),
                            contig,
                            self.coverage,
                        )
                },
            },
    {
        let columns_1 = (
            self.columns_1.0.clone(),
            self.columns_1.1.clone(),
            self.columns_1.2.clone(),
        );
        let trees = match build_coitree_from_batches(left_table, columns_1, self.coverage) {
            Ok(trees) => trees,
            Err(e) => {
                return Err(e);
            },
        };
        Ok(
            CountOverlapsExec {
                trees,
                right_table: self.right_table.clone(),
                columns_2: (
                    self.columns_2.0.clone(),
                    self.columns_2.1.clone(),
                    self.columns_2.2.clone(),
                ),
                filter_op: self.filter_op,
                coverage: self.coverage,
            },
        )
    }
}

/// The native operator with its index built: it takes the right table batch
/// by batch, in any number of partitions, and never changes.
pub struct CountOverlapsExec {
    pub trees: IntervalIndex,
    pub right_table: String,
    pub columns_2: (String, String, String),
    pub filter_op: FilterOp,
    pub coverage: bool,
}

impl CountOverlapsExec {
    /// The name of the operator.
    pub fn name(&self) -> (name: &'static str)
        ensures
            name@ == "CountOverlapsExec"@,
    {
        "CountOverlapsExec"
    }

    /// The second phase, for one batch of the right table: the column to
    /// append to the batch, one value for each row.
    pub fn execute(&self, batch: &RecordBatch) -> (result: Result<Vec<i64>, BioError>)
        ensures
            match key_columns(batch.spec_columns(), self.columns_2) {
                Ok(keys) => result matches Ok(values) && values@.len() == batch.spec_num_rows()
                    && keys.contigs.len() == batch.spec_num_rows() && keys.starts.len()
                    == batch.spec_num_rows() && keys.ends.len() == batch.spec_num_rows()
                    && forall|i: int|
                    0 <= i < values@.len() ==> #[trigger] values@[i] == row_value(
                        self.trees@,
                        keys.contigs[i]@,
                        keys.starts[i],
                        keys.ends[i],
                        self.filter_op,
                        self.coverage,
                    ),
                Err(e) => result matches Err(err) && err == e,
            },
    {
        probe_batch(&self.trees, batch, &self.columns_2, self.filter_op, self.coverage)
    }
}

} // verus!
