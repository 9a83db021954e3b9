//! A batch of rows as the native operator reads it: named columns, each of one
//! of the types that the operator tells apart.

use vstd::prelude::*;

verus! {

/// The type of a column, as far as the operator tells types apart.
#[derive(Clone, Copy, PartialEq, Eq, Debug, Structural)]
pub enum DataType {
    Int32,
    Int64,
    Utf8,
    LargeUtf8,
    Utf8View,
    /// Any other type. A key column of such a type cannot be read.
    Other,
}

/// One field of a schema.
#[derive(Clone, Debug, PartialEq, Eq)]
pub struct Field {
    pub name: String,
    pub data_type: DataType,
    pub nullable: bool,
}

/// The values of one column. A column of another type carries no values: the
/// operator hands such columns through without reading them.
#[derive(Clone, Debug, PartialEq, Eq)]
pub enum ColumnData {
    Int32(Vec<i32>),
    Int64(Vec<i64>),
    Utf8(Vec<String>),
    LargeUtf8(Vec<String>),
    Utf8View(Vec<String>),
    Other,
}

impl ColumnData {
    /// The column holds `rows` values, or is of a type that holds none here.
    pub open spec fn has_rows(self, rows: nat) -> bool {
        match self {
            ColumnData::Int32(v) => v@.len() == rows,
            ColumnData::Int64(v) => v@.len() == rows,
            ColumnData::Utf8(v) => v@.len() == rows,
            ColumnData::LargeUtf8(v) => v@.len() == rows,
            ColumnData::Utf8View(v) => v@.len() == rows,
            ColumnData::Other => true,
        }
    }

    /// The type of the column.
    pub open spec fn spec_data_type(&self) -> DataType {
        match *self {
            ColumnData::Int32(_) => DataType::Int32,
            ColumnData::Int64(_) => DataType::Int64,
            ColumnData::Utf8(_) => DataType::Utf8,
            ColumnData::LargeUtf8(_) => DataType::LargeUtf8,
            ColumnData::Utf8View(_) => DataType::Utf8View,
            ColumnData::Other => DataType::Other,
        }
    }

    /// The type of the column.
    #[verifier::when_used_as_spec(spec_data_type)]
    pub fn data_type(&self) -> (data_type: DataType)
        ensures
            data_type == self.spec_data_type(),
    {
        match self {
            ColumnData::Int32(_) => DataType::Int32,
            ColumnData::Int64(_) => DataType::Int64,
            ColumnData::Utf8(_) => DataType::Utf8,
            ColumnData::LargeUtf8(_) => DataType::LargeUtf8,
            ColumnData::Utf8View(_) => DataType::Utf8View,
            ColumnData::Other => DataType::Other,
        }
    }

    fn holds(&self, rows: usize) -> (ok: bool)
        ensures
            ok == self.has_rows(rows as nat),
    {
        match self {
            ColumnData::Int32(v) => v.len() == rows,
            ColumnData::Int64(v) => v.len() == rows,
            ColumnData::Utf8(v) => v.len() == rows,
            ColumnData::LargeUtf8(v) => v.len() == rows,
            ColumnData::Utf8View(v) => v.len() == rows,
            ColumnData::Other => true,
        }
    }
}

/// A named column.
#[derive(Clone, Debug, PartialEq, Eq)]
pub struct Column {
    pub name: String,
    pub data: ColumnData,
}

/// Every column holds `rows` values.
pub open spec fn columns_have_rows(columns: Seq<Column>, rows: nat) -> bool {
    forall|i: int| 0 <= i < columns.len() ==> (#[trigger] columns[i]).data.has_rows(rows)
}

/// The first column of the given name, if there is one.
pub open spec fn find_column(columns: Seq<Column>, name: Seq<char>) -> Option<Column>
    decreases columns.len(),
{
    if columns.len() == 0 {
        None
    } else {
        match find_column(columns.drop_last(), name) {
            Some(column) => Some(column),
            None => if columns.last().name@ == name {
                Some(columns.last())
            } else {
                None
            },
        }
    }
}

/// What [`find_column`] finds is the first column of the name: a column of
/// that name with none of that name before it, and nothing where no column
/// has the name.
pub proof fn lemma_find_column_is_first(columns: Seq<Column>, name: Seq<char>)
    ensures
        match find_column(columns, name) {
            Some(column) => exists|i: int|
                0 <= i < columns.len() && #[trigger] columns[i] == column && column.name@ == name
                    && forall|k: int| 0 <= k < i ==> (#[trigger] columns[k]).name@ != name,
            None => forall|i: int| 0 <= i < columns.len() ==> (#[trigger] columns[i]).name@ != name,
        },
    decreases columns.len(),
{
    if columns.len() > 0 {
        let head = columns.drop_last();
        lemma_find_column_is_first(head, name);
        match find_column(head, name) {
            Some(column) => {
                let i = choose|i: int|
                    0 <= i < head.len() && #[trigger] head[i] == column && column.name@ == name
                        && forall|k: int| 0 <= k < i ==> (#[trigger] head[k]).name@ != name;
                assert(columns[i] == column);
                assert forall|k: int| 0 <= k < i implies (#[trigger] columns[k]).name@ != name by {
                    assert(head[k] == columns[k]);
                }
            },
            None => {
                let last = columns.len() - 1;
                assert(columns[last] == columns.last());
                assert forall|k: int| 0 <= k < last implies (#[trigger] columns[k]).name@
                    != name by {
                    assert(head[k] == columns[k]);
                }
            },
        }
    }
}

proof fn lemma_find_column_prefix(columns: Seq<Column>, name: Seq<char>, k: int)
    requires
        0 <= k <= columns.len(),
        find_column(columns.take(k), name) is Some,
    ensures
        find_column(columns, name) == find_column(columns.take(k), name),
    decreases columns.len() - k,
{
    if k < columns.len() {
        assert(columns.take(k + 1).drop_last() =~= columns.take(k));
        lemma_find_column_prefix(columns, name, k + 1);
    } else {
        assert(columns.take(k) =~= columns);
    }
}

/// A batch of rows, held by column. Every column that carries values carries
/// one for each row.
#[derive(Debug)]
pub struct RecordBatch {
    columns: Vec<Column>,
    rows: usize,
}

impl RecordBatch {
    #[verifier::type_invariant]
    closed spec fn inv(self) -> bool {
        columns_have_rows(self.columns@, self.rows as nat)
    }

    /// The columns of the batch, in order.
    pub closed spec fn spec_columns(&self) -> Seq<Column> {
        self.columns@
    }

    /// The number of rows of the batch.
    pub closed spec fn spec_num_rows(&self) -> nat {
        self.rows as nat
    }

    /// Makes a batch of `rows` rows, if every column that carries values
    /// carries that many.
    pub fn try_new(columns: Vec<Column>, rows: usize) -> (batch: Option<RecordBatch>)
        ensures
            batch is Some <==> columns_have_rows(columns@, rows as nat),
            batch matches Some(b) ==> b.spec_columns() == columns@ && b.spec_num_rows() == rows,
    {
        let mut i: usize = 0;
        while i < columns.len()
            invariant
                i <= columns.len(),
                columns_have_rows(columns@.take(i as int), rows as nat),
            decreases columns.len() - i,
        {
            if !columns[i].data.holds(rows) {
                return None;
            }
            proof {
                let next = columns@.take(i + 1);
                assert forall|k: int| 0 <= k < next.len() implies (#[trigger] next[k]).data.has_rows(
                    rows as nat,
                ) by {
                    if k < i {
                        assert(columns@.take(i as int)[k] == next[k]);
                    }
                }
            }
            i += 1;
        }
        proof {
            assert(columns@.take(columns.len() as int) =~= columns@);
        }
        Some(RecordBatch { columns, rows })
    }

    /// The number of rows of the batch.
    #[verifier::when_used_as_spec(spec_num_rows_usize)]
    pub fn num_rows(&self) -> (rows: usize)
        ensures
            rows == self.spec_num_rows(),
    {
        self.rows
    }

    /// The number of rows of the batch.
    pub closed spec fn spec_num_rows_usize(&self) -> usize {
        self.rows
    }

    /// The columns of the batch, in order.
    pub fn columns(&self) -> (columns: &Vec<Column>)
        ensures
            columns@ == self.spec_columns(),
            columns_have_rows(columns@, self.spec_num_rows()),
    {
        proof {
            use_type_invariant(self);
        }
        &self.columns
    }

    /// The first column of the given name, if there is one.
    pub fn column_by_name(&self, name: &str) -> (found: Option<&Column>)
        ensures
            found == match find_column(self.spec_columns(), name@) {
                Some(column) => Some(&column),
                None => None,
            },
            found matches Some(column) ==> column.data.has_rows(self.spec_num_rows()),
    {
        proof {
            use_type_invariant(self);
        }
        let wanted = name.to_string();
        let mut i: usize = 0;
        while i < self.columns.len()
            invariant
                i <= self.columns.len(),
                wanted@ == name@,
                columns_have_rows(self.columns@, self.rows as nat),
                find_column(self.columns@.take(i as int), name@) is None,
            decreases self.columns.len() - i,
        {
            proof {
                assert(self.columns@.take(i + 1).drop_last() =~= self.columns@.take(i as int));
                assert(self.columns@.take(i + 1).last() == self.columns@[i as int]);
            }
            if self.columns[i].name == wanted {
                proof {
                    lemma_find_column_prefix(self.columns@, name@, i + 1);
                    assert(self.columns@[i as int].data.has_rows(self.rows as nat));
                }
                return Some(&self.columns[i]);
            }
            i += 1;
        }
        proof {
            assert(self.columns@.take(self.columns.len() as int) =~= self.columns@);
        }
        None
    }
}

} // verus!
