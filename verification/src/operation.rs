//! The canonical parameters of a query, how they are resolved from what the
//! caller gave, and how a range operation is routed.

use vstd::prelude::*;
use vstd::string::*;
use crate::batch::{DataType, Field};
use crate::error::BioError;
use crate::option::{FilterOp, RangeOp, RangeOptions};
use crate::query::{
    count_overlaps_query, count_overlaps_sql, nearest_query, nearest_sql, overlap_query,
    overlap_sql,
};
use crate::udtf::{output_name, CountOverlapsProvider};

verus! {

/// The texts of a list of strings.
pub open spec fn names(strings: Seq<String>) -> Seq<Seq<char>> {
    strings.map_values(|s: String| s@)
}

/// Canonical parameters of one generated query.
///
/// `columns_1` and `columns_2` name the contig, start and end columns of the
/// left and of the right table, in that order; the templates read them by
/// position.
pub struct QueryParams {
    pub sign: String,
    pub suffixes: (String, String),
    pub columns_1: Vec<String>,
    pub columns_2: Vec<String>,
    pub other_columns_1: Vec<String>,
    pub other_columns_2: Vec<String>,
    pub left_table: String,
    pub right_table: String,
}

/// The parameters of a query as texts.
pub struct QueryParamsView {
    pub sign: Seq<char>,
    pub suffixes: (Seq<char>, Seq<char>),
    pub columns_1: Seq<Seq<char>>,
    pub columns_2: Seq<Seq<char>>,
    pub other_columns_1: Seq<Seq<char>>,
    pub other_columns_2: Seq<Seq<char>>,
    pub left_table: Seq<char>,
    pub right_table: Seq<char>,
}

impl View for QueryParams {
    type V = QueryParamsView;

    open spec fn view(&self) -> QueryParamsView {
        QueryParamsView {
            sign: self.sign@,
            suffixes: (self.suffixes.0@, self.suffixes.1@),
            columns_1: names(self.columns_1@),
            columns_2: names(self.columns_2@),
            other_columns_1: names(self.other_columns_1@),
            other_columns_2: names(self.other_columns_2@),
            left_table: self.left_table@,
            right_table: self.right_table@,
        }
    }
}

impl QueryParams {
    /// Both sides name their three key columns.
    pub open spec fn wf(&self) -> bool {
        self.columns_1@.len() >= 3 && self.columns_2@.len() >= 3
    }
}

/// One projected column: `alias.column as columnsuffix`.
pub open spec fn projected_column(column: Seq<char>, alias: Seq<char>, suffix: Seq<char>) -> Seq<
    char,
> {
    alias + "."@ + column + " as "@ + column + suffix
}

/// The projection of `columns`, separated by a comma and a space; empty for no
/// columns.
pub open spec fn projected_columns(
    columns: Seq<Seq<char>>,
    alias: Seq<char>,
    suffix: Seq<char>,
) -> Seq<char>
    decreases columns.len(),
{
    if columns.len() == 0 {
        Seq::empty()
    } else if columns.len() == 1 {
        projected_column(columns[0], alias, suffix)
    } else {
        projected_columns(columns.drop_last(), alias, suffix) + ", "@ + projected_column(
            columns.last(),
            alias,
            suffix,
        )
    }
}

/// Renders [`projected_columns`] for borrowed arguments.
pub fn render_projected_columns(columns: &Vec<String>, alias: &str, suffix: &str) -> (text: String)
    ensures
        text@ == projected_columns(names(columns@), alias@, suffix@),
{
    let ghost all = names(columns@);
    let mut text = String::new();
    let mut i: usize = 0;
    while i < columns.len()
        invariant
            i <= columns.len(),
            all == names(columns@),
            text@ == projected_columns(all.take(i as int), alias@, suffix@),
        decreases columns.len() - i,
    {
        let ghost before = text@;
        if i > 0 {
            text.append(", ");
        }
        text.append(alias);
        text.append(".");
        text.append(columns[i].as_str());
        text.append(" as ");
        text.append(columns[i].as_str());
        text.append(suffix);
        proof {
            let next = all.take(i + 1);
            assert(next.drop_last() =~= all.take(i as int));
            assert(next.last() == columns@[i as int]@);
            if i == 0 {
                assert(next[0] == columns@[0]@);
                assert(text@ =~= projected_column(columns@[0]@, alias@, suffix@));
            } else {
                assert(text@ =~= before + ", "@ + projected_column(
                    columns@[i as int]@,
                    alias@,
                    suffix@,
                ));
            }
        }
        i += 1;
    }
    proof {
        assert(all.take(columns.len() as int) =~= all);
    }
    text
}

/// Renders the non-key columns of one table for a select list: each as
/// `alias.column as columnsuffix`, joined by `", "`.
pub fn format_non_join_tables(columns: Vec<String>, table_alias: String, suffix: String) -> (text:
    String)
    ensures
        text@ == projected_columns(names(columns@), table_alias@, suffix@),
{
    render_projected_columns(&columns, table_alias.as_str(), suffix.as_str())
}

/// Whether some string of the list has the given text.
pub fn contains_name(list: &Vec<String>, name: &str) -> (found: bool)
    ensures
        found == names(list@).contains(name@),
{
    let wanted = name.to_string();
    let mut i: usize = 0;
    while i < list.len()
        invariant
            i <= list.len(),
            wanted@ == name@,
            forall|k: int| 0 <= k < i ==> names(list@)[k] != name@,
        decreases list.len() - i,
    {
        if list[i] == wanted {
            proof {
                assert(names(list@)[i as int] == name@);
            }
            return true;
        }
        i += 1;
    }
    false
}

/// The predicate "is none of the join columns".
pub open spec fn not_joined(join_columns: Seq<Seq<char>>) -> spec_fn(String) -> bool {
    |field: String| !join_columns.contains(field@)
}

/// The columns of a table that are not among its join columns, in the order
/// of the table.
pub fn get_non_join_columns(fields: Vec<String>, join_columns: &Vec<String>) -> (others: Vec<
    String,
>)
    ensures
        others@ == fields@.filter(not_joined(names(join_columns@))),
{
    let ghost keep = not_joined(names(join_columns@));
    let mut others: Vec<String> = Vec::new();
    let mut i: usize = 0;
    while i < fields.len()
        invariant
            i <= fields.len(),
            keep == not_joined(names(join_columns@)),
            others@ == fields@.take(i as int).filter(keep),
        decreases fields.len() - i,
    {
        proof {
            fields@.take(i as int).lemma_filter_push(fields@[i as int], keep);
            assert(fields@.take(i as int).push(fields@[i as int]) =~= fields@.take(i + 1));
        }
        if !contains_name(join_columns, fields[i].as_str()) {
            others.push(fields[i].clone());
        }
        i += 1;
    }
    proof {
        assert(fields@.take(fields.len() as int) =~= fields@);
    }
    others
}

/// The names of the key columns where the caller names none.
pub const DEFAULT_COLUMN_NAMES: [&'static str; 3] = ["contig", "start", "end"];

/// The texts of the default key columns.
pub open spec fn default_columns() -> Seq<Seq<char>> {
    seq!["contig"@, "start"@, "end"@]
}

/// The comparison sign of a strictness: `=` lets touching endpoints overlap.
pub open spec fn sign_of(filter_op: FilterOp) -> Seq<char> {
    match filter_op {
        FilterOp::Weak => "="@,
        FilterOp::Strict => ""@,
    }
}

/// The key columns of one side: what was given, or the default.
pub open spec fn resolved_columns(given: Option<Vec<String>>) -> Seq<Seq<char>> {
    match given {
        Some(columns) => names(columns@),
        None => default_columns(),
    }
}

/// The suffixes of the two sides: what was given, or `_1` and `_2`.
pub open spec fn resolved_suffixes(given: Option<(String, String)>) -> (Seq<char>, Seq<char>) {
    match given {
        Some(pair) => (pair.0@, pair.1@),
        None => ("_1"@, "_2"@),
    }
}

/// Why the options cannot be resolved, if they cannot: the strictness is
/// looked at first, then the key columns.
pub open spec fn resolve_error(options: RangeOptions) -> Option<BioError> {
    if options.filter_op is None {
        Some(BioError::MissingFilter)
    } else if resolved_columns(options.columns_1).len() < 3 || resolved_columns(
        options.columns_2,
    ).len() < 3 {
        Some(BioError::MissingKeyColumns)
    } else {
        None
    }
}

/// The canonical parameters for the given options, the columns of the two
/// tables and their names.
pub open spec fn resolved(
    options: RangeOptions,
    left_fields: Seq<String>,
    right_fields: Seq<String>,
    left_table: Seq<char>,
    right_table: Seq<char>,
) -> QueryParamsView {
    QueryParamsView {
        sign: sign_of(options.filter_op->0),
        suffixes: resolved_suffixes(options.suffixes),
        columns_1: resolved_columns(options.columns_1),
        columns_2: resolved_columns(options.columns_2),
        other_columns_1: names(
            left_fields.filter(not_joined(resolved_columns(options.columns_1))),
        ),
        other_columns_2: names(
            right_fields.filter(not_joined(resolved_columns(options.columns_2))),
        ),
        left_table,
        right_table,
    }
}

/// The three default names as owned strings.
pub fn default_cols_to_string(s: &[&str; 3]) -> (columns: Vec<String>)
    ensures
        columns@.len() == 3,
        forall|i: int| 0 <= i < 3 ==> (#[trigger] columns@[i])@ == s@[i]@,
{
    let mut columns: Vec<String> = Vec::new();
    columns.push(s[0].to_string());
    columns.push(s[1].to_string());
    columns.push(s[2].to_string());
    columns
}

fn resolve_columns(given: Option<Vec<String>>) -> (columns: Vec<String>)
    ensures
        names(columns@) == resolved_columns(given),
{
    match given {
        Some(columns) => columns,
        None => {
            let columns = default_cols_to_string(&DEFAULT_COLUMN_NAMES);
            proof {
                assert(names(columns@) =~= default_columns());
            }
            columns
        },
    }
}

/// Resolves what the caller gave into the canonical parameters of a query:
/// the sign of the strictness, the suffixes and key columns or their
/// defaults, and for each table the columns that are not key columns.
pub fn resolve_query_params(
    range_opts: RangeOptions,
    left_fields: Vec<String>,
    right_fields: Vec<String>,
    left_table: String,
    right_table: String,
) -> (result: Result<QueryParams, BioError>)
    ensures
        match resolve_error(range_opts) {
            Some(e) => result matches Err(err) && err == e,
            None => result matches Ok(params) && params.wf() && params@ == resolved(
                range_opts,
                left_fields@,
                right_fields@,
                left_table@,
                right_table@,
            ),
        },
{
    let sign = match range_opts.filter_op {
        Some(FilterOp::Weak) => "=".to_string(),
        Some(FilterOp::Strict) => "".to_string(),
        None => {
            return Err(BioError::MissingFilter);
        },
    };
    let suffixes = match range_opts.suffixes {
        Some((s1, s2)) => (s1, s2),
        None => ("_1".to_string(), "_2".to_string()),
    };
    let columns_1 = resolve_columns(range_opts.columns_1);
    let columns_2 = resolve_columns(range_opts.columns_2);
    if columns_1.len() < 3 || columns_2.len() < 3 {
        return Err(BioError::MissingKeyColumns);
    }
    let other_columns_1 = get_non_join_columns(left_fields, &columns_1);
    let other_columns_2 = get_non_join_columns(right_fields, &columns_2);
    let params = QueryParams {
        sign,
        suffixes,
        columns_1,
        columns_2,
        other_columns_1,
        other_columns_2,
        left_table,
        right_table,
    };
    Ok(params)
}

/// The queries that the engine executes itself.
#[derive(Clone, Copy, PartialEq, Eq, Debug, Structural)]
pub enum QueryKind {
    Overlap,
    Nearest,
    CountOverlaps,
}

/// The text of the query of the given kind.
pub open spec fn query_text(kind: QueryKind, params: QueryParamsView) -> Seq<char> {
    match kind {
        QueryKind::Overlap => overlap_sql(params),
        QueryKind::Nearest => nearest_sql(params),
        QueryKind::CountOverlaps => count_overlaps_sql(params),
    }
}

/// Resolves the options and renders the query of the given kind over them.
pub fn prepare_query(
    kind: QueryKind,
    range_opts: RangeOptions,
    left_fields: Vec<String>,
    right_fields: Vec<String>,
    left_table: String,
    right_table: String,
) -> (result: Result<String, BioError>)
    ensures
        match resolve_error(range_opts) {
            Some(e) => result matches Err(err) && err == e,
            None => result matches Ok(query) && query@ == query_text(
                kind,
                resolved(range_opts, left_fields@, right_fields@, left_table@, right_table@),
            ),
        },
{
    let params = match resolve_query_params(
        range_opts,
        left_fields,
        right_fields,
        left_table,
        right_table,
    ) {
        Ok(params) => params,
        Err(e) => {
            return Err(e);
        },
    };
    Ok(
        match kind {
            QueryKind::Overlap => overlap_query(params),
            QueryKind::Nearest => nearest_query(params),
            QueryKind::CountOverlaps => count_overlaps_query(params),
        },
    )
}

/// The algorithm name that only the nearest operation may set.
pub const RESERVED_ALGORITHM: &'static str = "coitreesnearest";

/// The session option that carries the join algorithm.
pub const ALGORITHM_OPTION: &'static str = "sequila.interval_join_algorithm";

/// The join algorithm to set on the session before the operation runs.
#[derive(Debug)]
pub enum AlgorithmHint {
    /// The engine's default interval-join algorithm.
    Default,
    /// The algorithm of this name.
    Named(String),
}

impl AlgorithmHint {
    /// The name of the algorithm, if one is named.
    pub open spec fn text(self) -> Option<Seq<char>> {
        match self {
            AlgorithmHint::Default => None,
            AlgorithmHint::Named(name) => Some(name@),
        }
    }
}

/// Where an operation is carried out.
#[derive(Clone, Copy, PartialEq, Eq, Debug, Structural)]
pub enum Route {
    /// By the engine, from the query of the given kind.
    Sql(QueryKind),
    /// By the native operator, which counts overlaps or sums coverage.
    Native { coverage: bool },
}

/// How one range operation is to be run.
#[derive(Debug)]
pub struct Dispatch {
    pub algorithm: AlgorithmHint,
    pub route: Route,
    pub streaming: bool,
}

/// The route of an operation, for those that are implemented.
pub open spec fn route_of(range_op: RangeOp) -> Option<Route> {
    match range_op {
        RangeOp::Overlap => Some(Route::Sql(QueryKind::Overlap)),
        RangeOp::Nearest => Some(Route::Sql(QueryKind::Nearest)),
        RangeOp::CountOverlaps => Some(Route::Sql(QueryKind::CountOverlaps)),
        RangeOp::CountOverlapsNaive => Some(Route::Native { coverage: false }),
        RangeOp::Coverage => Some(Route::Native { coverage: true }),
        RangeOp::Complement => None,
        RangeOp::Cluster => None,
    }
}

/// The caller named the reserved algorithm.
pub open spec fn names_reserved(options: RangeOptions) -> bool {
    options.overlap_alg matches Some(name) && name@ == RESERVED_ALGORITHM@
}

/// The algorithm in force when the operation runs: the reserved one for the
/// nearest operation, else what the caller named, else the default.
pub open spec fn algorithm_of(options: RangeOptions) -> Option<Seq<char>> {
    if options.range_op == RangeOp::Nearest {
        Some(RESERVED_ALGORITHM@)
    } else {
        match options.overlap_alg {
            Some(name) => Some(name@),
            None => None,
        }
    }
}

/// Why an operation cannot be run, if it cannot: naming the reserved
/// algorithm is an error whatever the operation, and comes first; an
/// operation that is not implemented is the other error.
pub open spec fn dispatch_error(options: RangeOptions) -> Option<BioError> {
    if names_reserved(options) {
        Some(BioError::ReservedAlgorithm)
    } else if route_of(options.range_op) is None {
        Some(BioError::UnsupportedOperation)
    } else {
        None
    }
}

/// Decides how a range operation is run: which join algorithm the session is
/// told to use, and whether the engine runs a query or the native operator
/// runs.
pub fn do_range_operation(range_options: &RangeOptions) -> (result: Result<Dispatch, BioError>)
    ensures
        match dispatch_error(*range_options) {
            Some(e) => result matches Err(err) && err == e,
            None => result matches Ok(plan) && Some(plan.route) == route_of(
                range_options.range_op,
            ) && plan.algorithm.text() == algorithm_of(*range_options) && plan.streaming == (
            range_options.streaming == Some(true)),
        },
{
    let reserved = RESERVED_ALGORITHM.to_string();
    let named = match &range_options.overlap_alg {
        Some(alg) => {
            if *alg == reserved {
                return Err(BioError::ReservedAlgorithm);
            }
            AlgorithmHint::Named(alg.clone())
        },
        None => AlgorithmHint::Default,
    };
    let streaming = match range_options.streaming {
        Some(flag) => flag,
        None => false,
    };
    let (algorithm, route) = match range_options.range_op {
        RangeOp::Overlap => (named, Route::Sql(QueryKind::Overlap)),
        RangeOp::Nearest => (
            AlgorithmHint::Named(RESERVED_ALGORITHM.to_string()),
            Route::Sql(QueryKind::Nearest),
        ),
        RangeOp::CountOverlaps => (named, Route::Sql(QueryKind::CountOverlaps)),
        RangeOp::CountOverlapsNaive => (named, Route::Native { coverage: false }),
        RangeOp::Coverage => (named, Route::Native { coverage: true }),
        RangeOp::Complement => {
            return Err(BioError::UnsupportedOperation);
        },
        RangeOp::Cluster => {
            return Err(BioError::UnsupportedOperation);
        },
    };
    Ok(Dispatch { algorithm, route, streaming })
}

/// The name under which the native operator is registered as a table.
pub const NATIVE_TABLE: &'static str = "count_overlaps_coverage";

/// Sets the native operator up from the options of a count or coverage
/// operation. The options are resolved as for a query: a side that names no
/// key columns has the default ones, and without a strictness, or with fewer
/// than three key columns on a side, there is no operator.
pub fn do_count_overlaps_coverage_naive(
    range_opts: RangeOptions,
    left_table: String,
    right_table: String,
    right_schema: Vec<Field>,
    coverage: bool,
) -> (result: Result<CountOverlapsProvider, BioError>)
    ensures
        match resolve_error(range_opts) {
            Some(e) => result matches Err(err) && err == e,
            None => result matches Ok(provider) && {
                &&& provider.left_table == left_table
                &&& provider.right_table == right_table
                &&& provider.filter_op == range_opts.filter_op->0
                &&& provider.coverage == coverage
                &&& provider.columns_1.0@ == resolved_columns(range_opts.columns_1)[0]
                &&& provider.columns_1.1@ == resolved_columns(range_opts.columns_1)[1]
                &&& provider.columns_1.2@ == resolved_columns(range_opts.columns_1)[2]
                &&& provider.columns_2.0@ == resolved_columns(range_opts.columns_2)[0]
                &&& provider.columns_2.1@ == resolved_columns(range_opts.columns_2)[1]
                &&& provider.columns_2.2@ == resolved_columns(range_opts.columns_2)[2]
                &&& provider.schema@.drop_last() == right_schema@
                &&& provider.schema@.len() == right_schema@.len() + 1
                &&& provider.schema@.last().name@ == output_name(coverage)
                &&& provider.schema@.last().data_type == DataType::Int64
                &&& !provider.schema@.last().nullable
            },
        },
{
    let filter_op = match range_opts.filter_op {
        Some(filter_op) => filter_op,
        None => {
            return Err(BioError::MissingFilter);
        },
    };
    let columns_1 = resolve_columns(range_opts.columns_1);
    let columns_2 = resolve_columns(range_opts.columns_2);
    CountOverlapsProvider::new(
        left_table,
        right_table,
        right_schema,
        columns_1,
        columns_2,
        filter_op,
        coverage,
    )
}

} // verus!
