//! The SQL text of the range operations that the host engine executes itself.
//!
//! Each query is one template over the canonical parameters. The text of a
//! template is spelled out section by section as a spec function, and the
//! function that renders it is proved to produce exactly that text.
//!
//! In every query the left table stands behind the alias `a` and the right
//! table behind the alias `b`. A column behind `a` is one of `columns_1` or of
//! the other columns of the left table, and is renamed with the first suffix;
//! a column behind `b` is one of `columns_2` or of the other columns of the
//! right table, and is renamed with the second suffix.

use vstd::prelude::*;
use vstd::string::*;
use crate::operation::{
    names, projected_columns, render_projected_columns, QueryParams, QueryParamsView,
};

verus! {

/// The non-key columns of one side as a continuation of a select list: a
/// comma and the projected columns, or nothing where there are none.
pub open spec fn extra_columns(
    columns: Seq<Seq<char>>,
    alias: Seq<char>,
    suffix: Seq<char>,
) -> Seq<char> {
    if columns.len() == 0 {
        Seq::empty()
    } else {
        ","@ + projected_columns(columns, alias, suffix)
    }
}

/// The direction in which equal positions are ordered in the running sum of
/// left starts: left rows first (`DESC`) when touching endpoints overlap.
pub open spec fn start_tie_break(sign: Seq<char>) -> Seq<char> {
    if sign == "="@ {
        "DESC"@
    } else {
        "ASC"@
    }
}

/// The direction in which equal positions are ordered in the running sum of
/// left ends: the mirror image of [`start_tie_break`].
pub open spec fn end_tie_break(sign: Seq<char>) -> Seq<char> {
    if sign == "="@ {
        "ASC"@
    } else {
        "DESC"@
    }
}

/// The select list of the nearest query: the key columns of the left table
/// behind its alias `a` and with its suffix, then those of the right table
/// behind its alias `b` and with its suffix.
pub open spec fn nearest_select(p: QueryParamsView) -> Seq<char> {
    "\n        SELECT\n            a."@ + p.columns_1[0] + " AS "@ + p.columns_1[0]
        + p.suffixes.0 + ", -- contig\n            a."@ + p.columns_1[1] + " AS "@
        + p.columns_1[1] + p.suffixes.0 + ", -- pos_start\n            a."@ + p.columns_1[2]
        + " AS "@ + p.columns_1[2] + p.suffixes.0 + ", -- pos_end\n            b."@
        + p.columns_2[0] + " AS "@ + p.columns_2[0] + p.suffixes.1
        + ", -- contig\n            b."@ + p.columns_2[1] + " AS "@ + p.columns_2[1]
        + p.suffixes.1 + ", -- pos_start\n            b."@ + p.columns_2[2] + " AS "@
        + p.columns_2[2] + p.suffixes.1 + "  -- pos_end\n            "@
}

/// The distance column of the nearest query: the gap between the nearest
/// endpoints of a pair that does not overlap, 0 for a pair that does. The
/// positions are cast to one integer width.
pub open spec fn nearest_distance(p: QueryParamsView) -> Seq<char> {
    ",\n       CAST(\n       CASE WHEN cast(b."@ + p.columns_2[1] + " AS INT) >= cast(a."@
        + p.columns_1[2] + " AS INT)\n            THEN\n                abs(cast(b."@
        + p.columns_2[1] + " AS INT)-cast(a."@ + p.columns_1[2]
        + " AS INT))\n        WHEN cast(b."@ + p.columns_2[2] + " AS INT) <= cast(a."@
        + p.columns_1[1] + " AS INT)\n            THEN\n            abs(cast(b."@
        + p.columns_2[2] + " AS INT)-cast(a."@ + p.columns_1[1]
        + " AS INT))\n            ELSE 0\n       END AS BIGINT) AS distance\n\n       "@
}

/// The tables and the join condition of the nearest query: the contigs are
/// equal, the right interval ends after the left one starts and starts
/// before the left one ends.
pub open spec fn nearest_join(p: QueryParamsView) -> Seq<char> {
    "FROM "@ + p.right_table + " AS b, "@ + p.left_table + " AS a\n        WHERE  a."@
        + p.columns_1[0] + " = b."@ + p.columns_2[0] + "\n            AND cast(b."@
        + p.columns_2[2] + " AS INT) >"@ + p.sign + " cast(a."@ + p.columns_1[1]
        + " AS INT)\n            AND cast(b."@ + p.columns_2[1] + " AS INT) <"@ + p.sign
        + " cast(a."@ + p.columns_1[2] + " AS INT)\n        "@
}

/// The select list of the overlap query: the key columns of the left table
/// behind its alias `a` and with its suffix, then those of the right table
/// behind its alias `b` and with its suffix.
pub open spec fn overlap_select(p: QueryParamsView) -> Seq<char> {
    "\n            SELECT\n                a."@ + p.columns_1[0] + " as "@ + p.columns_1[0]
        + p.suffixes.0 + ", -- contig\n                a."@ + p.columns_1[1] + " as "@
        + p.columns_1[1] + p.suffixes.0 + ", -- pos_start\n                a."@
        + p.columns_1[2] + " as "@ + p.columns_1[2] + p.suffixes.0
        + ", -- pos_end\n                b."@ + p.columns_2[0] + " as "@ + p.columns_2[0]
        + p.suffixes.1 + ", -- contig\n                b."@ + p.columns_2[1] + " as "@
        + p.columns_2[1] + p.suffixes.1 + ", -- pos_start\n                b."@
        + p.columns_2[2] + " as "@ + p.columns_2[2] + p.suffixes.1
        + " -- pos_end\n                "@
}

/// The tables and the join condition of the overlap query: the contigs are
/// equal, the left interval starts before the right one ends and ends
/// after the right one starts.
pub open spec fn overlap_join(p: QueryParamsView) -> Seq<char> {
    "\n            FROM\n                "@ + p.right_table + " AS b, "@ + p.left_table
        + " AS a\n            WHERE\n                a."@ + p.columns_1[0] + "=b."@
        + p.columns_2[0] + "\n            AND\n                cast(a."@ + p.columns_1[1]
        + " AS INT) <"@ + p.sign + " cast(b."@ + p.columns_2[2]
        + " AS INT)\n            AND\n                cast(a."@ + p.columns_1[2]
        + " AS INT) >"@ + p.sign + " cast(b."@ + p.columns_2[1] + " AS INT)\n        "@
}

/// The head of the count query, up to the tie-break of the running sum of
/// left starts. The rows that are kept are rows of the right table, and
/// carry its column names and its suffix.
pub open spec fn count_select(p: QueryParamsView) -> Seq<char> {
    "\n            SELECT\n                chr AS "@ + p.columns_2[0] + p.suffixes.1
        + ", -- contig\n                s1ends2start AS "@ + p.columns_2[1] + p.suffixes.1
        + ", -- pos_start\n                s1starts2end AS "@ + p.columns_2[2] + p.suffixes.1
        + ", -- pos_end\n                st - ed AS count\n            FROM (\n                SELECT\n                    chr,\n                    SUM(iss1) OVER (\n                        PARTITION BY chr ORDER BY s1starts2end ASC, iss1 "@
}

/// The tail of the count query: the union of the left rows, weighted 1, and
/// the right rows, weighted 0, of which only the right rows are kept.
pub open spec fn count_events(p: QueryParamsView) -> Seq<char> {
    "\n                    ) ed,\n                    iss1,\n                    s1starts2end,\n                    s1ends2start\n                FROM (\n                    (SELECT\n                        a."@
        + p.columns_1[0] + " AS chr, -- contig\n                        cast(a."@
        + p.columns_1[1]
        + " AS INT) AS s1starts2end, -- pos_start\n                        cast(a."@
        + p.columns_1[2]
        + " AS INT) AS s1ends2start, -- pos_end\n                        1 AS iss1\n                    FROM "@
        + p.left_table
        + " AS a)\n                    UNION ALL\n                    (SELECT\n                        b."@
        + p.columns_2[0] + " AS chr, -- contig\n                        cast(b."@
        + p.columns_2[2]
        + " AS INT) AS s1starts2end, -- pos_end\n                        cast(b."@
        + p.columns_2[1]
        + " AS INT) AS s1ends2start, -- pos_start\n                        0 AS iss1\n                    FROM "@
        + p.right_table
        + " AS b)\n                )\n            )\n            WHERE\n                iss1 = 0\n        "@
}

/// The text of the nearest query.
pub open spec fn nearest_sql(p: QueryParamsView) -> Seq<char> {
    nearest_select(p) + extra_columns(p.other_columns_1, "a"@, p.suffixes.0)
        + "\n            "@ + extra_columns(p.other_columns_2, "b"@, p.suffixes.1)
        + nearest_distance(p) + nearest_join(p)
}

/// The text of the overlap query.
pub open spec fn overlap_sql(p: QueryParamsView) -> Seq<char> {
    overlap_select(p) + extra_columns(p.other_columns_1, "a"@, p.suffixes.0)
        + "\n                "@ + extra_columns(p.other_columns_2, "b"@, p.suffixes.1)
        + overlap_join(p)
}

/// The text of the count query.
pub open spec fn count_overlaps_sql(p: QueryParamsView) -> Seq<char> {
    count_select(p) + start_tie_break(p.sign)
        + "\n                    ) st,\n                    SUM(iss1) OVER (\n                        PARTITION BY chr ORDER BY s1ends2start ASC, iss1 "@
        + end_tie_break(p.sign) + count_events(p)
}

/// Renders [`nearest_select`].
fn render_nearest_select(p: &QueryParams) -> (text: String)
    requires
        p.wf(),
    ensures
        text@ == nearest_select(p@),
{
    let mut text = "\n        SELECT\n            a.".to_string();
    text.append(p.columns_1[0].as_str());
    text.append(" AS ");
    text.append(p.columns_1[0].as_str());
    text.append(p.suffixes.0.as_str());
    text.append(", -- contig\n            a.");
    text.append(p.columns_1[1].as_str());
    text.append(" AS ");
    text.append(p.columns_1[1].as_str());
    text.append(p.suffixes.0.as_str());
    text.append(", -- pos_start\n            a.");
    text.append(p.columns_1[2].as_str());
    text.append(" AS ");
    text.append(p.columns_1[2].as_str());
    text.append(p.suffixes.0.as_str());
    text.append(", -- pos_end\n            b.");
    text.append(p.columns_2[0].as_str());
    text.append(" AS ");
    text.append(p.columns_2[0].as_str());
    text.append(p.suffixes.1.as_str());
    text.append(", -- contig\n            b.");
    text.append(p.columns_2[1].as_str());
    text.append(" AS ");
    text.append(p.columns_2[1].as_str());
    text.append(p.suffixes.1.as_str());
    text.append(", -- pos_start\n            b.");
    text.append(p.columns_2[2].as_str());
    text.append(" AS ");
    text.append(p.columns_2[2].as_str());
    text.append(p.suffixes.1.as_str());
    text.append("  -- pos_end\n            ");
    text
}

/// Renders [`nearest_distance`].
fn render_nearest_distance(p: &QueryParams) -> (text: String)
    requires
        p.wf(),
    ensures
        text@ == nearest_distance(p@),
{
    let mut text = ",\n       CAST(\n       CASE WHEN cast(b.".to_string();
    text.append(p.columns_2[1].as_str());
    text.append(" AS INT) >= cast(a.");
    text.append(p.columns_1[2].as_str());
    text.append(" AS INT)\n            THEN\n                abs(cast(b.");
    text.append(p.columns_2[1].as_str());
    text.append(" AS INT)-cast(a.");
    text.append(p.columns_1[2].as_str());
    text.append(" AS INT))\n        WHEN cast(b.");
    text.append(p.columns_2[2].as_str());
    text.append(" AS INT) <= cast(a.");
    text.append(p.columns_1[1].as_str());
    text.append(" AS INT)\n            THEN\n            abs(cast(b.");
    text.append(p.columns_2[2].as_str());
    text.append(" AS INT)-cast(a.");
    text.append(p.columns_1[1].as_str());
    text.append(" AS INT))\n            ELSE 0\n       END AS BIGINT) AS distance\n\n       ");
    text
}

/// Renders [`nearest_join`].
fn render_nearest_join(p: &QueryParams) -> (text: String)
    requires
        p.wf(),
    ensures
        text@ == nearest_join(p@),
{
    let mut text = "FROM ".to_string();
    text.append(p.right_table.as_str());
    text.append(" AS b, ");
    text.append(p.left_table.as_str());
    text.append(" AS a\n        WHERE  a.");
    text.append(p.columns_1[0].as_str());
    text.append(" = b.");
    text.append(p.columns_2[0].as_str());
    text.append("\n            AND cast(b.");
    text.append(p.columns_2[2].as_str());
    text.append(" AS INT) >");
    text.append(p.sign.as_str());
    text.append(" cast(a.");
    text.append(p.columns_1[1].as_str());
    text.append(" AS INT)\n            AND cast(b.");
    text.append(p.columns_2[1].as_str());
    text.append(" AS INT) <");
    text.append(p.sign.as_str());
    text.append(" cast(a.");
    text.append(p.columns_1[2].as_str());
    text.append(" AS INT)\n        ");
    text
}

/// Renders [`overlap_select`].
fn render_overlap_select(p: &QueryParams) -> (text: String)
    requires
        p.wf(),
    ensures
        text@ == overlap_select(p@),
{
    let mut text = "\n            SELECT\n                a.".to_string();
    text.append(p.columns_1[0].as_str());
    text.append(" as ");
    text.append(p.columns_1[0].as_str());
    text.append(p.suffixes.0.as_str());
    text.append(", -- contig\n                a.");
    text.append(p.columns_1[1].as_str());
    text.append(" as ");
    text.append(p.columns_1[1].as_str());
    text.append(p.suffixes.0.as_str());
    text.append(", -- pos_start\n                a.");
    text.append(p.columns_1[2].as_str());
    text.append(" as ");
    text.append(p.columns_1[2].as_str());
    text.append(p.suffixes.0.as_str());
    text.append(", -- pos_end\n                b.");
    text.append(p.columns_2[0].as_str());
    text.append(" as ");
    text.append(p.columns_2[0].as_str());
    text.append(p.suffixes.1.as_str());
    text.append(", -- contig\n                b.");
    text.append(p.columns_2[1].as_str());
    text.append(" as ");
    text.append(p.columns_2[1].as_str());
    text.append(p.suffixes.1.as_str());
    text.append(", -- pos_start\n                b.");
    text.append(p.columns_2[2].as_str());
    text.append(" as ");
    text.append(p.columns_2[2].as_str());
    text.append(p.suffixes.1.as_str());
    text.append(" -- pos_end\n                ");
    text
}

/// Renders [`overlap_join`].
fn render_overlap_join(p: &QueryParams) -> (text: String)
    requires
        p.wf(),
    ensures
        text@ == overlap_join(p@),
{
    let mut text = "\n            FROM\n                ".to_string();
    text.append(p.right_table.as_str());
    text.append(" AS b, ");
    text.append(p.left_table.as_str());
    text.append(" AS a\n            WHERE\n                a.");
    text.append(p.columns_1[0].as_str());
    text.append("=b.");
    text.append(p.columns_2[0].as_str());
    text.append("\n            AND\n                cast(a.");
    text.append(p.columns_1[1].as_str());
    text.append(" AS INT) <");
    text.append(p.sign.as_str());
    text.append(" cast(b.");
    text.append(p.columns_2[2].as_str());
    text.append(" AS INT)\n            AND\n                cast(a.");
    text.append(p.columns_1[2].as_str());
    text.append(" AS INT) >");
    text.append(p.sign.as_str());
    text.append(" cast(b.");
    text.append(p.columns_2[1].as_str());
    text.append(" AS INT)\n        ");
    text
}

/// Renders [`count_select`].
fn render_count_select(p: &QueryParams) -> (text: String)
    requires
        p.wf(),
    ensures
        text@ == count_select(p@),
{
    let mut text = "\n            SELECT\n                chr AS ".to_string();
    text.append(p.columns_2[0].as_str());
    text.append(p.suffixes.1.as_str());
    text.append(", -- contig\n                s1ends2start AS ");
    text.append(p.columns_2[1].as_str());
    text.append(p.suffixes.1.as_str());
    text.append(", -- pos_start\n                s1starts2end AS ");
    text.append(p.columns_2[2].as_str());
    text.append(p.suffixes.1.as_str());
    text.append(", -- pos_end\n                st - ed AS count\n            FROM (\n                SELECT\n                    chr,\n                    SUM(iss1) OVER (\n                        PARTITION BY chr ORDER BY s1starts2end ASC, iss1 ");
    text
}

/// Renders [`count_events`].
fn render_count_events(p: &QueryParams) -> (text: String)
    requires
        p.wf(),
    ensures
        text@ == count_events(p@),
{
    let mut text = "\n                    ) ed,\n                    iss1,\n                    s1starts2end,\n                    s1ends2start\n                FROM (\n                    (SELECT\n                        a.".to_string();
    text.append(p.columns_1[0].as_str());
    text.append(" AS chr, -- contig\n                        cast(a.");
    text.append(p.columns_1[1].as_str());
    text.append(" AS INT) AS s1starts2end, -- pos_start\n                        cast(a.");
    text.append(p.columns_1[2].as_str());
    text.append(" AS INT) AS s1ends2start, -- pos_end\n                        1 AS iss1\n                    FROM ");
    text.append(p.left_table.as_str());
    text.append(" AS a)\n                    UNION ALL\n                    (SELECT\n                        b.");
    text.append(p.columns_2[0].as_str());
    text.append(" AS chr, -- contig\n                        cast(b.");
    text.append(p.columns_2[2].as_str());
    text.append(" AS INT) AS s1starts2end, -- pos_end\n                        cast(b.");
    text.append(p.columns_2[1].as_str());
    text.append(" AS INT) AS s1ends2start, -- pos_start\n                        0 AS iss1\n                    FROM ");
    text.append(p.right_table.as_str());
    text.append(" AS b)\n                )\n            )\n            WHERE\n                iss1 = 0\n        ");
    text
}

/// Renders [`extra_columns`].
fn render_extra_columns(columns: &Vec<String>, alias: &str, suffix: &str) -> (text: String)
    ensures
        text@ == extra_columns(names(columns@), alias@, suffix@),
{
    if columns.len() == 0 {
        String::new()
    } else {
        let mut text = ",".to_string();
        let list = render_projected_columns(columns, alias, suffix);
        text.append(list.as_str());
        text
    }
}

/// The query that pairs every right row with the left rows of the same contig
/// that it overlaps, and reports the distance between the two intervals.
///
/// The strictness sign of the parameters decides whether touching endpoints
/// count as an overlap. Both sides of every comparison of positions, in the
/// join condition and in the distance, are cast to one integer width.
pub fn nearest_query(query_params: QueryParams) -> (query: String)
    requires
        query_params.wf(),
    ensures
        query@ == nearest_sql(query_params@),
{
    let p = &query_params;
    let mut query = render_nearest_select(p);
    let left_extra = render_extra_columns(&p.other_columns_1, "a", p.suffixes.0.as_str());
    query.append(left_extra.as_str());
    query.append("\n            ");
    let right_extra = render_extra_columns(&p.other_columns_2, "b", p.suffixes.1.as_str());
    query.append(right_extra.as_str());
    let distance = render_nearest_distance(p);
    query.append(distance.as_str());
    let join = render_nearest_join(p);
    query.append(join.as_str());
    query
}

/// The query that joins the two tables on the contig and on an intersection
/// test of the two intervals: the left interval starts before the right one
/// ends, and ends after the right one starts.
///
/// With the sign `=` the two comparisons are `<=` and `>=`, so touching
/// endpoints overlap; with the empty sign they are strict. Both sides of every
/// comparison of positions are cast to one integer width.
pub fn overlap_query(query_params: QueryParams) -> (query: String)
    requires
        query_params.wf(),
    ensures
        query@ == overlap_sql(query_params@),
{
    let p = &query_params;
    let mut query = render_overlap_select(p);
    let left_extra = render_extra_columns(&p.other_columns_1, "a", p.suffixes.0.as_str());
    query.append(left_extra.as_str());
    query.append("\n                ");
    let right_extra = render_extra_columns(&p.other_columns_2, "b", p.suffixes.1.as_str());
    query.append(right_extra.as_str());
    let join = render_overlap_join(p);
    query.append(join.as_str());
    query
}

/// The query that counts, for every right row, the left rows of the same
/// contig that it overlaps, without a join.
///
/// Left rows enter as events of weight 1, right rows as events of weight 0.
/// One running sum, ordered by start, counts the left intervals that begin
/// before the right interval ends; another, ordered by end, counts those that
/// end before it begins. Their difference is the number of overlaps. The sign
/// decides how equal positions are ordered, and with that whether touching
/// endpoints count. Only the rows of the right table are kept; they come out
/// under its key column names with its suffix, and with their count.
pub fn count_overlaps_query(query_params: QueryParams) -> (query: String)
    requires
        query_params.wf(),
    ensures
        query@ == count_overlaps_sql(query_params@),
{
    let p = &query_params;
    let weak_sign = "=".to_string();
    let weak = p.sign == weak_sign;
    let mut query = render_count_select(p);
    if weak {
        query.append("DESC");
    } else {
        query.append("ASC");
    }
    query.append(
        "\n                    ) st,\n                    SUM(iss1) OVER (\n                        PARTITION BY chr ORDER BY s1ends2start ASC, iss1 ",
    );
    if weak {
        query.append("ASC");
    } else {
        query.append("DESC");
    }
    let events = render_count_events(p);
    query.append(events.as_str());
    query
}

} // verus!
