//! Genomic interval joins: the SQL for overlap, nearest and count queries, and
//! a native operator that counts overlaps and sums coverage with an interval
//! index.

use vstd::prelude::*;

pub mod batch;
pub mod context;
pub mod coverage;
pub mod error;
pub mod interval;
pub mod naming;
pub mod operation;
pub mod option;
pub mod query;
pub mod scan;
pub mod semantics;
pub mod text;
pub mod tree;
pub mod udtf;

verus! {

/// The name under which the left operand is registered.
pub const LEFT_TABLE: &'static str = "s1";

/// The name under which the right operand is registered.
pub const RIGHT_TABLE: &'static str = "s2";

} // verus!
