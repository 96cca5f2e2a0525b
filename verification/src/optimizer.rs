//! The optimizer boundary.
//!
//! An optimizer consumes an owned plan and produces a rewritten one; the
//! one cross-cutting invariant at this boundary is that the rewrite
//! preserves `schema()` — names, types and order.  The identity optimizer
//! is the reference rewrite: it rebuilds the tree node by node and returns
//! it unchanged.

use vstd::prelude::*;
use crate::logical_plan::{plan_schema, render_plan, LogicalPlan};

verus! {

/// What every optimizer must preserve: the rewritten plan exposes exactly
/// the schema of the original.
pub open spec fn schema_preserving(p: LogicalPlan, q: LogicalPlan) -> bool {
    plan_schema(q) == plan_schema(p)
}

/// The identity optimizer: rebuilds the tree node by node and changes
/// nothing.
pub fn optimize_identity(plan: LogicalPlan) -> (r: LogicalPlan)
    ensures
        r == plan,
        schema_preserving(plan, r),
    decreases plan,
{
    match plan {
        LogicalPlan::Selection { input, predicate } => LogicalPlan::Selection {
            input: Box::new(optimize_identity(*input)),
            predicate,
        },
        LogicalPlan::CsvScan { path, schema, has_header, delimiter } => LogicalPlan::CsvScan {
            path,
            schema,
            has_header,
            delimiter,
        },
        LogicalPlan::DataFrameScan { df, schema } => LogicalPlan::DataFrameScan { df, schema },
        LogicalPlan::Projection { expr, input, schema } => LogicalPlan::Projection {
            expr,
            input: Box::new(optimize_identity(*input)),
            schema,
        },
        LogicalPlan::Sort { input, column, reverse } => LogicalPlan::Sort {
            input: Box::new(optimize_identity(*input)),
            column,
            reverse,
        },
        LogicalPlan::Aggregate { input, keys, aggs, schema } => LogicalPlan::Aggregate {
            input: Box::new(optimize_identity(*input)),
            keys,
            aggs,
            schema,
        },
        LogicalPlan::Join { input_left, input_right, schema, how, left_on, right_on } => {
            LogicalPlan::Join {
                input_left: Box::new(optimize_identity(*input_left)),
                input_right: Box::new(optimize_identity(*input_right)),
                schema,
                how,
                left_on,
                right_on,
            }
        },
    }
}

/// A rewrite that hands the plan back unchanged preserves both the derived
/// schema and the rendering: a round trip through an identity optimizer
/// changes neither.
pub proof fn lemma_identity_optimizer_round_trip(p: LogicalPlan, q: LogicalPlan)
    requires
        q == p,
    ensures
        schema_preserving(p, q),
        render_plan(q) == render_plan(p),
{
}

} // verus!
