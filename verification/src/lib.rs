//! Logical-plan layer of a lazy dataframe query engine.
//!
//! A `LogicalPlan` is an immutable tree of table transformations; every node
//! knows, from the moment it is built, the exact schema (column names, types,
//! nullability) its computation would produce.  `LogicalPlanBuilder` constructs
//! plans step by step, deriving and validating each node's schema eagerly and
//! failing fast on unknown columns or schema conflicts.

pub mod datatypes;
pub mod error;
pub mod expr;
pub mod frame;
pub mod logical_plan;
pub mod optimizer;
