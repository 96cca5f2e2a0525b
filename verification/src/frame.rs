//! The in-memory table as the plan layer sees it.

use vstd::prelude::*;
use crate::datatypes::{FieldView, Schema};

verus! {

/// Snapshot of an in-memory table, taken when a scan node is built.  The
/// plan layer reads only the table's column layout; row storage and access
/// belong to the execution engine, outside this crate.  Snapshotting gives
/// the scan node value semantics: no aliasing with the table's owner.
#[derive(Debug)]
pub struct DataFrame {
    schema: Schema,
}

impl View for DataFrame {
    type V = Seq<FieldView>;

    closed spec fn view(&self) -> Seq<FieldView> {
        self.schema@
    }
}

impl Clone for DataFrame {
    fn clone(&self) -> (r: DataFrame)
        ensures
            r@ == self@,
    {
        DataFrame { schema: self.schema.clone() }
    }
}

impl DataFrame {
    /// A table with the given column layout.
    pub fn new(schema: Schema) -> (df: DataFrame)
        ensures
            df@ == schema@,
    {
        DataFrame { schema }
    }

    /// The table's column layout.
    pub fn schema(&self) -> (r: &Schema)
        ensures
            r@ == self@,
    {
        &self.schema
    }
}

} // verus!
