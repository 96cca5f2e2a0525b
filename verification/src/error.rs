//! Error kinds reported by schema derivation and plan construction.

use vstd::prelude::*;

verus! {

/// Ghost counterpart of [`PolarsError`]: the same cases over `Seq<char>`.
pub ghost enum ErrView {
    UnknownField(Seq<char>),
    SchemaConflict(Seq<char>),
    UnsupportedScalar,
}

/// An error raised while building a plan node.  Construction fails fast:
/// every fallible builder step reports one of these instead of aborting.
#[derive(Debug)]
pub enum PolarsError {
    /// A referenced column name is absent from the relevant schema.
    UnknownField(String),
    /// Two fields share a name but differ in type or nullability.
    SchemaConflict(String),
    /// A type tag was requested for an untyped (null) scalar.
    UnsupportedScalar,
}

impl View for PolarsError {
    type V = ErrView;

    open spec fn view(&self) -> ErrView {
        match self {
            PolarsError::UnknownField(name) => ErrView::UnknownField(name@),
            PolarsError::SchemaConflict(name) => ErrView::SchemaConflict(name@),
            PolarsError::UnsupportedScalar => ErrView::UnsupportedScalar,
        }
    }
}

impl PolarsError {
    /// The offending column name, where the error carries one.
    pub fn column_name(&self) -> (r: Option<&String>)
        ensures
            match r {
                Some(n) => (self@ matches ErrView::UnknownField(m) && n@ == m) || (self@ matches ErrView::SchemaConflict(m) && n@ == m),
                None => self@ is UnsupportedScalar,
            },
    {
        match self {
            PolarsError::UnknownField(name) => Some(name),
            PolarsError::SchemaConflict(name) => Some(name),
            PolarsError::UnsupportedScalar => None,
        }
    }
}

} // verus!
