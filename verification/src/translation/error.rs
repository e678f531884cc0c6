//! What can be wrong with a request.

use crate::metadata::{ScalarType, Type};
use vstd::prelude::*;

verus! {

/// A type for translation errors.
#[derive(Debug, PartialEq, Eq)]
pub enum Error {
    CollectionNotFound(String),
    ProcedureNotFound(String),
    RelationshipNotFound(String),
    OperatorNotFound { operator_name: String, scalar_type: ScalarType },
    ArgumentNotFound(String),
    /// A column, and the collection that it is missing from.
    ColumnNotFoundInCollection(String, String),
    /// A variable was used, and the request has none.
    UnexpectedVariable,
    UnexpectedStructure(String),
    NestedFieldNotOfCompositeType { field_name: String, actual_type: Type },
    NestedFieldNotOfArrayType { field_name: String, actual_type: Type },
    NestedArraysNotSupported { field_name: String },
    ColumnIsGenerated(String),
    ColumnIsIdentityAlways(String),
    /// A column, and the collection whose rows need it.
    MissingColumnInInsert(String, String),
}

/// What a translation error holds.
pub enum ErrorView {
    CollectionNotFound(Seq<char>),
    ProcedureNotFound(Seq<char>),
    RelationshipNotFound(Seq<char>),
    OperatorNotFound { operator_name: Seq<char>, scalar_type: ScalarType },
    ArgumentNotFound(Seq<char>),
    ColumnNotFoundInCollection(Seq<char>, Seq<char>),
    UnexpectedVariable,
    UnexpectedStructure(Seq<char>),
    NestedFieldNotOfCompositeType { field_name: Seq<char>, actual_type: Type },
    NestedFieldNotOfArrayType { field_name: Seq<char>, actual_type: Type },
    NestedArraysNotSupported { field_name: Seq<char> },
    ColumnIsGenerated(Seq<char>),
    ColumnIsIdentityAlways(Seq<char>),
    MissingColumnInInsert(Seq<char>, Seq<char>),
}

impl View for Error {
    type V = ErrorView;

    open spec fn view(&self) -> ErrorView {
        match *self {
            Error::CollectionNotFound(name) => ErrorView::CollectionNotFound(name@),
            Error::ProcedureNotFound(name) => ErrorView::ProcedureNotFound(name@),
            Error::RelationshipNotFound(name) => ErrorView::RelationshipNotFound(name@),
            Error::OperatorNotFound { operator_name, scalar_type } => {
                ErrorView::OperatorNotFound { operator_name: operator_name@, scalar_type }
            },
            Error::ArgumentNotFound(name) => ErrorView::ArgumentNotFound(name@),
            Error::ColumnNotFoundInCollection(column, collection) => {
                ErrorView::ColumnNotFoundInCollection(column@, collection@)
            },
            Error::UnexpectedVariable => ErrorView::UnexpectedVariable,
            Error::UnexpectedStructure(structure) => ErrorView::UnexpectedStructure(structure@),
            Error::NestedFieldNotOfCompositeType { field_name, actual_type } => {
                ErrorView::NestedFieldNotOfCompositeType { field_name: field_name@, actual_type }
            },
            Error::NestedFieldNotOfArrayType { field_name, actual_type } => {
                ErrorView::NestedFieldNotOfArrayType { field_name: field_name@, actual_type }
            },
            Error::NestedArraysNotSupported { field_name } => {
                ErrorView::NestedArraysNotSupported { field_name: field_name@ }
            },
            Error::ColumnIsGenerated(column) => ErrorView::ColumnIsGenerated(column@),
            Error::ColumnIsIdentityAlways(column) => ErrorView::ColumnIsIdentityAlways(column@),
            Error::MissingColumnInInsert(column, collection) => {
                ErrorView::MissingColumnInInsert(column@, collection@)
            },
        }
    }
}

/// What errors say tells them apart: errors that say the same are of the same kind, and are about
/// the same.
pub proof fn lemma_errors_are_told_apart(a: Error, b: Error)
    requires
        a@ == b@,
    ensures
        match (a, b) {
            (Error::CollectionNotFound(x), Error::CollectionNotFound(y)) => x@ == y@,
            (Error::ProcedureNotFound(x), Error::ProcedureNotFound(y)) => x@ == y@,
            (Error::RelationshipNotFound(x), Error::RelationshipNotFound(y)) => x@ == y@,
            (
                Error::OperatorNotFound { operator_name: x, scalar_type: s },
                Error::OperatorNotFound { operator_name: y, scalar_type: t },
            ) => x@ == y@ && s == t,
            (Error::ArgumentNotFound(x), Error::ArgumentNotFound(y)) => x@ == y@,
            (
                Error::ColumnNotFoundInCollection(x, s),
                Error::ColumnNotFoundInCollection(y, t),
            ) => x@ == y@ && s@ == t@,
            (Error::UnexpectedVariable, Error::UnexpectedVariable) => true,
            (Error::UnexpectedStructure(x), Error::UnexpectedStructure(y)) => x@ == y@,
            (
                Error::NestedFieldNotOfCompositeType { field_name: x, actual_type: s },
                Error::NestedFieldNotOfCompositeType { field_name: y, actual_type: t },
            ) => x@ == y@ && s == t,
            (
                Error::NestedFieldNotOfArrayType { field_name: x, actual_type: s },
                Error::NestedFieldNotOfArrayType { field_name: y, actual_type: t },
            ) => x@ == y@ && s == t,
            (
                Error::NestedArraysNotSupported { field_name: x },
                Error::NestedArraysNotSupported { field_name: y },
            ) => x@ == y@,
            (Error::ColumnIsGenerated(x), Error::ColumnIsGenerated(y)) => x@ == y@,
            (Error::ColumnIsIdentityAlways(x), Error::ColumnIsIdentityAlways(y)) => x@ == y@,
            (
                Error::MissingColumnInInsert(x, s),
                Error::MissingColumnInInsert(y, t),
            ) => x@ == y@ && s@ == t@,
            _ => false,
        },
{
}

} // verus!
