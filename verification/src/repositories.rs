//! The repositories and the error taxonomy they share.

use vstd::prelude::*;

pub mod folding;
pub mod label;
pub mod todo;

verus! {

/// Why a repository operation failed.
#[derive(Debug, PartialEq, Eq)]
pub enum RepositoryError {
    /// The storage layer failed in a way that the other variants do not name;
    /// carries its diagnostic text.
    Unexpected(String),
    /// No record has the requested id.
    NotFound(i32),
    /// A label of the same name exists already; carries its id.
    Duplicate(i32),
}

/// Mathematical model of a [`RepositoryError`].
pub enum ErrorView {
    Unexpected(Seq<char>),
    NotFound(i32),
    Duplicate(i32),
}

impl View for RepositoryError {
    type V = ErrorView;

    open spec fn view(&self) -> ErrorView {
        match self {
            RepositoryError::Unexpected(message) => ErrorView::Unexpected(message@),
            RepositoryError::NotFound(id) => ErrorView::NotFound(*id),
            RepositoryError::Duplicate(id) => ErrorView::Duplicate(*id),
        }
    }
}

impl Clone for RepositoryError {
    fn clone(&self) -> (copy: Self)
        ensures
            copy == *self,
    {
        match self {
            RepositoryError::Unexpected(message) => RepositoryError::Unexpected(message.clone()),
            RepositoryError::NotFound(id) => RepositoryError::NotFound(*id),
            RepositoryError::Duplicate(id) => RepositoryError::Duplicate(*id),
        }
    }
}

/// What a repository reads of a fault that the storage layer reported:
/// whether the fault is that a query which had to return a row returned
/// none, and the fault's diagnostic text.
#[derive(Debug, PartialEq, Eq)]
pub struct StorageFault {
    pub row_not_found: bool,
    pub message: String,
}

/// Mathematical model of a [`StorageFault`].
pub struct StorageFaultView {
    pub row_not_found: bool,
    pub message: Seq<char>,
}

impl View for StorageFault {
    type V = StorageFaultView;

    open spec fn view(&self) -> StorageFaultView {
        StorageFaultView { row_not_found: self.row_not_found, message: self.message@ }
    }
}

/// The error that a storage fault amounts to in an operation on record
/// `id`: a missing row means that the record was not found, anything else is
/// unexpected and keeps its diagnostic text.
pub open spec fn classified(id: i32, fault: StorageFaultView) -> ErrorView {
    if fault.row_not_found {
        ErrorView::NotFound(id)
    } else {
        ErrorView::Unexpected(fault.message)
    }
}

/// Classifies a storage fault met in an operation on record `id`.
pub fn classify(id: i32, fault: StorageFault) -> (error: RepositoryError)
    ensures
        error@ == classified(id, fault@),
{
    if fault.row_not_found {
        RepositoryError::NotFound(id)
    } else {
        RepositoryError::Unexpected(fault.message)
    }
}

/// What deleting record `id` comes to, given what the storage layer answered
/// to the delete statement: the number of rows it removed, or a fault.
pub open spec fn delete_outcome_of(id: i32, executed: Result<u64, StorageFaultView>) -> Result<
    (),
    ErrorView,
> {
    match executed {
        Ok(removed) => if removed == 0 {
            Err(ErrorView::NotFound(id))
        } else {
            Ok(())
        },
        Err(fault) => Err(classified(id, fault)),
    }
}

/// Decides the result of deleting record `id` from the storage layer's answer
/// to the delete statement. A statement that removed no row found no record.
pub fn delete_outcome(id: i32, executed: Result<u64, StorageFault>) -> (outcome: Result<
    (),
    RepositoryError,
>)
    ensures
        match executed {
            Ok(removed) => unit_result_view(outcome) == delete_outcome_of(id, Ok(removed)),
            Err(fault) => unit_result_view(outcome) == delete_outcome_of(id, Err(fault@)),
        },
{
    match executed {
        Ok(removed) => if removed == 0 {
            Err(RepositoryError::NotFound(id))
        } else {
            Ok(())
        },
        Err(fault) => Err(classify(id, fault)),
    }
}

/// Mathematical model of the result of an operation that returns no value.
pub open spec fn unit_result_view(result: Result<(), RepositoryError>) -> Result<(), ErrorView> {
    match result {
        Ok(()) => Ok(()),
        Err(error) => Err(error@),
    }
}

/// Whether `error` may be the error of an operation on record `id` of a
/// store in which that record is present or not, as `present` says: only a
/// record that is absent is not found, no operation on a single record
/// reports a duplicate, and the storage layer may fail at any time.
pub open spec fn is_error_on(error: ErrorView, id: i32, present: bool) -> bool {
    match error {
        ErrorView::NotFound(missing) => missing == id && !present,
        ErrorView::Unexpected(_) => true,
        ErrorView::Duplicate(_) => false,
    }
}

} // verus!
