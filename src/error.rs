//! The ways an operation of the catalogue can fail.
use vstd::prelude::*;

verus! {

/// A problem with one named field of a text block or of a fetched record.
#[derive(Debug)]
pub enum FieldError {
    /// A required field is absent.
    Missing(String),
    /// A field is present but its value does not read as its type.
    Invalid(String),
    /// A line carries a label that is not one of the known keys.
    UnknownKey(String),
}

/// A failure reported by the store.
#[derive(Debug)]
pub enum StorageError {
    /// A uniqueness constraint refused the write: the book is already there.
    Duplicate(String),
    /// Any other failure of the storage layer.
    Failure(String),
}

/// A failure to obtain a bibliographic record.
#[derive(Debug)]
pub enum FetchFailure {
    /// The request could not be sent or its answer could not be read.
    Transport(String),
    /// The answer is not a JSON document.
    Malformed,
    /// The record lacks a field, or holds it with the wrong type.
    Field(FieldError),
}

/// A `FieldError` as values.
pub enum FieldErrorView {
    Missing(Seq<char>),
    Invalid(Seq<char>),
    UnknownKey(Seq<char>),
}

impl View for FieldError {
    type V = FieldErrorView;

    open spec fn view(&self) -> FieldErrorView {
        match self {
            FieldError::Missing(f) => FieldErrorView::Missing(f@),
            FieldError::Invalid(f) => FieldErrorView::Invalid(f@),
            FieldError::UnknownKey(f) => FieldErrorView::UnknownKey(f@),
        }
    }
}

/// A failure of an operation of the catalogue.
#[derive(Debug)]
pub enum Error {
    /// The store failed, or refused a write.
    DatabaseError(StorageError),
    /// An edited text block or an author list does not read as a book.
    ParseError(FieldError),
    /// The bibliographic record could not be obtained.
    FetchError(FetchFailure),
    /// No stored book has this identifier.
    NotFound(u32),
}

/// `e` is a parse error that names `field` as invalid.
pub open spec fn is_invalid(e: Error, field: Seq<char>) -> bool {
    e matches Error::ParseError(FieldError::Invalid(f)) && f@ == field
}

/// `e` is a parse error that names `field` as missing.
pub open spec fn is_missing(e: Error, field: Seq<char>) -> bool {
    e matches Error::ParseError(FieldError::Missing(f)) && f@ == field
}

pub fn invalid(field: &str) -> (e: Error)
    ensures
        is_invalid(e, field@),
{
    Error::ParseError(FieldError::Invalid(String::from_str(field)))
}

pub fn missing(field: &str) -> (e: Error)
    ensures
        is_missing(e, field@),
{
    Error::ParseError(FieldError::Missing(String::from_str(field)))
}

} // verus!
