//! Errors of the overwrite rules.

use vstd::prelude::*;

use crate::model::TableTypes;

verus! {

/// The kinds of error that the rules raise themselves.
#[derive(Clone, Copy, Debug, PartialEq, Eq, Structural)]
pub enum ErrorKind {
    /// The data of the table rules the request out.
    DataInvalid,
    /// The table metadata lacks something that it refers to.
    Unexpected,
}

/// An error raised by a rule.
#[derive(Debug)]
pub struct RuleError {
    pub kind: ErrorKind,
    pub message: String,
    /// Whether the same commit may succeed when it is tried again.
    pub retryable: bool,
}

/// What a `RuleError` says.
pub struct RuleErrorView {
    pub kind: ErrorKind,
    pub message: Seq<char>,
    pub retryable: bool,
}

impl View for RuleError {
    type V = RuleErrorView;

    open spec fn view(&self) -> RuleErrorView {
        RuleErrorView { kind: self.kind, message: self.message@, retryable: self.retryable }
    }
}

impl RuleError {
    /// A new error, which is not retryable.
    pub fn new(kind: ErrorKind, message: String) -> (error: RuleError)
        ensures
            error@ == (RuleErrorView { kind, message: message@, retryable: false }),
    {
        RuleError { kind, message, retryable: false }
    }
}

/// Why an operation failed.
pub enum Error<T: TableTypes> {
    /// A rule was broken.
    Rule(RuleError),
    /// A step that the caller performed failed; the failure is passed on as it came.
    Outside(T::Failure),
}

/// What an `Error` says.
pub enum ErrorView<T: TableTypes> {
    Rule(RuleErrorView),
    Outside(T::Failure),
}

impl<T: TableTypes> View for Error<T> {
    type V = ErrorView<T>;

    open spec fn view(&self) -> ErrorView<T> {
        match *self {
            Error::Rule(error) => ErrorView::Rule(error@),
            Error::Outside(failure) => ErrorView::Outside(failure),
        }
    }
}

} // verus!
