//! The closed set of failures that the registries report.

use vstd::prelude::*;
use vstd::string::StringExecFns;

verus! {

/// Why an operation of a registry failed. Each kind carries a message for the
/// caller.
#[derive(Debug)]
pub enum ServiceError {
    /// The identifier is not in the registry, or the player is not in the team.
    NotFound(String),
    /// The identifier is taken, or the player is already in the team.
    AlreadyExists(String),
    /// The operation is not allowed. No operation of the registries reports
    /// it; it is there for rules that callers add.
    InvalidOperation(String),
}

/// What every operation of a registry returns.
pub type ServiceResult<T> = Result<T, ServiceError>;

/// A [`ServiceError`] with its message as a sequence of characters.
pub enum ErrorView {
    NotFound(Seq<char>),
    AlreadyExists(Seq<char>),
    InvalidOperation(Seq<char>),
}

impl View for ServiceError {
    type V = ErrorView;

    open spec fn view(&self) -> ErrorView {
        match self {
            ServiceError::NotFound(msg) => ErrorView::NotFound(msg@),
            ServiceError::AlreadyExists(msg) => ErrorView::AlreadyExists(msg@),
            ServiceError::InvalidOperation(msg) => ErrorView::InvalidOperation(msg@),
        }
    }
}

impl ErrorView {
    /// The message that the error carries.
    pub open spec fn message(self) -> Seq<char> {
        match self {
            ErrorView::NotFound(msg) => msg,
            ErrorView::AlreadyExists(msg) => msg,
            ErrorView::InvalidOperation(msg) => msg,
        }
    }

    /// The words that name the kind of the error.
    pub open spec fn kind_text(self) -> Seq<char> {
        match self {
            ErrorView::NotFound(_) => "Not found: "@,
            ErrorView::AlreadyExists(_) => "Already exists: "@,
            ErrorView::InvalidOperation(_) => "Invalid operation: "@,
        }
    }

    /// The error as a line for a reader: its kind, then its message.
    pub open spec fn text(self) -> Seq<char> {
        self.kind_text() + self.message()
    }
}

/// `res` is the outcome `expected`: the same value on success, an error of the
/// same kind with the same message on failure.
pub open spec fn same_outcome<T>(res: ServiceResult<T>, expected: Result<T, ErrorView>) -> bool {
    match expected {
        Ok(value) => res == Ok::<T, ServiceError>(value),
        Err(e) => res matches Err(x) && x@ == e,
    }
}

/// `res` is the outcome `expected`, where the value of a success is known by
/// its view.
pub open spec fn same_view_outcome<T: View>(
    res: ServiceResult<T>,
    expected: Result<T::V, ErrorView>,
) -> bool {
    match res {
        Ok(value) => expected == Ok::<T::V, ErrorView>(value@),
        Err(x) => expected == Err::<T::V, ErrorView>(x@),
    }
}

impl ServiceError {
    /// The message that the error carries.
    pub fn message(&self) -> (msg: &String)
        ensures
            msg@ == self@.message(),
    {
        match self {
            ServiceError::NotFound(msg) => msg,
            ServiceError::AlreadyExists(msg) => msg,
            ServiceError::InvalidOperation(msg) => msg,
        }
    }

    /// The error as a line for a reader: its kind, then its message.
    pub fn to_string(&self) -> (line: String)
        ensures
            line@ == self@.text(),
    {
        let mut line = match self {
            ServiceError::NotFound(_) => String::from_str("Not found: "),
            ServiceError::AlreadyExists(_) => String::from_str("Already exists: "),
            ServiceError::InvalidOperation(_) => String::from_str("Invalid operation: "),
        };
        line.append(self.message().as_str());
        line
    }
}

} // verus!
