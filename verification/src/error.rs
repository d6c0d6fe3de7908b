//! The errors that the functions of this library hand back to the engine.

use vstd::prelude::*;

verus! {

/// What went wrong, by category.
#[derive(Clone, Copy, Debug, PartialEq, Eq, Structural)]
pub enum ErrorKind {
    /// A keyword argument is unknown or has the wrong type.
    InvalidArgument,
    /// The input data is malformed, or an operation on it failed.
    InvalidOperation,
    /// Something that the render context must hold is missing.
    UndefinedError,
}

/// An error with its kind, a message for humans and, where another
/// component reported the failure, that component's own words.
#[derive(Clone, Debug, PartialEq, Eq)]
pub struct TemplateError {
    pub kind: ErrorKind,
    pub message: String,
    pub cause: Option<String>,
}

/// What an error must say, in contracts: its kind, its message, and whether
/// it carries the words of another component.
pub struct Failure {
    pub kind: ErrorKind,
    pub message: Seq<char>,
    pub caused: bool,
}

/// An invalid operation with this message.
pub open spec fn invalid_operation(message: Seq<char>, caused: bool) -> Failure {
    Failure { kind: ErrorKind::InvalidOperation, message, caused }
}

/// An invalid argument with this message.
pub open spec fn invalid_argument(message: Seq<char>) -> Failure {
    Failure { kind: ErrorKind::InvalidArgument, message, caused: false }
}

/// A result says what is expected of it: it holds the expected text, or an
/// error that reports the expected failure.
pub open spec fn meets(r: Result<String, TemplateError>, expected: Result<Seq<char>, Failure>) -> bool {
    match r {
        Ok(text) => expected == Ok::<Seq<char>, Failure>(text@),
        Err(e) => expected matches Err(failure) && e.reports(failure),
    }
}

/// Two errors of the same kind, with the same message, that both carry a
/// cause or both carry none.
pub open spec fn same_error(first: TemplateError, second: TemplateError) -> bool {
    &&& first.kind == second.kind
    &&& first.message@ == second.message@
    &&& (first.cause is Some) == (second.cause is Some)
}

/// Two results with the same text, or with the same error.
pub open spec fn same_outcome(
    first: Result<String, TemplateError>,
    second: Result<String, TemplateError>,
) -> bool {
    match (first, second) {
        (Ok(a), Ok(b)) => a@ == b@,
        (Err(a), Err(b)) => same_error(a, b),
        _ => false,
    }
}

/// Two results that say what is expected of the same inputs are the same:
/// calling a function twice gives the same text or the same error.
pub proof fn law_same_twice(
    first: Result<String, TemplateError>,
    second: Result<String, TemplateError>,
    expected: Result<Seq<char>, Failure>,
)
    requires
        meets(first, expected),
        meets(second, expected),
    ensures
        same_outcome(first, second),
{
}

impl TemplateError {
    /// True when the error says what `failure` asks for.
    pub open spec fn reports(&self, failure: Failure) -> bool {
        self.is(failure.kind, failure.message, failure.caused)
    }

    /// An invalid operation without an underlying cause.
    pub fn invalid_operation(message: &str) -> (e: TemplateError)
        ensures
            e.reports(invalid_operation(message@, false)),
    {
        TemplateError::new(ErrorKind::InvalidOperation, message)
    }

    /// An invalid operation that another component reported.
    pub fn invalid_operation_from(message: &str, cause: String) -> (e: TemplateError)
        ensures
            e.reports(invalid_operation(message@, true)),
            e.cause == Some(cause),
    {
        TemplateError::with_cause(ErrorKind::InvalidOperation, message, cause)
    }

    /// True when the error has this kind and this message, and carries a
    /// cause exactly when `caused` says so.
    pub open spec fn is(&self, kind: ErrorKind, message: Seq<char>, caused: bool) -> bool {
        &&& self.kind == kind
        &&& self.message@ == message
        &&& (self.cause is Some) == caused
    }

    /// An error without an underlying cause.
    pub fn new(kind: ErrorKind, message: &str) -> (e: TemplateError)
        ensures
            e.is(kind, message@, false),
    {
        TemplateError { kind, message: message.to_owned(), cause: None }
    }

    /// An error that reports what another component said.
    pub fn with_cause(kind: ErrorKind, message: &str, cause: String) -> (e: TemplateError)
        ensures
            e.is(kind, message@, true),
            e.cause == Some(cause),
    {
        TemplateError { kind, message: message.to_owned(), cause: Some(cause) }
    }

    /// The message, followed by the cause where there is one.
    pub fn describe(&self) -> (text: String)
        ensures
            text@ == match self.cause {
                Some(cause) => self.message@ + ": "@ + cause@,
                None => self.message@,
            },
    {
        let mut text = self.message.clone();
        match &self.cause {
            Some(cause) => {
                text.append(": ");
                text.append(cause.as_str());
            },
            None => {},
        }
        text
    }
}

} // verus!
