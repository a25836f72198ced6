//! Failures: what is said of one, what caused it, and how the process exits.

use vstd::prelude::*;

verus! {

/// How the process ends on a failure.
#[derive(Debug, Clone, Copy, PartialEq, Eq, Structural)]
pub enum Exit {
    /// Any failure without a status of its own.
    General,
    /// Both sides changed and nothing was forced.
    Conflict,
    /// The server could not be reached or refused the login.
    Auth,
}

impl Exit {
    /// The status that the process ends with.
    pub open spec fn status(self) -> int {
        match self {
            Exit::General => 1,
            Exit::Conflict => 2,
            Exit::Auth => 3,
        }
    }

    /// The status that the process ends with.
    pub fn code(self) -> (out: i32)
        ensures
            out == self.status(),
    {
        match self {
            Exit::General => 1,
            Exit::Conflict => 2,
            Exit::Auth => 3,
        }
    }
}

/// A failure with its message and, where an operation reported one, its cause.
#[derive(Debug, PartialEq, Eq)]
pub struct Error {
    pub exit: Exit,
    pub message: String,
    pub cause: Option<String>,
}

/// What a failure says.
pub struct ErrorView {
    pub exit: Exit,
    pub message: Seq<char>,
    pub cause: Option<Seq<char>>,
}

impl View for Error {
    type V = ErrorView;

    open spec fn view(&self) -> ErrorView {
        ErrorView {
            exit: self.exit,
            message: self.message@,
            cause: match self.cause {
                Some(cause) => Some(cause@),
                None => None,
            },
        }
    }
}

/// A failure without a cause.
pub open spec fn failure(message: Seq<char>) -> ErrorView {
    ErrorView { exit: Exit::General, message, cause: None }
}

/// Whether a failure says nothing that a terminal takes as more than text.
pub open spec fn plain(e: ErrorView) -> bool {
    !crate::text::has_control(e.message) && e.cause is None
}

/// A failure of an operation that reported `cause`.
pub open spec fn failure_from(message: Seq<char>, cause: Seq<char>) -> ErrorView {
    ErrorView { exit: Exit::General, message, cause: Some(cause) }
}

/// A conflict between the two sides.
pub open spec fn conflict(message: Seq<char>) -> ErrorView {
    ErrorView { exit: Exit::Conflict, message, cause: None }
}

impl Error {
    /// A failure without a cause.
    pub fn failure(message: String) -> (out: Error)
        ensures
            out@ == failure(message@),
    {
        Error { exit: Exit::General, message, cause: None }
    }

    /// A failure of an operation that reported `cause`.
    pub fn failure_from(message: String, cause: &str) -> (out: Error)
        ensures
            out@ == failure_from(message@, cause@),
    {
        Error { exit: Exit::General, message, cause: Some(cause.to_owned()) }
    }

    /// A conflict between the two sides.
    pub fn conflict(message: String) -> (out: Error)
        ensures
            out@ == conflict(message@),
    {
        Error { exit: Exit::Conflict, message, cause: None }
    }

    /// This failure as the cause of another one, which ends the process in the same
    /// way.
    pub fn context(self, message: String) -> (out: Error)
        ensures
            out@ == contextual(self@, message@),
    {
        let cause = self.full_message();
        Error { exit: self.exit, message, cause: Some(cause) }
    }

    /// The message, followed by the cause where there is one.
    pub fn full_message(&self) -> (out: String)
        ensures
            out@ == full_message(self@),
    {
        let mut out = self.message.clone();
        if let Some(cause) = &self.cause {
            out.append(": ");
            out.append(cause.as_str());
        }
        out
    }
}

/// A failure as the cause of another one, which ends the process in the same way.
pub open spec fn contextual(error: ErrorView, message: Seq<char>) -> ErrorView {
    ErrorView { exit: error.exit, message, cause: Some(full_message(error)) }
}

/// The message of a failure, followed by its cause where there is one.
pub open spec fn full_message(error: ErrorView) -> Seq<char> {
    match error.cause {
        Some(cause) => error.message + ": "@ + cause,
        None => error.message,
    }
}

/// Whether a result is the one that `want` describes, its value taken by its view.
pub open spec fn agrees<T: View>(out: Result<T, Error>, want: Result<T::V, ErrorView>) -> bool {
    match (out, want) {
        (Ok(a), Ok(b)) => a@ == b,
        (Err(a), Err(b)) => a@ == b,
        _ => false,
    }
}

/// Whether a result is the one that `want` describes.
pub open spec fn settles<T>(out: Result<T, Error>, want: Result<T, ErrorView>) -> bool {
    match (out, want) {
        (Ok(a), Ok(b)) => a == b,
        (Err(a), Err(b)) => a@ == b,
        _ => false,
    }
}

/// The statuses that the process ends with tell the ways to end apart: any
/// failure is one, a conflict two, a refused login three.
pub proof fn statuses_tell_exits_apart(a: Exit, b: Exit)
    ensures
        a.status() == b.status() <==> a == b,
        1 <= a.status() <= 3,
        a.status() == 2 <==> a == Exit::Conflict,
        a.status() == 3 <==> a == Exit::Auth,
{
}

/// A failure that is the cause of another one keeps its way to end, and all that
/// it said follows what the other one says. Only a conflict ends as a conflict.
pub proof fn cause_is_told_in_full(e: ErrorView, message: Seq<char>, outer: Seq<char>)
    ensures
        contextual(e, message).exit == e.exit,
        full_message(contextual(e, message)) == message + ": "@ + full_message(e),
        full_message(contextual(contextual(e, message), outer)) == outer + ": "@ + (message
            + ": "@ + full_message(e)),
        full_message(failure_from(message, full_message(e))) == message + ": "@ + full_message(e),
        full_message(failure(message)) == message,
        full_message(conflict(message)) == message,
        failure(message).exit == Exit::General,
        failure_from(message, outer).exit == Exit::General,
        conflict(message).exit == Exit::Conflict,
{
}

} // verus!
