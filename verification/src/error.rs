//! What can go wrong in a task.
use vstd::prelude::*;

verus! {

/// The kinds of error of a task.
#[derive(Clone, Copy, PartialEq, Eq, Structural)]
pub enum ErrorKind {
    InputError,
    ConditionFailed,
    UnexpectedError,
    RuntimeError,
}

/// An input of a task could not be had: a path that does not resolve, a
/// missing argument, a target of the wrong shape.
pub struct InputError(pub String);

/// Something that a correct program does not run into.
pub struct UnexpectedError(pub String);

/// An error of a task. Its view is its kind; the message is for the reader.
pub enum Error {
    BadInput(InputError),
    /// The task does not apply to this state.
    ConditionFailed,
    Unexpected(UnexpectedError),
    /// The task failed while it ran.
    Runtime(String),
}

impl View for Error {
    type V = ErrorKind;

    open spec fn view(&self) -> ErrorKind {
        match *self {
            Error::BadInput(_) => ErrorKind::InputError,
            Error::ConditionFailed => ErrorKind::ConditionFailed,
            Error::Unexpected(_) => ErrorKind::UnexpectedError,
            Error::Runtime(_) => ErrorKind::RuntimeError,
        }
    }
}

impl Error {
    /// The error as text: its kind, then its message.
    pub open spec fn text(self) -> Seq<char> {
        match self {
            Error::BadInput(InputError(message)) => "input error: "@ + message@,
            Error::ConditionFailed => "condition failed"@,
            Error::Unexpected(UnexpectedError(message)) => "unexpected error: "@ + message@,
            Error::Runtime(message) => "task runtime error: "@ + message@,
        }
    }

    /// The kind of the error.
    pub fn kind(&self) -> (r: ErrorKind)
        ensures
            r == self@,
    {
        match self {
            Error::BadInput(_) => ErrorKind::InputError,
            Error::ConditionFailed => ErrorKind::ConditionFailed,
            Error::Unexpected(_) => ErrorKind::UnexpectedError,
            Error::Runtime(_) => ErrorKind::RuntimeError,
        }
    }

    /// The error as text: its kind, then its message.
    pub fn to_string(&self) -> (r: String)
        ensures
            r@ == self.text(),
    {
        match self {
            Error::BadInput(InputError(message)) => String::from_str("input error: ").concat(
                message.as_str(),
            ),
            Error::ConditionFailed => String::from_str("condition failed"),
            Error::Unexpected(UnexpectedError(message)) => String::from_str(
                "unexpected error: ",
            ).concat(message.as_str()),
            Error::Runtime(message) => String::from_str("task runtime error: ").concat(
                message.as_str(),
            ),
        }
    }
}

} // verus!
