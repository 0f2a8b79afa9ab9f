//! The error type of the library.

use vstd::prelude::*;
use vstd::string::StringExecFns;

verus! {

/// What went wrong.
#[derive(Debug, Clone, Copy, PartialEq, Eq, Structural)]
pub enum ErrorKind {
    /// Something that should not happen.
    Unexpected,
    /// The data does not follow the rules of the table format.
    DataInvalid,
}

/// An error: its kind, and a message for people.
#[derive(Debug, Clone, PartialEq, Eq)]
pub struct Error {
    pub kind: ErrorKind,
    pub message: String,
}

/// What an [`Error`] says.
pub ghost struct ErrorView {
    pub kind: ErrorKind,
    pub message: Seq<char>,
}

impl View for Error {
    type V = ErrorView;

    open spec fn view(&self) -> ErrorView {
        ErrorView { kind: self.kind, message: self.message@ }
    }
}

/// An error about data that breaks a rule.
pub open spec fn data_invalid(message: Seq<char>) -> ErrorView {
    ErrorView { kind: ErrorKind::DataInvalid, message }
}

/// An error about something that should not happen.
pub open spec fn unexpected(message: Seq<char>) -> ErrorView {
    ErrorView { kind: ErrorKind::Unexpected, message }
}

impl ErrorKind {
    /// The name of the kind.
    pub open spec fn name(self) -> Seq<char> {
        match self {
            ErrorKind::Unexpected => "Unexpected"@,
            ErrorKind::DataInvalid => "DataInvalid"@,
        }
    }
}

impl Error {
    /// An error of the given kind.
    pub fn new(kind: ErrorKind, message: String) -> (r: Error)
        ensures
            r@ == (ErrorView { kind, message: message@ }),
    {
        Error { kind, message }
    }

    /// A [`ErrorKind::DataInvalid`] error.
    pub fn data_invalid(message: String) -> (r: Error)
        ensures
            r@ == data_invalid(message@),
    {
        Error::new(ErrorKind::DataInvalid, message)
    }

    /// The kind of the error.
    pub fn kind(&self) -> (r: ErrorKind)
        ensures
            r == self@.kind,
    {
        self.kind
    }

    /// The error in one line: its kind, an arrow and its message.
    pub fn to_string(&self) -> (r: String)
        ensures
            r@ == self@.kind.name() + " => "@ + self@.message,
    {
        let name: &str = match self.kind {
            ErrorKind::Unexpected => "Unexpected",
            ErrorKind::DataInvalid => "DataInvalid",
        };
        let mut text: String = name.to_owned();
        text.append(" => ");
        text.append(self.message.as_str());
        text
    }
}

} // verus!
