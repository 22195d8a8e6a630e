//! The error every operation of the library reports: a kind and a message.

use vstd::prelude::*;

use crate::text::concat3;

verus! {

/// Which part of Dream refused: the first word of the rendered error.
#[derive(Debug, Clone, Copy, PartialEq, Eq)]
pub enum ErrorKind {
    Dream,
    Usage,
    Runtime,
    Composer,
    Interpreter,
}

/// An error with its kind and its human-readable detail.
#[derive(Debug, Clone, PartialEq, Eq)]
pub struct DreamError {
    pub kind: ErrorKind,
    pub message: String,
}

/// The label that starts the rendered error of each kind.
pub open spec fn kind_label(kind: ErrorKind) -> Seq<char> {
    match kind {
        ErrorKind::Dream => "DreamError"@,
        ErrorKind::Usage => "UsageError"@,
        ErrorKind::Runtime => "RuntimeError"@,
        ErrorKind::Composer => "ComposerError"@,
        ErrorKind::Interpreter => "InterpreterError"@,
    }
}

impl View for DreamError {
    type V = (ErrorKind, Seq<char>);

    open spec fn view(&self) -> (ErrorKind, Seq<char>) {
        (self.kind, self.message@)
    }
}

impl DreamError {
    /// An error of kind `kind` with message `message`.
    pub fn of_kind(kind: ErrorKind, message: &str) -> (e: DreamError)
        ensures
            e@ == (kind, message@),
    {
        DreamError { kind, message: message.to_owned() }
    }

    pub fn new(message: &str) -> (e: DreamError)
        ensures
            e@ == (ErrorKind::Dream, message@),
    {
        Self::of_kind(ErrorKind::Dream, message)
    }

    pub fn usage(message: &str) -> (e: DreamError)
        ensures
            e@ == (ErrorKind::Usage, message@),
    {
        Self::of_kind(ErrorKind::Usage, message)
    }

    pub fn runtime(message: &str) -> (e: DreamError)
        ensures
            e@ == (ErrorKind::Runtime, message@),
    {
        Self::of_kind(ErrorKind::Runtime, message)
    }

    pub fn composer(message: &str) -> (e: DreamError)
        ensures
            e@ == (ErrorKind::Composer, message@),
    {
        Self::of_kind(ErrorKind::Composer, message)
    }

    pub fn interpreter(message: &str) -> (e: DreamError)
        ensures
            e@ == (ErrorKind::Interpreter, message@),
    {
        Self::of_kind(ErrorKind::Interpreter, message)
    }

    /// A copy of this error.
    pub fn copy(&self) -> (e: DreamError)
        ensures
            e@ == self@,
    {
        Self::of_kind(self.kind, self.message.as_str())
    }

    /// The message without its kind.
    pub fn detail(&self) -> (d: &str)
        ensures
            d@ == self.message@,
    {
        self.message.as_str()
    }

    /// The error as shown to a user: `Kind: message`.
    pub fn to_string(&self) -> (s: String)
        ensures
            s@ == kind_label(self.kind) + ": "@ + self.message@,
    {
        let label = match self.kind {
            ErrorKind::Dream => "DreamError",
            ErrorKind::Usage => "UsageError",
            ErrorKind::Runtime => "RuntimeError",
            ErrorKind::Composer => "ComposerError",
            ErrorKind::Interpreter => "InterpreterError",
        };
        concat3(label, ": ", self.message.as_str())
    }
}

} // verus!
