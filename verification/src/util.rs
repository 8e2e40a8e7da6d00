//! Small shared types: file handles, spans and elaboration errors.

use vstd::prelude::*;
use vstd::string::StringExecFns;

verus! {

/// Handle of a file. Two handles denote the same file exactly when they are
/// equal.
pub type FileRef = u64;

/// A half-open byte range `start..end` in a source text.
#[derive(Clone, Copy, Debug, PartialEq, Eq, Structural)]
pub struct Span {
    pub start: usize,
    pub end: usize,
}

/// A span together with the file it lies in.
#[derive(Clone, Copy, Debug, PartialEq, Eq, Structural)]
pub struct FileSpan {
    pub file: FileRef,
    pub span: Span,
}

/// Severity of a reported error.
#[derive(Clone, Copy, Debug, PartialEq, Eq, Structural)]
pub enum ErrorLevel {
    Info,
    Warning,
    Error,
}

/// An error found while elaborating a file, attached to a span of its text.
#[derive(Clone, Debug)]
pub struct ElabError {
    pub pos: Span,
    pub level: ErrorLevel,
    pub msg: String,
}

/// What an error says: its place, its level and its message.
pub struct ErrorView {
    pub pos: Span,
    pub level: ErrorLevel,
    pub msg: Seq<char>,
}

impl View for ElabError {
    type V = ErrorView;

    open spec fn view(&self) -> ErrorView {
        ErrorView { pos: self.pos, level: self.level, msg: self.msg@ }
    }
}

/// A vector with the items of `v` in the opposite order.
pub fn reversed<T>(v: Vec<T>) -> (r: Vec<T>)
    ensures
        r@.len() == v@.len(),
        forall|j: int| 0 <= j < r@.len() ==> r@[j] == v@[v@.len() - 1 - j],
{
    let ghost items = v@;
    let mut v = v;
    let mut r: Vec<T> = Vec::new();
    while v.len() > 0
        invariant
            v@.len() + r@.len() == items.len(),
            v@ == items.take(v@.len() as int),
            forall|j: int| 0 <= j < r@.len() ==> r@[j] == items[items.len() - 1 - j],
        decreases v.len(),
    {
        let x = v.pop().unwrap();
        r.push(x);
    }
    r
}

impl ElabError {
    /// An error of level `Error` at `pos`.
    pub fn new_e(pos: Span, msg: String) -> (e: ElabError)
        ensures
            e.pos == pos,
            e.level == ErrorLevel::Error,
            e.msg == msg,
    {
        ElabError { pos, level: ErrorLevel::Error, msg }
    }
}

/// What the server answers to a message that it cannot act on.
#[derive(Clone, Copy, Debug, PartialEq, Eq, Structural)]
pub enum ServerError {
    /// A change was reported for a file that the store does not know.
    ChangedNonexistentFile,
    /// A response arrived for a request that is not open.
    ResponseToUnknownRequest,
}

impl ServerError {
    /// The message of the error.
    pub open spec fn spec_message(self) -> Seq<char> {
        match self {
            ServerError::ChangedNonexistentFile => "changed nonexistent file"@,
            ServerError::ResponseToUnknownRequest => "response to unknown request"@,
        }
    }

    /// The message of the error.
    pub fn message(&self) -> (s: String)
        ensures
            s@ == self.spec_message(),
    {
        match self {
            ServerError::ChangedNonexistentFile => String::from_str("changed nonexistent file"),
            ServerError::ResponseToUnknownRequest => String::from_str(
                "response to unknown request",
            ),
        }
    }
}

} // verus!
