//! The error that parsing and body decoding report.

use vstd::prelude::*;

verus! {

/// What went wrong.
#[derive(Clone, Copy, Debug, PartialEq, Eq, Structural)]
pub enum ParseErrorKind {
    /// The head of the request holds no line at all.
    EmptyRequest,
    /// The request line holds fewer than three tokens.
    MalformedRequestLine,
    /// The request carries no `Content-Type` header.
    MissingContentType,
    /// The content type does not allow the decoding that was asked for.
    UnsupportedContent,
    /// The body is not valid UTF-8.
    InvalidUtf8,
    /// The body is not a JSON document.
    InvalidJson,
    /// An error raised by a caller, with a message of its own.
    Other,
}

/// Mathematical content of an [`HttpParseError`].
pub ghost struct ErrorView {
    pub kind: ParseErrorKind,
    pub message: Seq<char>,
}

/// A failure to parse a request or to decode its body: a kind to branch on
/// and a message for people.
#[derive(Debug)]
pub struct HttpParseError {
    kind: ParseErrorKind,
    message: String,
}

impl View for HttpParseError {
    type V = ErrorView;

    closed spec fn view(&self) -> ErrorView {
        ErrorView { kind: self.kind, message: self.message@ }
    }
}

impl HttpParseError {
    /// An error of kind [`ParseErrorKind::Other`] that carries `msg`.
    pub fn new(msg: &str) -> (e: HttpParseError)
        ensures
            e@ == (ErrorView { kind: ParseErrorKind::Other, message: msg@ }),
    {
        HttpParseError { kind: ParseErrorKind::Other, message: msg.to_owned() }
    }

    /// An error of the given kind that carries `msg`.
    pub fn with_kind(kind: ParseErrorKind, msg: &str) -> (e: HttpParseError)
        ensures
            e@ == (ErrorView { kind, message: msg@ }),
    {
        HttpParseError { kind, message: msg.to_owned() }
    }

    /// The kind of this error.
    pub fn kind(&self) -> (k: ParseErrorKind)
        ensures
            k == self@.kind,
    {
        self.kind
    }

    /// The message of this error.
    pub fn description(&self) -> (msg: &str)
        ensures
            msg@ == self@.message,
    {
        self.message.as_str()
    }

    /// The message of this error, as an owned string.
    pub fn message(&self) -> (msg: String)
        ensures
            msg@ == self@.message,
    {
        self.message.clone()
    }
}

} // verus!
