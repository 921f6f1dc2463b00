//! The response on the wire: a fixed status line, a blank line, and the body
//! that a handler produced, if one ran.

use vstd::prelude::*;
use vstd::string::StringExecFns;

verus! {

/// The head of every response: the status line and the blank line after it.
pub open spec fn status_line() -> Seq<char> {
    "HTTP/1.1 200 OK\r\n\r\n"@
}

/// The response for a handler's output, or for none.
pub open spec fn response_text(body: Option<Seq<char>>) -> Seq<char> {
    match body {
        Some(text) => status_line() + text,
        None => status_line(),
    }
}

/// The response that is sent when no handler ran.
pub fn default_response() -> (response: String)
    ensures
        response@ == response_text(None),
{
    "HTTP/1.1 200 OK\r\n\r\n".to_owned()
}

/// The response that carries a handler's output.
pub fn response_with_body(body: &str) -> (response: String)
    ensures
        response@ == response_text(Some(body@)),
{
    default_response().concat(body)
}

} // verus!
