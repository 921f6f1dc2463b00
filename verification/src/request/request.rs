//! A request as the parser hands it out: method, target, protocol, headers
//! and body, with typed access to the body.

use crate::http::parse_error::{ErrorView, HttpParseError, ParseErrorKind};
use crate::json::{json_document, parse_json};
use crate::text::{
    ascii_lower, chars_of, contains, decode_text, has_infix, has_prefix, starts_with, str_eq,
    to_ascii_lower,
};
use vstd::hash_map::StringHashMap;
use vstd::prelude::*;
use vstd::utf8::{decode_utf8, valid_utf8};

verus! {

/// The method of a request. A token that is none of the three known methods is
/// kept as it was written.
#[derive(Debug)]
pub enum RequestMethod {
    Get,
    Post,
    Options,
    Other(String),
}

/// Mathematical content of a [`RequestMethod`].
pub ghost enum MethodView {
    Get,
    Post,
    Options,
    Other(Seq<char>),
}

impl View for RequestMethod {
    type V = MethodView;

    open spec fn view(&self) -> MethodView {
        match self {
            RequestMethod::Get => MethodView::Get,
            RequestMethod::Post => MethodView::Post,
            RequestMethod::Options => MethodView::Options,
            RequestMethod::Other(token) => MethodView::Other(token@),
        }
    }
}

/// The method that a token of the request line stands for.
pub open spec fn method_of_token(token: Seq<char>) -> MethodView {
    if token == "GET"@ {
        MethodView::Get
    } else if token == "POST"@ {
        MethodView::Post
    } else if token == "OPTIONS"@ {
        MethodView::Options
    } else {
        MethodView::Other(token)
    }
}

/// The token that a method is written as.
pub open spec fn token_of_method(method: MethodView) -> Seq<char> {
    match method {
        MethodView::Get => "GET"@,
        MethodView::Post => "POST"@,
        MethodView::Options => "OPTIONS"@,
        MethodView::Other(token) => token,
    }
}

/// The three known tokens name the three known methods, and every other
/// token is kept as a method of its own.
pub proof fn lemma_method_tokens()
    ensures
        method_of_token("GET"@) == MethodView::Get,
        method_of_token("POST"@) == MethodView::Post,
        method_of_token("OPTIONS"@) == MethodView::Options,
        forall|token: Seq<char>|
            token != "GET"@ && token != "POST"@ && token != "OPTIONS"@ ==> #[trigger] method_of_token(
                token,
            ) == MethodView::Other(token),
{
    reveal_strlit("GET");
    reveal_strlit("POST");
    reveal_strlit("OPTIONS");
    assert("GET"@.len() == 3);
    assert("POST"@.len() == 4);
    assert("OPTIONS"@.len() == 7);
}

impl RequestMethod {
    /// Classifies a token of the request line.
    pub fn from_token(token: &str) -> (method: RequestMethod)
        ensures
            method@ == method_of_token(token@),
    {
        if str_eq(token, "GET") {
            RequestMethod::Get
        } else if str_eq(token, "POST") {
            RequestMethod::Post
        } else if str_eq(token, "OPTIONS") {
            RequestMethod::Options
        } else {
            RequestMethod::Other(token.to_owned())
        }
    }

    /// The token that this method is written as.
    pub fn as_str(&self) -> (token: &str)
        ensures
            token@ == token_of_method(self@),
    {
        match self {
            RequestMethod::Get => "GET",
            RequestMethod::Post => "POST",
            RequestMethod::Options => "OPTIONS",
            RequestMethod::Other(token) => token.as_str(),
        }
    }
}

/// Mathematical content of a [`RequestHead`].
pub ghost struct HeadView {
    pub method: MethodView,
    pub uri: Seq<char>,
    pub protocol: Seq<char>,
}

/// The request line: method, target and protocol. The target is kept as it
/// was written, path and query undecoded.
#[derive(Debug)]
pub struct RequestHead {
    method: RequestMethod,
    uri: String,
    protocol: String,
}

impl View for RequestHead {
    type V = HeadView;

    closed spec fn view(&self) -> HeadView {
        HeadView { method: self.method@, uri: self.uri@, protocol: self.protocol@ }
    }
}

impl RequestHead {
    /// A head of these three parts.
    pub fn new(method: RequestMethod, uri: String, protocol: String) -> (head: RequestHead)
        ensures
            head@ == (HeadView { method: method@, uri: uri@, protocol: protocol@ }),
    {
        RequestHead { method, uri, protocol }
    }

    /// The method.
    pub fn method(&self) -> (method: &RequestMethod)
        ensures
            method@ == self@.method,
    {
        &self.method
    }

    /// The target, as it was written.
    pub fn uri(&self) -> (uri: &str)
        ensures
            uri@ == self@.uri,
    {
        self.uri.as_str()
    }

    /// The protocol, such as `HTTP/1.1`.
    pub fn protocol(&self) -> (protocol: &str)
        ensures
            protocol@ == self@.protocol,
    {
        self.protocol.as_str()
    }
}

/// Mathematical content of an [`HttpRequest`].
pub ghost struct RequestView {
    pub head: HeadView,
    pub headers: Map<Seq<char>, Seq<char>>,
    pub body: Seq<u8>,
}

/// The headers of a request as a map from name to value, both as text.
pub open spec fn header_texts(headers: Map<Seq<char>, String>) -> Map<Seq<char>, Seq<char>> {
    headers.map_values(|value: String| value@)
}

/// A media type under which a body is read as text: `text/...`,
/// `application/json`, `application/xml`, or one with a `+json`, `+xml` or
/// `+text` suffix. Letters compare without regard to ASCII case.
pub open spec fn is_text_type(content_type: Seq<char>) -> bool {
    let folded = ascii_lower(content_type);
    ||| starts_with(folded, "text/"@)
    ||| starts_with(folded, "application/json"@)
    ||| starts_with(folded, "application/xml"@)
    ||| contains(folded, "+json"@)
    ||| contains(folded, "+xml"@)
    ||| contains(folded, "+text"@)
}

/// A media type under which a body is read as JSON: one that begins with
/// `application/json`, written in lower case.
pub open spec fn is_json_type(content_type: Seq<char>) -> bool {
    starts_with(content_type, "application/json"@)
}

/// The value of the `Content-Type` header. Names are looked up as written.
pub open spec fn content_type_of(request: RequestView) -> Option<Seq<char>> {
    if request.headers.contains_key("Content-Type"@) {
        Some(request.headers["Content-Type"@])
    } else {
        None
    }
}

/// What reading the body as text yields.
pub open spec fn body_text(request: RequestView) -> Result<Seq<char>, ErrorView> {
    match content_type_of(request) {
        None => Err(
            ErrorView {
                kind: ParseErrorKind::MissingContentType,
                message: "request body has not content-type"@,
            },
        ),
        Some(content_type) => if !is_text_type(content_type) {
            Err(
                ErrorView {
                    kind: ParseErrorKind::UnsupportedContent,
                    message: "Content type is not text"@,
                },
            )
        } else if !valid_utf8(request.body) {
            Err(
                ErrorView {
                    kind: ParseErrorKind::InvalidUtf8,
                    message: "Body is not valid UTF-8"@,
                },
            )
        } else {
            Ok(decode_utf8(request.body))
        },
    }
}

/// What reading the body as JSON yields, given the document that the JSON
/// reader makes of the body's text (`None` where it rejects the text).
pub open spec fn body_json<V>(request: RequestView, document: Option<V>) -> Result<V, ErrorView> {
    match content_type_of(request) {
        Some(content_type) if is_json_type(content_type) => if !valid_utf8(request.body) {
            Err(
                ErrorView {
                    kind: ParseErrorKind::InvalidUtf8,
                    message: "Body is not valid UTF-8"@,
                },
            )
        } else {
            match document {
                Some(value) => Ok(value),
                None => Err(
                    ErrorView {
                        kind: ParseErrorKind::InvalidJson,
                        message: "Body is not valid JSON"@,
                    },
                ),
            }
        },
        _ => Err(
            ErrorView {
                kind: ParseErrorKind::UnsupportedContent,
                message: "Content is not application/json"@,
            },
        ),
    }
}

/// The outcome of a decoding, with the error taken by its view.
pub open spec fn outcome<T>(result: Result<T, HttpParseError>) -> Result<T, ErrorView> {
    match result {
        Ok(value) => Ok(value),
        Err(e) => Err(e@),
    }
}

/// A parsed request. It owns its body.
pub struct HttpRequest {
    head: RequestHead,
    headers: StringHashMap<String>,
    body: Vec<u8>,
}

impl View for HttpRequest {
    type V = RequestView;

    closed spec fn view(&self) -> RequestView {
        RequestView { head: self.head@, headers: header_texts(self.headers@), body: self.body@ }
    }
}

impl HttpRequest {
    /// A request of these three parts.
    pub fn new(head: RequestHead, headers: StringHashMap<String>, body: Vec<u8>) -> (request:
        HttpRequest)
        ensures
            request@ == (RequestView {
                head: head@,
                headers: header_texts(headers@),
                body: body@,
            }),
    {
        HttpRequest { head, headers, body }
    }

    /// The request line.
    pub fn head(&self) -> (head: &RequestHead)
        ensures
            head@ == self@.head,
    {
        &self.head
    }

    /// The body; empty where the request has none.
    pub fn body(&self) -> (body: &Vec<u8>)
        ensures
            body@ == self@.body,
    {
        &self.body
    }

    /// The value of the header `name`, looked up as written.
    pub fn header(&self, name: &str) -> (value: Option<&String>)
        ensures
            match value {
                Some(v) => self@.headers.contains_key(name@) && v@ == self@.headers[name@],
                None => !self@.headers.contains_key(name@),
            },
    {
        self.headers.get(name)
    }

    /// The value of the `Content-Type` header.
    pub fn content_type(&self) -> (value: Option<&String>)
        ensures
            match value {
                Some(v) => content_type_of(self@) == Some(v@),
                None => content_type_of(self@) is None,
            },
    {
        self.headers.get("Content-Type")
    }

    /// The body as text, where the content type says that it is text.
    pub fn body_to_text(&self) -> (text: Result<String, HttpParseError>)
        ensures
            match text {
                Ok(s) => body_text(self@) == Ok::<Seq<char>, ErrorView>(s@),
                Err(e) => body_text(self@) == Err::<Seq<char>, ErrorView>(e@),
            },
    {
        match self.content_type() {
            None => Err(
                HttpParseError::with_kind(
                    ParseErrorKind::MissingContentType,
                    "request body has not content-type",
                ),
            ),
            Some(content_type) => {
                if !text_type(content_type.as_str()) {
                    return Err(
                        HttpParseError::with_kind(
                            ParseErrorKind::UnsupportedContent,
                            "Content type is not text",
                        ),
                    );
                }
                match decode_text(&self.body) {
                    Some(s) => Ok(s),
                    None => Err(
                        HttpParseError::with_kind(
                            ParseErrorKind::InvalidUtf8,
                            "Body is not valid UTF-8",
                        ),
                    ),
                }
            },
        }
    }

    /// The body as a JSON document, where the content type says that it is
    /// JSON. The document is the one that [`json_document`] names for the
    /// body's text.
    pub fn body_to_json(&self) -> (document: Result<serde_json::Value, HttpParseError>)
        ensures
            outcome(document) == body_json(self@, json_document(decode_utf8(self@.body))),
    {
        match self.content_type() {
            Some(content_type) if json_type(content_type.as_str()) => {
                match decode_text(&self.body) {
                    Some(s) => decoded_json(parse_json(s.as_str())),
                    None => Err(
                        HttpParseError::with_kind(
                            ParseErrorKind::InvalidUtf8,
                            "Body is not valid UTF-8",
                        ),
                    ),
                }
            },
            _ => Err(
                HttpParseError::with_kind(
                    ParseErrorKind::UnsupportedContent,
                    "Content is not application/json",
                ),
            ),
        }
    }
}

/// What the JSON reader's answer becomes for the caller: its document, or
/// the error of kind [`ParseErrorKind::InvalidJson`].
pub fn decoded_json(parsed: Result<serde_json::Value, serde_json::Error>) -> (document: Result<
    serde_json::Value,
    HttpParseError,
>)
    ensures
        match parsed {
            Ok(value) => document == Ok::<serde_json::Value, HttpParseError>(value),
            Err(_) => document is Err && document->Err_0@ == (ErrorView {
                kind: ParseErrorKind::InvalidJson,
                message: "Body is not valid JSON"@,
            }),
        },
{
    match parsed {
        Ok(value) => Ok(value),
        Err(_) => Err(
            HttpParseError::with_kind(ParseErrorKind::InvalidJson, "Body is not valid JSON"),
        ),
    }
}

/// Whether a body of this content type is read as text.
pub fn text_type(content_type: &str) -> (b: bool)
    ensures
        b == is_text_type(content_type@),
{
    let folded = to_ascii_lower(&chars_of(content_type));
    has_prefix(&folded, &chars_of("text/")) || has_prefix(&folded, &chars_of("application/json"))
        || has_prefix(&folded, &chars_of("application/xml")) || has_infix(
        &folded,
        &chars_of("+json"),
    ) || has_infix(&folded, &chars_of("+xml")) || has_infix(&folded, &chars_of("+text"))
}

/// Whether a body of this content type is read as JSON.
pub fn json_type(content_type: &str) -> (b: bool)
    ensures
        b == is_json_type(content_type@),
{
    has_prefix(&chars_of(content_type), &chars_of("application/json"))
}

} // verus!
