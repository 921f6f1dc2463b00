//! The parser of the request head: the request line and the header lines.

use crate::http::parse_error::{ErrorView, HttpParseError, ParseErrorKind};
pub use crate::request::request::{HttpRequest, RequestHead, RequestMethod};
use crate::request::request::{header_texts, method_of_token, HeadView, RequestView};
use crate::text::{chars_of, cut, find, find_from, find_in, lemma_find_some, split_once};
use vstd::hash_map::StringHashMap;
use vstd::prelude::*;

verus! {

/// What separates the tokens of the request line: one space.
pub open spec fn space() -> Seq<char> {
    seq![' ']
}

/// What separates a header's name from its value: a colon and a space.
pub open spec fn header_separator() -> Seq<char> {
    seq![':', ' ']
}

/// The head that a request line denotes: the text before the first space is
/// the method, the text between the first and the second space the target,
/// and the text from there to the third space, or to the end of the line,
/// the protocol. A line with fewer than two spaces denotes none.
pub open spec fn request_line(line: Seq<char>) -> Option<HeadView> {
    match split_once(line, space()) {
        None => None,
        Some((method, rest)) => match split_once(rest, space()) {
            None => None,
            Some((uri, tail)) => Some(
                HeadView {
                    method: method_of_token(method),
                    uri,
                    protocol: match split_once(tail, space()) {
                        Some((protocol, _)) => protocol,
                        None => tail,
                    },
                },
            ),
        },
    }
}

/// The name and the value that a header line denotes: the texts before and
/// after its first colon-space. A line without that separator denotes none.
pub open spec fn header_of_line(line: Seq<char>) -> Option<(Seq<char>, Seq<char>)> {
    split_once(line, header_separator())
}

/// The headers that a run of header lines denotes. Lines without the
/// separator add nothing; of two lines with one name the later one counts.
pub open spec fn header_map(lines: Seq<Seq<char>>) -> Map<Seq<char>, Seq<char>>
    decreases lines.len(),
{
    if lines.len() == 0 {
        Map::empty()
    } else {
        let before = header_map(lines.drop_last());
        match header_of_line(lines.last()) {
            Some((name, value)) => before.insert(name, value),
            None => before,
        }
    }
}

/// The texts of a vector of lines.
pub open spec fn line_texts(lines: Seq<String>) -> Seq<Seq<char>> {
    lines.map_values(|line: String| line@)
}

/// What parsing the lines of a head, together with a body, yields.
pub open spec fn parse(lines: Seq<Seq<char>>, body: Seq<u8>) -> Result<RequestView, ErrorView> {
    if lines.len() == 0 {
        Err(ErrorView { kind: ParseErrorKind::EmptyRequest, message: "Invalid http request"@ })
    } else {
        match request_line(lines[0]) {
            None => Err(
                ErrorView {
                    kind: ParseErrorKind::MalformedRequestLine,
                    message: "Malformed request line"@,
                },
            ),
            Some(head) => Ok(RequestView { head, headers: header_map(lines.skip(1)), body }),
        }
    }
}

/// Parses a request line.
pub fn parse_request_line(line: &str) -> (head: Option<RequestHead>)
    ensures
        match head {
            Some(h) => request_line(line@) == Some(h@),
            None => request_line(line@) is None,
        },
{
    let chars = chars_of(line);
    let sp: Vec<char> = vec![' '];
    assert(sp@ =~= space());
    let first = match find_in(&chars, &sp) {
        Some(i) => i,
        None => {
            return None;
        },
    };
    let ghost rest = line@.skip(first + 1);
    let second = match find_from(&chars, &sp, first + 1) {
        Some(i) => i,
        None => {
            return None;
        },
    };
    let ghost tail = rest.skip(second - first);
    assert(tail =~= line@.skip(second + 1));
    let end = match find_from(&chars, &sp, second + 1) {
        Some(i) => i,
        None => chars.len(),
    };
    let method = cut(line, 0, first);
    let uri = cut(line, first + 1, second);
    let protocol = cut(line, second + 1, end);
    assert(method@ =~= line@.take(first as int));
    assert(uri@ =~= rest.take(second - first - 1));
    assert(protocol@ =~= tail.take(end - second - 1));
    assert(tail.take(tail.len() as int) =~= tail);
    Some(RequestHead::new(RequestMethod::from_token(method.as_str()), uri, protocol))
}

/// Parses a header line into its name and its value.
pub fn parse_header_line(line: &str) -> (header: Option<(String, String)>)
    ensures
        match header {
            Some((name, value)) => header_of_line(line@) == Some((name@, value@)),
            None => header_of_line(line@) is None,
        },
{
    let chars = chars_of(line);
    let sep: Vec<char> = vec![':', ' '];
    assert(sep@ =~= header_separator());
    match find_in(&chars, &sep) {
        Some(i) => {
            let name = cut(line, 0, i);
            let value = cut(line, i + 2, chars.len());
            assert(name@ =~= line@.take(i as int));
            assert(value@ =~= line@.skip(i + 2));
            Some((name, value))
        },
        None => None,
    }
}

/// Parses the lines of a request's head, the blank line that ends it left
/// out, and joins the body to them. The request takes the body over.
///
/// An empty head and a request line with fewer than three tokens are the
/// only errors; a header line without a colon-space is passed over.
pub fn parse_request(request: &Vec<String>, body: Vec<u8>) -> (parsed: Result<
    HttpRequest,
    HttpParseError,
>)
    ensures
        match parsed {
            Ok(r) => parse(line_texts(request@), body@) == Ok::<RequestView, ErrorView>(r@),
            Err(e) => parse(line_texts(request@), body@) == Err::<RequestView, ErrorView>(e@),
        },
{
    let ghost lines = line_texts(request@);
    if request.len() == 0 {
        return Err(
            HttpParseError::with_kind(ParseErrorKind::EmptyRequest, "Invalid http request"),
        );
    }
    assert(lines[0] == request@[0]@);
    let head = match parse_request_line(request[0].as_str()) {
        Some(head) => head,
        None => {
            return Err(
                HttpParseError::with_kind(
                    ParseErrorKind::MalformedRequestLine,
                    "Malformed request line",
                ),
            );
        },
    };
    let mut headers: StringHashMap<String> = StringHashMap::new();
    let mut i: usize = 1;
    assert(lines.skip(1).take(0) =~= Seq::<Seq<char>>::empty());
    assert(header_texts(headers@) =~= Map::<Seq<char>, Seq<char>>::empty());
    while i < request.len()
        invariant
            1 <= i <= request.len(),
            lines == line_texts(request@),
            header_texts(headers@) == header_map(lines.skip(1).take(i - 1)),
        decreases request.len() - i,
    {
        let ghost before = headers@;
        let ghost seen = lines.skip(1).take(i - 1);
        let ghost next = lines.skip(1).take(i as int);
        assert(next.drop_last() =~= seen);
        assert(next.last() == request@[i as int]@);
        match parse_header_line(request[i].as_str()) {
            Some((name, value)) => {
                headers.insert(name, value);
                assert(header_texts(headers@) =~= header_texts(before).insert(name@, value@));
            },
            None => {},
        }
        i += 1;
    }
    assert(lines.skip(1).take(i - 1) =~= lines.skip(1));
    Ok(HttpRequest::new(head, headers, body))
}

/// A text without a space, a space, and any text: splitting at the first
/// space gives the two texts back.
pub proof fn lemma_split_at_space(token: Seq<char>, rest: Seq<char>)
    requires
        !token.contains(' '),
    ensures
        split_once(token + space() + rest, space()) == Some((token, rest)),
{
    let line = token + space() + rest;
    let at = token.len() as int;
    assert(line[at] == ' ');
    assert forall|j: int| 0 <= j < at implies !crate::text::occurs_at(line, space(), j) by {
        if crate::text::occurs_at(line, space(), j) {
            assert(line[j + 0] == space()[0]);
            assert(token[j] == ' ');
        }
    }
    crate::text::lemma_find_first(line, space(), at);
    assert(line.take(at) =~= token);
    assert(line.skip(at + 1) =~= rest);
}

/// A text without a space cannot be split at one.
pub proof fn lemma_no_space_no_split(token: Seq<char>)
    requires
        !token.contains(' '),
    ensures
        split_once(token, space()) is None,
{
    if find(token, space()) is Some {
        lemma_find_some(token, space());
        let i = find(token, space()).unwrap();
        assert(token[i + 0] == space()[0]);
        assert(token[i] == ' ');
    }
}

/// A well-formed request line is read back token by token: for texts
/// `method`, `uri` and `protocol` without spaces, the line `method uri
/// protocol` denotes the target `uri`, the protocol `protocol` and the method
/// that `method` names, whatever header lines and body follow it.
pub proof fn lemma_well_formed_request_line(
    method: Seq<char>,
    uri: Seq<char>,
    protocol: Seq<char>,
    headers: Seq<Seq<char>>,
    body: Seq<u8>,
)
    requires
        !method.contains(' '),
        !uri.contains(' '),
        !protocol.contains(' '),
    ensures
        request_line(method + space() + uri + space() + protocol) == Some(
            HeadView { method: method_of_token(method), uri, protocol },
        ),
        parse(seq![method + space() + uri + space() + protocol] + headers, body) == Ok::<
            RequestView,
            ErrorView,
        >(
            RequestView {
                head: HeadView { method: method_of_token(method), uri, protocol },
                headers: header_map(headers),
                body,
            },
        ),
{
    let line = method + space() + uri + space() + protocol;
    let rest = uri + space() + protocol;
    assert(line =~= method + space() + rest);
    lemma_split_at_space(method, rest);
    lemma_split_at_space(uri, protocol);
    lemma_no_space_no_split(protocol);
    let lines = seq![line] + headers;
    assert(lines[0] == line);
    assert(lines.skip(1) =~= headers);
}

/// A header line without a colon-space leaves no trace in the headers:
/// the lines around it denote the same headers with it and without it.
pub proof fn lemma_line_without_separator_is_dropped(
    before: Seq<Seq<char>>,
    line: Seq<char>,
    after: Seq<Seq<char>>,
)
    requires
        find(line, header_separator()) is None,
    ensures
        header_map(before + seq![line] + after) == header_map(before + after),
    decreases after.len(),
{
    let with = before + seq![line] + after;
    let without = before + after;
    if after.len() == 0 {
        assert(with.drop_last() =~= before);
        assert(with.last() == line);
        assert(without =~= before);
    } else {
        lemma_line_without_separator_is_dropped(before, line, after.drop_last());
        assert(with.drop_last() =~= before + seq![line] + after.drop_last());
        assert(without.drop_last() =~= before + after.drop_last());
        assert(with.last() == after.last());
        assert(without.last() == after.last());
    }
}

/// A header line without a colon-space is no error and changes nothing:
/// a head parses to the same result with it and without it.
pub proof fn lemma_parse_passes_over_line_without_separator(
    first: Seq<char>,
    before: Seq<Seq<char>>,
    line: Seq<char>,
    after: Seq<Seq<char>>,
    body: Seq<u8>,
)
    requires
        find(line, header_separator()) is None,
    ensures
        parse(seq![first] + before + seq![line] + after, body) == parse(
            seq![first] + before + after,
            body,
        ),
{
    let with = seq![first] + before + seq![line] + after;
    let without = seq![first] + before + after;
    assert(with[0] == first);
    assert(without[0] == first);
    assert(with.skip(1) =~= before + seq![line] + after);
    assert(without.skip(1) =~= before + after);
    lemma_line_without_separator_is_dropped(before, line, after);
}

} // verus!
