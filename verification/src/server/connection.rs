//! The protocol of one connection: which read comes next, and what the bytes
//! that were read make of the request.
//!
//! The reader never touches a socket. Its caller reads what the reader asks
//! for and reports what came back.

use crate::http::parser::{header_of_line, line_texts, parse_header_line};
use crate::text::{ascii_lower, chars_of, parse_usize, same_text, to_ascii_lower, to_usize};
use vstd::prelude::*;

verus! {

/// The line is a header named `content-length`, in any mix of ASCII case.
pub open spec fn names_content_length(line: Seq<char>) -> bool {
    match header_of_line(line) {
        Some((name, _)) => ascii_lower(name) == "content-length"@,
        None => false,
    }
}

/// The number that a header line's value denotes; 0 where it denotes none.
pub open spec fn announced_length(line: Seq<char>) -> usize {
    match header_of_line(line) {
        Some((_, value)) => match parse_usize(value) {
            Some(n) => n,
            None => 0,
        },
        None => 0,
    }
}

/// The length of the body that a head announces: the value of its first
/// `content-length` header, or 0 where there is none or its value is no
/// number.
pub open spec fn content_length(lines: Seq<Seq<char>>) -> usize
    decreases lines.len(),
{
    if lines.len() == 0 {
        0
    } else if names_content_length(lines[0]) {
        announced_length(lines[0])
    } else {
        content_length(lines.drop_first())
    }
}

/// The length of the body that the lines of a head announce.
pub fn announced_body_length(lines: &Vec<String>) -> (length: usize)
    ensures
        length == content_length(line_texts(lines@)),
{
    let ghost texts = line_texts(lines@);
    let wanted = chars_of("content-length");
    let mut i: usize = 0;
    assert(texts.skip(0) =~= texts);
    while i < lines.len()
        invariant
            i <= lines.len(),
            texts == line_texts(lines@),
            wanted@ == "content-length"@,
            content_length(texts) == content_length(texts.skip(i as int)),
        decreases lines.len() - i,
    {
        let ghost rest = texts.skip(i as int);
        assert(rest[0] == lines@[i as int]@);
        assert(rest.drop_first() =~= texts.skip(i + 1));
        match parse_header_line(lines[i].as_str()) {
            Some((name, value)) => {
                let folded = to_ascii_lower(&chars_of(name.as_str()));
                if same_text(&folded, &wanted) {
                    return match to_usize(&chars_of(value.as_str())) {
                        Some(n) => n,
                        None => 0,
                    };
                }
            },
            None => {},
        }
        i += 1;
    }
    0
}

/// Where a reader stands.
#[derive(Clone, Copy, Debug, PartialEq, Eq, Structural)]
pub enum Phase {
    /// The head is being read, line by line.
    Head,
    /// The head is complete and announces a body, which is being read.
    Body,
    /// The request is complete.
    Complete,
}

/// What a read brought.
pub enum ReadEvent {
    /// A line, without its line ending.
    Line(String),
    /// The bytes that a read of the body brought: as many as were asked for,
    /// or fewer where the stream ended first.
    Body(Vec<u8>),
    /// Nothing: the stream has ended.
    EndOfStream,
}

/// Mathematical content of a [`ReadEvent`].
pub ghost enum EventView {
    Line(Seq<char>),
    Body(Seq<u8>),
    EndOfStream,
}

impl View for ReadEvent {
    type V = EventView;

    open spec fn view(&self) -> EventView {
        match self {
            ReadEvent::Line(line) => EventView::Line(line@),
            ReadEvent::Body(bytes) => EventView::Body(bytes@),
            ReadEvent::EndOfStream => EventView::EndOfStream,
        }
    }
}

/// What the caller of a reader does next.
#[derive(Clone, Copy, Debug, PartialEq, Eq, Structural)]
pub enum ReadAction {
    /// Read one line and report it.
    ReadLine,
    /// Read this many bytes, or up to the end of the stream, and report them.
    ReadBody(usize),
    /// Read no more: answer the request.
    Respond,
}

/// Mathematical content of a [`RequestReader`].
pub ghost struct ReaderView {
    pub phase: Phase,
    pub lines: Seq<Seq<char>>,
    pub expected: usize,
    pub body: Seq<u8>,
}

/// The reader before anything was read.
pub open spec fn initial() -> ReaderView {
    ReaderView { phase: Phase::Head, lines: Seq::empty(), expected: 0, body: Seq::empty() }
}

/// The reader once its head is complete: it goes on to the body where the
/// head announces one, and is done where it announces none.
pub open spec fn head_complete(reader: ReaderView) -> ReaderView {
    let expected = content_length(reader.lines);
    if expected > 0 {
        ReaderView { phase: Phase::Body, expected, ..reader }
    } else {
        ReaderView { phase: Phase::Complete, ..reader }
    }
}

/// The part of `received` that is the body: its first `expected` bytes, or
/// all of it where it is shorter.
pub open spec fn accepted_body(expected: usize, received: Seq<u8>) -> Seq<u8> {
    if received.len() <= expected {
        received
    } else {
        received.take(expected as int)
    }
}

/// The reader after one event.
///
/// While the head is read, a line that is not empty joins the head, and an
/// empty line completes it. The end of the stream completes the request with
/// what there is. While the body is read, the bytes that came are the body,
/// cut to the announced length. An event that the reader did not ask for
/// changes nothing.
pub open spec fn step(reader: ReaderView, event: EventView) -> ReaderView {
    match (reader.phase, event) {
        (Phase::Head, EventView::Line(line)) => if line.len() == 0 {
            head_complete(reader)
        } else {
            ReaderView { lines: reader.lines.push(line), ..reader }
        },
        (Phase::Head, EventView::EndOfStream) => ReaderView { phase: Phase::Complete, ..reader },
        (Phase::Body, EventView::Body(received)) => ReaderView {
            phase: Phase::Complete,
            body: accepted_body(reader.expected, received),
            ..reader
        },
        (Phase::Body, EventView::EndOfStream) => ReaderView { phase: Phase::Complete, ..reader },
        _ => reader,
    }
}

/// What the caller of a reader in this state does next.
pub open spec fn action_of(reader: ReaderView) -> ReadAction {
    match reader.phase {
        Phase::Head => ReadAction::ReadLine,
        Phase::Body => ReadAction::ReadBody(reader.expected),
        Phase::Complete => ReadAction::Respond,
    }
}

/// Gathers the head and the body of one request from what its caller reads.
pub struct RequestReader {
    phase: Phase,
    lines: Vec<String>,
    expected: usize,
    body: Vec<u8>,
}

impl View for RequestReader {
    type V = ReaderView;

    closed spec fn view(&self) -> ReaderView {
        ReaderView {
            phase: self.phase,
            lines: line_texts(self.lines@),
            expected: self.expected,
            body: self.body@,
        }
    }
}

impl RequestReader {
    /// A reader that has read nothing yet.
    pub fn new() -> (reader: RequestReader)
        ensures
            reader@ == initial(),
    {
        let reader = RequestReader {
            phase: Phase::Head,
            lines: Vec::new(),
            expected: 0,
            body: Vec::new(),
        };
        assert(line_texts(reader.lines@) =~= Seq::<Seq<char>>::empty());
        reader
    }

    /// What to do next.
    pub fn action(&self) -> (action: ReadAction)
        ensures
            action == action_of(self@),
    {
        match self.phase {
            Phase::Head => ReadAction::ReadLine,
            Phase::Body => ReadAction::ReadBody(self.expected),
            Phase::Complete => ReadAction::Respond,
        }
    }

    /// Takes in what a read brought, and says what to do next.
    pub fn advance(&mut self, event: ReadEvent) -> (action: ReadAction)
        ensures
            final(self)@ == step(old(self)@, event@),
            action == action_of(final(self)@),
    {
        match (self.phase, event) {
            (Phase::Head, ReadEvent::Line(line)) => {
                if line.as_str().is_empty() {
                    let expected = announced_body_length(&self.lines);
                    if expected > 0 {
                        self.phase = Phase::Body;
                        self.expected = expected;
                    } else {
                        self.phase = Phase::Complete;
                    }
                } else {
                    let ghost before = line_texts(self.lines@);
                    self.lines.push(line);
                    assert(line_texts(self.lines@) =~= before.push(line@));
                }
            },
            (Phase::Head, ReadEvent::EndOfStream) => {
                self.phase = Phase::Complete;
            },
            (Phase::Body, ReadEvent::Body(received)) => {
                let mut body = received;
                if body.len() > self.expected {
                    body.truncate(self.expected);
                }
                self.body = body;
                self.phase = Phase::Complete;
            },
            (Phase::Body, ReadEvent::EndOfStream) => {
                self.phase = Phase::Complete;
            },
            _ => {},
        }
        self.action()
    }

    /// The lines of the head and the body, as far as they were read.
    pub fn into_parts(self) -> (parts: (Vec<String>, Vec<u8>))
        ensures
            line_texts(parts.0@) == self@.lines,
            parts.1@ == self@.body,
    {
        (self.lines, self.body)
    }
}

/// The reader after a run of lines, one event each.
pub open spec fn after_lines(reader: ReaderView, lines: Seq<Seq<char>>) -> ReaderView
    decreases lines.len(),
{
    if lines.len() == 0 {
        reader
    } else {
        step(after_lines(reader, lines.drop_last()), EventView::Line(lines.last()))
    }
}

/// Lines that are not empty all join the head, in their order.
pub proof fn lemma_lines_join_head(lines: Seq<Seq<char>>)
    requires
        forall|i: int| 0 <= i < lines.len() ==> (#[trigger] lines[i]).len() > 0,
    ensures
        after_lines(initial(), lines) == (ReaderView { lines, ..initial() }),
    decreases lines.len(),
{
    if lines.len() == 0 {
        assert(lines =~= Seq::<Seq<char>>::empty());
    } else {
        lemma_lines_join_head(lines.drop_last());
        assert(lines.drop_last().push(lines.last()) =~= lines);
    }
}

/// The body of a request is read to the announced length and no further.
///
/// Take a head of lines that are not empty, then the empty line, then one
/// read of the body. Where the head announces `n > 0` bytes, the reader asks
/// for exactly `n`; the body it keeps is what came, cut to `n` bytes: never
/// more than `n`, never more than came, and exactly the first `n` where at
/// least `n` came. Where the head announces nothing, the request is complete
/// at the empty line, with an empty body and no read of one.
pub proof fn lemma_body_follows_announced_length(lines: Seq<Seq<char>>, received: Seq<u8>)
    requires
        forall|i: int| 0 <= i < lines.len() ==> (#[trigger] lines[i]).len() > 0,
    ensures
        ({
            let n = content_length(lines);
            let at_blank = step(after_lines(initial(), lines), EventView::Line(Seq::empty()));
            let done = step(at_blank, EventView::Body(received));
            &&& at_blank.lines == lines
            &&& n == 0 ==> {
                &&& action_of(at_blank) == ReadAction::Respond
                &&& at_blank.body.len() == 0
            }
            &&& n > 0 ==> {
                &&& action_of(at_blank) == ReadAction::ReadBody(n)
                &&& action_of(done) == ReadAction::Respond
                &&& done.lines == lines
                &&& done.body.len() <= n
                &&& done.body.len() <= received.len()
                &&& done.body == received.take(done.body.len() as int)
                &&& received.len() >= n ==> done.body == received.take(n as int)
            }
        }),
{
    lemma_lines_join_head(lines);
    let n = content_length(lines);
    if n > 0 {
        if received.len() <= n {
            assert(received.take(received.len() as int) =~= received);
        }
    }
}

/// A stream that ends early still completes the request: whatever the
/// reader was doing, the end of the stream leaves it with nothing to read,
/// and with the head and the body it had.
pub proof fn lemma_end_of_stream_completes(reader: ReaderView)
    ensures
        ({
            let done = step(reader, EventView::EndOfStream);
            &&& action_of(done) == ReadAction::Respond
            &&& done.lines == reader.lines
            &&& done.body == reader.body
        }),
{
}

} // verus!
