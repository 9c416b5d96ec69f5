//! Content-Length framing of JSON-RPC messages on a byte stream.
//!
//! A frame is a header block — `Name: value` lines ended by an empty line —
//! followed by a body of exactly `Content-Length` bytes.

use vstd::prelude::*;

use crate::json::{Json, JsonValue};
use crate::json_text::{decode_json, encode_json, json_bytes, parsed_json};
use crate::text::{
    find_char, find_char_exec, lemma_find_char, ascii_lowercase, chars_of, decimal, is_digit, lemma_decimal, lemma_parse_decimal, lemma_trim_space_decimal,
    lemma_trim_unchanged, parse_usize, parse_usize_chars, push_decimal, str_eq, to_ascii_lowercase, trim,
    trim_line_end, trimmed,
};

verus! {

/// One header of a frame, its name lowered to ASCII lower case.
pub struct HeaderField {
    pub name: String,
    pub value: String,
}

/// The headers of a frame as they are read, line by line.
pub struct HeaderReader {
    fields: Vec<HeaderField>,
}

/// What reading one header line leads to.
#[derive(Clone, Copy, Debug, PartialEq, Eq, Structural)]
pub enum HeaderStep {
    /// Read the next line.
    Continue,
    /// The header block is complete; the body follows.
    Complete,
}

/// Why a frame could not be read.
#[derive(Clone, Copy, Debug, PartialEq, Eq, Structural)]
pub enum FrameError {
    /// The stream ended inside a header block.
    UnexpectedEof,
    /// The header block has no `Content-Length`.
    MissingContentLength,
    /// `Content-Length` is not an unsigned integer that fits a `usize`.
    InvalidContentLength,
    /// The body does not have the length that the headers announce.
    BodyLengthMismatch,
    /// The body is not one JSON text.
    InvalidJson,
}

/// The headers read so far, a later header replacing an earlier one of the same name.
pub open spec fn header_map(fields: Seq<HeaderField>) -> Map<Seq<char>, Seq<char>>
    decreases fields.len(),
{
    if fields.len() == 0 {
        Map::empty()
    } else {
        header_map(fields.drop_last()).insert(fields.last().name@, fields.last().value@)
    }
}

impl View for HeaderReader {
    type V = Map<Seq<char>, Seq<char>>;

    closed spec fn view(&self) -> Map<Seq<char>, Seq<char>> {
        header_map(self.fields@)
    }
}

/// The header that a line holds once its line break is removed: the text
/// before the first `:` (trimmed, in ASCII lower case) and the text after it
/// (trimmed); `None` for a line without `:`.
pub open spec fn spec_header_field(line: Seq<char>) -> Option<(Seq<char>, Seq<char>)> {
    let t = trim_line_end(line);
    match find_char(t, ':') {
        Some(k) => Some((ascii_lowercase(trim(t.take(k))), trim(t.skip(k + 1)))),
        None => None,
    }
}

/// Reading one header line: an empty line ends a non-empty header block and
/// is skipped before the first header; a header is recorded; any other line
/// is ignored.
pub open spec fn spec_feed_line(headers: Map<Seq<char>, Seq<char>>, line: Seq<char>) -> (Map<Seq<char>, Seq<char>>, HeaderStep) {
    if trim_line_end(line).len() == 0 {
        if headers == Map::<Seq<char>, Seq<char>>::empty() {
            (headers, HeaderStep::Continue)
        } else {
            (headers, HeaderStep::Complete)
        }
    } else {
        match spec_header_field(line) {
            Some((name, value)) => (headers.insert(name, value), HeaderStep::Continue),
            None => (headers, HeaderStep::Continue),
        }
    }
}

/// The body length that a header block announces.
pub open spec fn spec_content_length(headers: Map<Seq<char>, Seq<char>>) -> Result<usize, FrameError> {
    if !headers.dom().contains("content-length"@) {
        Err(FrameError::MissingContentLength)
    } else {
        match parse_usize(headers["content-length"@]) {
            Some(n) => Ok(n),
            None => Err(FrameError::InvalidContentLength),
        }
    }
}

/// The header block that announces a body of `n` bytes.
pub open spec fn frame_header(n: nat) -> Seq<char> {
    "Content-Length: "@ + decimal(n) + "\r\n\r\n"@
}

/// The bytes of ASCII text.
pub open spec fn ascii_bytes(s: Seq<char>) -> Seq<u8> {
    s.map_values(|c: char| c as u8)
}

/// A frame: the header announcing the body's length, then the body.
pub open spec fn spec_frame(body: Seq<u8>) -> Seq<u8> {
    ascii_bytes(frame_header(body.len())) + body
}

/// The header map is empty exactly when no header was recorded.
proof fn lemma_header_map_empty(fields: Seq<HeaderField>)
    ensures
        (header_map(fields) == Map::<Seq<char>, Seq<char>>::empty()) <==> fields.len() == 0,
{
    if fields.len() > 0 {
        let m = header_map(fields);
        assert(m.dom().contains(fields.last().name@));
    }
}

/// The length of `chars` once trailing carriage returns and line feeds are removed.
fn line_content_len(chars: &Vec<char>) -> (res: usize)
    ensures
        res <= chars.len(),
        trim_line_end(chars@) == chars@.take(res as int),
{
    let mut n = chars.len();
    assert(chars@.take(n as int) =~= chars@);
    while n > 0 && (chars[n - 1] == '\r' || chars[n - 1] == '\n')
        invariant
            n <= chars.len(),
            trim_line_end(chars@) == trim_line_end(chars@.take(n as int)),
        decreases n,
    {
        assert(chars@.take(n as int).drop_last() =~= chars@.take(n - 1));
        n = n - 1;
    }
    n
}

impl HeaderReader {
    /// A reader that has read no header yet.
    pub fn new() -> (res: Self)
        ensures
            res@ == Map::<Seq<char>, Seq<char>>::empty(),
    {
        HeaderReader { fields: Vec::new() }
    }

    /// Whether no header has been recorded.
    pub fn is_empty(&self) -> (res: bool)
        ensures
            res == (self@ == Map::<Seq<char>, Seq<char>>::empty()),
    {
        proof {
            lemma_header_map_empty(self.fields@);
        }
        self.fields.len() == 0
    }

    /// Reads one line of the header block, as read from the stream with its
    /// line break.
    pub fn feed_line(&mut self, line: &str) -> (step: HeaderStep)
        ensures
            (final(self)@, step) == spec_feed_line(old(self)@, line@),
    {
        let chars = chars_of(line);
        let n = line_content_len(&chars);
        let ghost t = chars@.take(n as int);
        if n == 0 {
            if self.is_empty() {
                return HeaderStep::Continue;
            } else {
                return HeaderStep::Complete;
            }
        }
        let prefix = string_prefix(&chars, n);
        let tchars = chars_of(prefix.as_str());
        assert(tchars@ == t);
        match find_char_exec(&tchars, ':') {
            Some(k) => {
                let raw_name = trimmed(&tchars, 0, k);
                let name = to_ascii_lowercase(raw_name.as_str());
                let value = trimmed(&tchars, k + 1, n);
                assert(tchars@.subrange(0, k as int) =~= t.take(k as int));
                assert(tchars@.subrange(k + 1, n as int) =~= t.skip(k + 1));
                let ghost before = self.fields@;
                self.fields.push(HeaderField { name, value });
                assert(self.fields@.drop_last() =~= before);
                HeaderStep::Continue
            },
            None => HeaderStep::Continue,
        }
    }

    /// The end of the stream reached while reading headers: fine before any
    /// header (there is no further frame), an error inside a header block.
    pub fn at_end_of_stream(&self) -> (res: Result<(), FrameError>)
        ensures
            res is Ok <==> self@ == Map::<Seq<char>, Seq<char>>::empty(),
            res matches Err(e) ==> e == FrameError::UnexpectedEof,
    {
        if self.is_empty() {
            Ok(())
        } else {
            Err(FrameError::UnexpectedEof)
        }
    }

    /// The body length announced by the headers read.
    pub fn content_length(&self) -> (res: Result<usize, FrameError>)
        ensures
            res == spec_content_length(self@),
    {
        let mut i = self.fields.len();
        assert(self.fields@.take(i as int) =~= self.fields@);
        while i > 0
            invariant
                i <= self.fields.len(),
                header_map(self.fields@).dom().contains("content-length"@) ==> (
                    header_map(self.fields@.take(i as int)).dom().contains("content-length"@)
                    && header_map(self.fields@)["content-length"@] == header_map(self.fields@.take(i as int))["content-length"@]),
                !header_map(self.fields@).dom().contains("content-length"@) ==>
                    !header_map(self.fields@.take(i as int)).dom().contains("content-length"@),
                header_map(self.fields@.take(i as int)).dom().contains("content-length"@) ==>
                    header_map(self.fields@).dom().contains("content-length"@),
            decreases i,
        {
            assert(self.fields@.take(i as int).drop_last() =~= self.fields@.take(i - 1));
            if str_eq(self.fields[i - 1].name.as_str(), "content-length") {
                let chars = chars_of(self.fields[i - 1].value.as_str());
                return match parse_usize_chars(&chars) {
                    Some(n) => Ok(n),
                    None => Err(FrameError::InvalidContentLength),
                };
            }
            i = i - 1;
        }
        Err(FrameError::MissingContentLength)
    }
}

/// The first `n` characters of `chars` as a string.
fn string_prefix(chars: &Vec<char>, n: usize) -> (res: String)
    requires
        n <= chars.len(),
    ensures
        res@ == chars@.take(n as int),
{
    let res = crate::text::string_from_chars(chars, 0, n);
    assert(chars@.subrange(0, n as int) =~= chars@.take(n as int));
    res
}

/// Frames a body: its `Content-Length` header block, then the body.
pub fn encode_frame(body: &[u8]) -> (res: Vec<u8>)
    ensures
        res@ == spec_frame(body@),
{
    let mut header: Vec<char> = chars_of("Content-Length: ");
    push_decimal(body.len() as u64, &mut header);
    let tail = chars_of("\r\n\r\n");
    let mut k: usize = 0;
    let ghost h0 = header@;
    while k < tail.len()
        invariant
            k <= tail.len(),
            header@ == h0 + tail@.take(k as int),
        decreases tail.len() - k,
    {
        header.push(tail[k]);
        assert(tail@.take(k + 1) =~= tail@.take(k as int).push(tail@[k as int]));
        k = k + 1;
    }
    assert(tail@.take(tail.len() as int) =~= tail@);
    assert(header@ =~= frame_header(body@.len()));
    let mut out: Vec<u8> = Vec::new();
    let mut i: usize = 0;
    while i < header.len()
        invariant
            i <= header.len(),
            out@ == ascii_bytes(header@.take(i as int)),
        decreases header.len() - i,
    {
        out.push(header[i] as u8);
        assert(ascii_bytes(header@.take(i + 1)) =~= ascii_bytes(header@.take(i as int)).push(header@[i as int] as u8));
        i = i + 1;
    }
    assert(header@.take(header.len() as int) =~= header@);
    let ghost hb = out@;
    let mut j: usize = 0;
    while j < body.len()
        invariant
            j <= body.len(),
            out@ == hb + body@.take(j as int),
        decreases body.len() - j,
    {
        out.push(body[j]);
        assert(body@.take(j + 1) =~= body@.take(j as int).push(body@[j as int]));
        j = j + 1;
    }
    assert(body@.take(body.len() as int) =~= body@);
    out
}

/// The message that a frame carries: the body must have the length that the
/// headers announce and must be one JSON text.
pub open spec fn spec_decode_frame_body(headers: Map<Seq<char>, Seq<char>>, body: Seq<u8>) -> Result<Json, FrameError> {
    match spec_content_length(headers) {
        Err(e) => Err(e),
        Ok(n) => if n != body.len() {
            Err(FrameError::BodyLengthMismatch)
        } else {
            match parsed_json(body) {
                Some(v) => Ok(v),
                None => Err(FrameError::InvalidJson),
            }
        },
    }
}

/// Reads the message of a frame from its complete header block and its body.
pub fn decode_frame_body(headers: &HeaderReader, body: &[u8]) -> (res: Result<JsonValue, FrameError>)
    ensures
        match res {
            Ok(v) => spec_decode_frame_body(headers@, body@) == Ok::<Json, FrameError>(v@),
            Err(e) => spec_decode_frame_body(headers@, body@) == Err::<Json, FrameError>(e),
        },
{
    let n = match headers.content_length() {
        Ok(n) => n,
        Err(e) => return Err(e),
    };
    if n != body.len() {
        return Err(FrameError::BodyLengthMismatch);
    }
    match decode_json(body) {
        Some(v) => Ok(v),
        None => Err(FrameError::InvalidJson),
    }
}

/// The frame that carries a message: the JSON text of `value` behind its
/// `Content-Length` header block.
pub fn encode_message(value: &JsonValue) -> (res: Vec<u8>)
    ensures
        res@ == spec_frame(json_bytes(value@)),
{
    let body = encode_json(value);
    encode_frame(body.as_slice())
}

/// The first line of the header block that announces `n` bytes.
pub open spec fn length_line(n: nat) -> Seq<char> {
    "Content-Length: "@ + decimal(n) + "\r\n"@
}

/// Writing then reading a frame gives the body back: the frame of `body` is
/// the announcing line, an empty line and the body; each of the two lines
/// ends at its first line feed, so a line reader splits them off as they
/// are; reading them as header lines completes the header block after the
/// empty line; and the length that the headers announce is the length of
/// `body`, so the bytes that follow are exactly `body`.
pub proof fn law_frame_round_trip(body: Seq<u8>)
    requires
        body.len() <= usize::MAX,
    ensures
        spec_frame(body) == ascii_bytes(length_line(body.len()) + "\r\n"@) + body,
        find_char(length_line(body.len()), '\n') == Some(length_line(body.len()).len() - 1),
        find_char("\r\n"@, '\n') == Some(1int),
        ({
            let (m1, s1) = spec_feed_line(Map::empty(), length_line(body.len()));
            let (m2, s2) = spec_feed_line(m1, "\r\n"@);
            &&& s1 == HeaderStep::Continue
            &&& s2 == HeaderStep::Complete
            &&& spec_content_length(m2) == Ok::<usize, FrameError>(body.len() as usize)
        }),
{
    let n = body.len();
    reveal_strlit("Content-Length: ");
    reveal_strlit("\r\n");
    reveal_strlit("\r\n\r\n");
    reveal_strlit("content-length");
    lemma_decimal(n);
    let d = decimal(n);
    let line = length_line(n);
    assert(frame_header(n) =~= line + "\r\n"@);
    // The line ends at its first line feed.
    assert forall|j: int| 0 <= j < line.len() - 1 implies line[j] != '\n' by {
        if j >= 16 && j < 16 + d.len() {
            assert(line[j] == d[j - 16]);
            assert(is_digit(d[j - 16]));
        }
    }
    lemma_find_char(line, '\n', line.len() - 1);
    lemma_find_char("\r\n"@, '\n', 1);
    // The line holds the header `content-length: <n>`.
    let t = "Content-Length: "@ + d;
    assert(line.drop_last() =~= t + seq!['\r']);
    assert(line.drop_last().drop_last() =~= t);
    assert(is_digit(t.last()));
    assert(trim_line_end(line) == trim_line_end(line.drop_last()));
    assert(trim_line_end(line.drop_last()) == trim_line_end(t));
    assert(trim_line_end(t) == t);
    assert forall|j: int| 0 <= j < 14 implies t[j] != ':' by {}
    lemma_find_char(t, ':', 14);
    let name = t.take(14);
    assert(name =~= "Content-Length"@) by {
        reveal_strlit("Content-Length");
    }
    reveal_strlit("Content-Length");
    lemma_trim_unchanged(name);
    assert(ascii_lowercase(name) =~= "content-length"@);
    assert(t.skip(15) =~= seq![' '] + d);
    lemma_trim_space_decimal(n);
    let m1 = Map::<Seq<char>, Seq<char>>::empty().insert("content-length"@, d);
    assert(spec_header_field(line) == Some(("content-length"@, d)));
    assert(spec_feed_line(Map::empty(), line) == (m1, HeaderStep::Continue));
    assert(trim_line_end("\r\n"@) =~= Seq::<char>::empty()) by {
        let crlf = "\r\n"@;
        assert(crlf.drop_last() =~= seq!['\r']);
        assert(seq!['\r'].drop_last() =~= Seq::<char>::empty());
        assert(trim_line_end(crlf) == trim_line_end(seq!['\r']));
        assert(trim_line_end(seq!['\r']) == trim_line_end(Seq::<char>::empty()));
    }
    assert(m1.dom().contains("content-length"@));
    assert(m1 != Map::<Seq<char>, Seq<char>>::empty());
    lemma_parse_decimal(n);
}

/// Reading a frame gives back the message written: the headers of the frame
/// of `body` announce its length, so the message read from them and the
/// bytes that follow is what `serde_json` reads from `body` itself.
pub proof fn law_message_round_trip(body: Seq<u8>)
    requires
        body.len() <= usize::MAX,
    ensures
        ({
            let (m1, s1) = spec_feed_line(Map::empty(), length_line(body.len()));
            let (m2, s2) = spec_feed_line(m1, "\r\n"@);
            spec_decode_frame_body(m2, body) == match parsed_json(body) {
                Some(v) => Ok::<Json, FrameError>(v),
                None => Err(FrameError::InvalidJson),
            }
        }),
{
    law_frame_round_trip(body);
}

} // verus!
