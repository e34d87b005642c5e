//! The request line and header block of an HTTP/1.x retrieval request, and
//! the head of a response.

use crate::text::{
    chars_of, cut, find, find_in, lemma_find_from, same_chars, same_text, span_text,
    spans_text, split_terminator, split_terminator_spans, trim, trim_span, valid_span,
    valid_spans, word_spans, words, Span,
};
use vstd::prelude::*;
use vstd::utf8::encode_utf8;

verus! {

/// Why a request was refused.
#[derive(Debug, Clone, Copy, PartialEq, Eq, Structural)]
pub enum ParseError {
    /// The first word of the request line is not `GET`.
    UnsupportedMethod,
    /// The third word of the request line is neither `HTTP/1.0` nor `HTTP/1.1`.
    InvalidVersion,
}

impl ParseError {
    /// The reason in words.
    pub fn message(&self) -> (s: &'static str)
        ensures
            s@ == match *self {
                ParseError::UnsupportedMethod => "Non-GET requests not supported"@,
                ParseError::InvalidVersion => "Invalid HTTP version"@,
            },
    {
        match self {
            ParseError::UnsupportedMethod => "Non-GET requests not supported",
            ParseError::InvalidVersion => "Invalid HTTP version",
        }
    }
}

/// What a request says: the path it asks for and its header fields.
pub struct RequestView {
    pub uri: Seq<char>,
    pub fields: Map<Seq<char>, Seq<char>>,
}

/// A parsed request. It borrows from the text it was parsed from.
#[derive(Debug)]
pub struct Request<'a> {
    uri: &'a str,
    fields: Vec<(&'a str, &'a str)>,
}

/// The text of each pair.
pub open spec fn pairs_text(pairs: Seq<(&str, &str)>) -> Seq<(Seq<char>, Seq<char>)> {
    Seq::new(pairs.len(), |i: int| (pairs[i].0@, pairs[i].1@))
}

/// The map that results from inserting `pairs` in order, so that of two
/// pairs with the same key the later one stays.
pub open spec fn pairs_map(pairs: Seq<(Seq<char>, Seq<char>)>) -> Map<Seq<char>, Seq<char>>
    decreases pairs.len(),
{
    if pairs.len() == 0 {
        Map::empty()
    } else {
        pairs_map(pairs.drop_last()).insert(pairs.last().0, pairs.last().1)
    }
}

/// The part of `data` before the first blank line.
pub open spec fn head(data: Seq<char>) -> Seq<char> {
    match find(data, "\r\n\r\n"@) {
        Some(i) => data.take(i),
        None => data,
    }
}

/// The lines of the head, without their line ends.
pub open spec fn lines(data: Seq<char>) -> Seq<Seq<char>> {
    split_terminator(head(data), "\r\n"@)
}

/// The first line, or the empty text where there is none.
pub open spec fn request_line(data: Seq<char>) -> Seq<char> {
    if lines(data).len() > 0 {
        lines(data)[0]
    } else {
        Seq::empty()
    }
}

/// The lines after the first.
pub open spec fn header_lines(data: Seq<char>) -> Seq<Seq<char>> {
    if lines(data).len() > 0 {
        lines(data).skip(1)
    } else {
        Seq::empty()
    }
}

/// The `i`-th word of `line`, or the empty text where it has fewer words.
pub open spec fn word(line: Seq<char>, i: int) -> Seq<char> {
    let w = words(line);
    if 0 <= i < w.len() {
        w[i]
    } else {
        Seq::empty()
    }
}

/// The path that the request line `line` asks for. The line has to read
/// `GET`, a path, and `HTTP/1.0` or `HTTP/1.1`; what follows is ignored.
pub open spec fn target(line: Seq<char>) -> Result<Seq<char>, ParseError> {
    if word(line, 0) != "GET"@ {
        Err(ParseError::UnsupportedMethod)
    } else if word(line, 2) != "HTTP/1.0"@ && word(line, 2) != "HTTP/1.1"@ {
        Err(ParseError::InvalidVersion)
    } else {
        Ok(word(line, 1))
    }
}

/// The key and the value of a header line: what stands before and after its
/// first colon, trimmed. A line without a colon is no header.
pub open spec fn header(line: Seq<char>) -> Option<(Seq<char>, Seq<char>)> {
    match find(line, ":"@) {
        Some(i) => Some((trim(line.take(i)), trim(line.skip(i + 1)))),
        None => None,
    }
}

/// The headers among `lines`, in order.
pub open spec fn headers(lines: Seq<Seq<char>>) -> Seq<(Seq<char>, Seq<char>)>
    decreases lines.len(),
{
    if lines.len() == 0 {
        Seq::empty()
    } else {
        match header(lines.last()) {
            Some(pair) => headers(lines.drop_last()).push(pair),
            None => headers(lines.drop_last()),
        }
    }
}

/// Whether the request line is `GET <path> HTTP/1.0` or `GET <path> HTTP/1.1`.
pub open spec fn well_formed(data: Seq<char>) -> bool {
    target(request_line(data)) is Ok
}

/// What parsing `data` gives.
pub open spec fn parsed(data: Seq<char>) -> Result<RequestView, ParseError> {
    match target(request_line(data)) {
        Ok(uri) => Ok(RequestView { uri, fields: pairs_map(headers(header_lines(data))) }),
        Err(e) => Err(e),
    }
}

impl<'a> View for Request<'a> {
    type V = RequestView;

    closed spec fn view(&self) -> RequestView {
        RequestView { uri: self.uri@, fields: pairs_map(pairs_text(self.fields@)) }
    }
}

/// The value of the last pair of `pairs` whose key is `key`.
pub open spec fn lookup(pairs: Seq<(Seq<char>, Seq<char>)>, key: Seq<char>) -> Option<Seq<char>>
    decreases pairs.len(),
{
    if pairs.len() == 0 {
        None
    } else if pairs.last().0 == key {
        Some(pairs.last().1)
    } else {
        lookup(pairs.drop_last(), key)
    }
}

/// `pairs_map(pairs)` holds for each key what `lookup` finds for it.
pub proof fn lemma_pairs_map(pairs: Seq<(Seq<char>, Seq<char>)>, key: Seq<char>)
    ensures
        pairs_map(pairs).contains_key(key) <==> lookup(pairs, key) is Some,
        lookup(pairs, key) matches Some(v) ==> pairs_map(pairs)[key] == v,
    decreases pairs.len(),
{
    if pairs.len() > 0 {
        lemma_pairs_map(pairs.drop_last(), key);
    }
}

/// The `i`-th word of `line`, or the empty text where it has fewer words.
fn word_at<'b>(line: &'b [char], ws: &Vec<Span>, i: usize) -> (w: &'b [char])
    requires
        valid_spans(line@, ws@),
        spans_text(line@, ws@) == words(line@),
    ensures
        w@ == word(line@, i as int),
{
    if i < ws.len() {
        let sp = ws[i];
        vstd::slice::slice_subrange(line, sp.0, sp.1)
    } else {
        vstd::slice::slice_subrange(line, 0, 0)
    }
}

/// The span of the path that the request line `line` asks for.
fn target_span(line: &[char]) -> (r: Result<Span, ParseError>)
    ensures
        match r {
            Ok(span) => valid_span(line@, span) && target(line@) == Ok::<Seq<char>, ParseError>(
                span_text(line@, span),
            ),
            Err(e) => target(line@) == Err::<Seq<char>, ParseError>(e),
        },
{
    let ws = word_spans(line);
    if !reads(word_at(line, &ws, 0), "GET") {
        return Err(ParseError::UnsupportedMethod);
    }
    let version = word_at(line, &ws, 2);
    if !reads(version, "HTTP/1.0") && !reads(version, "HTTP/1.1") {
        return Err(ParseError::InvalidVersion);
    }
    proof {
        lemma_request_words();
    }
    let span = ws[1];
    Ok(span)
}

/// The spans of the lines of the head of `all`, and where the head ends.
fn head_lines(all: &[char]) -> (r: (usize, Vec<Span>))
    ensures
        r.0 <= all.len(),
        all@.take(r.0 as int) == head(all@),
        valid_spans(head(all@), r.1@),
        spans_text(head(all@), r.1@) == lines(all@),
{
    let crlf = chars_of("\r\n");
    proof {
        lemma_request_words();
    }
    let head_end = head_len(all);
    let head_chars = vstd::slice::slice_subrange(all, 0, head_end);
    let line_spans = split_terminator_spans(head_chars, crlf.as_slice());
    (head_end, line_spans)
}

/// The header that the line `sp` of `head` holds, cut out of `data`.
fn header_at<'a>(data: &'a str, head: &[char], sp: Span) -> (r: Option<(&'a str, &'a str)>)
    requires
        head.len() <= data@.len(),
        head@ == data@.take(head.len() as int),
        valid_span(head@, sp),
    ensures
        match r {
            Some(pair) => header(span_text(head@, sp)) == Some((pair.0@, pair.1@)),
            None => header(span_text(head@, sp)) is None,
        },
{
    let line = vstd::slice::slice_subrange(head, sp.0, sp.1);
    let colon = chars_of(":");
    proof {
        reveal_strlit(":");
        lemma_find_from(line@, colon@, 0);
    }
    match find_in(line, colon.as_slice(), 0) {
        Some(i) => {
            let before = vstd::slice::slice_subrange(line, 0, i);
            let after = vstd::slice::slice_subrange(line, i + 1, line.len());
            let ks = trim_span(before);
            let vs = trim_span(after);
            let key = data.substring_char(sp.0 + ks.0, sp.0 + ks.1);
            let value = data.substring_char(sp.0 + i + 1 + vs.0, sp.0 + i + 1 + vs.1);
            Some((key, value))
        },
        None => None,
    }
}

/// The lengths of the words that a request line is held against.
proof fn lemma_request_words()
    ensures
        "\r\n\r\n"@.len() == 4,
        "\r\n"@.len() == 2,
        "GET"@.len() == 3,
        "HTTP/1.0"@.len() == 8,
        "HTTP/1.1"@.len() == 8,
{
    reveal_strlit("\r\n\r\n");
    reveal_strlit("\r\n");
    reveal_strlit("GET");
    reveal_strlit("HTTP/1.0");
    reveal_strlit("HTTP/1.1");
}

/// Whether the text `w` reads `lit`.
fn reads(w: &[char], lit: &str) -> (b: bool)
    ensures
        b == (w@ == lit@),
{
    let expected = chars_of(lit);
    same_chars(w, expected.as_slice())
}

/// Where the head of `all` ends.
fn head_len(all: &[char]) -> (n: usize)
    ensures
        n <= all.len(),
        all@.take(n as int) == head(all@),
{
    let blank = chars_of("\r\n\r\n");
    proof {
        lemma_find_from(all@, blank@, 0);
    }
    match find_in(all, blank.as_slice(), 0) {
        Some(i) => i,
        None => all.len(),
    }
}

/// The headers on the lines after the first, cut out of `data`.
fn headers_of<'a>(data: &'a str, head: &[char], line_spans: &Vec<Span>) -> (fields: Vec<
    (&'a str, &'a str),
>)
    requires
        head.len() <= data@.len(),
        head@ == data@.take(head.len() as int),
        valid_spans(head@, line_spans@),
        line_spans.len() > 0,
    ensures
        pairs_text(fields@) == headers(spans_text(head@, line_spans@).skip(1)),
{
    let ghost hl = spans_text(head@, line_spans@).skip(1);
    let mut fields: Vec<(&'a str, &'a str)> = Vec::new();
    let mut k: usize = 1;
    while k < line_spans.len()
        invariant
            1 <= k <= line_spans.len(),
            hl == spans_text(head@, line_spans@).skip(1),
            head.len() <= data@.len(),
            head@ == data@.take(head.len() as int),
            valid_spans(head@, line_spans@),
            pairs_text(fields@) == headers(hl.take(k - 1)),
        decreases line_spans.len() - k,
    {
        let sp = line_spans[k];
        proof {
            assert(hl.take(k as int).drop_last() =~= hl.take(k - 1));
        }
        match header_at(data, head, sp) {
            Some(pair) => {
                fields.push(pair);
            },
            None => {},
        }
        k = k + 1;
    }
    proof {
        assert(hl.take(hl.len() as int) =~= hl);
    }
    fields
}

impl<'a> Request<'a> {
    /// Parses the request line and the header block at the start of `data`.
    ///
    /// Success is owed exactly to requests whose line is
    /// `GET <path> HTTP/1.0` or `GET <path> HTTP/1.1`; further words on the
    /// line are ignored. Header lines without a colon are skipped, and of two
    /// headers with one key the later stays.
    pub fn parse(data: &'a str) -> (r: Result<Request<'a>, ParseError>)
        ensures
            match r {
                Ok(req) => parsed(data@) == Ok::<RequestView, ParseError>(req@),
                Err(e) => parsed(data@) == Err::<RequestView, ParseError>(e),
            },
            r is Ok <==> well_formed(data@),
    {
        let chars = chars_of(data);
        let all = chars.as_slice();
        let (head_end, line_spans) = head_lines(all);
        let head_chars = vstd::slice::slice_subrange(all, 0, head_end);
        if line_spans.len() == 0 {
            let nothing = vstd::slice::slice_subrange(all, 0, 0);
            assert(nothing@ =~= request_line(data@));
            return match target_span(nothing) {
                Ok(span) => Ok(Request { uri: cut(data, span), fields: Vec::new() }),
                Err(e) => Err(e),
            };
        }
        let first = line_spans[0];
        let line = vstd::slice::slice_subrange(head_chars, first.0, first.1);
        match target_span(line) {
            Ok(span) => {
                let uri = cut(data, (first.0 + span.0, first.0 + span.1));
                assert(uri@ =~= span_text(line@, span));
                let fields = headers_of(data, head_chars, &line_spans);
                Ok(Request { uri, fields })
            },
            Err(e) => Err(e),
        }
    }

    /// The path that the request asks for.
    pub fn uri(&self) -> (s: &str)
        ensures
            s@ == self@.uri,
    {
        self.uri
    }

    /// The value of the header field `key`, which is matched exactly.
    pub fn get(&self, key: &str) -> (r: Option<&str>)
        ensures
            match r {
                Some(v) => self@.fields.contains_key(key@) && self@.fields[key@] == v@,
                None => !self@.fields.contains_key(key@),
            },
    {
        let ghost pairs = pairs_text(self.fields@);
        let mut i: usize = self.fields.len();
        proof {
            assert(pairs.take(i as int) =~= pairs);
        }
        while i > 0
            invariant
                i <= self.fields.len(),
                pairs == pairs_text(self.fields@),
                lookup(pairs, key@) == lookup(pairs.take(i as int), key@),
            decreases i,
        {
            let pair = self.fields[i - 1];
            proof {
                lemma_pairs_map(pairs, key@);
                assert(pairs.take(i as int).drop_last() =~= pairs.take(i - 1));
            }
            if same_text(pair.0, key) {
                return Some(pair.1);
            }
            i = i - 1;
        }
        proof {
            lemma_pairs_map(pairs, key@);
        }
        None
    }
}

/// What a response head says: its status line and its header fields in the
/// order in which they are sent.
pub struct ResponseView {
    pub status_line: Seq<char>,
    pub fields: Seq<(Seq<char>, Seq<char>)>,
}

/// The head of a response. It borrows the texts it is made of.
#[derive(Debug)]
pub struct Response<'a> {
    status_line: &'a str,
    fields: Vec<(&'a str, &'a str)>,
}

/// Whether no key occurs twice in `fields`.
pub open spec fn distinct_keys(fields: Seq<(Seq<char>, Seq<char>)>) -> bool {
    forall|i: int, j: int|
        0 <= i < j < fields.len() ==> (#[trigger] fields[i]).0 != (#[trigger] fields[j]).0
}

/// Index of the first field at or after `from` whose key is `key`.
pub open spec fn position_from(fields: Seq<(Seq<char>, Seq<char>)>, key: Seq<char>, from: int)
    -> Option<int>
    decreases fields.len() - from,
{
    if from < 0 || from >= fields.len() {
        None
    } else if fields[from].0 == key {
        Some(from)
    } else {
        position_from(fields, key, from + 1)
    }
}

/// `fields` after `key` was set to `value`: an existing field keeps its
/// place and takes the new value, a new one goes to the end.
pub open spec fn with_field(
    fields: Seq<(Seq<char>, Seq<char>)>,
    key: Seq<char>,
    value: Seq<char>,
) -> Seq<(Seq<char>, Seq<char>)> {
    match position_from(fields, key, 0) {
        Some(i) => fields.update(i, (key, value)),
        None => fields.push((key, value)),
    }
}

/// The header lines for `fields`, each as `key: value` and a line end.
pub open spec fn field_lines(fields: Seq<(Seq<char>, Seq<char>)>) -> Seq<char>
    decreases fields.len(),
{
    if fields.len() == 0 {
        Seq::empty()
    } else {
        field_lines(fields.drop_last()) + fields.last().0 + ": "@ + fields.last().1 + "\r\n"@
    }
}

impl ResponseView {
    /// The head as it goes over the wire: the status line, the header
    /// lines, and a blank line.
    pub open spec fn text(self) -> Seq<char> {
        self.status_line + "\r\n"@ + field_lines(self.fields) + "\r\n"@
    }
}

impl<'a> View for Response<'a> {
    type V = ResponseView;

    closed spec fn view(&self) -> ResponseView {
        ResponseView { status_line: self.status_line@, fields: pairs_text(self.fields@) }
    }
}

/// Where `position_from` finds a key it stands, and does not stand before;
/// where it finds none, none of the fields from `from` on has it.
pub proof fn lemma_position_from(fields: Seq<(Seq<char>, Seq<char>)>, key: Seq<char>, from: int)
    requires
        0 <= from,
    ensures
        match position_from(fields, key, from) {
            Some(i) => from <= i < fields.len() && fields[i].0 == key && forall|j: int|
                from <= j < i ==> (#[trigger] fields[j]).0 != key,
            None => forall|j: int| from <= j < fields.len() ==> (#[trigger] fields[j]).0 != key,
        },
    decreases fields.len() - from,
{
    if from < fields.len() && fields[from].0 != key {
        lemma_position_from(fields, key, from + 1);
    }
}

/// Setting a field keeps keys distinct.
pub proof fn lemma_with_field_distinct(
    fields: Seq<(Seq<char>, Seq<char>)>,
    key: Seq<char>,
    value: Seq<char>,
)
    requires
        distinct_keys(fields),
    ensures
        distinct_keys(with_field(fields, key, value)),
{
    lemma_position_from(fields, key, 0);
}

impl<'a> Response<'a> {
    /// No key occurs twice among the fields.
    pub open spec fn wf(&self) -> bool {
        distinct_keys(self@.fields)
    }

    /// A response with the given status line and no header fields.
    pub fn new(status: &'a str) -> (r: Response<'a>)
        ensures
            r@ == (ResponseView { status_line: status@, fields: Seq::empty() }),
            r.wf(),
    {
        let r = Response { status_line: status, fields: Vec::new() };
        assert(pairs_text(r.fields@) =~= Seq::empty());
        r
    }

    /// Sets the header field `key` to `value`, in place of an earlier value.
    pub fn set(&mut self, key: &'a str, value: &'a str)
        ensures
            final(self)@ == (ResponseView {
                status_line: old(self)@.status_line,
                fields: with_field(old(self)@.fields, key@, value@),
            }),
            old(self).wf() ==> final(self).wf(),
    {
        let ghost fields = pairs_text(self.fields@);
        let mut i: usize = 0;
        while i < self.fields.len()
            invariant
                i <= self.fields.len(),
                *self == *old(self),
                fields == pairs_text(self.fields@),
                position_from(fields, key@, 0) == position_from(fields, key@, i as int),
            decreases self.fields.len() - i,
        {
            if same_text(self.fields[i].0, key) {
                self.fields[i] = (key, value);
                proof {
                    assert(pairs_text(self.fields@) =~= fields.update(i as int, (key@, value@)));
                }
                return ;
            }
            i = i + 1;
        }
        self.fields.push((key, value));
        proof {
            assert(pairs_text(self.fields@) =~= fields.push((key@, value@)));
            if old(self).wf() {
                lemma_with_field_distinct(fields, key@, value@);
            }
        }
    }

    /// The bytes of the head: the UTF-8 encoding of its text.
    pub fn into_bytes(&self) -> (bytes: Vec<u8>)
        ensures
            bytes@ == encode_utf8(self@.text()),
    {
        let ghost fields = pairs_text(self.fields@);
        let mut text = self.status_line.to_owned();
        text.append("\r\n");
        let mut i: usize = 0;
        while i < self.fields.len()
            invariant
                i <= self.fields.len(),
                fields == pairs_text(self.fields@),
                text@ == self.status_line@ + "\r\n"@ + field_lines(fields.take(i as int)),
            decreases self.fields.len() - i,
        {
            let pair = self.fields[i];
            proof {
                assert(fields.take(i + 1).drop_last() =~= fields.take(i as int));
            }
            text.append(pair.0);
            text.append(": ");
            text.append(pair.1);
            text.append("\r\n");
            i = i + 1;
        }
        assert(fields.take(i as int) =~= fields);
        text.append("\r\n");
        text.as_str().as_bytes_vec()
    }
}

} // verus!
