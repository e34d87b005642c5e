//! What the server answers to a request, and how a listener and its
//! connections move from one step to the next.

use crate::cert::{Certificate, TlsMaterial};
use crate::http::{parsed, ParseError, Request, RequestView, Response, ResponseView};
use crate::mappings::{share, text_view, Mappings, MappingsView};
use crate::resource::{file_view, Encoding, Resource, ResourceError, ResourceView};
use crate::tcp_util::{Pause, WriteAll, WriteEvent, WriteStep};
use crate::text::{
    chars_of, contains, same_chars, span_text, spans_text, split_terminator,
    split_terminator_spans, text_contains, trim, trim_within, valid_spans,
};
use std::sync::Arc;
use vstd::prelude::*;
use vstd::string::StringSliceAdditionalSpecFns;
use vstd::utf8::{decode_utf8, encode_utf8, valid_utf8};

verus! {

/// Milliseconds within which a TLS handshake has to complete.
pub const TLS_UPGRADE_TIMEOUT_MS: u64 = 5000;

/// Milliseconds within which a request has to arrive.
pub const REQUEST_READ_TIMEOUT_MS: u64 = 5000;

/// Number of bytes of a request that are read at most.
pub const REQUEST_BUFFER_SIZE: usize = 8192;

/// Paths that hold this are answered on the plaintext listener even when
/// everything else is redirected.
pub const ACME_CHALLENGE_PATH: &'static str = "/.well-known/acme-challenge";

pub const STATUS_OK: &'static str = "HTTP/1.1 200 OK";

pub const STATUS_MOVED: &'static str = "HTTP/1.1 301 Moved Permanently";

pub const STATUS_BAD_REQUEST: &'static str = "HTTP/1.1 400 Bad Request";

pub const STATUS_NOT_FOUND: &'static str = "HTTP/1.1 404 File not found";

pub const STATUS_SERVER_ERROR: &'static str = "HTTP/1.1 500 Internal Server Error";

/// The bytes of a response head with the given status line and fields.
pub open spec fn head_bytes(status_line: Seq<char>, fields: Seq<(Seq<char>, Seq<char>)>) -> Seq<
    u8,
> {
    encode_utf8((ResponseView { status_line, fields }).text())
}

/// Whether the comma-separated list `header` names the encoding `name`.
/// Whitespace around a name does not count.
pub open spec fn offers(header: Seq<char>, name: Seq<char>) -> bool {
    let names = split_terminator(header, ","@);
    exists|i: int| 0 <= i < names.len() && trim(#[trigger] names[i]) == name
}

/// The encoding that a client gets which sent the given `Accept-Encoding`
/// header: gzip where it offers gzip, else deflate where it offers deflate,
/// else none.
pub open spec fn negotiated(accept: Option<Seq<char>>) -> Encoding {
    match accept {
        Some(header) => if offers(header, "gzip"@) {
            Encoding::Gzip
        } else if offers(header, "deflate"@) {
            Encoding::Deflate
        } else {
            Encoding::Uncompressed
        },
        None => Encoding::Uncompressed,
    }
}

/// Whether the comma-separated list `header` names the encoding `name`.
fn names_encoding(header: &[char], name: &str) -> (b: bool)
    ensures
        b == offers(header@, name@),
{
    let comma = chars_of(",");
    let wanted = chars_of(name);
    proof {
        reveal_strlit(",");
    }
    let spans = split_terminator_spans(header, comma.as_slice());
    let ghost names = split_terminator(header@, ","@);
    let mut i: usize = 0;
    while i < spans.len()
        invariant
            i <= spans.len(),
            wanted@ == name@,
            valid_spans(header@, spans@),
            spans_text(header@, spans@) == names,
            names == split_terminator(header@, ","@),
            forall|j: int| 0 <= j < i ==> trim(#[trigger] names[j]) != name@,
        decreases spans.len() - i,
    {
        let span = trim_within(header, spans[i]);
        let part = vstd::slice::slice_subrange(header, span.0, span.1);
        assert(names[i as int] == span_text(header@, spans@[i as int]));
        if same_chars(part, wanted.as_slice()) {
            return true;
        }
        i = i + 1;
    }
    false
}

/// Chooses the encoding of the body from the `Accept-Encoding` header of the
/// request, where it has one. Names other than `gzip` and `deflate` are
/// passed over; gzip is preferred.
pub fn negotiate_encoding(accept: Option<&str>) -> (encoding: Encoding)
    ensures
        encoding == negotiated(
            match accept {
                Some(header) => Some(header@),
                None => None,
            },
        ),
{
    match accept {
        Some(header) => {
            let chars = chars_of(header);
            if names_encoding(chars.as_slice(), "gzip") {
                Encoding::Gzip
            } else if names_encoding(chars.as_slice(), "deflate") {
                Encoding::Deflate
            } else {
                Encoding::Uncompressed
            }
        },
        None => Encoding::Uncompressed,
    }
}

/// Why a request was not answered with an asset.
#[derive(Clone, Copy, Debug, PartialEq, Eq, Structural)]
pub enum RequestError {
    /// The bytes are not UTF-8 text.
    NotUtf8,
    /// The text is no request that is served.
    Malformed(ParseError),
}

/// Calls `std::str::from_utf8` and drops the error's detail. The call gives
/// a text exactly where `bytes` are well-formed UTF-8, and the text then
/// encodes to those bytes.
#[verifier::external_body]
fn utf8_text(bytes: &[u8]) -> (text: Option<&str>)
    ensures
        text is Some <==> valid_utf8(bytes@),
        text matches Some(t) ==> t.spec_bytes() == bytes@,
{
    std::str::from_utf8(bytes).ok()
}

/// What is answered to a request.
pub enum ReplyView {
    /// A head with status 400; the connection then ends with `error`.
    BadRequest { head: Seq<u8>, error: RequestError },
    /// A head with status 301 that points to the HTTPS listener.
    Redirect { head: Seq<u8> },
    /// A head with status 404.
    NotFound { head: Seq<u8> },
    /// The asset that the path is mapped to, in `encoding`, declared as
    /// `content_type` where the route declares one.
    Asset { asset: ResourceView, encoding: Encoding, content_type: Option<Seq<char>> },
}

/// What is answered to a request.
#[derive(Debug)]
pub enum Reply {
    BadRequest { head: Vec<u8>, error: RequestError },
    Redirect { head: Vec<u8> },
    NotFound { head: Vec<u8> },
    Asset { asset: Arc<Resource>, encoding: Encoding, content_type: Option<String> },
}

impl View for Reply {
    type V = ReplyView;

    open spec fn view(&self) -> ReplyView {
        match self {
            Reply::BadRequest { head, error } => ReplyView::BadRequest {
                head: head@,
                error: *error,
            },
            Reply::Redirect { head } => ReplyView::Redirect { head: head@ },
            Reply::NotFound { head } => ReplyView::NotFound { head: head@ },
            Reply::Asset { asset, encoding, content_type } => ReplyView::Asset {
                asset: asset@,
                encoding: *encoding,
                content_type: text_view(*content_type),
            },
        }
    }
}

/// The value of the header field `name` of `request`, where it has one.
pub open spec fn field(request: RequestView, name: Seq<char>) -> Option<Seq<char>> {
    if request.fields.contains_key(name) {
        Some(request.fields[name])
    } else {
        None
    }
}

/// The value of the header field `name` of `request`, or the empty text.
pub open spec fn field_or_empty(request: RequestView, name: Seq<char>) -> Seq<char> {
    match field(request, name) {
        Some(value) => value,
        None => Seq::empty(),
    }
}

/// Whether `request` is redirected to the HTTPS listener: the listener is
/// in redirect mode and the path is not that of an ACME challenge.
pub open spec fn redirected(request: RequestView, zombie_mode: bool) -> bool {
    zombie_mode && !contains(request.uri, ACME_CHALLENGE_PATH@)
}

/// The head that sends a client to the HTTPS listener. The host is taken
/// from the request as it stands.
pub open spec fn redirect_head(request: RequestView) -> Seq<u8> {
    head_bytes(
        STATUS_MOVED@,
        seq![("Location"@, "https://"@ + field_or_empty(request, "Host"@) + request.uri)],
    )
}

/// The reply to a well-formed request.
pub open spec fn reply_to(request: RequestView, table: MappingsView, zombie_mode: bool)
    -> ReplyView {
    if redirected(request, zombie_mode) {
        ReplyView::Redirect { head: redirect_head(request) }
    } else if !table.routes.contains_key(request.uri) {
        ReplyView::NotFound { head: head_bytes(STATUS_NOT_FOUND@, Seq::empty()) }
    } else {
        let mapping = table.routes[request.uri];
        match table.asset(mapping.path) {
            Some(asset) => ReplyView::Asset {
                asset,
                encoding: negotiated(field(request, "Accept-Encoding"@)),
                content_type: mapping.content_type,
            },
            None => ReplyView::NotFound { head: head_bytes(STATUS_NOT_FOUND@, Seq::empty()) },
        }
    }
}

/// What the bytes `data` ask for, if they are a request that is served.
pub open spec fn request_in(data: Seq<u8>) -> Result<RequestView, RequestError> {
    if !valid_utf8(data) {
        Err(RequestError::NotUtf8)
    } else {
        match parsed(decode_utf8(data)) {
            Ok(request) => Ok(request),
            Err(e) => Err(RequestError::Malformed(e)),
        }
    }
}

/// The reply to the bytes `data` that a client sent.
pub open spec fn reply_for(data: Seq<u8>, table: MappingsView, zombie_mode: bool) -> ReplyView {
    match request_in(data) {
        Ok(request) => reply_to(request, table, zombie_mode),
        Err(error) => ReplyView::BadRequest {
            head: head_bytes(STATUS_BAD_REQUEST@, Seq::empty()),
            error,
        },
    }
}

/// A head with the given status line and no fields.
fn bare_head(status: &str) -> (head: Vec<u8>)
    ensures
        head@ == head_bytes(status@, Seq::empty()),
{
    Response::new(status).into_bytes()
}

/// The head that sends the client of `request` to the HTTPS listener.
fn redirect(request: &Request) -> (head: Vec<u8>)
    ensures
        head@ == redirect_head(request@),
{
    let host = match request.get("Host") {
        Some(host) => host,
        None => "",
    };
    proof {
        reveal_strlit("");
    }
    let mut location = "https://".to_owned();
    location.append(host);
    location.append(request.uri());
    let mut response = Response::new(STATUS_MOVED);
    response.set("Location", location.as_str());
    response.into_bytes()
}

/// The text in `s`, copied.
fn copied(s: &Option<String>) -> (c: Option<String>)
    ensures
        text_view(c) == text_view(*s),
{
    match s {
        Some(text) => Some(text.clone()),
        None => None,
    }
}

/// Decides what to answer to the bytes `data` that a client sent.
///
/// Bytes that are not a well-formed retrieval request get a 400. In
/// redirect mode every path but that of an ACME challenge gets a 301 to
/// the HTTPS listener. A path that is not mapped, or whose asset is not in
/// the cache, gets a 404. Every other request gets its asset, in the
/// encoding that the client's `Accept-Encoding` header asks for.
pub fn respond(data: &[u8], mappings: &Mappings, zombie_mode: bool) -> (reply: Reply)
    ensures
        reply@ == reply_for(data@, mappings@, zombie_mode),
{
    broadcast use vstd::utf8::encode_utf8_decode_utf8;

    let text = match utf8_text(data) {
        Some(text) => text,
        None => {
            return Reply::BadRequest {
                head: bare_head(STATUS_BAD_REQUEST),
                error: RequestError::NotUtf8,
            };
        },
    };
    let request = match Request::parse(text) {
        Ok(request) => request,
        Err(e) => {
            return Reply::BadRequest {
                head: bare_head(STATUS_BAD_REQUEST),
                error: RequestError::Malformed(e),
            };
        },
    };
    if zombie_mode && !text_contains(request.uri(), ACME_CHALLENGE_PATH) {
        return Reply::Redirect { head: redirect(&request) };
    }
    let mapping = match mappings.get_route(request.uri()) {
        Some(mapping) => mapping,
        None => {
            return Reply::NotFound { head: bare_head(STATUS_NOT_FOUND) };
        },
    };
    match mappings.get_asset(mapping.path.as_str()) {
        Some(asset) => Reply::Asset {
            asset,
            encoding: negotiate_encoding(request.get("Accept-Encoding")),
            content_type: copied(&mapping.content_type),
        },
        None => Reply::NotFound { head: bare_head(STATUS_NOT_FOUND) },
    }
}

/// The header fields that go with an asset: its encoding unless it is sent
/// as it is, then its content type where one is declared.
pub open spec fn asset_fields(encoding: Encoding, content_type: Option<Seq<char>>) -> Seq<
    (Seq<char>, Seq<char>),
> {
    let encoded: Seq<(Seq<char>, Seq<char>)> = match encoding {
        Encoding::Uncompressed => Seq::empty(),
        Encoding::Gzip => seq![("Content-Encoding"@, "gzip"@)],
        Encoding::Deflate => seq![("Content-Encoding"@, "deflate"@)],
    };
    match content_type {
        Some(declared) => encoded.push(("Content-Type"@, declared)),
        None => encoded,
    }
}

/// What is sent for an asset.
pub struct PayloadView {
    pub head: Seq<u8>,
    pub body: Seq<u8>,
    pub outcome: Result<(), ResourceError>,
}

/// What is sent for an asset: the bytes of the head, the bytes of the body,
/// and how the connection ends once both are sent.
#[derive(Debug)]
pub struct Payload {
    pub head: Vec<u8>,
    pub body: Vec<u8>,
    pub outcome: Result<(), ResourceError>,
}

impl View for Payload {
    type V = PayloadView;

    open spec fn view(&self) -> PayloadView {
        PayloadView { head: self.head@, body: self.body@, outcome: self.outcome }
    }
}

/// What is sent for `asset`: a 200 with its body in `encoding`, or a 500
/// without a body where the body cannot be had. `file` is what reading a
/// referenced file gave.
pub open spec fn payload_for(
    asset: ResourceView,
    encoding: Encoding,
    content_type: Option<Seq<char>>,
    file: Option<Seq<u8>>,
) -> PayloadView {
    match asset.body(encoding, file) {
        Ok(body) => PayloadView {
            head: head_bytes(STATUS_OK@, asset_fields(encoding, content_type)),
            body,
            outcome: Ok(()),
        },
        Err(e) => PayloadView {
            head: head_bytes(STATUS_SERVER_ERROR@, Seq::empty()),
            body: Seq::empty(),
            outcome: Err(e),
        },
    }
}

/// The head of a 200 for a body in `encoding`.
fn asset_head(encoding: Encoding, content_type: Option<&str>) -> (head: Vec<u8>)
    ensures
        head@ == head_bytes(
            STATUS_OK@,
            asset_fields(
                encoding,
                match content_type {
                    Some(declared) => Some(declared@),
                    None => None,
                },
            ),
        ),
{
    proof {
        reveal_strlit("Content-Encoding");
        reveal_strlit("Content-Type");
    }
    let mut response = Response::new(STATUS_OK);
    match encoding {
        Encoding::Uncompressed => {},
        Encoding::Gzip => response.set("Content-Encoding", "gzip"),
        Encoding::Deflate => response.set("Content-Encoding", "deflate"),
    }
    let ghost encoded = response@.fields;
    match content_type {
        Some(declared) => {
            proof {
                crate::http::lemma_position_from(encoded, "Content-Type"@, 0);
            }
            response.set("Content-Type", declared);
        },
        None => {},
    }
    response.into_bytes()
}

/// Makes the head and the body for `asset`. For a referenced file the
/// caller reads the file and hands in what it got.
pub fn send_data(
    asset: &Resource,
    encoding: Encoding,
    content_type: Option<&str>,
    file: Option<Vec<u8>>,
) -> (payload: Payload)
    ensures
        payload@ == payload_for(
            asset@,
            encoding,
            match content_type {
                Some(declared) => Some(declared@),
                None => None,
            },
            file_view(file),
        ),
{
    match asset.get_compressed(encoding, file) {
        Ok(body) => Payload { head: asset_head(encoding, content_type), body, outcome: Ok(()) },
        Err(e) => Payload {
            head: bare_head(STATUS_SERVER_ERROR),
            body: Vec::new(),
            outcome: Err(e),
        },
    }
}

/// Why a connection ended without having been served.
#[derive(Clone, Copy, Debug, PartialEq, Eq, Structural)]
pub enum ConnectionError {
    /// The peer closed the connection before it sent anything.
    PeerClosed,
    /// Reading from the stream failed.
    Read,
    /// No request arrived in time.
    Timeout,
    /// The request was refused; a 400 was sent.
    Request(RequestError),
    /// The asset could not be had; a 500 was sent.
    Asset(ResourceError),
    /// Writing to the stream failed.
    Write,
    /// The driver reported something that the connection had not asked for.
    OutOfTurn,
}

/// The two parts of a response, which are written one after the other.
#[derive(Clone, Copy, Debug, PartialEq, Eq, Structural)]
pub enum Part {
    Head,
    Body,
}

/// What the driver of a connection reports to it.
pub enum ConnectionEventView {
    Resumed { now: u64, pending_writes: bool },
    Data(Seq<u8>),
    Closed,
    WouldBlock,
    ReadFailed,
    File(Option<Seq<u8>>),
    Write(WriteEvent),
}

/// What the driver of a connection reports to it: that the scheduler
/// resumed it, or what came of the step it had asked for.
#[derive(Debug)]
pub enum ConnectionEvent {
    /// The connection starts, or goes on after a yield. `now` is the time in
    /// milliseconds; `pending_writes` tells whether the kernel's send buffer
    /// holds bytes.
    Resumed { now: u64, pending_writes: bool },
    /// A read gave these bytes, at least one.
    Data(Vec<u8>),
    /// A read gave no bytes: the peer has closed the connection.
    Closed,
    /// A read found the stream not ready.
    WouldBlock,
    /// A read failed.
    ReadFailed,
    /// What reading the file gave; `None` where it could not be read.
    File(Option<Vec<u8>>),
    /// What came of a write.
    Write(WriteEvent),
}

impl View for ConnectionEvent {
    type V = ConnectionEventView;

    open spec fn view(&self) -> ConnectionEventView {
        match self {
            ConnectionEvent::Resumed { now, pending_writes } => ConnectionEventView::Resumed {
                now: *now,
                pending_writes: *pending_writes,
            },
            ConnectionEvent::Data(data) => ConnectionEventView::Data(data@),
            ConnectionEvent::Closed => ConnectionEventView::Closed,
            ConnectionEvent::WouldBlock => ConnectionEventView::WouldBlock,
            ConnectionEvent::ReadFailed => ConnectionEventView::ReadFailed,
            ConnectionEvent::File(file) => ConnectionEventView::File(file_view(*file)),
            ConnectionEvent::Write(event) => ConnectionEventView::Write(*event),
        }
    }
}

/// What a connection asks its driver to do.
pub enum ConnectionStepView {
    Read { limit: usize },
    Load { path: Seq<char> },
    Write { part: Part, from: usize },
    Yield,
    Finish(Result<(), ConnectionError>),
}

/// What a connection asks its driver to do.
#[derive(Debug)]
pub enum ConnectionStep {
    /// Read up to `limit` bytes without blocking and report `Data`,
    /// `Closed`, `WouldBlock` or `ReadFailed`.
    Read { limit: usize },
    /// Read the whole file at `path` and report `File`.
    Load { path: String },
    /// Write the bytes of `part` from index `from` on without blocking and
    /// report `Write`.
    Write { part: Part, from: usize },
    /// Give up control until the next pass, then report `Resumed`.
    Yield,
    /// The connection has ended. Drop it.
    Finish(Result<(), ConnectionError>),
}

impl View for ConnectionStep {
    type V = ConnectionStepView;

    open spec fn view(&self) -> ConnectionStepView {
        match self {
            ConnectionStep::Read { limit } => ConnectionStepView::Read { limit: *limit },
            ConnectionStep::Load { path } => ConnectionStepView::Load { path: path@ },
            ConnectionStep::Write { part, from } => ConnectionStepView::Write {
                part: *part,
                from: *from,
            },
            ConnectionStep::Yield => ConnectionStepView::Yield,
            ConnectionStep::Finish(result) => ConnectionStepView::Finish(*result),
        }
    }
}

/// Where a connection stands.
pub enum PhaseView {
    /// It has not run yet.
    Fresh,
    /// It waits for the request.
    Reading,
    /// It waits for the contents of the file that the request is served
    /// from.
    Loading { asset: ResourceView, encoding: Encoding, content_type: Option<Seq<char>> },
    /// It writes the response.
    Sending { part: Part, write: WriteAll },
    /// It has ended.
    Finished,
}

enum Phase {
    Fresh,
    Reading,
    Loading { asset: Arc<Resource>, encoding: Encoding, content_type: Option<String> },
    Sending { part: Part, write: WriteAll },
    Finished,
}

impl View for Phase {
    type V = PhaseView;

    closed spec fn view(&self) -> PhaseView {
        match self {
            Phase::Fresh => PhaseView::Fresh,
            Phase::Reading => PhaseView::Reading,
            Phase::Loading { asset, encoding, content_type } => PhaseView::Loading {
                asset: asset@,
                encoding: *encoding,
                content_type: text_view(*content_type),
            },
            Phase::Sending { part, write } => PhaseView::Sending { part: *part, write: *write },
            Phase::Finished => PhaseView::Finished,
        }
    }
}

/// The state of a connection.
pub struct ConnectionView {
    pub phase: PhaseView,
    /// Whether the listener redirects to HTTPS.
    pub zombie_mode: bool,
    /// The time in milliseconds at which the connection first ran.
    pub started: u64,
    /// The bytes of the response head, once the request is read.
    pub head: Seq<u8>,
    /// The bytes of the response body, once the request is read.
    pub body: Seq<u8>,
    /// How the connection ends once the response is sent.
    pub outcome: Result<(), ConnectionError>,
}

/// One connection: it reads a request, decides on the reply, and writes it.
/// Reading, loading a file and writing are left to the driver, which
/// reports what came of each.
pub struct Connection {
    phase: Phase,
    zombie_mode: bool,
    started: u64,
    head: Vec<u8>,
    body: Vec<u8>,
    outcome: Result<(), ConnectionError>,
}

impl View for Connection {
    type V = ConnectionView;

    closed spec fn view(&self) -> ConnectionView {
        ConnectionView {
            phase: self.phase@,
            zombie_mode: self.zombie_mode,
            started: self.started,
            head: self.head@,
            body: self.body@,
            outcome: self.outcome,
        }
    }
}

/// Milliseconds from `started` to `now`; none where the clock went back.
pub open spec fn elapsed(started: u64, now: u64) -> int {
    if now >= started {
        now - started
    } else {
        0
    }
}

/// How a connection ends whose asset ended as `outcome`.
pub open spec fn asset_outcome(outcome: Result<(), ResourceError>) -> Result<(), ConnectionError> {
    match outcome {
        Ok(()) => Ok(()),
        Err(e) => Err(ConnectionError::Asset(e)),
    }
}

impl ConnectionView {
    /// Every write in progress is within the part that it writes.
    pub open spec fn wf(self) -> bool {
        self.phase matches PhaseView::Sending { part, write } ==> write.wf() && write.len == (
        match part {
            Part::Head => self.head.len(),
            Part::Body => self.body.len(),
        })
    }

    /// The connection ends with `result`.
    pub open spec fn finish(self, result: Result<(), ConnectionError>) -> (
        ConnectionView,
        ConnectionStepView,
    ) {
        (
            ConnectionView { phase: PhaseView::Finished, outcome: result, ..self },
            ConnectionStepView::Finish(result),
        )
    }

    /// The connection begins to write `head`, then `body`, and ends with
    /// `outcome` once both are sent.
    pub open spec fn send(
        self,
        head: Seq<u8>,
        body: Seq<u8>,
        outcome: Result<(), ConnectionError>,
    ) -> (ConnectionView, ConnectionStepView) {
        (
            ConnectionView {
                phase: PhaseView::Sending {
                    part: Part::Head,
                    write: WriteAll { len: head.len() as usize, cursor: 0, pause: Pause::Running },
                },
                head,
                body,
                outcome,
                ..self
            },
            ConnectionStepView::Write { part: Part::Head, from: 0 },
        )
    }

    /// The connection sends what `asset` comes to.
    pub open spec fn send_asset(
        self,
        asset: ResourceView,
        encoding: Encoding,
        content_type: Option<Seq<char>>,
        file: Option<Seq<u8>>,
    ) -> (ConnectionView, ConnectionStepView) {
        let payload = payload_for(asset, encoding, content_type, file);
        self.send(payload.head, payload.body, asset_outcome(payload.outcome))
    }

    /// What follows when the request `data` has arrived.
    pub open spec fn on_data(self, data: Seq<u8>, table: MappingsView) -> (
        ConnectionView,
        ConnectionStepView,
    ) {
        match reply_for(data, table, self.zombie_mode) {
            ReplyView::BadRequest { head, error } => self.send(
                head,
                Seq::empty(),
                Err(ConnectionError::Request(error)),
            ),
            ReplyView::Redirect { head } => self.send(head, Seq::empty(), Ok(())),
            ReplyView::NotFound { head } => self.send(head, Seq::empty(), Ok(())),
            ReplyView::Asset { asset, encoding, content_type } => match asset {
                ResourceView::Reference(path) => (
                    ConnectionView {
                        phase: PhaseView::Loading { asset, encoding, content_type },
                        ..self
                    },
                    ConnectionStepView::Load { path },
                ),
                ResourceView::Cached(_) => self.send_asset(asset, encoding, content_type, None),
            },
        }
    }

    /// What follows on what the stream said to a write, or on being resumed
    /// in the middle of one.
    pub open spec fn on_write(self, part: Part, write: WriteAll, event: WriteEvent) -> (
        ConnectionView,
        ConnectionStepView,
    ) {
        let (write, step) = write.next(event);
        match step {
            WriteStep::Write { from } => (
                ConnectionView { phase: PhaseView::Sending { part, write }, ..self },
                ConnectionStepView::Write { part, from },
            ),
            WriteStep::Yield => (
                ConnectionView { phase: PhaseView::Sending { part, write }, ..self },
                ConnectionStepView::Yield,
            ),
            WriteStep::Failed => self.finish(Err(ConnectionError::Write)),
            WriteStep::Done => if part == Part::Head && self.body.len() > 0 {
                (
                    ConnectionView {
                        phase: PhaseView::Sending {
                            part: Part::Body,
                            write: WriteAll {
                                len: self.body.len() as usize,
                                cursor: 0,
                                pause: Pause::Running,
                            },
                        },
                        ..self
                    },
                    ConnectionStepView::Write { part: Part::Body, from: 0 },
                )
            } else {
                self.finish(self.outcome)
            },
        }
    }

    /// The state and the step that follow on `event`, with the routing table
    /// `table`.
    pub open spec fn next(self, event: ConnectionEventView, table: MappingsView) -> (
        ConnectionView,
        ConnectionStepView,
    ) {
        match (self.phase, event) {
            (PhaseView::Fresh, ConnectionEventView::Resumed { now, pending_writes }) => (
                ConnectionView { phase: PhaseView::Reading, started: now, ..self },
                ConnectionStepView::Read { limit: REQUEST_BUFFER_SIZE },
            ),
            (PhaseView::Reading, ConnectionEventView::Resumed { now, pending_writes }) => if elapsed(
                self.started,
                now,
            ) >= REQUEST_READ_TIMEOUT_MS {
                self.finish(Err(ConnectionError::Timeout))
            } else {
                (self, ConnectionStepView::Read { limit: REQUEST_BUFFER_SIZE })
            },
            (PhaseView::Reading, ConnectionEventView::WouldBlock) => (
                self,
                ConnectionStepView::Yield,
            ),
            (PhaseView::Reading, ConnectionEventView::Closed) => self.finish(
                Err(ConnectionError::PeerClosed),
            ),
            (PhaseView::Reading, ConnectionEventView::ReadFailed) => self.finish(
                Err(ConnectionError::Read),
            ),
            (PhaseView::Reading, ConnectionEventView::Data(data)) => self.on_data(data, table),
            (
                PhaseView::Loading { asset, encoding, content_type },
                ConnectionEventView::File(file),
            ) => self.send_asset(asset, encoding, content_type, file),
            (
                PhaseView::Sending { part, write },
                ConnectionEventView::Resumed { now, pending_writes },
            ) => self.on_write(part, write, WriteEvent::Resumed { pending_writes }),
            (PhaseView::Sending { part, write }, ConnectionEventView::Write(event)) => self.on_write(
                part,
                write,
                event,
            ),
            (PhaseView::Finished, _) => (self, ConnectionStepView::Finish(self.outcome)),
            _ => self.finish(Err(ConnectionError::OutOfTurn)),
        }
    }
}

/// The text in `s`, borrowed.
fn borrowed(s: &Option<String>) -> (b: Option<&str>)
    ensures
        match b {
            Some(text) => text_view(*s) == Some(text@),
            None => text_view(*s) is None,
        },
{
    match s {
        Some(text) => Some(text.as_str()),
        None => None,
    }
}

impl Connection {
    /// A connection that has not run yet, on a listener that redirects to
    /// HTTPS or does not.
    pub fn new(zombie_mode: bool) -> (c: Connection)
        ensures
            c@ == (ConnectionView {
                phase: PhaseView::Fresh,
                zombie_mode,
                started: 0,
                head: Seq::empty(),
                body: Seq::empty(),
                outcome: Ok(()),
            }),
            c@.wf(),
    {
        Connection {
            phase: Phase::Fresh,
            zombie_mode,
            started: 0,
            head: Vec::new(),
            body: Vec::new(),
            outcome: Ok(()),
        }
    }

    /// The bytes of a part of the response.
    pub fn bytes(&self, part: Part) -> (b: &[u8])
        ensures
            b@ == match part {
                Part::Head => self@.head,
                Part::Body => self@.body,
            },
    {
        match part {
            Part::Head => self.head.as_slice(),
            Part::Body => self.body.as_slice(),
        }
    }

    /// Whether the connection has ended.
    pub fn is_finished(&self) -> (b: bool)
        ensures
            b == (self@.phase is Finished),
    {
        match self.phase {
            Phase::Finished => true,
            _ => false,
        }
    }

    fn finish(&mut self, result: Result<(), ConnectionError>) -> (step: ConnectionStep)
        ensures
            (final(self)@, step@) == old(self)@.finish(result),
            final(self)@.wf(),
    {
        self.phase = Phase::Finished;
        self.outcome = result;
        ConnectionStep::Finish(result)
    }

    fn send(&mut self, head: Vec<u8>, body: Vec<u8>, outcome: Result<(), ConnectionError>) -> (step:
        ConnectionStep)
        ensures
            (final(self)@, step@) == old(self)@.send(head@, body@, outcome),
            final(self)@.wf(),
    {
        let write = WriteAll::new(head.len());
        self.phase = Phase::Sending { part: Part::Head, write };
        self.head = head;
        self.body = body;
        self.outcome = outcome;
        ConnectionStep::Write { part: Part::Head, from: 0 }
    }

    fn send_asset(
        &mut self,
        asset: &Resource,
        encoding: Encoding,
        content_type: Option<&str>,
        file: Option<Vec<u8>>,
    ) -> (step: ConnectionStep)
        ensures
            (final(self)@, step@) == old(self)@.send_asset(
                asset@,
                encoding,
                match content_type {
                    Some(declared) => Some(declared@),
                    None => None,
                },
                file_view(file),
            ),
            final(self)@.wf(),
    {
        let payload = send_data(asset, encoding, content_type, file);
        let outcome = match payload.outcome {
            Ok(()) => Ok(()),
            Err(e) => Err(ConnectionError::Asset(e)),
        };
        self.send(payload.head, payload.body, outcome)
    }

    fn on_data(&mut self, data: &[u8], mappings: &Mappings) -> (step: ConnectionStep)
        ensures
            (final(self)@, step@) == old(self)@.on_data(data@, mappings@),
            final(self)@.wf(),
    {
        match respond(data, mappings, self.zombie_mode) {
            Reply::BadRequest { head, error } => self.send(
                head,
                Vec::new(),
                Err(ConnectionError::Request(error)),
            ),
            Reply::Redirect { head } => self.send(head, Vec::new(), Ok(())),
            Reply::NotFound { head } => self.send(head, Vec::new(), Ok(())),
            Reply::Asset { asset, encoding, content_type } => {
                match asset.path() {
                    Some(path) => {
                        let path = path.to_owned();
                        self.phase = Phase::Loading { asset, encoding, content_type };
                        ConnectionStep::Load { path }
                    },
                    None => self.send_asset(&asset, encoding, borrowed(&content_type), None),
                }
            },
        }
    }

    fn on_write(&mut self, part: Part, write: WriteAll, event: WriteEvent) -> (step:
        ConnectionStep)
        requires
            old(self)@.wf(),
            old(self)@.phase == (PhaseView::Sending { part, write }),
        ensures
            (final(self)@, step@) == old(self)@.on_write(part, write, event),
            final(self)@.wf(),
    {
        let mut write = write;
        match write.step(event) {
            WriteStep::Write { from } => {
                self.phase = Phase::Sending { part, write };
                ConnectionStep::Write { part, from }
            },
            WriteStep::Yield => {
                self.phase = Phase::Sending { part, write };
                ConnectionStep::Yield
            },
            WriteStep::Failed => self.finish(Err(ConnectionError::Write)),
            WriteStep::Done => {
                if part == Part::Head && self.body.len() > 0 {
                    let write = WriteAll::new(self.body.len());
                    self.phase = Phase::Sending { part: Part::Body, write };
                    ConnectionStep::Write { part: Part::Body, from: 0 }
                } else {
                    let outcome = self.outcome;
                    self.finish(outcome)
                }
            },
        }
    }

    fn on_file(&mut self, file: Option<Vec<u8>>) -> (step: ConnectionStep)
        requires
            old(self)@.phase is Loading,
        ensures
            old(self)@.phase matches PhaseView::Loading { asset, encoding, content_type } && (
            final(self)@,
            step@,
            ) == old(self)@.send_asset(asset, encoding, content_type, file_view(file)),
            final(self)@.wf(),
    {
        let (asset, encoding, content_type) = match &self.phase {
            Phase::Loading { asset, encoding, content_type } => (
                share(asset),
                *encoding,
                copied(content_type),
            ),
            _ => (Arc::new(Resource::Reference(String::new())), Encoding::Uncompressed, None),
        };
        self.send_asset(&asset, encoding, borrowed(&content_type), file)
    }

    /// The write that is in progress, if the response is being written.
    fn writing(&self) -> (r: Option<(Part, WriteAll)>)
        ensures
            match r {
                Some((part, write)) => self@.phase == (PhaseView::Sending { part, write }),
                None => !(self@.phase is Sending),
            },
    {
        match &self.phase {
            Phase::Sending { part, write } => Some((*part, *write)),
            _ => None,
        }
    }

    /// Takes in what the driver reports and decides the next step.
    ///
    /// A connection first asks for the request, and yields for as long as
    /// the stream is not ready; it ends with `Timeout` when it is resumed
    /// after the time for the request has passed, with `PeerClosed` when
    /// the peer closes the stream, and with `Read` when reading fails. Once
    /// the request is here it decides on the reply as `respond` does, asks
    /// for the file where the asset is not cached, and writes the head and
    /// then the body as `WriteAll` says. It ends with `Write` when writing
    /// fails, and else as the reply demands.
    pub fn step(&mut self, event: ConnectionEvent, mappings: &Mappings) -> (step: ConnectionStep)
        requires
            old(self)@.wf(),
        ensures
            (final(self)@, step@) == old(self)@.next(event@, mappings@),
            final(self)@.wf(),
    {
        match self.writing() {
            Some((part, write)) => {
                return match event {
                    ConnectionEvent::Resumed { now, pending_writes } => self.on_write(
                        part,
                        write,
                        WriteEvent::Resumed { pending_writes },
                    ),
                    ConnectionEvent::Write(event) => self.on_write(part, write, event),
                    _ => self.finish(Err(ConnectionError::OutOfTurn)),
                };
            },
            None => {},
        }
        let fresh = match &self.phase {
            Phase::Fresh => true,
            _ => false,
        };
        let reading = match &self.phase {
            Phase::Reading => true,
            _ => false,
        };
        let loading = match &self.phase {
            Phase::Loading { .. } => true,
            _ => false,
        };
        if fresh {
            match event {
                ConnectionEvent::Resumed { now, pending_writes } => {
                    self.phase = Phase::Reading;
                    self.started = now;
                    ConnectionStep::Read { limit: REQUEST_BUFFER_SIZE }
                },
                _ => self.finish(Err(ConnectionError::OutOfTurn)),
            }
        } else if reading {
            match event {
                ConnectionEvent::Resumed { now, pending_writes } => {
                    if now >= self.started && now - self.started >= REQUEST_READ_TIMEOUT_MS {
                        self.finish(Err(ConnectionError::Timeout))
                    } else {
                        ConnectionStep::Read { limit: REQUEST_BUFFER_SIZE }
                    }
                },
                ConnectionEvent::WouldBlock => ConnectionStep::Yield,
                ConnectionEvent::Closed => self.finish(Err(ConnectionError::PeerClosed)),
                ConnectionEvent::ReadFailed => self.finish(Err(ConnectionError::Read)),
                ConnectionEvent::Data(data) => self.on_data(data.as_slice(), mappings),
                _ => self.finish(Err(ConnectionError::OutOfTurn)),
            }
        } else if loading {
            match event {
                ConnectionEvent::File(file) => self.on_file(file),
                _ => self.finish(Err(ConnectionError::OutOfTurn)),
            }
        } else {
            ConnectionStep::Finish(self.outcome)
        }
    }
}

/// Why a TLS handshake was given up.
#[derive(Clone, Copy, Debug, PartialEq, Eq, Structural)]
pub enum HandshakeError {
    /// The handshake did not complete in time.
    Timeout,
    /// The handshake failed.
    Failed,
    /// The driver reported something that the upgrade had not asked for.
    OutOfTurn,
}

/// What the driver of a TLS upgrade reports to it.
#[derive(Clone, Copy, Debug, PartialEq, Eq, Structural)]
pub enum HandshakeEvent {
    /// The upgrade starts, or goes on after a yield, at the time `now` in
    /// milliseconds.
    Resumed { now: u64 },
    /// The handshake is complete.
    Established,
    /// The handshake needs more input or output than the socket has ready.
    WouldBlock,
    /// The handshake failed for good.
    Failed,
}

/// What a TLS upgrade asks its driver to do.
#[derive(Clone, Copy, Debug, PartialEq, Eq, Structural)]
pub enum HandshakeStep {
    /// Drive the handshake as far as the socket allows and report
    /// `Established`, `WouldBlock` or `Failed`.
    Handshake,
    /// Give up control until the next pass, then report `Resumed`.
    Yield,
    /// The stream is encrypted: serve the connection on it.
    Serve,
    /// Drop the socket.
    Abort(HandshakeError),
}

/// Where a TLS upgrade stands.
#[derive(Clone, Copy, Debug, PartialEq, Eq, Structural)]
pub enum UpgradePhase {
    Fresh,
    Shaking,
    Established,
    Aborted(HandshakeError),
}

/// The upgrade of an accepted socket to TLS: a handshake that is resumed
/// until it completes, fails, or runs out of time.
#[derive(Clone, Copy, Debug, PartialEq, Eq, Structural)]
pub struct TlsUpgrade {
    pub phase: UpgradePhase,
    /// The time in milliseconds at which the upgrade first ran.
    pub started: u64,
}

impl TlsUpgrade {
    /// The state and the step that follow on `event`.
    pub open spec fn next(self, event: HandshakeEvent) -> (TlsUpgrade, HandshakeStep) {
        match (self.phase, event) {
            (UpgradePhase::Fresh, HandshakeEvent::Resumed { now }) => (
                TlsUpgrade { phase: UpgradePhase::Shaking, started: now },
                HandshakeStep::Handshake,
            ),
            (UpgradePhase::Shaking, HandshakeEvent::Resumed { now }) => if elapsed(
                self.started,
                now,
            ) >= TLS_UPGRADE_TIMEOUT_MS {
                (
                    TlsUpgrade { phase: UpgradePhase::Aborted(HandshakeError::Timeout), ..self },
                    HandshakeStep::Abort(HandshakeError::Timeout),
                )
            } else {
                (self, HandshakeStep::Handshake)
            },
            (UpgradePhase::Shaking, HandshakeEvent::WouldBlock) => (self, HandshakeStep::Yield),
            (UpgradePhase::Shaking, HandshakeEvent::Established) => (
                TlsUpgrade { phase: UpgradePhase::Established, ..self },
                HandshakeStep::Serve,
            ),
            (UpgradePhase::Shaking, HandshakeEvent::Failed) => (
                TlsUpgrade { phase: UpgradePhase::Aborted(HandshakeError::Failed), ..self },
                HandshakeStep::Abort(HandshakeError::Failed),
            ),
            (UpgradePhase::Established, _) => (self, HandshakeStep::Serve),
            (UpgradePhase::Aborted(e), _) => (self, HandshakeStep::Abort(e)),
            _ => (
                TlsUpgrade { phase: UpgradePhase::Aborted(HandshakeError::OutOfTurn), ..self },
                HandshakeStep::Abort(HandshakeError::OutOfTurn),
            ),
        }
    }

    /// An upgrade that has not run yet.
    pub fn new() -> (u: TlsUpgrade)
        ensures
            u == (TlsUpgrade { phase: UpgradePhase::Fresh, started: 0 }),
    {
        TlsUpgrade { phase: UpgradePhase::Fresh, started: 0 }
    }

    /// Takes in what the driver reports and decides the next step. The
    /// handshake is tried again on each pass for as long as the socket is
    /// not ready; the upgrade is given up when it is resumed after its time
    /// has passed, or when the handshake fails.
    pub fn step(&mut self, event: HandshakeEvent) -> (step: HandshakeStep)
        ensures
            (*final(self), step) == old(self).next(event),
    {
        match self.phase {
            UpgradePhase::Fresh => match event {
                HandshakeEvent::Resumed { now } => {
                    self.phase = UpgradePhase::Shaking;
                    self.started = now;
                    HandshakeStep::Handshake
                },
                _ => self.abort(HandshakeError::OutOfTurn),
            },
            UpgradePhase::Shaking => match event {
                HandshakeEvent::Resumed { now } => {
                    if now >= self.started && now - self.started >= TLS_UPGRADE_TIMEOUT_MS {
                        self.abort(HandshakeError::Timeout)
                    } else {
                        HandshakeStep::Handshake
                    }
                },
                HandshakeEvent::WouldBlock => HandshakeStep::Yield,
                HandshakeEvent::Established => {
                    self.phase = UpgradePhase::Established;
                    HandshakeStep::Serve
                },
                HandshakeEvent::Failed => self.abort(HandshakeError::Failed),
            },
            UpgradePhase::Established => HandshakeStep::Serve,
            UpgradePhase::Aborted(e) => HandshakeStep::Abort(e),
        }
    }

    fn abort(&mut self, error: HandshakeError) -> (step: HandshakeStep)
        ensures
            *final(self) == (TlsUpgrade { phase: UpgradePhase::Aborted(error), ..*old(self) }),
            step == HandshakeStep::Abort(error),
    {
        self.phase = UpgradePhase::Aborted(error);
        HandshakeStep::Abort(error)
    }
}

/// What a listener is told to do.
pub enum FileserverCommand {
    /// Serve from this routing table from now on.
    NewMappings(Mappings),
    /// Terminate TLS with this certificate from now on.
    SetCert(Certificate),
    /// Redirect to HTTPS everything but ACME challenges from now on.
    Zombify,
}

/// What a listener has installed, for its driver to act on.
#[derive(Debug)]
pub enum Installed {
    /// A routing table. Connections that are accepted from now on see it.
    Mappings,
    /// A certificate. Sockets that are accepted from now on are upgraded
    /// with this chain and key.
    Certificate(TlsMaterial),
    /// Redirect mode.
    RedirectMode,
}

/// The state of a listener.
pub struct FileserverView {
    /// The routing table that new connections are served from.
    pub mappings: MappingsView,
    /// Whether a certificate is installed, so that accepted sockets are
    /// upgraded to TLS.
    pub secure: bool,
    /// Whether requests are redirected to HTTPS.
    pub zombie_mode: bool,
}

/// One listener: the routing table it serves from, whether it terminates
/// TLS, and whether it redirects.
pub struct Fileserver {
    mappings: Arc<Mappings>,
    secure: bool,
    zombie_mode: bool,
}

impl View for Fileserver {
    type V = FileserverView;

    closed spec fn view(&self) -> FileserverView {
        FileserverView {
            mappings: self.mappings@,
            secure: self.secure,
            zombie_mode: self.zombie_mode,
        }
    }
}

/// What a newly accepted socket is started with. It keeps the routing table
/// it was accepted with for the whole of its life.
pub struct Accepted {
    /// The handshake to run first, where the listener terminates TLS.
    pub upgrade: Option<TlsUpgrade>,
    /// The connection to serve then.
    pub connection: Connection,
    /// The routing table to serve it from.
    pub mappings: Arc<Mappings>,
}

impl Fileserver {
    /// A listener with an empty routing table that neither terminates TLS
    /// nor redirects.
    pub fn new() -> (f: Fileserver)
        ensures
            f@ == (FileserverView {
                mappings: MappingsView {
                    routes: Map::empty(),
                    imported: Seq::empty(),
                    cache: Map::empty(),
                    caching_enabled: false,
                },
                secure: false,
                zombie_mode: false,
            }),
    {
        Fileserver { mappings: Arc::new(Mappings::new(false)), secure: false, zombie_mode: false }
    }

    /// Applies a command. Each replaces one part of the state as a whole.
    pub fn handle_command(&mut self, command: FileserverCommand) -> (installed: Installed)
        ensures
            match command {
                FileserverCommand::NewMappings(mappings) => installed is Mappings && final(self)@
                    == (FileserverView { mappings: mappings@, ..old(self)@ }),
                FileserverCommand::SetCert(certificate) => final(self)@ == (FileserverView {
                    secure: true,
                    ..old(self)@
                }) && certificate@.decodes() && (installed matches Installed::Certificate(material)
                    && material.chain.deep_view() == certificate@.chain() && material.key@
                    == certificate@.key()),
                FileserverCommand::Zombify => installed is RedirectMode && final(self)@ == (
                FileserverView { zombie_mode: true, ..old(self)@ }),
            },
    {
        match command {
            FileserverCommand::NewMappings(mappings) => {
                self.mappings = Arc::new(mappings);
                Installed::Mappings
            },
            FileserverCommand::SetCert(certificate) => {
                self.secure = true;
                Installed::Certificate(certificate.tls_material())
            },
            FileserverCommand::Zombify => {
                self.zombie_mode = true;
                Installed::RedirectMode
            },
        }
    }

    /// Whether accepted sockets are upgraded to TLS.
    pub fn is_secure(&self) -> (b: bool)
        ensures
            b == self@.secure,
    {
        self.secure
    }

    /// Whether requests are redirected to HTTPS.
    pub fn zombie_mode(&self) -> (b: bool)
        ensures
            b == self@.zombie_mode,
    {
        self.zombie_mode
    }

    /// What a socket that was just accepted is started with: a handshake
    /// where the listener terminates TLS, a fresh connection in the
    /// listener's mode, and the routing table as it is now.
    pub fn accept(&self) -> (accepted: Accepted)
        ensures
            accepted.upgrade == if self@.secure {
                Some(TlsUpgrade { phase: UpgradePhase::Fresh, started: 0 })
            } else {
                None
            },
            accepted.connection@ == (ConnectionView {
                phase: PhaseView::Fresh,
                zombie_mode: self@.zombie_mode,
                started: 0,
                head: Seq::empty(),
                body: Seq::empty(),
                outcome: Ok(()),
            }),
            accepted.connection@.wf(),
            accepted.mappings@ == self@.mappings,
    {
        Accepted {
            upgrade: if self.secure {
                Some(TlsUpgrade::new())
            } else {
                None
            },
            connection: Connection::new(self.zombie_mode),
            mappings: share(&self.mappings),
        }
    }
}

/// Gzip is chosen where the client offers it, whatever else it offers;
/// deflate where it offers deflate and not gzip; and no encoding where it
/// offers neither, or sends no `Accept-Encoding` header at all.
pub proof fn lemma_gzip_is_preferred(header: Seq<char>)
    ensures
        offers(header, "gzip"@) ==> negotiated(Some(header)) == Encoding::Gzip,
        !offers(header, "gzip"@) && offers(header, "deflate"@) ==> negotiated(Some(header))
            == Encoding::Deflate,
        !offers(header, "gzip"@) && !offers(header, "deflate"@) ==> negotiated(Some(header))
            == Encoding::Uncompressed,
        negotiated(None) == Encoding::Uncompressed,
{
}

/// A request for a path that is mapped to an asset at hand is answered with
/// a 200 and the asset's body in the encoding that the request's
/// `Accept-Encoding` header leads to. This holds of every request that is
/// well-formed and not redirected.
pub proof fn lemma_mapped_path_is_served(
    data: Seq<u8>,
    table: MappingsView,
    zombie_mode: bool,
    file: Option<Seq<u8>>,
)
    requires
        request_in(data) is Ok,
        !redirected(request_in(data)->Ok_0, zombie_mode),
        table.routes.contains_key(request_in(data)->Ok_0.uri),
        table.asset(table.routes[request_in(data)->Ok_0.uri].path) is Some,
        table.asset(table.routes[request_in(data)->Ok_0.uri].path)->0.body(
            negotiated(field(request_in(data)->Ok_0, "Accept-Encoding"@)),
            file,
        ) is Ok,
    ensures
        ({
            let request = request_in(data)->Ok_0;
            let mapping = table.routes[request.uri];
            let asset = table.asset(mapping.path)->0;
            let encoding = negotiated(field(request, "Accept-Encoding"@));
            &&& reply_for(data, table, zombie_mode) == (ReplyView::Asset {
                asset,
                encoding,
                content_type: mapping.content_type,
            })
            &&& payload_for(asset, encoding, mapping.content_type, file) == (PayloadView {
                head: head_bytes(STATUS_OK@, asset_fields(encoding, mapping.content_type)),
                body: asset.body(encoding, file)->Ok_0,
                outcome: Ok(()),
            })
        }),
{
}

/// A cached asset that was made of `raw` is sent as `raw` itself where no
/// encoding is asked for, and else as the gzip or deflate stream of `raw` at
/// the best level.
pub proof fn lemma_cached_body(raw: Seq<u8>, encoding: Encoding, file: Option<Seq<u8>>)
    requires
        crate::resource::processed(raw) is Some,
    ensures
        ResourceView::Cached(crate::resource::processed(raw)->0).body(encoding, file) == Ok::<
            Seq<u8>,
            ResourceError,
        >(crate::resource::encoded(raw, encoding, false)->0),
        crate::resource::encoded(raw, Encoding::Uncompressed, false) == Some(raw),
{
}

/// A request for a path that is not mapped is answered with a 404, whatever
/// its headers are. This holds of every request that is well-formed and not
/// redirected.
pub proof fn lemma_unmapped_path_is_not_found(
    data: Seq<u8>,
    table: MappingsView,
    zombie_mode: bool,
)
    requires
        request_in(data) is Ok,
        !redirected(request_in(data)->Ok_0, zombie_mode),
        !table.routes.contains_key(request_in(data)->Ok_0.uri),
    ensures
        reply_for(data, table, zombie_mode) == (ReplyView::NotFound {
            head: head_bytes(STATUS_NOT_FOUND@, Seq::empty()),
        }),
{
}

/// Bytes whose first line is no well-formed `GET <path> HTTP/1.0` or
/// `GET <path> HTTP/1.1` are answered with a 400, and the connection that
/// read them sends no body and ends with an error.
pub proof fn lemma_malformed_request_is_refused(
    connection: ConnectionView,
    data: Seq<u8>,
    table: MappingsView,
)
    requires
        !(valid_utf8(data) && crate::http::well_formed(decode_utf8(data))),
    ensures
        request_in(data) is Err,
        reply_for(data, table, connection.zombie_mode) == (ReplyView::BadRequest {
            head: head_bytes(STATUS_BAD_REQUEST@, Seq::empty()),
            error: request_in(data)->Err_0,
        }),
        connection.phase is Reading ==> connection.next(ConnectionEventView::Data(data), table)
            == connection.send(
            head_bytes(STATUS_BAD_REQUEST@, Seq::empty()),
            Seq::empty(),
            Err(ConnectionError::Request(request_in(data)->Err_0)),
        ),
{
}

/// The same request against the same routing table and cache gets the same
/// response, byte for byte. Two connections of one mode that read the same
/// bytes ask for the same step, and where that step is to write, the head,
/// the body and the outcome are the same. Two connections that wait for the
/// same asset and are handed the same file contents send the same too.
pub proof fn lemma_same_request_same_response(
    first: ConnectionView,
    second: ConnectionView,
    data: Seq<u8>,
    table: MappingsView,
    file: Option<Seq<u8>>,
)
    requires
        first.zombie_mode == second.zombie_mode,
    ensures
        ({
            let a = first.on_data(data, table);
            let b = second.on_data(data, table);
            &&& a.1 == b.1
            &&& a.0.phase == b.0.phase
            &&& a.1 is Write ==> a.0.head == b.0.head && a.0.body == b.0.body && a.0.outcome
                == b.0.outcome
        }),
        first.phase == second.phase && first.phase is Loading ==> ({
            let a = first.next(ConnectionEventView::File(file), table);
            let b = second.next(ConnectionEventView::File(file), table);
            a.1 == b.1 && a.0.head == b.0.head && a.0.body == b.0.body && a.0.outcome
                == b.0.outcome
        }),
{
}

/// A connection that is resumed while it still waits for the request ends
/// with `Timeout` once the time for the request has passed, and asks for
/// another read before that.
pub proof fn lemma_read_deadline(
    connection: ConnectionView,
    now: u64,
    pending_writes: bool,
    table: MappingsView,
)
    requires
        connection.phase is Reading,
    ensures
        connection.next(ConnectionEventView::Resumed { now, pending_writes }, table).1 == if elapsed(
            connection.started,
            now,
        ) >= REQUEST_READ_TIMEOUT_MS {
            ConnectionStepView::Finish(Err(ConnectionError::Timeout))
        } else {
            ConnectionStepView::Read { limit: REQUEST_BUFFER_SIZE }
        },
{
}

} // verus!
