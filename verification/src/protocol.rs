//! The request/response protocol: what a request asks for, what the store
//! does about it, and what is sent back.

use crate::codec::{decode_request, encode_object, json_object_text, json_request, option_bytes};
use crate::durable::{planned_write, store_entry, DurableWrite, WriteView};
use crate::store::{
    has_key, lemma_map_keys, lemma_put_map, records_after_put, records_map, Record, Store,
};
use vstd::prelude::*;

verus! {

/// A decoded request: the three string members that the protocol reads. A
/// member is `None` where the request has none of that name, or one that is
/// no string.
#[derive(Debug, PartialEq, Eq)]
pub struct Request {
    pub request_type: Option<String>,
    pub key: Option<String>,
    pub hash: Option<String>,
}

/// A request as mathematical strings.
pub struct RequestView {
    pub request_type: Option<Seq<char>>,
    pub key: Option<Seq<char>>,
    pub hash: Option<Seq<char>>,
}

impl View for Request {
    type V = RequestView;

    open spec fn view(&self) -> RequestView {
        RequestView {
            request_type: self.request_type.deep_view(),
            key: self.key.deep_view(),
            hash: self.hash.deep_view(),
        }
    }
}

/// One member of a JSON object whose values are strings.
#[derive(Debug, PartialEq, Eq)]
pub struct Field {
    pub name: String,
    pub value: String,
}

impl DeepView for Field {
    type V = (Seq<char>, Seq<char>);

    open spec fn deep_view(&self) -> (Seq<char>, Seq<char>) {
        (self.name@, self.value@)
    }
}

/// What is sent back for a request.
#[derive(Debug, PartialEq, Eq)]
pub enum Response {
    /// A store request was carried out.
    Success,
    /// A load request found the key.
    Found { key: String, hash: String },
    /// A load request did not find the key.
    KeyNotFound,
    /// The request type is missing or is neither `store` nor `load`.
    UnknownRequest,
    /// The request is no JSON text.
    ParseFailed { error: String },
    /// A member that the request type needs is missing or is no string.
    BadRequest,
    /// The durable file could not be brought up to date.
    StorageFailure,
}

/// A response as mathematical strings.
pub enum ResponseView {
    Success,
    Found { key: Seq<char>, hash: Seq<char> },
    KeyNotFound,
    UnknownRequest,
    ParseFailed { error: Seq<char> },
    BadRequest,
    StorageFailure,
}

impl View for Response {
    type V = ResponseView;

    open spec fn view(&self) -> ResponseView {
        match self {
            Response::Success => ResponseView::Success,
            Response::Found { key, hash } => ResponseView::Found { key: key@, hash: hash@ },
            Response::KeyNotFound => ResponseView::KeyNotFound,
            Response::UnknownRequest => ResponseView::UnknownRequest,
            Response::ParseFailed { error } => ResponseView::ParseFailed { error: error@ },
            Response::BadRequest => ResponseView::BadRequest,
            Response::StorageFailure => ResponseView::StorageFailure,
        }
    }
}

/// What there is to log about a request: the operation, its arguments and
/// the number of entries before it.
#[derive(Debug, PartialEq, Eq)]
pub enum LogEvent {
    Stored { key: String, hash: String, size: usize },
    Loaded { key: String, size: usize },
}

/// A log event as mathematical values.
pub enum LogView {
    Stored { key: Seq<char>, hash: Seq<char>, size: nat },
    Loaded { key: Seq<char>, size: nat },
}

impl View for LogEvent {
    type V = LogView;

    open spec fn view(&self) -> LogView {
        match self {
            LogEvent::Stored { key, hash, size } => LogView::Stored {
                key: key@,
                hash: hash@,
                size: *size as nat,
            },
            LogEvent::Loaded { key, size } => LogView::Loaded { key: key@, size: *size as nat },
        }
    }
}

/// The text of one decimal digit.
pub open spec fn digit_text(d: nat) -> Seq<char> {
    if d == 0 {
        "0"@
    } else if d == 1 {
        "1"@
    } else if d == 2 {
        "2"@
    } else if d == 3 {
        "3"@
    } else if d == 4 {
        "4"@
    } else if d == 5 {
        "5"@
    } else if d == 6 {
        "6"@
    } else if d == 7 {
        "7"@
    } else if d == 8 {
        "8"@
    } else {
        "9"@
    }
}

/// The decimal text of a number, without leading zeros.
pub open spec fn decimal(n: nat) -> Seq<char>
    decreases n,
{
    if n < 10 {
        digit_text(n)
    } else {
        decimal(n / 10) + digit_text(n % 10)
    }
}

/// The message that is logged for an event.
pub open spec fn log_message(event: LogView) -> Seq<char> {
    match event {
        LogView::Stored { key, hash, size } => "Received request to write new value "@ + hash
            + " by key "@ + key + ". Storage size: "@ + decimal(size) + "."@,
        LogView::Loaded { key, size } => "Received request to get value by key "@ + key
            + ". Storage size: "@ + decimal(size) + "."@,
    }
}

/// The message that is logged when a connection opens on a store of `size`
/// entries.
pub open spec fn connection_text(size: nat) -> Seq<char> {
    "Connection established. Storage size: "@ + decimal(size) + "."@
}

/// The text of the decimal digit `d`.
fn digit(d: usize) -> (s: &'static str)
    requires
        d < 10,
    ensures
        s@ == digit_text(d as nat),
{
    if d == 0 {
        "0"
    } else if d == 1 {
        "1"
    } else if d == 2 {
        "2"
    } else if d == 3 {
        "3"
    } else if d == 4 {
        "4"
    } else if d == 5 {
        "5"
    } else if d == 6 {
        "6"
    } else if d == 7 {
        "7"
    } else if d == 8 {
        "8"
    } else {
        "9"
    }
}

/// The decimal text of `n`.
pub fn decimal_string(n: usize) -> (s: String)
    ensures
        s@ == decimal(n as nat),
    decreases n,
{
    if n < 10 {
        digit(n).to_owned()
    } else {
        let mut s = decimal_string(n / 10);
        s.append(digit(n % 10));
        s
    }
}

/// The message that is logged when a connection opens on a store of `size`
/// entries.
pub fn connection_message(size: usize) -> (s: String)
    ensures
        s@ == connection_text(size as nat),
{
    let mut s = "Connection established. Storage size: ".to_owned();
    s.append(decimal_string(size).as_str());
    s.append(".");
    s
}

impl LogEvent {
    /// The message that is logged for this event.
    pub fn message(&self) -> (s: String)
        ensures
            s@ == log_message(self@),
    {
        match self {
            LogEvent::Stored { key, hash, size } => {
                let mut s = "Received request to write new value ".to_owned();
                s.append(hash.as_str());
                s.append(" by key ");
                s.append(key.as_str());
                s.append(". Storage size: ");
                s.append(decimal_string(*size).as_str());
                s.append(".");
                s
            },
            LogEvent::Loaded { key, size } => {
                let mut s = "Received request to get value by key ".to_owned();
                s.append(key.as_str());
                s.append(". Storage size: ");
                s.append(decimal_string(*size).as_str());
                s.append(".");
                s
            },
        }
    }
}

/// All that follows from one request: the response to send, the write to
/// make to the durable file before sending it, and the event to log.
#[derive(Debug, PartialEq, Eq)]
pub struct Reply {
    pub response: Response,
    pub write: Option<DurableWrite>,
    pub log: Option<LogEvent>,
}

/// A reply as mathematical values.
pub struct ReplyView {
    pub response: ResponseView,
    pub write: Option<WriteView>,
    pub log: Option<LogView>,
}

impl View for Reply {
    type V = ReplyView;

    open spec fn view(&self) -> ReplyView {
        ReplyView {
            response: self.response@,
            write: match self.write {
                Some(w) => Some(w@),
                None => None,
            },
            log: match self.log {
                Some(e) => Some(e@),
                None => None,
            },
        }
    }
}

/// A reply that is a response and nothing else.
pub open spec fn only(response: ResponseView) -> ReplyView {
    ReplyView { response, write: None, log: None }
}

/// The request is a `store` request with its key and its hash: the one
/// kind that changes the store.
pub open spec fn is_store(request: RequestView) -> bool {
    request.request_type == Some("store"@) && request.key is Some && request.hash is Some
}

/// The reply that a store holding `rs` owes to `request`.
pub open spec fn reply_to(rs: Seq<Record>, request: RequestView) -> ReplyView {
    if request.request_type == Some("store"@) {
        match (request.key, request.hash) {
            (Some(k), Some(h)) => ReplyView {
                response: if planned_write(rs, k, h) is Some {
                    ResponseView::Success
                } else {
                    ResponseView::StorageFailure
                },
                write: planned_write(rs, k, h),
                log: Some(LogView::Stored { key: k, hash: h, size: rs.len() }),
            },
            _ => only(ResponseView::BadRequest),
        }
    } else if request.request_type == Some("load"@) {
        match request.key {
            Some(k) => ReplyView {
                response: if has_key(rs, k) {
                    ResponseView::Found { key: k, hash: records_map(rs)[k] }
                } else {
                    ResponseView::KeyNotFound
                },
                write: None,
                log: Some(LogView::Loaded { key: k, size: rs.len() }),
            },
            None => only(ResponseView::BadRequest),
        }
    } else {
        only(ResponseView::UnknownRequest)
    }
}

/// The records of the store after `request`: changed by a store request
/// that could be carried out, and by nothing else.
pub open spec fn records_after_request(rs: Seq<Record>, request: RequestView) -> Seq<Record> {
    if request.request_type == Some("store"@) {
        match (request.key, request.hash) {
            (Some(k), Some(h)) => if planned_write(rs, k, h) is Some {
                records_after_put(rs, k, h)
            } else {
                rs
            },
            _ => rs,
        }
    } else {
        rs
    }
}

/// Round trip through the protocol: a `store` request that is carried out
/// is answered with success, and a `load` request for its key is then
/// answered with that key and the hash that was stored.
pub proof fn law_store_then_load(rs: Seq<Record>, k: Seq<char>, h: Seq<char>)
    requires
        planned_write(rs, k, h) is Some,
    ensures
        ({
            let store = RequestView { request_type: Some("store"@), key: Some(k), hash: Some(h) };
            let load = RequestView { request_type: Some("load"@), key: Some(k), hash: None };
            &&& reply_to(rs, store).response == ResponseView::Success
            &&& reply_to(records_after_request(rs, store), load).response == (ResponseView::Found {
                key: k,
                hash: h,
            })
        }),
{
    reveal_strlit("store");
    reveal_strlit("load");
    assert("store"@.len() == 5 && "load"@.len() == 4);
    let after = records_after_put(rs, k, h);
    lemma_put_map(rs, k, h);
    lemma_map_keys(after);
    assert(records_map(after).contains_key(k));
    assert(has_key(after, k));
}

/// The reply owed for what was read from a connection, given what the JSON
/// parser made of it.
pub open spec fn reply_to_parsed(rs: Seq<Record>, parsed: Result<RequestView, Seq<char>>) -> ReplyView {
    match parsed {
        Ok(request) => reply_to(rs, request),
        Err(message) => only(ResponseView::ParseFailed { error: message }),
    }
}

/// The records of the store after what was read from a connection.
pub open spec fn records_after_parsed(
    rs: Seq<Record>,
    parsed: Result<RequestView, Seq<char>>,
) -> Seq<Record> {
    match parsed {
        Ok(request) => records_after_request(rs, request),
        Err(_) => rs,
    }
}

/// What was read from a connection is a `store` request with its key and
/// its hash.
pub open spec fn changes_store(parsed: Result<RequestView, Seq<char>>) -> bool {
    match parsed {
        Ok(request) => is_store(request),
        Err(_) => false,
    }
}

/// The members of the JSON object that is sent for a response.
pub open spec fn response_fields(response: ResponseView) -> Seq<Record> {
    match response {
        ResponseView::Success => seq![("response_status"@, "success"@)],
        ResponseView::Found { key, hash } => seq![
            ("response_status"@, "success"@),
            ("requested_key"@, key),
            ("requested_hash"@, hash),
        ],
        ResponseView::KeyNotFound => seq![("response_status"@, "key not found"@)],
        ResponseView::UnknownRequest => seq![("response_status"@, "unknown request"@)],
        ResponseView::ParseFailed { error } => seq![
            ("response_status"@, "json parsing failed"@),
            ("error"@, error),
        ],
        ResponseView::BadRequest => seq![("response_status"@, "bad request"@)],
        ResponseView::StorageFailure => seq![("response_status"@, "internal error"@)],
    }
}

/// The members of the greeting that opens every connection.
pub open spec fn greeting_fields() -> Seq<Record> {
    seq![("student_name"@, "Anastasia Medvedeva"@)]
}

/// The byte that ends a request unit: a closing brace.
pub const REQUEST_END: u8 = 125;

/// Whether the optional string is present and reads `text`.
fn reads(member: &Option<String>, text: &str) -> (b: bool)
    ensures
        b == (member.deep_view() == Some(text@)),
{
    match member {
        Some(s) => {
            let t = text.to_owned();
            *s == t
        },
        None => false,
    }
}

/// A field with the given name and value.
fn field(name: &str, value: &str) -> (f: Field)
    ensures
        f.deep_view() == (name@, value@),
{
    Field { name: name.to_owned(), value: value.to_owned() }
}

/// A reply that is a response and nothing else.
fn reply_only(response: Response) -> (reply: Reply)
    ensures
        reply@ == only(response@),
{
    Reply { response, write: None, log: None }
}

impl Response {
    /// The members of the JSON object that is sent for this response, in the
    /// order in which they are listed.
    pub fn fields(&self) -> (fields: Vec<Field>)
        ensures
            fields.deep_view() == response_fields(self@),
    {
        let mut out: Vec<Field> = Vec::new();
        match self {
            Response::Success => {
                out.push(field("response_status", "success"));
            },
            Response::Found { key, hash } => {
                out.push(field("response_status", "success"));
                out.push(field("requested_key", key.as_str()));
                out.push(field("requested_hash", hash.as_str()));
            },
            Response::KeyNotFound => {
                out.push(field("response_status", "key not found"));
            },
            Response::UnknownRequest => {
                out.push(field("response_status", "unknown request"));
            },
            Response::ParseFailed { error } => {
                out.push(field("response_status", "json parsing failed"));
                out.push(field("error", error.as_str()));
            },
            Response::BadRequest => {
                out.push(field("response_status", "bad request"));
            },
            Response::StorageFailure => {
                out.push(field("response_status", "internal error"));
            },
        }
        assert(out.deep_view() =~= response_fields(self@));
        out
    }
}

/// The greeting that is sent when a connection opens, before any request is
/// read.
pub fn greetings() -> (fields: Vec<Field>)
    ensures
        fields.deep_view() == greeting_fields(),
{
    let mut out: Vec<Field> = Vec::new();
    out.push(field("student_name", "Anastasia Medvedeva"));
    assert(out.deep_view() =~= greeting_fields());
    out
}

/// The greeting as pretty-printed JSON text.
pub fn render_greeting() -> (text: Option<Vec<u8>>)
    ensures
        option_bytes(text) == json_object_text(greeting_fields()),
{
    let fields = greetings();
    encode_object(&fields)
}

/// The response as pretty-printed JSON text.
pub fn render_response(response: &Response) -> (text: Option<Vec<u8>>)
    ensures
        option_bytes(text) == json_object_text(response_fields(response@)),
{
    let fields = response.fields();
    encode_object(&fields)
}

/// The length of the request unit at the start of `buffer`: everything up to
/// and including the first closing brace. `None` where the buffer holds no
/// closing brace yet.
pub fn request_unit_len(buffer: &[u8]) -> (r: Option<usize>)
    ensures
        match r {
            Some(n) => {
                &&& 0 < n <= buffer@.len()
                &&& buffer@[n - 1] == REQUEST_END
                &&& forall|j: int| 0 <= j < n - 1 ==> buffer@[j] != REQUEST_END
            },
            None => forall|j: int| 0 <= j < buffer@.len() ==> buffer@[j] != REQUEST_END,
        },
{
    let mut i: usize = 0;
    while i < buffer.len()
        invariant
            i <= buffer@.len(),
            forall|j: int| 0 <= j < i ==> buffer@[j] != REQUEST_END,
        decreases buffer@.len() - i,
    {
        if buffer[i] == REQUEST_END {
            return Some(i + 1);
        }
        i += 1;
    }
    None
}

/// Answers a request that cannot change the store, under shared access: a
/// `load` request, a bad one or an unknown one. For a `store` request with
/// its key and hash it answers nothing, since that takes exclusive access.
pub fn answer_read(store: &Store, request: &Request) -> (reply: Option<Reply>)
    requires
        store.wf(),
    ensures
        match reply {
            Some(r) => !is_store(request@) && r@ == reply_to(store.records(), request@),
            None => is_store(request@),
        },
{
    if reads(&request.request_type, "store") {
        match (&request.key, &request.hash) {
            (Some(_), Some(_)) => None,
            _ => Some(reply_only(Response::BadRequest)),
        }
    } else if reads(&request.request_type, "load") {
        match &request.key {
            Some(key) => {
                let size = store.size();
                let log = LogEvent::Loaded { key: key.clone(), size };
                proof {
                    lemma_map_keys(store.records());
                }
                let response = match store.get(key.as_str()) {
                    Some(hash) => Response::Found { key: key.clone(), hash },
                    None => Response::KeyNotFound,
                };
                Some(Reply { response, write: None, log: Some(log) })
            },
            None => Some(reply_only(Response::BadRequest)),
        }
    } else {
        Some(reply_only(Response::UnknownRequest))
    }
}

/// Carries out one request on the store and says what to send back, what to
/// write to the durable file and what to log.
///
/// A `store` request puts the hash under the key; a `load` request looks the
/// key up; any other request type, or none, is an unknown request and leaves
/// the store alone. A `store` or `load` request without the string members
/// that it needs is a bad request and leaves the store alone too.
pub fn generate_response(store: &mut Store, request: &Request) -> (reply: Reply)
    requires
        old(store).wf(),
    ensures
        final(store).wf(),
        reply@ == reply_to(old(store).records(), request@),
        final(store).records() == records_after_request(old(store).records(), request@),
        request@.request_type != Some("store"@) ==> final(store).records() == old(store).records(),
        request@.request_type != Some("store"@) && request@.request_type != Some("load"@) ==> reply@
            == only(ResponseView::UnknownRequest),
{
    match answer_read(store, request) {
        Some(reply) => reply,
        None => {
            match (&request.key, &request.hash) {
                (Some(key), Some(hash)) => {
                    let size = store.size();
                    let log = LogEvent::Stored { key: key.clone(), hash: hash.clone(), size };
                    match store_entry(store, key.as_str(), hash.as_str()) {
                        Some(write) => Reply {
                            response: Response::Success,
                            write: Some(write),
                            log: Some(log),
                        },
                        None => Reply {
                            response: Response::StorageFailure,
                            write: None,
                            log: Some(log),
                        },
                    }
                },
                _ => reply_only(Response::BadRequest),
            }
        },
    }
}

/// Answers what the JSON parser made of the bytes of a connection: a parsed
/// request is carried out, a parsing failure is reported with the parser's
/// message and leaves the store alone.
pub fn respond(store: &mut Store, parsed: Result<Request, String>) -> (reply: Reply)
    requires
        old(store).wf(),
    ensures
        final(store).wf(),
        reply@ == reply_to_parsed(old(store).records(), parsed_view(parsed)),
        final(store).records() == records_after_parsed(old(store).records(), parsed_view(parsed)),
        parsed is Err ==> final(store).records() == old(store).records() && reply@ == only(
            ResponseView::ParseFailed { error: parsed->Err_0@ },
        ),
{
    match parsed {
        Ok(request) => generate_response(store, &request),
        Err(message) => reply_only(Response::ParseFailed { error: message }),
    }
}

/// The parser's outcome as mathematical values.
pub open spec fn parsed_view(parsed: Result<Request, String>) -> Result<RequestView, Seq<char>> {
    match parsed {
        Ok(request) => Ok(request@),
        Err(message) => Err(message@),
    }
}

/// Handles the request unit that was read from one connection: parses it as
/// JSON and answers it.
pub fn handle_connection(store: &mut Store, buffer: &[u8]) -> (reply: Reply)
    requires
        old(store).wf(),
    ensures
        final(store).wf(),
        reply@ == reply_to_parsed(old(store).records(), json_request(buffer@)),
        final(store).records() == records_after_parsed(old(store).records(), json_request(buffer@)),
        json_request(buffer@) is Err ==> final(store).records() == old(store).records() && reply@
            == only(ResponseView::ParseFailed { error: json_request(buffer@)->Err_0 }),
{
    let parsed = decode_request(buffer);
    respond(store, parsed)
}

/// Handles the request unit that was read from one connection under shared
/// access to the store, where that is enough: for everything but a `store`
/// request with its key and hash, for which it answers nothing.
pub fn handle_read(store: &Store, buffer: &[u8]) -> (reply: Option<Reply>)
    requires
        store.wf(),
    ensures
        match reply {
            Some(r) => {
                &&& !changes_store(json_request(buffer@))
                &&& r@ == reply_to_parsed(store.records(), json_request(buffer@))
            },
            None => changes_store(json_request(buffer@)),
        },
{
    match decode_request(buffer) {
        Ok(request) => answer_read(store, &request),
        Err(message) => Some(reply_only(Response::ParseFailed { error: message })),
    }
}

} // verus!
