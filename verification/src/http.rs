//! The plain values of one HTTP exchange: status, header list, request, response and
//! the error that a handler answers with.

use crate::text::{chars_eq, chars_of, find, lemma_find_is, lowercase, string_of, to_lowercase};
use vstd::prelude::*;
use vstd::slice::*;
use vstd::string::*;
use vstd::utf8::*;

verus! {

/// The statuses that this server answers with.
#[derive(Clone, Copy, Debug, PartialEq, Eq, Structural)]
pub enum Status {
    Success,
    Created,
    NoContent,
    BadRequest,
    Forbidden,
    NotFound,
    MethodNotAllowed,
    NotAcceptable,
    UnsupportedMediaType,
    InternalServerError,
}

impl Status {
    /// The numeric status code.
    pub open spec fn code_of(self) -> u16 {
        match self {
            Status::Success => 200,
            Status::Created => 201,
            Status::NoContent => 204,
            Status::BadRequest => 400,
            Status::Forbidden => 403,
            Status::NotFound => 404,
            Status::MethodNotAllowed => 405,
            Status::NotAcceptable => 406,
            Status::UnsupportedMediaType => 415,
            Status::InternalServerError => 500,
        }
    }

    /// The numeric status code.
    pub fn code(&self) -> (code: u16)
        ensures
            code == self.code_of(),
    {
        match self {
            Status::Success => 200,
            Status::Created => 201,
            Status::NoContent => 204,
            Status::BadRequest => 400,
            Status::Forbidden => 403,
            Status::NotFound => 404,
            Status::MethodNotAllowed => 405,
            Status::NotAcceptable => 406,
            Status::UnsupportedMediaType => 415,
            Status::InternalServerError => 500,
        }
    }
}

/// What a failed handler answers: a status and a message for the plain-text body.
pub struct Failure {
    pub status: Status,
    pub message: Seq<char>,
}

/// The error of a handler.
#[derive(Debug)]
pub struct HttpError {
    pub status: Status,
    pub message: String,
}

impl View for HttpError {
    type V = Failure;

    open spec fn view(&self) -> Failure {
        Failure { status: self.status, message: self.message@ }
    }
}

/// A `BadRequest` failure.
pub open spec fn bad(message: Seq<char>) -> Failure {
    Failure { status: Status::BadRequest, message }
}

/// An `InternalServerError` failure.
pub open spec fn internal(message: Seq<char>) -> Failure {
    Failure { status: Status::InternalServerError, message }
}

/// A `BadRequest` error with the message.
pub fn bad_request(message: String) -> (e: HttpError)
    ensures
        e@ == bad(message@),
{
    HttpError { status: Status::BadRequest, message }
}

/// An `InternalServerError` error with the message.
pub fn internal_server_error(message: String) -> (e: HttpError)
    ensures
        e@ == internal(message@),
{
    HttpError { status: Status::InternalServerError, message }
}

/// The failure for a request body in a format that the server does not read.
pub open spec fn unsupported(content_type: Seq<char>) -> Failure {
    Failure {
        status: Status::UnsupportedMediaType,
        message: "No supported content Content-Type given: "@ + content_type,
    }
}

/// The error for a request body in a format that the server does not read.
pub fn unsupported_media_type(content_type: &str) -> (e: HttpError)
    ensures
        e@ == unsupported(content_type@),
{
    let mut message = String::from_str("No supported content Content-Type given: ");
    message.append(content_type);
    HttpError { status: Status::UnsupportedMediaType, message }
}

/// The failure for a method that a path does not take.
pub open spec fn method_not_allowed(method: Seq<char>) -> Failure {
    Failure {
        status: Status::MethodNotAllowed,
        message: method + " is not supported by this server"@,
    }
}

/// The error for a method that a path does not take.
pub fn method_not_allowed_error(method: &str) -> (e: HttpError)
    ensures
        e@ == method_not_allowed(method@),
{
    let mut message = String::from_str(method);
    message.append(" is not supported by this server");
    HttpError { status: Status::MethodNotAllowed, message }
}

/// One header: its name in lower case, and its value.
pub type HeaderView = (Seq<char>, Seq<u8>);

/// The names of a header list, in order.
pub open spec fn names(entries: Seq<HeaderView>) -> Seq<Seq<char>> {
    Seq::new(entries.len(), |i: int| entries[i].0)
}

/// The value that a header list holds under `name`, a name in lower case.
pub open spec fn lookup(entries: Seq<HeaderView>, name: Seq<char>) -> Option<Seq<u8>> {
    let i = find(names(entries), name);
    if 0 <= i < entries.len() {
        Some(entries[i].1)
    } else {
        None
    }
}

/// The list after one more value came in under `name`, a name in lower case: a name that
/// the list holds already keeps its place and gets the value added behind a comma and a
/// space; a new name goes to the end.
pub open spec fn appended(entries: Seq<HeaderView>, name: Seq<char>, value: Seq<u8>) -> Seq<
    HeaderView,
> {
    let i = find(names(entries), name);
    if 0 <= i < entries.len() {
        entries.update(i, (name, entries[i].1 + seq![44u8, 32u8] + value))
    } else {
        entries.push((name, value))
    }
}

/// A header list. Names are kept in lower case, so that a lookup finds a header whatever
/// the case it was sent in.
#[derive(Debug)]
pub struct Headers {
    pub entries: Vec<(String, Vec<u8>)>,
}

impl View for Headers {
    type V = Seq<HeaderView>;

    open spec fn view(&self) -> Seq<HeaderView> {
        Seq::new(self.entries@.len(), |i: int| (self.entries@[i].0@, self.entries@[i].1@))
    }
}

impl Headers {
    /// A list without headers.
    pub fn new() -> (h: Headers)
        ensures
            h@ == Seq::<HeaderView>::empty(),
    {
        let h = Headers { entries: Vec::new() };
        assert(h@ =~= Seq::<HeaderView>::empty());
        h
    }

    /// Place of the header `name`, a name in lower case, or the length of the list.
    fn position(&self, name: &[char]) -> (at: usize)
        ensures
            at == find(names(self@), name@),
            at <= self.entries@.len(),
    {
        let mut i: usize = 0;
        while i < self.entries.len()
            invariant
                i <= self.entries@.len(),
                forall|j: int| 0 <= j < i ==> names(self@)[j] != name@,
            decreases self.entries@.len() - i,
        {
            let stored = chars_of(self.entries[i].0.as_str());
            if chars_eq(stored.as_slice(), name) {
                proof {
                    assert(names(self@)[i as int] == name@);
                    lemma_find_is(names(self@), name@, i as int);
                }
                return i;
            }
            assert(names(self@)[i as int] != name@);
            i = i + 1;
        }
        proof {
            lemma_find_is(names(self@), name@, i as int);
        }
        i
    }

    /// The value of the header `name`, whatever the case of `name`.
    pub fn get(&self, name: &str) -> (value: Option<&Vec<u8>>)
        ensures
            match value {
                Some(v) => lookup(self@, lowercase(name@)) == Some(v@),
                None => lookup(self@, lowercase(name@)) is None,
            },
    {
        let wanted = to_lowercase(chars_of(name).as_slice());
        let at = self.position(wanted.as_slice());
        if at < self.entries.len() {
            Some(&self.entries[at].1)
        } else {
            None
        }
    }

    /// Whether the list holds a header `name`, whatever the case of `name`.
    pub fn contains(&self, name: &str) -> (found: bool)
        ensures
            found == lookup(self@, lowercase(name@)) is Some,
    {
        self.get(name).is_some()
    }

    /// Adds a value under `name`. A header that is there already keeps its earlier values.
    pub fn append(&mut self, name: &str, value: &[u8])
        ensures
            final(self)@ == appended(old(self)@, lowercase(name@), value@),
    {
        let wanted = to_lowercase(chars_of(name).as_slice());
        let at = self.position(wanted.as_slice());
        if at < self.entries.len() {
            let mut joined: Vec<u8> = self.entries[at].1.clone();
            joined.push(44u8);
            joined.push(32u8);
            let mut tail = slice_to_vec(value);
            joined.append(&mut tail);
            let ghost before = self@;
            self.entries.set(at, (string_of(wanted.as_slice()), joined));
            proof {
                assert(joined@ == before[at as int].1 + seq![44u8, 32u8] + value@);
                assert(self@ =~= before.update(
                    at as int,
                    (wanted@, before[at as int].1 + seq![44u8, 32u8] + value@),
                ));
            }
        } else {
            let ghost before = self@;
            self.entries.push((string_of(wanted.as_slice()), slice_to_vec(value)));
            proof {
                assert(self@ =~= before.push((wanted@, value@)));
            }
        }
    }
}

/// A request, as the handlers read it. The body is not part of it: it is read once,
/// where a handler asks for it.
#[derive(Debug)]
pub struct Request {
    /// The method, as sent: `GET`, `POST`, ...
    pub method: String,
    /// The whole URL.
    pub url: String,
    /// The path of the URL.
    pub path: String,
    /// The query string of the URL, still encoded; empty where the URL has none.
    pub query: String,
    pub headers: Headers,
}

impl Request {
    /// The value of the header `name`, whatever the case of `name`.
    pub fn header(&self, name: &str) -> (value: Option<&Vec<u8>>)
        ensures
            match value {
                Some(v) => lookup(self.headers@, lowercase(name@)) == Some(v@),
                None => lookup(self.headers@, lowercase(name@)) is None,
            },
    {
        self.headers.get(name)
    }
}

/// What a response is, as plain values.
pub struct ResponseView {
    pub status: Status,
    pub headers: Seq<HeaderView>,
    pub body: Seq<u8>,
}

/// A response with its whole body in memory.
#[derive(Debug)]
pub struct Response {
    pub status: Status,
    pub headers: Headers,
    pub body: Vec<u8>,
}

impl View for Response {
    type V = ResponseView;

    open spec fn view(&self) -> ResponseView {
        ResponseView { status: self.status, headers: self.headers@, body: self.body@ }
    }
}

/// The plain-text response that reports a failure.
pub open spec fn error_response(failure: Failure) -> ResponseView {
    ResponseView {
        status: failure.status,
        headers: seq![
            (lowercase("Content-Type"@), encode_utf8("text/plain; charset=utf-8"@)),
        ],
        body: encode_utf8(failure.message),
    }
}

/// The response that reports a failure: the status, and the message as plain text.
pub fn error(status: Status, message: &str) -> (response: Response)
    ensures
        response@ == error_response(Failure { status, message: message@ }),
{
    let mut headers = Headers::new();
    headers.append("Content-Type", "text/plain; charset=utf-8".as_bytes());
    let response = Response { status, headers, body: slice_to_vec(message.as_bytes()) };
    assert(response@.headers =~= error_response(Failure { status, message: message@ }).headers);
    response
}

impl HttpError {
    /// The response that reports this error.
    pub fn into_response(self) -> (response: Response)
        ensures
            response@ == error_response(self@),
    {
        error(self.status, self.message.as_str())
    }
}

/// Reads bytes as UTF-8 text through `core::str::from_utf8`: the text is there exactly
/// when the bytes are valid UTF-8, and is then what they decode to.
#[verifier::external_body]
pub(crate) fn utf8_text(bytes: &[u8]) -> (text: Option<&str>)
    ensures
        match text {
            Some(s) => valid_utf8(bytes@) && s@ == decode_utf8(bytes@),
            None => !valid_utf8(bytes@),
        },
{
    core::str::from_utf8(bytes).ok()
}

} // verus!
