//! Cross-origin requests: the answer to a preflight request, and the header that lets a
//! page of another origin read a response.

use crate::http::{appended, lookup, HeaderView, Headers, Request, Response, ResponseView, Status};
use crate::text::{lowercase, str_eq};
use vstd::prelude::*;
use vstd::string::*;

verus! {

/// The header by which a request names its origin.
pub open spec fn origin() -> Seq<char> {
    lowercase("Origin"@)
}

/// The header that admits origins.
pub open spec fn allow_origin() -> Seq<char> {
    lowercase("Access-Control-Allow-Origin"@)
}

/// The header by which a preflight request names the method that is to follow.
pub open spec fn request_method() -> Seq<char> {
    lowercase("Access-Control-Request-Method"@)
}

/// The header that grants methods.
pub open spec fn allow_methods() -> Seq<char> {
    lowercase("Access-Control-Allow-Methods"@)
}

/// The header by which a preflight request names the headers that are to follow.
pub open spec fn request_headers() -> Seq<char> {
    lowercase("Access-Control-Request-Headers"@)
}

/// The header that grants headers.
pub open spec fn allow_headers() -> Seq<char> {
    lowercase("Access-Control-Allow-Headers"@)
}

/// The value `*`.
pub open spec fn star() -> Seq<u8> {
    seq![42u8]
}

/// `headers` with the header that admits every origin, where the request names its
/// origin.
pub open spec fn with_allow_origin(headers: Seq<HeaderView>, request: Seq<HeaderView>) -> Seq<
    HeaderView,
> {
    if lookup(request, origin()) is Some {
        appended(headers, allow_origin(), star())
    } else {
        headers
    }
}

/// `headers` with the methods that the request asks for, where it asks for any.
pub open spec fn with_allow_methods(headers: Seq<HeaderView>, request: Seq<HeaderView>) -> Seq<
    HeaderView,
> {
    match lookup(request, request_method()) {
        Some(methods) => appended(headers, allow_methods(), methods),
        None => headers,
    }
}

/// `headers` with the header names that the request asks for, where it asks for any.
pub open spec fn with_allow_headers(headers: Seq<HeaderView>, request: Seq<HeaderView>) -> Seq<
    HeaderView,
> {
    match lookup(request, request_headers()) {
        Some(names) => appended(headers, allow_headers(), names),
        None => headers,
    }
}

/// The answer to a preflight request: no content, every origin admitted where the
/// request names its origin, and the methods and headers that it asks for granted.
pub open spec fn preflight(request: Seq<HeaderView>) -> ResponseView {
    ResponseView {
        status: Status::NoContent,
        headers: with_allow_headers(
            with_allow_methods(with_allow_origin(Seq::empty(), request), request),
            request,
        ),
        body: Seq::empty(),
    }
}

/// A response of the wrapped handler, opened to every origin where the request names
/// its origin.
pub open spec fn opened(inner: ResponseView, request: Seq<HeaderView>) -> ResponseView {
    ResponseView {
        status: inner.status,
        headers: with_allow_origin(inner.headers, request),
        body: inner.body,
    }
}

/// Answers `request` with cross-origin requests allowed: an `OPTIONS` request is
/// answered here and does not reach `on_request`; any other request goes to
/// `on_request`, and its response is opened to every origin where the request names its
/// origin.
pub fn cors_middleware<F: Fn(&Request) -> Response>(request: &Request, on_request: F) -> (response:
    Response)
    requires
        call_requires(on_request, (request,)),
    ensures
        request.method@ == "OPTIONS"@ ==> response@ == preflight(request.headers@),
        request.method@ != "OPTIONS"@ ==> exists|inner: Response|
            call_ensures(on_request, (request,), inner) && response@ == opened(
                inner@,
                request.headers@,
            ),
{
    let star: [u8; 1] = [42u8];
    assert(star@ =~= self::star());
    if str_eq(request.method.as_str(), "OPTIONS") {
        let mut headers = Headers::new();
        if request.header("Origin").is_some() {
            headers.append("Access-Control-Allow-Origin", star.as_slice());
        }
        match request.header("Access-Control-Request-Method") {
            Some(methods) => {
                headers.append("Access-Control-Allow-Methods", methods.as_slice());
            },
            None => {},
        }
        match request.header("Access-Control-Request-Headers") {
            Some(names) => {
                headers.append("Access-Control-Allow-Headers", names.as_slice());
            },
            None => {},
        }
        Response { status: Status::NoContent, headers, body: Vec::new() }
    } else {
        let inner = on_request(request);
        let ghost inner0 = inner@;
        let Response { status, headers, body } = inner;
        let mut headers = headers;
        if request.header("Origin").is_some() {
            headers.append("Access-Control-Allow-Origin", star.as_slice());
        }
        let response = Response { status, headers, body };
        assert(response@ == opened(inner0, request.headers@));
        response
    }
}

} // verus!
