use kos_kit_server::cors::cors_middleware;
use kos_kit_server::http::{error, Headers, HttpError, Request, Response, Status};
use kos_kit_server::router::{handle_request, Route, StoreMethod};

fn request_to(method: &str, path: &str) -> Request {
    Request {
        method: method.to_string(),
        url: format!("http://localhost:7878{}", path),
        path: path.to_string(),
        query: String::new(),
        headers: Headers::new(),
    }
}

fn plain_answer(_request: &Request) -> Response {
    let mut headers = Headers::new();
    headers.append("Content-Type", b"text/plain");
    Response { status: Status::Success, headers, body: b"hello".to_vec() }
}

fn refusal(method: &str, path: &str, read_only: bool) -> HttpError {
    handle_request(&request_to(method, path), read_only).unwrap_err()
}

#[test]
fn paths_and_methods_find_their_handler() {
    let route = |method: &str, path: &str| handle_request(&request_to(method, path), false).unwrap();
    assert_eq!(route("GET", "/"), Route::Landing);
    assert_eq!(route("GET", "/query"), Route::Query);
    assert_eq!(route("POST", "/query"), Route::Query);
    assert_eq!(route("POST", "/update"), Route::Update);
    assert_eq!(route("GET", "/store"), Route::Store(StoreMethod::Get));
    assert_eq!(route("PUT", "/store"), Route::Store(StoreMethod::Put));
    assert_eq!(route("POST", "/store"), Route::Store(StoreMethod::Post));
    assert_eq!(route("DELETE", "/store"), Route::Store(StoreMethod::Delete));
    assert_eq!(route("HEAD", "/store"), Route::Store(StoreMethod::Head));
    assert_eq!(route("GET", "/search"), Route::Search);
}

#[test]
fn anything_else_is_not_found() {
    for (method, path) in [
        ("PUT", "/query"),
        ("GET", "/update"),
        ("PATCH", "/store"),
        ("POST", "/search"),
        ("GET", "/sparql"),
        ("GET", "/query/"),
        ("GET", ""),
        ("get", "/query"),
    ] {
        let error = refusal(method, path, false);
        assert_eq!(error.status, Status::NotFound);
        assert_eq!(error.status.code(), 404);
        assert_eq!(
            error.message,
            format!("{} {} is not supported by this server", method, path)
        );
    }
}

#[test]
fn landing_page_takes_get_alone() {
    let error = refusal("POST", "/", false);
    assert_eq!(error.status, Status::MethodNotAllowed);
    assert_eq!(error.status.code(), 405);
    assert_eq!(error.message, "POST is not supported by this server");
}

#[test]
fn read_only_mode_forbids_every_change() {
    for (method, path) in [
        ("POST", "/update"),
        ("PUT", "/store"),
        ("POST", "/store"),
        ("DELETE", "/store"),
    ] {
        let error = refusal(method, path, true);
        assert_eq!(error.status, Status::Forbidden);
        assert_eq!(error.status.code(), 403);
        assert_eq!(error.message, "The server is in read-only mode");
        assert!(handle_request(&request_to(method, path), false).is_ok());
    }
}

#[test]
fn read_only_mode_lets_reads_through() {
    let route = |method: &str, path: &str| handle_request(&request_to(method, path), true).unwrap();
    assert_eq!(route("GET", "/query"), Route::Query);
    assert_eq!(route("POST", "/query"), Route::Query);
    assert_eq!(route("GET", "/store"), Route::Store(StoreMethod::Get));
    assert_eq!(route("HEAD", "/store"), Route::Store(StoreMethod::Head));
    assert_eq!(route("GET", "/search"), Route::Search);
    assert_eq!(route("GET", "/"), Route::Landing);
    assert_eq!(refusal("GET", "/update", true).status, Status::NotFound);
}

#[test]
fn preflight_is_answered_without_the_handler() {
    let mut request = request_to("OPTIONS", "/query");
    request.headers.append("Origin", b"http://a");
    request.headers.append("Access-Control-Request-Method", b"POST");
    let response = cors_middleware(&request, |_: &Request| -> Response {
        panic!("the handler was asked")
    });
    assert_eq!(response.status, Status::NoContent);
    assert_eq!(response.status.code(), 204);
    assert_eq!(
        response.headers.get("Access-Control-Allow-Origin"),
        Some(&b"*".to_vec())
    );
    assert_eq!(
        response.headers.get("Access-Control-Allow-Methods"),
        Some(&b"POST".to_vec())
    );
    assert_eq!(response.headers.get("Access-Control-Allow-Headers"), None);
    assert!(response.body.is_empty());
}

#[test]
fn preflight_echoes_the_requested_headers() {
    let mut request = request_to("OPTIONS", "/update");
    request.headers.append("access-control-request-headers", b"content-type, accept");
    let response = cors_middleware(&request, |_: &Request| -> Response {
        panic!("the handler was asked")
    });
    assert_eq!(response.status, Status::NoContent);
    assert_eq!(response.headers.get("Access-Control-Allow-Origin"), None);
    assert_eq!(response.headers.get("Access-Control-Allow-Methods"), None);
    assert_eq!(
        response.headers.get("Access-Control-Allow-Headers"),
        Some(&b"content-type, accept".to_vec())
    );
    assert_eq!(response.headers.entries.len(), 1);
}

#[test]
fn responses_are_opened_to_a_named_origin() {
    let mut request = request_to("GET", "/query");
    request.headers.append("Origin", b"http://a");
    let response = cors_middleware(&request, plain_answer);
    assert_eq!(response.status, Status::Success);
    assert_eq!(response.body, b"hello".to_vec());
    assert_eq!(response.headers.get("Content-Type"), Some(&b"text/plain".to_vec()));
    assert_eq!(
        response.headers.get("access-control-allow-origin"),
        Some(&b"*".to_vec())
    );
}

#[test]
fn responses_without_origin_are_left_alone() {
    let request = request_to("GET", "/query");
    let response = cors_middleware(&request, plain_answer);
    assert_eq!(response.headers.get("Access-Control-Allow-Origin"), None);
    assert_eq!(response.headers.entries.len(), 1);
}

#[test]
fn headers_are_found_whatever_their_case() {
    let mut headers = Headers::new();
    headers.append("Accept", b"text/turtle");
    headers.append("X-Other", b"1");
    headers.append("ACCEPT", b"text/csv");
    assert_eq!(headers.get("accept"), Some(&b"text/turtle, text/csv".to_vec()));
    assert_eq!(headers.get("x-other"), Some(&b"1".to_vec()));
    assert!(headers.contains("aCCept"));
    assert!(!headers.contains("Origin"));
    assert_eq!(headers.entries.len(), 2);
    assert_eq!(headers.entries[0].0, "accept");
}

#[test]
fn failures_are_reported_as_plain_text() {
    let response = error(Status::BadRequest, "no caf\u{e9}");
    assert_eq!(response.status.code(), 400);
    assert_eq!(
        response.headers.get("Content-Type"),
        Some(&b"text/plain; charset=utf-8".to_vec())
    );
    assert_eq!(response.body, "no caf\u{e9}".as_bytes().to_vec());
    let failure = HttpError { status: Status::InternalServerError, message: "x".to_string() };
    let response = failure.into_response();
    assert_eq!(response.status.code(), 500);
    assert_eq!(response.body, b"x".to_vec());
}

#[test]
fn statuses_have_their_codes() {
    assert_eq!(Status::Success.code(), 200);
    assert_eq!(Status::Created.code(), 201);
    assert_eq!(Status::NoContent.code(), 204);
    assert_eq!(Status::BadRequest.code(), 400);
    assert_eq!(Status::Forbidden.code(), 403);
    assert_eq!(Status::NotFound.code(), 404);
    assert_eq!(Status::MethodNotAllowed.code(), 405);
    assert_eq!(Status::NotAcceptable.code(), 406);
    assert_eq!(Status::UnsupportedMediaType.code(), 415);
    assert_eq!(Status::InternalServerError.code(), 500);
}
