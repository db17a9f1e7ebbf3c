//! The query and update protocol: where the text of an operation and its parameters
//! stand in a request, what makes a query fit for evaluation, and how its results are
//! answered.

use crate::engine::{
    check_iris, first_iri_error, iris_view, lemma_first_iri_error_concat, parse_query,
    query_syntax_error,
};
pub use crate::format::{graph_content_negotiation, query_results_content_negotiation};
use crate::format::{
    graph_format_at, graph_media_types, results_format_at, results_media_types, GraphFormat,
    QueryResultsFormat,
};
use crate::http::{
    bad, bad_request, internal, internal_server_error, lookup, method_not_allowed,
    method_not_allowed_error, unsupported, unsupported_media_type, utf8_text, Failure, HttpError,
    Request,
};
use crate::negotiation::{accept_of, negotiate_header, range_text};
use crate::nesting::{fits, lex, nesting, short, MAX_NESTING, MAX_PARTS, MAX_SIGNS, MAX_STEPS};
use crate::params::{
    decode_sources, resolve, resolve_encoded, sources_view, Operation, Parameters, ParametersView,
};
use crate::scope::{scope_for, DatasetScope, ScopeView};
pub use crate::stream::{ReadForWrite, ReadForWriteWriter};
use crate::text::{
    chars_of, copy_range, find, find_in, lowercase, str_eq, string_of, to_lowercase, trim,
    trim_chars,
};
use oxigraph::sparql::PreparedSparqlQuery;
use vstd::prelude::*;
use vstd::slice::*;
use vstd::string::*;
use vstd::utf8::*;

verus! {

/// The largest body of a query or update that is read, in bytes.
pub const MAX_SPARQL_BODY_SIZE: usize = 0x0010_0000;

/// The media type of a request's body: the `Content-Type` header without parameters and
/// surrounding whitespace, in lower case. There is none where the header is missing or
/// is no text.
pub open spec fn content_type_of(request: &Request) -> Option<Seq<char>> {
    match lookup(request.headers@, lowercase("Content-Type"@)) {
        None => None,
        Some(bytes) => if valid_utf8(bytes) {
            Some(lowercase(trim(range_text(decode_utf8(bytes)))))
        } else {
            None
        },
    }
}

/// The media type of a request's body.
pub fn content_type(request: &Request) -> (media_type: Option<String>)
    ensures
        match media_type {
            Some(m) => content_type_of(request) == Some(m@),
            None => content_type_of(request) is None,
        },
{
    let bytes = match request.header("Content-Type") {
        None => {
            return None;
        },
        Some(bytes) => bytes,
    };
    let text = match utf8_text(bytes.as_slice()) {
        None => {
            return None;
        },
        Some(text) => text,
    };
    let value = chars_of(text);
    let semi = find_in(value.as_slice(), ';');
    let base = copy_range(value.as_slice(), 0, semi);
    let trimmed = trim_chars(base.as_slice());
    let lower = to_lowercase(trimmed.as_slice());
    Some(string_of(lower.as_slice()))
}

/// A URL without its query string and its fragment.
pub open spec fn base_url_of(url: Seq<char>) -> Seq<char> {
    if find(url, '?') <= find(url, '#') {
        url.take(find(url, '?'))
    } else {
        url.take(find(url, '#'))
    }
}

/// The URL against which the relative names in a request's query or update are resolved.
pub fn base_url(request: &Request) -> (base: String)
    ensures
        base@ == base_url_of(request.url@),
{
    let url = chars_of(request.url.as_str());
    let query = find_in(url.as_slice(), '?');
    let fragment = find_in(url.as_slice(), '#');
    let end = if query <= fragment {
        query
    } else {
        fragment
    };
    let base = copy_range(url.as_slice(), 0, end);
    string_of(base.as_slice())
}

/// The part of a body that is read.
pub open spec fn limited(body: Seq<u8>) -> Seq<u8> {
    if body.len() <= MAX_SPARQL_BODY_SIZE {
        body
    } else {
        body.take(MAX_SPARQL_BODY_SIZE as int)
    }
}

/// The media type of a body that is the text of the operation.
pub open spec fn text_media_type(op: Operation) -> Seq<char> {
    match op {
        Operation::Query => "application/sparql-query"@,
        Operation::Update => "application/sparql-update"@,
    }
}

/// The parameters of an operation that is sent with `POST`: the body is the text of the
/// operation or a form, as its media type says. The URL's query string is read in both
/// cases, before the form.
pub open spec fn posted(op: Operation, request: &Request, body: Seq<u8>) -> Result<
    ParametersView,
    Failure,
> {
    let url_query = encode_utf8(request.query@);
    match content_type_of(request) {
        None => Err(bad("No Content-Type given"@)),
        Some(media_type) => if media_type == text_media_type(op) {
            if valid_utf8(limited(body)) {
                resolve(op, decode_sources(seq![url_query]), Some(decode_utf8(limited(body))))
            } else {
                Err(bad("stream did not contain valid UTF-8"@))
            }
        } else if media_type == "application/x-www-form-urlencoded"@ {
            resolve(op, decode_sources(seq![url_query, limited(body)]), None)
        } else {
            Err(unsupported(media_type))
        },
    }
}

/// The parameters that a request gives for an operation. A query may be sent with `GET`,
/// its parameters in the URL's query string; both operations may be sent with `POST`.
pub open spec fn requested(op: Operation, request: &Request, body: Seq<u8>) -> Result<
    ParametersView,
    Failure,
> {
    if request.method@ == "GET"@ && op == Operation::Query {
        resolve(op, decode_sources(seq![encode_utf8(request.query@)]), None)
    } else if request.method@ == "POST"@ {
        posted(op, request, body)
    } else {
        Err(method_not_allowed(request.method@))
    }
}

fn text_is(op: Operation, media_type: &str) -> (b: bool)
    ensures
        b == (media_type@ == text_media_type(op)),
{
    match op {
        Operation::Query => str_eq(media_type, "application/sparql-query"),
        Operation::Update => str_eq(media_type, "application/sparql-update"),
    }
}

/// Reads the parameters of an operation out of a request and its body. Of the body no
/// more than `MAX_SPARQL_BODY_SIZE` bytes are read.
pub fn protocol_request(op: Operation, request: &Request, body: &[u8]) -> (r: Result<
    Parameters,
    HttpError,
>)
    ensures
        match r {
            Ok(p) => requested(op, request, body@) == Ok::<ParametersView, Failure>(p@),
            Err(e) => requested(op, request, body@) == Err::<ParametersView, Failure>(e@),
        },
{
    let url_query = request.query.as_str().as_bytes();
    let is_query = match op {
        Operation::Query => true,
        Operation::Update => false,
    };
    if str_eq(request.method.as_str(), "GET") && is_query {
        let sources: Vec<&[u8]> = vec![url_query];
        assert(sources_view(sources@) =~= seq![encode_utf8(request.query@)]);
        return resolve_encoded(op, sources.as_slice(), None);
    }
    if !str_eq(request.method.as_str(), "POST") {
        return Err(method_not_allowed_error(request.method.as_str()));
    }
    let media_type = match content_type(request) {
        None => {
            return Err(bad_request(String::from_str("No Content-Type given")));
        },
        Some(media_type) => media_type,
    };
    let read: &[u8] = if body.len() <= MAX_SPARQL_BODY_SIZE {
        body
    } else {
        slice_subrange(body, 0, MAX_SPARQL_BODY_SIZE)
    };
    assert(read@ == limited(body@));
    if text_is(op, media_type.as_str()) {
        match utf8_text(read) {
            None => Err(bad_request(String::from_str("stream did not contain valid UTF-8"))),
            Some(text) => {
                let sources: Vec<&[u8]> = vec![url_query];
                assert(sources_view(sources@) =~= seq![encode_utf8(request.query@)]);
                resolve_encoded(op, sources.as_slice(), Some(String::from_str(text)))
            },
        }
    } else if str_eq(media_type.as_str(), "application/x-www-form-urlencoded") {
        let sources: Vec<&[u8]> = vec![url_query, read];
        assert(sources_view(sources@) =~= seq![encode_utf8(request.query@), limited(body@)]);
        resolve_encoded(op, sources.as_slice(), None)
    } else {
        Err(unsupported_media_type(media_type.as_str()))
    }
}

/// Reads the parameters of a query out of a request and its body.
pub fn handle_request(request: &Request, body: &[u8]) -> (r: Result<Parameters, HttpError>)
    ensures
        match r {
            Ok(p) => requested(Operation::Query, request, body@) == Ok::<ParametersView, Failure>(
                p@,
            ),
            Err(e) => requested(Operation::Query, request, body@) == Err::<
                ParametersView,
                Failure,
            >(e@),
        },
{
    protocol_request(Operation::Query, request, body)
}

/// The scope of an operation whose graph names are all IRIs: parameters that ask for
/// the union of all graphs and name graphs as well are refused; then the graphs of the
/// default graph are checked, in order, and then the named graphs.
pub open spec fn checked_scope(op: Operation, p: ParametersView) -> Result<ScopeView, Failure> {
    match scope_for(op, p) {
        Err(e) => Err(e),
        Ok(scope) => match first_iri_error(p.default_graph_uris + p.named_graph_uris) {
            Some(message) => Err(bad(message)),
            None => Ok(scope),
        },
    }
}

/// Works out the scope of an operation and checks its graph names.
pub fn check_scope(op: Operation, parameters: &Parameters) -> (r: Result<DatasetScope, HttpError>)
    ensures
        match r {
            Ok(scope) => scope.wf() && checked_scope(op, parameters@) == Ok::<ScopeView, Failure>(
                scope@,
            ),
            Err(e) => checked_scope(op, parameters@) == Err::<ScopeView, Failure>(e@),
        },
{
    let scope = match DatasetScope::new(op, parameters) {
        Err(e) => {
            return Err(e);
        },
        Ok(scope) => scope,
    };
    proof {
        lemma_first_iri_error_concat(
            parameters@.default_graph_uris,
            parameters@.named_graph_uris,
        );
        assert(iris_view(parameters.default_graph_uris@) == parameters@.default_graph_uris);
        assert(iris_view(parameters.named_graph_uris@) == parameters@.named_graph_uris);
    }
    match check_iris(&parameters.default_graph_uris) {
        Some(message) => {
            return Err(bad_request(message));
        },
        None => {},
    }
    match check_iris(&parameters.named_graph_uris) {
        Some(message) => Err(bad_request(message)),
        None => Ok(scope),
    }
}

/// The failure for a text that is nested more deeply than `MAX_NESTING`.
pub open spec fn too_deep(op: Operation) -> Failure {
    match op {
        Operation::Query => bad("The query is nested too deeply"@),
        Operation::Update => bad("The update is nested too deeply"@),
    }
}

/// The error for a text that is nested more deeply than `MAX_NESTING`.
pub fn too_deep_error(op: Operation) -> (e: HttpError)
    ensures
        e@ == too_deep(op),
{
    match op {
        Operation::Query => bad_request(String::from_str("The query is nested too deeply")),
        Operation::Update => bad_request(String::from_str("The update is nested too deeply")),
    }
}

/// The failure for a text with more signs or brackets than go to the parser.
pub open spec fn too_long(op: Operation) -> Failure {
    match op {
        Operation::Query => bad("The query has too many operators or brackets"@),
        Operation::Update => bad("The update has too many operators or brackets"@),
    }
}

/// The error for a text with more signs or brackets than go to the parser.
pub fn too_long_error(op: Operation) -> (e: HttpError)
    ensures
        e@ == too_long(op),
{
    match op {
        Operation::Query => bad_request(
            String::from_str("The query has too many operators or brackets"),
        ),
        Operation::Update => bad_request(
            String::from_str("The update has too many operators or brackets"),
        ),
    }
}

/// Why a text does not go to the parser, where it does not: it is nested too deeply,
/// or, if not that, it has too many signs or brackets.
pub open spec fn unfit(op: Operation, text: Seq<char>) -> Option<Failure> {
    if nesting(text) > MAX_NESTING {
        Some(too_deep(op))
    } else if !short(text) {
        Some(too_long(op))
    } else {
        None
    }
}

/// Tests whether a text goes to the parser.
pub fn check_fit(op: Operation, text: &str) -> (r: Option<HttpError>)
    ensures
        match r {
            Some(e) => unfit(op, text@) == Some(e@),
            None => unfit(op, text@) is None && fits(text@),
        },
{
    let s = lex(text);
    if s.peak > MAX_NESTING {
        Some(too_deep_error(op))
    } else if s.steps > MAX_STEPS || s.signs > MAX_SIGNS || s.parts > MAX_PARTS {
        Some(too_long_error(op))
    } else {
        None
    }
}

/// What a query is evaluated on where it is fit for evaluation: the text must not be
/// nested too deeply nor have too many signs or brackets, it must be a well-formed
/// query, and the scope must be sound. A text that is refused comes before a scope
/// that is.
pub open spec fn prepared_query(p: ParametersView, base_iri: Seq<char>) -> Result<
    ScopeView,
    Failure,
> {
    match unfit(Operation::Query, p.text) {
        Some(failure) => Err(failure),
        None => match query_syntax_error(p.text, base_iri) {
            Some(message) => Err(bad(message)),
            None => checked_scope(Operation::Query, p),
        },
    }
}

/// A query that is fit for evaluation, and the scope to evaluate it on.
pub struct PreparedQuery {
    pub query: PreparedSparqlQuery,
    pub scope: DatasetScope,
}

/// Makes a query ready for the graph store: the text is held to the bounds, the text
/// is parsed, with the request's URL, less query string and fragment, as base, and the
/// scope is worked out and checked. A fault in any of these is the client's.
pub fn evaluate_sparql_query(parameters: &Parameters, request: &Request) -> (r: Result<
    PreparedQuery,
    HttpError,
>)
    ensures
        match r {
            Ok(prepared) => prepared.scope.wf() && prepared_query(
                parameters@,
                base_url_of(request.url@),
            ) == Ok::<ScopeView, Failure>(prepared.scope@),
            Err(e) => prepared_query(parameters@, base_url_of(request.url@)) == Err::<
                ScopeView,
                Failure,
            >(e@),
        },
{
    if let Some(e) = check_fit(Operation::Query, parameters.text.as_str()) {
        return Err(e);
    }
    let base = base_url(request);
    let query = match parse_query(parameters.text.as_str(), base.as_str()) {
        Err(message) => {
            return Err(bad_request(message));
        },
        Ok(query) => query,
    };
    match check_scope(Operation::Query, parameters) {
        Err(e) => Err(e),
        Ok(scope) => Ok(PreparedQuery { query, scope }),
    }
}

/// What the graph store gave for a query, as plain values.
pub enum QueryOutcomeView {
    Solutions,
    Boolean,
    Graph,
    Failed(Seq<char>),
}

/// What the graph store gave for a query.
#[derive(Debug)]
pub enum QueryOutcome {
    /// A table of solutions.
    Solutions,
    /// A truth value.
    Boolean,
    /// A graph.
    Graph,
    /// Nothing: the evaluation failed; the message says why.
    Failed(String),
}

impl View for QueryOutcome {
    type V = QueryOutcomeView;

    open spec fn view(&self) -> QueryOutcomeView {
        match self {
            QueryOutcome::Solutions => QueryOutcomeView::Solutions,
            QueryOutcome::Boolean => QueryOutcomeView::Boolean,
            QueryOutcome::Graph => QueryOutcomeView::Graph,
            QueryOutcome::Failed(m) => QueryOutcomeView::Failed(m@),
        }
    }
}

/// How the results of a query are answered, as plain values.
pub enum ActionView {
    WriteSolutions(QueryResultsFormat),
    WriteBoolean(QueryResultsFormat),
    WriteGraph(GraphFormat),
    Fail(Failure),
}

/// How the results of a query are answered.
#[derive(Debug)]
pub enum Action {
    /// Stream the solutions in the format.
    WriteSolutions(QueryResultsFormat),
    /// Write the truth value in the format.
    WriteBoolean(QueryResultsFormat),
    /// Stream the graph in the format.
    WriteGraph(GraphFormat),
    /// Answer with the failure.
    Fail(HttpError),
}

impl View for Action {
    type V = ActionView;

    open spec fn view(&self) -> ActionView {
        match self {
            Action::WriteSolutions(f) => ActionView::WriteSolutions(*f),
            Action::WriteBoolean(f) => ActionView::WriteBoolean(*f),
            Action::WriteGraph(f) => ActionView::WriteGraph(*f),
            Action::Fail(e) => ActionView::Fail(e@),
        }
    }
}

/// The answer for a table of solutions or a truth value: the format is negotiated among
/// the formats for query results.
pub open spec fn results_answer(accept: Option<Seq<u8>>, boolean: bool) -> ActionView {
    match negotiate_header(accept, results_media_types()) {
        Err(e) => ActionView::Fail(e),
        Ok(i) => if boolean {
            ActionView::WriteBoolean(results_format_at(i))
        } else {
            ActionView::WriteSolutions(results_format_at(i))
        },
    }
}

/// The answer for a graph: the format is negotiated among the graph formats.
pub open spec fn graph_answer(accept: Option<Seq<u8>>) -> ActionView {
    match negotiate_header(accept, graph_media_types()) {
        Err(e) => ActionView::Fail(e),
        Ok(i) => ActionView::WriteGraph(graph_format_at(i)),
    }
}

/// How the outcome of a query is answered: results go out in a format that is
/// negotiated by their kind; a failure of the graph store is an internal error.
pub open spec fn query_answer(outcome: QueryOutcomeView, accept: Option<Seq<u8>>) -> ActionView {
    match outcome {
        QueryOutcomeView::Solutions => results_answer(accept, false),
        QueryOutcomeView::Boolean => results_answer(accept, true),
        QueryOutcomeView::Graph => graph_answer(accept),
        QueryOutcomeView::Failed(m) => ActionView::Fail(internal(m)),
    }
}

fn results_action(request: &Request, boolean: bool) -> (a: Action)
    ensures
        a@ == results_answer(accept_of(request), boolean),
{
    match query_results_content_negotiation(request) {
        Err(e) => Action::Fail(e),
        Ok(format) => if boolean {
            Action::WriteBoolean(format)
        } else {
            Action::WriteSolutions(format)
        },
    }
}

fn graph_action(request: &Request) -> (a: Action)
    ensures
        a@ == graph_answer(accept_of(request)),
{
    match graph_content_negotiation(request) {
        Err(e) => Action::Fail(e),
        Ok(format) => Action::WriteGraph(format),
    }
}

/// Decides how the outcome of a query is answered.
pub fn answer_query(outcome: QueryOutcome, request: &Request) -> (action: Action)
    ensures
        action@ == query_answer(outcome@, accept_of(request)),
{
    match outcome {
        QueryOutcome::Solutions => results_action(request, false),
        QueryOutcome::Boolean => results_action(request, true),
        QueryOutcome::Graph => graph_action(request),
        QueryOutcome::Failed(m) => Action::Fail(internal_server_error(m)),
    }
}

} // verus!
