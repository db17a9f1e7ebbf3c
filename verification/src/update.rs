//! The update endpoint.

use crate::engine::{parse_update, update_is_refused};
use crate::http::{
    bad, bad_request, internal, internal_server_error, Failure, Headers, HttpError, Request,
    Response, ResponseView, Status,
};
use crate::params::{Operation, Parameters, ParametersView};
use crate::scope::{DatasetScope, ScopeView};
use crate::sparql::{
    base_url, base_url_of, check_fit, check_scope, checked_scope, protocol_request, requested,
    unfit,
};
use oxigraph::sparql::PreparedSparqlUpdate;
use vstd::prelude::*;

verus! {

/// Reads the parameters of an update out of a request and its body.
pub fn handle_request(request: &Request, body: &[u8]) -> (r: Result<Parameters, HttpError>)
    ensures
        match r {
            Ok(p) => requested(Operation::Update, request, body@) == Ok::<ParametersView, Failure>(
                p@,
            ),
            Err(e) => requested(Operation::Update, request, body@) == Err::<
                ParametersView,
                Failure,
            >(e@),
        },
{
    protocol_request(Operation::Update, request, body)
}

/// An update that is fit for evaluation, and the scope that it works on.
pub struct PreparedUpdate {
    pub update: PreparedSparqlUpdate,
    pub scope: DatasetScope,
}

/// Makes an update ready for the graph store: the text is held to the bounds, the
/// text is parsed, with the request's URL, less query string and fragment, as base, and
/// the scope is worked out and checked. A fault in any of these is the client's. A text
/// that is refused comes before a scope that is; it is answered with what the parser
/// says of it.
pub fn evaluate_sparql_update(parameters: &Parameters, request: &Request) -> (r: Result<
    PreparedUpdate,
    HttpError,
>)
    ensures
        unfit(Operation::Update, parameters@.text) matches Some(failure) ==> (r matches Err(e)
            && e@ == failure),
        unfit(Operation::Update, parameters@.text) is None && update_is_refused(
            parameters@.text,
            base_url_of(request.url@),
        ) ==> (r matches Err(e) && e.status == Status::BadRequest),
        unfit(Operation::Update, parameters@.text) is None && !update_is_refused(
            parameters@.text,
            base_url_of(request.url@),
        ) ==> match r {
            Ok(prepared) => prepared.scope.wf() && checked_scope(Operation::Update, parameters@)
                == Ok::<ScopeView, Failure>(prepared.scope@),
            Err(e) => checked_scope(Operation::Update, parameters@) == Err::<ScopeView, Failure>(
                e@,
            ),
        },
{
    if let Some(e) = check_fit(Operation::Update, parameters.text.as_str()) {
        return Err(e);
    }
    let base = base_url(request);
    let update = match parse_update(parameters.text.as_str(), base.as_str()) {
        Err(message) => {
            return Err(bad_request(message));
        },
        Ok(update) => update,
    };
    match check_scope(Operation::Update, parameters) {
        Err(e) => Err(e),
        Ok(scope) => Ok(PreparedUpdate { update, scope }),
    }
}

/// How the outcome of an update is answered, as plain values: an update that is done
/// has no content to send back; a failure of the graph store, told by its message, is an
/// internal error.
pub open spec fn update_answer(failure: Option<Seq<char>>) -> Result<ResponseView, Failure> {
    match failure {
        None => Ok(
            ResponseView { status: Status::NoContent, headers: Seq::empty(), body: Seq::empty() },
        ),
        Some(message) => Err(internal(message)),
    }
}

/// The view of a message that may be missing.
pub open spec fn message_view(message: Option<String>) -> Option<Seq<char>> {
    match message {
        Some(m) => Some(m@),
        None => None,
    }
}

/// Decides how the outcome of an update is answered. `failure` is the message of the
/// graph store where it failed.
pub fn answer_update(failure: Option<String>) -> (r: Result<Response, HttpError>)
    ensures
        match r {
            Ok(response) => update_answer(message_view(failure)) == Ok::<ResponseView, Failure>(
                response@,
            ),
            Err(e) => update_answer(message_view(failure)) == Err::<ResponseView, Failure>(e@),
        },
{
    match failure {
        None => {
            let response = Response {
                status: Status::NoContent,
                headers: Headers::new(),
                body: Vec::new(),
            };
            Ok(response)
        },
        Some(message) => Err(internal_server_error(message)),
    }
}

} // verus!
