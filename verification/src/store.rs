//! Reading and writing graphs over HTTP: which graph a request addresses, what is to be
//! done to it, and how the outcome is answered.

use crate::engine::{check_iri, iri_error};
use crate::format::{
    dataset_content_negotiation, dataset_format_at, dataset_media_types,
    graph_content_negotiation, graph_format_at, graph_media_types, DatasetFormat, GraphFormat,
};
use crate::http::{
    bad, bad_request, internal, internal_server_error, unsupported, unsupported_media_type,
    Failure, Headers, HttpError, Request, Response, ResponseView, Status,
};
use crate::negotiation::{accept_of, negotiate_header};
use crate::params::{
    form_pairs, has_key, last_of, last_value, pairs_view, parse_form, values_of, Pair,
};
use crate::router::StoreMethod;
use crate::sparql::{content_type, content_type_of};
use crate::text::lowercase;
use vstd::prelude::*;
use vstd::string::*;
use vstd::utf8::*;

verus! {

/// The graph that a request addresses, as plain values.
pub enum TargetView {
    DefaultGraph,
    NamedGraph(Seq<char>),
}

/// The graph that a request addresses: the default graph, or the graph of a name.
#[derive(Debug)]
pub enum GraphTarget {
    DefaultGraph,
    NamedGraph(String),
}

impl View for GraphTarget {
    type V = TargetView;

    open spec fn view(&self) -> TargetView {
        match self {
            GraphTarget::DefaultGraph => TargetView::DefaultGraph,
            GraphTarget::NamedGraph(iri) => TargetView::NamedGraph(iri@),
        }
    }
}

impl GraphTarget {
    /// Two targets are the same where both are the default graph or both name the same
    /// graph.
    pub fn same(&self, other: &GraphTarget) -> (b: bool)
        ensures
            b == (self@ == other@),
    {
        match (self, other) {
            (GraphTarget::DefaultGraph, GraphTarget::DefaultGraph) => true,
            (GraphTarget::NamedGraph(a), GraphTarget::NamedGraph(b)) => *a == *b,
            _ => false,
        }
    }

    /// A copy of the target.
    pub fn copy(&self) -> (t: GraphTarget)
        ensures
            t@ == self@,
    {
        match self {
            GraphTarget::DefaultGraph => GraphTarget::DefaultGraph,
            GraphTarget::NamedGraph(iri) => GraphTarget::NamedGraph(iri.clone()),
        }
    }
}

/// The graph that the pairs of a query string address: `graph` names a graph, by an
/// absolute IRI, `default` stands for the default graph, and both together are refused.
/// With neither, the request addresses the whole dataset.
pub open spec fn target_of(pairs: Seq<Pair>) -> Result<Option<TargetView>, Failure> {
    let default = values_of(pairs, "default"@).len() > 0;
    match last_value(pairs, "graph"@) {
        Some(iri) => if default {
            Err(bad("Both graph and default parameters should not be set at the same time"@))
        } else {
            match iri_error(iri) {
                Some(message) => Err(bad(message)),
                None => Ok(Some(TargetView::NamedGraph(iri))),
            }
        },
        None => if default {
            Ok(Some(TargetView::DefaultGraph))
        } else {
            Ok(None)
        },
    }
}

/// The view of a target that may be missing.
pub open spec fn target_view(target: Option<GraphTarget>) -> Option<TargetView> {
    match target {
        Some(t) => Some(t@),
        None => None,
    }
}

fn read_target(pairs: &Vec<(String, String)>) -> (r: Result<Option<GraphTarget>, HttpError>)
    ensures
        match r {
            Ok(t) => target_of(pairs_view(pairs@)) == Ok::<Option<TargetView>, Failure>(
                target_view(t),
            ),
            Err(e) => target_of(pairs_view(pairs@)) == Err::<Option<TargetView>, Failure>(e@),
        },
{
    let default = has_key(pairs, "default");
    match last_of(pairs, "graph") {
        Some(iri) => if default {
            Err(
                bad_request(
                    String::from_str(
                        "Both graph and default parameters should not be set at the same time",
                    ),
                ),
            )
        } else {
            match check_iri(iri.as_str()) {
                Some(message) => Err(bad_request(message)),
                None => Ok(Some(GraphTarget::NamedGraph(iri))),
            }
        },
        None => if default {
            Ok(Some(GraphTarget::DefaultGraph))
        } else {
            Ok(None)
        },
    }
}

/// The pairs of a request's query string.
pub open spec fn query_pairs(request: &Request) -> Seq<Pair> {
    form_pairs(encode_utf8(request.query@))
}

/// The graph that a request addresses.
pub fn store_target(request: &Request) -> (r: Result<Option<GraphTarget>, HttpError>)
    ensures
        match r {
            Ok(t) => target_of(query_pairs(request)) == Ok::<Option<TargetView>, Failure>(
                target_view(t),
            ),
            Err(e) => target_of(query_pairs(request)) == Err::<Option<TargetView>, Failure>(e@),
        },
{
    let pairs = parse_form(request.query.as_str().as_bytes());
    read_target(&pairs)
}

/// How a body is loaded: in one transaction, or by the bulk loader, which is faster and
/// may leave a part of the data behind when it fails; the bulk loader may be told to
/// pass over what it cannot read.
#[derive(Clone, Copy, Debug, PartialEq, Eq, Structural)]
pub struct LoadMode {
    pub transactional: bool,
    pub lenient: bool,
}

/// The load mode that the pairs of a query string ask for.
pub open spec fn load_mode_of(pairs: Seq<Pair>) -> LoadMode {
    LoadMode {
        transactional: values_of(pairs, "no_transaction"@).len() == 0,
        lenient: values_of(pairs, "lenient"@).len() > 0,
    }
}

/// What is to be done to the graph store, as plain values.
pub enum PlanView {
    ReadGraph(TargetView),
    ReadDataset,
    ReplaceGraph(TargetView, GraphFormat, LoadMode),
    ReplaceDataset(DatasetFormat, LoadMode),
    AppendGraph(TargetView, GraphFormat, LoadMode),
    CreateGraph(GraphFormat, LoadMode),
    AppendDataset(DatasetFormat, LoadMode),
    DeleteGraph(TargetView),
    Clear,
    CheckGraph(TargetView),
    CheckStore,
}

/// What is to be done to the graph store.
#[derive(Debug)]
pub enum StorePlan {
    /// Send the graph.
    ReadGraph(GraphTarget),
    /// Send all graphs.
    ReadDataset,
    /// Put the body in the place of what the graph holds.
    ReplaceGraph(GraphTarget, GraphFormat, LoadMode),
    /// Put the body in the place of all that the store holds.
    ReplaceDataset(DatasetFormat, LoadMode),
    /// Add the body to the graph.
    AppendGraph(GraphTarget, GraphFormat, LoadMode),
    /// Load the body into a new graph, under a name that the server gives.
    CreateGraph(GraphFormat, LoadMode),
    /// Add the body to the store.
    AppendDataset(DatasetFormat, LoadMode),
    /// Remove what the graph holds.
    DeleteGraph(GraphTarget),
    /// Remove all that the store holds.
    Clear,
    /// Find out whether the graph is there.
    CheckGraph(GraphTarget),
    /// Nothing: the store is always there.
    CheckStore,
}

impl View for StorePlan {
    type V = PlanView;

    open spec fn view(&self) -> PlanView {
        match self {
            StorePlan::ReadGraph(t) => PlanView::ReadGraph(t@),
            StorePlan::ReadDataset => PlanView::ReadDataset,
            StorePlan::ReplaceGraph(t, f, m) => PlanView::ReplaceGraph(t@, *f, *m),
            StorePlan::ReplaceDataset(f, m) => PlanView::ReplaceDataset(*f, *m),
            StorePlan::AppendGraph(t, f, m) => PlanView::AppendGraph(t@, *f, *m),
            StorePlan::CreateGraph(f, m) => PlanView::CreateGraph(*f, *m),
            StorePlan::AppendDataset(f, m) => PlanView::AppendDataset(*f, *m),
            StorePlan::DeleteGraph(t) => PlanView::DeleteGraph(t@),
            StorePlan::Clear => PlanView::Clear,
            StorePlan::CheckGraph(t) => PlanView::CheckGraph(t@),
            StorePlan::CheckStore => PlanView::CheckStore,
        }
    }
}

/// The plan for a request that brings a body. The media type of the body must be given
/// and name a format: a graph format where a graph is addressed; else a dataset format,
/// or, for `POST`, a graph format, for which a new graph is made.
pub open spec fn write_plan(replace: bool, request: &Request) -> Result<PlanView, Failure> {
    let mode = load_mode_of(query_pairs(request));
    match content_type_of(request) {
        None => Err(bad("No Content-Type given"@)),
        Some(media_type) => match target_of(query_pairs(request)) {
            Err(e) => Err(e),
            Ok(Some(target)) => match GraphFormat::for_media_type(media_type) {
                None => Err(unsupported(media_type)),
                Some(format) => if replace {
                    Ok(PlanView::ReplaceGraph(target, format, mode))
                } else {
                    Ok(PlanView::AppendGraph(target, format, mode))
                },
            },
            Ok(None) => match DatasetFormat::for_media_type(media_type) {
                Some(format) => if replace {
                    Ok(PlanView::ReplaceDataset(format, mode))
                } else {
                    Ok(PlanView::AppendDataset(format, mode))
                },
                None => match GraphFormat::for_media_type(media_type) {
                    Some(format) => if replace {
                        Err(unsupported(media_type))
                    } else {
                        Ok(PlanView::CreateGraph(format, mode))
                    },
                    None => Err(unsupported(media_type)),
                },
            },
        },
    }
}

/// The plan for a request that brings no body.
pub open spec fn read_plan(method: StoreMethod, request: &Request) -> Result<PlanView, Failure> {
    match target_of(query_pairs(request)) {
        Err(e) => Err(e),
        Ok(Some(target)) => Ok(
            match method {
                StoreMethod::Delete => PlanView::DeleteGraph(target),
                StoreMethod::Head => PlanView::CheckGraph(target),
                _ => PlanView::ReadGraph(target),
            },
        ),
        Ok(None) => Ok(
            match method {
                StoreMethod::Delete => PlanView::Clear,
                StoreMethod::Head => PlanView::CheckStore,
                _ => PlanView::ReadDataset,
            },
        ),
    }
}

/// What a request to the store asks for.
pub open spec fn planned(method: StoreMethod, request: &Request) -> Result<PlanView, Failure> {
    match method {
        StoreMethod::Put => write_plan(true, request),
        StoreMethod::Post => write_plan(false, request),
        _ => read_plan(method, request),
    }
}

fn plan_write(replace: bool, request: &Request) -> (r: Result<StorePlan, HttpError>)
    ensures
        match r {
            Ok(p) => write_plan(replace, request) == Ok::<PlanView, Failure>(p@),
            Err(e) => write_plan(replace, request) == Err::<PlanView, Failure>(e@),
        },
{
    let media_type = match content_type(request) {
        None => {
            return Err(bad_request(String::from_str("No Content-Type given")));
        },
        Some(media_type) => media_type,
    };
    let pairs = parse_form(request.query.as_str().as_bytes());
    let mode = LoadMode {
        transactional: !has_key(&pairs, "no_transaction"),
        lenient: has_key(&pairs, "lenient"),
    };
    let target = match read_target(&pairs) {
        Err(e) => {
            return Err(e);
        },
        Ok(target) => target,
    };
    match target {
        Some(target) => match GraphFormat::from_media_type(media_type.as_str()) {
            None => Err(unsupported_media_type(media_type.as_str())),
            Some(format) => if replace {
                Ok(StorePlan::ReplaceGraph(target, format, mode))
            } else {
                Ok(StorePlan::AppendGraph(target, format, mode))
            },
        },
        None => match DatasetFormat::from_media_type(media_type.as_str()) {
            Some(format) => if replace {
                Ok(StorePlan::ReplaceDataset(format, mode))
            } else {
                Ok(StorePlan::AppendDataset(format, mode))
            },
            None => match GraphFormat::from_media_type(media_type.as_str()) {
                Some(format) => if replace {
                    Err(unsupported_media_type(media_type.as_str()))
                } else {
                    Ok(StorePlan::CreateGraph(format, mode))
                },
                None => Err(unsupported_media_type(media_type.as_str())),
            },
        },
    }
}

/// Decides what a request to the store asks for.
pub fn handle_request(method: StoreMethod, request: &Request) -> (r: Result<StorePlan, HttpError>)
    ensures
        match r {
            Ok(p) => planned(method, request) == Ok::<PlanView, Failure>(p@),
            Err(e) => planned(method, request) == Err::<PlanView, Failure>(e@),
        },
{
    match method {
        StoreMethod::Put => plan_write(true, request),
        StoreMethod::Post => plan_write(false, request),
        _ => {
            let target = match store_target(request) {
                Err(e) => {
                    return Err(e);
                },
                Ok(target) => target,
            };
            match target {
                Some(target) => Ok(
                    match method {
                        StoreMethod::Delete => StorePlan::DeleteGraph(target),
                        StoreMethod::Head => StorePlan::CheckGraph(target),
                        _ => StorePlan::ReadGraph(target),
                    },
                ),
                None => Ok(
                    match method {
                        StoreMethod::Delete => StorePlan::Clear,
                        StoreMethod::Head => StorePlan::CheckStore,
                        _ => StorePlan::ReadDataset,
                    },
                ),
            }
        },
    }
}

/// How the graph store fared, as plain values.
pub enum OutcomeView {
    Done { existed: bool },
    ParseFailed(Seq<char>),
    StorageFailed(Seq<char>),
}

/// How the graph store fared with a plan.
#[derive(Debug)]
pub enum StoreOutcome {
    /// The plan is carried out, or, for a plan that reads, can be. `existed` says
    /// whether the graph that the plan names was there before.
    Done { existed: bool },
    /// The body could not be read in its format; the message says why.
    ParseFailed(String),
    /// The store failed; the message says why.
    StorageFailed(String),
}

impl View for StoreOutcome {
    type V = OutcomeView;

    open spec fn view(&self) -> OutcomeView {
        match self {
            StoreOutcome::Done { existed } => OutcomeView::Done { existed: *existed },
            StoreOutcome::ParseFailed(m) => OutcomeView::ParseFailed(m@),
            StoreOutcome::StorageFailed(m) => OutcomeView::StorageFailed(m@),
        }
    }
}

/// The answer to a request to the store, as plain values.
pub enum ReplyView {
    Respond(ResponseView),
    StreamGraph(GraphFormat),
    StreamDataset(DatasetFormat),
    Fail(Failure),
}

/// The answer to a request to the store.
#[derive(Debug)]
pub enum StoreReply {
    /// Answer with the response.
    Respond(Response),
    /// Stream the graph in the format.
    StreamGraph(GraphFormat),
    /// Stream all graphs in the format.
    StreamDataset(DatasetFormat),
    /// Answer with the failure.
    Fail(HttpError),
}

impl View for StoreReply {
    type V = ReplyView;

    open spec fn view(&self) -> ReplyView {
        match self {
            StoreReply::Respond(r) => ReplyView::Respond(r@),
            StoreReply::StreamGraph(f) => ReplyView::StreamGraph(*f),
            StoreReply::StreamDataset(f) => ReplyView::StreamDataset(*f),
            StoreReply::Fail(e) => ReplyView::Fail(e@),
        }
    }
}

/// A response without headers and body.
pub open spec fn bare(status: Status) -> ResponseView {
    ResponseView { status, headers: Seq::empty(), body: Seq::empty() }
}

/// The response for a new graph: it tells where the graph is.
pub open spec fn created_at(location: Seq<char>) -> ResponseView {
    ResponseView {
        status: Status::Created,
        headers: seq![(lowercase("Location"@), encode_utf8(location))],
        body: Seq::empty(),
    }
}

/// The failure for a named graph that is not there.
pub open spec fn missing_graph(iri: Seq<char>) -> Failure {
    Failure { status: Status::NotFound, message: "The graph "@ + iri + " does not exist"@ }
}

/// A named graph that was not there.
pub open spec fn is_missing(target: TargetView, existed: bool) -> bool {
    target is NamedGraph && !existed
}

/// The status for a body that went into a graph: the graph is new, or it was there.
pub open spec fn written(target: TargetView, existed: bool) -> ResponseView {
    if is_missing(target, existed) {
        bare(Status::Created)
    } else {
        bare(Status::NoContent)
    }
}

/// The answer for a plan that was carried out. `location` is the name that the server
/// gave to a new graph.
pub open spec fn done(plan: PlanView, existed: bool, accept: Option<Seq<u8>>, location: Seq<char>)
    -> ReplyView {
    match plan {
        PlanView::ReadGraph(target) => if is_missing(target, existed) {
            ReplyView::Fail(missing_graph(target->NamedGraph_0))
        } else {
            match negotiate_header(accept, graph_media_types()) {
                Err(e) => ReplyView::Fail(e),
                Ok(i) => ReplyView::StreamGraph(graph_format_at(i)),
            }
        },
        PlanView::ReadDataset => match negotiate_header(accept, dataset_media_types()) {
            Err(e) => ReplyView::Fail(e),
            Ok(i) => ReplyView::StreamDataset(dataset_format_at(i)),
        },
        PlanView::ReplaceGraph(target, _, _) => ReplyView::Respond(written(target, existed)),
        PlanView::AppendGraph(target, _, _) => ReplyView::Respond(written(target, existed)),
        PlanView::ReplaceDataset(_, _) => ReplyView::Respond(bare(Status::NoContent)),
        PlanView::AppendDataset(_, _) => ReplyView::Respond(bare(Status::NoContent)),
        PlanView::CreateGraph(_, _) => ReplyView::Respond(created_at(location)),
        PlanView::DeleteGraph(target) => if is_missing(target, existed) {
            ReplyView::Fail(missing_graph(target->NamedGraph_0))
        } else {
            ReplyView::Respond(bare(Status::NoContent))
        },
        PlanView::Clear => ReplyView::Respond(bare(Status::NoContent)),
        PlanView::CheckGraph(target) => if is_missing(target, existed) {
            ReplyView::Fail(missing_graph(target->NamedGraph_0))
        } else {
            ReplyView::Respond(bare(Status::Success))
        },
        PlanView::CheckStore => ReplyView::Respond(bare(Status::Success)),
    }
}

/// The answer to a request to the store, by its plan and the outcome. A body that the
/// store cannot read is the client's fault; a failure of the store is an internal error.
pub open spec fn reply(
    plan: PlanView,
    outcome: OutcomeView,
    accept: Option<Seq<u8>>,
    location: Seq<char>,
) -> ReplyView {
    match outcome {
        OutcomeView::ParseFailed(m) => ReplyView::Fail(bad(m)),
        OutcomeView::StorageFailed(m) => ReplyView::Fail(internal(m)),
        OutcomeView::Done { existed } => done(plan, existed, accept, location),
    }
}

fn respond(status: Status) -> (r: StoreReply)
    ensures
        r@ == ReplyView::Respond(bare(status)),
{
    let response = Response { status, headers: Headers::new(), body: Vec::new() };
    StoreReply::Respond(response)
}

fn target_is_missing(target: &GraphTarget, existed: bool) -> (b: bool)
    ensures
        b == is_missing(target@, existed),
{
    match target {
        GraphTarget::NamedGraph(_) => !existed,
        GraphTarget::DefaultGraph => false,
    }
}

fn missing(target: &GraphTarget) -> (r: StoreReply)
    requires
        target@ is NamedGraph,
    ensures
        r@ == ReplyView::Fail(missing_graph(target@->NamedGraph_0)),
{
    let mut message = String::from_str("The graph ");
    match target {
        GraphTarget::NamedGraph(iri) => {
            message.append(iri.as_str());
        },
        GraphTarget::DefaultGraph => {},
    }
    message.append(" does not exist");
    StoreReply::Fail(HttpError { status: Status::NotFound, message })
}

fn write_reply(target: &GraphTarget, existed: bool) -> (r: StoreReply)
    ensures
        r@ == ReplyView::Respond(written(target@, existed)),
{
    if target_is_missing(target, existed) {
        respond(Status::Created)
    } else {
        respond(Status::NoContent)
    }
}

/// Decides the answer to a request to the store. `location` is the name that the server
/// gave to a new graph; it is read for `StorePlan::CreateGraph` alone.
pub fn store_reply(plan: &StorePlan, outcome: StoreOutcome, request: &Request, location: &str) -> (r:
    StoreReply)
    ensures
        r@ == reply(plan@, outcome@, accept_of(request), location@),
{
    let existed = match outcome {
        StoreOutcome::ParseFailed(m) => {
            return StoreReply::Fail(bad_request(m));
        },
        StoreOutcome::StorageFailed(m) => {
            return StoreReply::Fail(internal_server_error(m));
        },
        StoreOutcome::Done { existed } => existed,
    };
    match plan {
        StorePlan::ReadGraph(target) => {
            if target_is_missing(target, existed) {
                missing(target)
            } else {
                match graph_content_negotiation(request) {
                    Err(e) => StoreReply::Fail(e),
                    Ok(format) => StoreReply::StreamGraph(format),
                }
            }
        },
        StorePlan::ReadDataset => match dataset_content_negotiation(request) {
            Err(e) => StoreReply::Fail(e),
            Ok(format) => StoreReply::StreamDataset(format),
        },
        StorePlan::ReplaceGraph(target, _, _) => write_reply(target, existed),
        StorePlan::AppendGraph(target, _, _) => write_reply(target, existed),
        StorePlan::ReplaceDataset(_, _) => respond(Status::NoContent),
        StorePlan::AppendDataset(_, _) => respond(Status::NoContent),
        StorePlan::CreateGraph(_, _) => {
            let mut headers = Headers::new();
            headers.append("Location", location.as_bytes());
            let response = Response { status: Status::Created, headers, body: Vec::new() };
            assert(response@.headers =~= created_at(location@).headers);
            StoreReply::Respond(response)
        },
        StorePlan::DeleteGraph(target) => {
            if target_is_missing(target, existed) {
                missing(target)
            } else {
                respond(Status::NoContent)
            }
        },
        StorePlan::Clear => respond(Status::NoContent),
        StorePlan::CheckGraph(target) => {
            if target_is_missing(target, existed) {
                missing(target)
            } else {
                respond(Status::Success)
            }
        },
        StorePlan::CheckStore => respond(Status::Success),
    }
}

} // verus!
