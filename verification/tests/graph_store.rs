use kos_kit_server::format::{DatasetFormat, GraphFormat};
use kos_kit_server::http::{Headers, Request, Status};
use kos_kit_server::router::StoreMethod;
use kos_kit_server::store::{
    handle_request, store_reply, store_target, GraphTarget, LoadMode, StoreOutcome, StorePlan,
    StoreReply,
};

fn store_request(query: &str, content_type: Option<&str>, accept: Option<&str>) -> Request {
    let mut headers = Headers::new();
    if let Some(value) = content_type {
        headers.append("Content-Type", value.as_bytes());
    }
    if let Some(value) = accept {
        headers.append("Accept", value.as_bytes());
    }
    Request {
        method: "GET".to_string(),
        url: format!("http://localhost:7878/store?{}", query),
        path: "/store".to_string(),
        query: query.to_string(),
        headers,
    }
}

fn status_of(reply: StoreReply) -> Status {
    match reply {
        StoreReply::Respond(response) => {
            assert!(response.body.is_empty());
            response.status
        }
        StoreReply::Fail(e) => e.status,
        other => panic!("{:?}", other),
    }
}

fn named(iri: &str) -> GraphTarget {
    GraphTarget::NamedGraph(iri.to_string())
}

const IN_ONE_TRANSACTION: LoadMode = LoadMode { transactional: true, lenient: false };

#[test]
fn graph_parameter_names_a_graph() {
    let target = store_target(&store_request("graph=http%3A%2F%2Fexample%2Fg", None, None))
        .unwrap()
        .unwrap();
    assert!(target.same(&named("http://example/g")));
    assert!(!target.same(&named("http://example/h")));
    assert!(!target.same(&GraphTarget::DefaultGraph));
}

#[test]
fn default_parameter_stands_for_the_default_graph() {
    let target = store_target(&store_request("default", None, None)).unwrap().unwrap();
    assert!(target.same(&GraphTarget::DefaultGraph));
    assert!(target.copy().same(&target));
}

#[test]
fn no_parameter_addresses_the_whole_dataset() {
    assert!(store_target(&store_request("", None, None)).unwrap().is_none());
    assert!(store_target(&store_request("other=1", None, None)).unwrap().is_none());
}

#[test]
fn graph_and_default_together_are_a_bad_request() {
    let error = store_target(&store_request("default&graph=http://example/g", None, None))
        .unwrap_err();
    assert_eq!(error.status, Status::BadRequest);
    assert_eq!(
        error.message,
        "Both graph and default parameters should not be set at the same time"
    );
}

#[test]
fn graph_name_must_be_an_absolute_iri() {
    for query in ["graph=g", "graph=", "graph=not%20an%20iri", "graph=http://example/g&graph=g"] {
        let error = store_target(&store_request(query, None, None)).unwrap_err();
        assert_eq!(error.status, Status::BadRequest, "{:?}", query);
        assert!(!error.message.is_empty());
    }
    let target = store_target(&store_request("graph=g&graph=http://example/g", None, None))
        .unwrap()
        .unwrap();
    assert!(target.same(&named("http://example/g")));
    let error = store_target(&store_request("default&graph=g", None, None)).unwrap_err();
    assert_eq!(
        error.message,
        "Both graph and default parameters should not be set at the same time"
    );
}

#[test]
fn reads_are_planned_by_target() {
    let plan = handle_request(StoreMethod::Get, &store_request("graph=http://example/g", None, None)).unwrap();
    assert!(matches!(plan, StorePlan::ReadGraph(GraphTarget::NamedGraph(ref iri)) if iri == "http://example/g"));
    let plan = handle_request(StoreMethod::Get, &store_request("", None, None)).unwrap();
    assert!(matches!(plan, StorePlan::ReadDataset));
    let plan = handle_request(StoreMethod::Head, &store_request("default", None, None)).unwrap();
    assert!(matches!(plan, StorePlan::CheckGraph(GraphTarget::DefaultGraph)));
    let plan = handle_request(StoreMethod::Head, &store_request("", None, None)).unwrap();
    assert!(matches!(plan, StorePlan::CheckStore));
    let plan = handle_request(StoreMethod::Delete, &store_request("graph=http://example/g", None, None)).unwrap();
    assert!(matches!(plan, StorePlan::DeleteGraph(_)));
    let plan = handle_request(StoreMethod::Delete, &store_request("", None, None)).unwrap();
    assert!(matches!(plan, StorePlan::Clear));
}

#[test]
fn writes_are_planned_by_target_and_format() {
    let plan = handle_request(
        StoreMethod::Put,
        &store_request("graph=http://example/g", Some("text/turtle; charset=utf-8"), None),
    )
    .unwrap();
    assert!(matches!(
        plan,
        StorePlan::ReplaceGraph(GraphTarget::NamedGraph(_), GraphFormat::Turtle, IN_ONE_TRANSACTION)
    ));
    let plan = handle_request(
        StoreMethod::Post,
        &store_request("default", Some("application/n-triples"), None),
    )
    .unwrap();
    assert!(matches!(
        plan,
        StorePlan::AppendGraph(GraphTarget::DefaultGraph, GraphFormat::NTriples, _)
    ));
    let plan = handle_request(
        StoreMethod::Put,
        &store_request("", Some("application/n-quads"), None),
    )
    .unwrap();
    assert!(matches!(plan, StorePlan::ReplaceDataset(DatasetFormat::NQuads, _)));
    let plan = handle_request(
        StoreMethod::Post,
        &store_request("", Some("application/trig"), None),
    )
    .unwrap();
    assert!(matches!(plan, StorePlan::AppendDataset(DatasetFormat::TriG, _)));
    let plan = handle_request(
        StoreMethod::Post,
        &store_request("", Some("application/rdf+xml"), None),
    )
    .unwrap();
    assert!(matches!(plan, StorePlan::CreateGraph(GraphFormat::RdfXml, _)));
}

#[test]
fn load_flags_choose_the_bulk_loader() {
    let plan = handle_request(
        StoreMethod::Post,
        &store_request("graph=http://example/g&no_transaction&lenient", Some("text/turtle"), None),
    )
    .unwrap();
    assert!(matches!(
        plan,
        StorePlan::AppendGraph(_, _, LoadMode { transactional: false, lenient: true })
    ));
    let plan = handle_request(
        StoreMethod::Post,
        &store_request("graph=http://example/g&no_transaction=1", Some("text/turtle"), None),
    )
    .unwrap();
    assert!(matches!(
        plan,
        StorePlan::AppendGraph(_, _, LoadMode { transactional: false, lenient: false })
    ));
}

#[test]
fn bodies_need_a_known_content_type() {
    let error =
        handle_request(StoreMethod::Put, &store_request("graph=http://example/g", None, None)).unwrap_err();
    assert_eq!(error.status, Status::BadRequest);
    assert_eq!(error.message, "No Content-Type given");
    let error = handle_request(
        StoreMethod::Put,
        &store_request("graph=http://example/g", Some("application/n-quads"), None),
    )
    .unwrap_err();
    assert_eq!(error.status, Status::UnsupportedMediaType);
    assert_eq!(
        error.message,
        "No supported content Content-Type given: application/n-quads"
    );
    let error = handle_request(
        StoreMethod::Put,
        &store_request("", Some("text/turtle"), None),
    )
    .unwrap_err();
    assert_eq!(error.status, Status::UnsupportedMediaType);
    let error = handle_request(
        StoreMethod::Post,
        &store_request("", Some("image/png"), None),
    )
    .unwrap_err();
    assert_eq!(error.status, Status::UnsupportedMediaType);
    let error = handle_request(
        StoreMethod::Post,
        &store_request("default&graph=http://example/g", Some("text/turtle"), None),
    )
    .unwrap_err();
    assert_eq!(error.status, Status::BadRequest);
}

#[test]
fn replacing_creates_or_replaces() {
    let request = store_request("", None, None);
    let plan = StorePlan::ReplaceGraph(named("g"), GraphFormat::Turtle, IN_ONE_TRANSACTION);
    let reply = store_reply(&plan, StoreOutcome::Done { existed: false }, &request, "");
    assert_eq!(status_of(reply), Status::Created);
    let reply = store_reply(&plan, StoreOutcome::Done { existed: true }, &request, "");
    assert_eq!(status_of(reply), Status::NoContent);
    let plan =
        StorePlan::ReplaceGraph(GraphTarget::DefaultGraph, GraphFormat::Turtle, IN_ONE_TRANSACTION);
    let reply = store_reply(&plan, StoreOutcome::Done { existed: false }, &request, "");
    assert_eq!(status_of(reply), Status::NoContent);
    let plan = StorePlan::AppendGraph(named("g"), GraphFormat::Turtle, IN_ONE_TRANSACTION);
    let reply = store_reply(&plan, StoreOutcome::Done { existed: false }, &request, "");
    assert_eq!(status_of(reply), Status::Created);
    let plan = StorePlan::ReplaceDataset(DatasetFormat::NQuads, IN_ONE_TRANSACTION);
    let reply = store_reply(&plan, StoreOutcome::Done { existed: false }, &request, "");
    assert_eq!(status_of(reply), Status::NoContent);
}

#[test]
fn new_graph_is_told_by_its_location() {
    let request = store_request("", None, None);
    let plan = StorePlan::CreateGraph(GraphFormat::Turtle, IN_ONE_TRANSACTION);
    let reply = store_reply(
        &plan,
        StoreOutcome::Done { existed: false },
        &request,
        "http://localhost:7878/store/1f",
    );
    match reply {
        StoreReply::Respond(response) => {
            assert_eq!(response.status, Status::Created);
            assert_eq!(
                response.headers.get("Location"),
                Some(&b"http://localhost:7878/store/1f".to_vec())
            );
        }
        other => panic!("{:?}", other),
    }
}

#[test]
fn missing_named_graph_is_not_found() {
    let request = store_request("", None, None);
    for plan in [
        StorePlan::ReadGraph(named("http://example/g")),
        StorePlan::DeleteGraph(named("http://example/g")),
        StorePlan::CheckGraph(named("http://example/g")),
    ] {
        match store_reply(&plan, StoreOutcome::Done { existed: false }, &request, "") {
            StoreReply::Fail(e) => {
                assert_eq!(e.status, Status::NotFound);
                assert_eq!(e.message, "The graph http://example/g does not exist");
            }
            other => panic!("{:?}", other),
        }
    }
}

#[test]
fn deleting_and_checking_what_is_there() {
    let request = store_request("", None, None);
    let done = || StoreOutcome::Done { existed: true };
    assert_eq!(
        status_of(store_reply(&StorePlan::DeleteGraph(named("g")), done(), &request, "")),
        Status::NoContent
    );
    assert_eq!(
        status_of(store_reply(
            &StorePlan::DeleteGraph(GraphTarget::DefaultGraph),
            StoreOutcome::Done { existed: false },
            &request,
            ""
        )),
        Status::NoContent
    );
    assert_eq!(
        status_of(store_reply(&StorePlan::Clear, done(), &request, "")),
        Status::NoContent
    );
    assert_eq!(
        status_of(store_reply(&StorePlan::CheckGraph(named("g")), done(), &request, "")),
        Status::Success
    );
    assert_eq!(
        status_of(store_reply(&StorePlan::CheckStore, done(), &request, "")),
        Status::Success
    );
}

#[test]
fn graphs_are_sent_in_the_negotiated_format() {
    let request = store_request("graph=http://example/g", None, Some("application/n-triples"));
    let plan = handle_request(StoreMethod::Get, &request).unwrap();
    let reply = store_reply(&plan, StoreOutcome::Done { existed: true }, &request, "");
    assert!(matches!(reply, StoreReply::StreamGraph(GraphFormat::NTriples)));
    let request = store_request("", None, Some("application/trig"));
    let reply = store_reply(
        &StorePlan::ReadDataset,
        StoreOutcome::Done { existed: true },
        &request,
        "",
    );
    assert!(matches!(reply, StoreReply::StreamDataset(DatasetFormat::TriG)));
    let request = store_request("graph=http://example/g", None, Some("image/png"));
    let reply = store_reply(
        &StorePlan::ReadGraph(named("g")),
        StoreOutcome::Done { existed: true },
        &request,
        "",
    );
    assert_eq!(status_of(reply), Status::NotAcceptable);
}

#[test]
fn replace_then_read_goes_through_the_same_graph() {
    let put = store_request("graph=http://example/g", Some("application/n-triples"), None);
    let plan = handle_request(StoreMethod::Put, &put).unwrap();
    let written = match plan {
        StorePlan::ReplaceGraph(target, GraphFormat::NTriples, _) => target,
        other => panic!("{:?}", other),
    };
    let get = store_request("graph=http://example/g", None, Some("application/n-triples"));
    let plan = handle_request(StoreMethod::Get, &get).unwrap();
    match &plan {
        StorePlan::ReadGraph(target) => assert!(target.same(&written)),
        other => panic!("{:?}", other),
    }
    let reply = store_reply(&plan, StoreOutcome::Done { existed: true }, &get, "");
    assert!(matches!(reply, StoreReply::StreamGraph(GraphFormat::NTriples)));
}

#[test]
fn load_failures_are_told_apart() {
    let request = store_request("", None, None);
    let plan = StorePlan::AppendGraph(named("g"), GraphFormat::Turtle, IN_ONE_TRANSACTION);
    match store_reply(
        &plan,
        StoreOutcome::ParseFailed("unexpected token".to_string()),
        &request,
        "",
    ) {
        StoreReply::Fail(e) => {
            assert_eq!(e.status, Status::BadRequest);
            assert_eq!(e.message, "unexpected token");
        }
        other => panic!("{:?}", other),
    }
    match store_reply(
        &plan,
        StoreOutcome::StorageFailed("disk full".to_string()),
        &request,
        "",
    ) {
        StoreReply::Fail(e) => {
            assert_eq!(e.status, Status::InternalServerError);
            assert_eq!(e.message, "disk full");
        }
        other => panic!("{:?}", other),
    }
}
