use kos_kit_server::format::GraphFormat;
use kos_kit_server::http::{Headers, Request, Status};
use kos_kit_server::index::{schema, Indexing};
use kos_kit_server::search::{
    append_total_count, handle_request, retrieval_query, total_count_header, ParsedUrl,
    ResponseGraph, Search, SearchAction, SearchEvent, SearchStage, Triple,
};
use tantivy::collector::{Count, TopDocs};
use tantivy::query::{Query, QueryParser};
use tantivy::schema::{Field, Schema, Value, STORED, STRING, TEXT};
use tantivy::{DocAddress, Index, IndexWriter, Score, TantivyDocument};

const TEMPLATE: &str = "CONSTRUCT { ?iri ?p ?o } WHERE { ?iri ?p ?o }";

fn search_request(method: &str, query: &str, accept: Option<&str>) -> Request {
    let mut headers = Headers::new();
    if let Some(value) = accept {
        headers.append("Accept", value.as_bytes());
    }
    Request {
        method: method.to_string(),
        url: format!("http://localhost:7878/search?{}", query),
        path: "/search".to_string(),
        query: query.to_string(),
        headers,
    }
}

fn triple(subject: &str, predicate: &str, object: &str) -> Triple {
    Triple {
        subject: subject.to_string(),
        predicate: predicate.to_string(),
        object: object.to_string(),
    }
}

/// A text index in memory, laid out as the library says, with the given documents.
fn index_of(documents: &[(&str, &str)]) -> (Index, Field, Field) {
    let mut builder = Schema::builder();
    let mut fields = Vec::new();
    for field in schema() {
        let options = match field.indexing {
            Indexing::Exact => STRING,
            Indexing::FullText => TEXT,
        };
        let options = if field.stored { options | STORED } else { options };
        fields.push(builder.add_text_field(field.name, options));
    }
    let index = Index::create_in_ram(builder.build());
    let mut writer: IndexWriter = index.writer_with_num_threads(1, 15_000_000).unwrap();
    for (iri, text) in documents {
        let mut document = TantivyDocument::default();
        document.add_text(fields[0], iri);
        document.add_text(fields[1], text);
        writer.add_document(document).unwrap();
    }
    writer.commit().unwrap();
    (index, fields[0], fields[1])
}

/// What the graph store knows of a name: one label per resource.
fn describe(query: &str) -> SearchEvent {
    if !query.starts_with(TEMPLATE) {
        return SearchEvent::RetrievalFailed("not the retrieval query".to_string());
    }
    if query.contains("<http://example/x>") {
        SearchEvent::Retrieved(vec![
            triple("<http://example/x>", "<http://example/label>", "\"hello world\""),
            triple("<http://example/x>", "<http://example/seeAlso>", "<http://example/shared>"),
        ])
    } else if query.contains("<http://example/y>") {
        SearchEvent::Retrieved(vec![
            triple("<http://example/y>", "<http://example/label>", "\"hello again\""),
            triple("<http://example/x>", "<http://example/seeAlso>", "<http://example/shared>"),
        ])
    } else {
        SearchEvent::Retrieved(Vec::new())
    }
}

/// Runs a search against a text index, and says how it ended and what was retrieved.
fn run(documents: &[(&str, &str)], request: &Request) -> (Search, SearchAction, Vec<String>) {
    let (index, iri_field, text_field) = index_of(documents);
    let searcher = index.reader().unwrap().searcher();
    let parser = QueryParser::for_index(&index, vec![text_field]);
    let mut parsed: Option<Box<dyn Query>> = None;
    let mut hits: Vec<(Score, DocAddress)> = Vec::new();
    let mut retrieved = Vec::new();
    let (mut search, mut action) = handle_request(TEMPLATE.to_string(), request).unwrap();
    for _ in 0..1000 {
        let event = match action {
            SearchAction::ParseQuery(text) => match parser.parse_query(&text) {
                Ok(query) => {
                    parsed = Some(query);
                    SearchEvent::QueryParsed
                }
                Err(e) => SearchEvent::QueryRejected(e.to_string()),
            },
            SearchAction::CountDocuments => SearchEvent::DocumentCount(searcher.num_docs()),
            SearchAction::CountMatches => {
                match searcher.search(parsed.as_ref().unwrap(), &Count) {
                    Ok(count) => SearchEvent::MatchCount(count),
                    Err(e) => SearchEvent::SearchFailed(e.to_string()),
                }
            }
            SearchAction::FindHits { limit, offset } => {
                let collector = TopDocs::with_limit(limit).and_offset(offset);
                match searcher.search(parsed.as_ref().unwrap(), &collector) {
                    Ok(found) => {
                        hits = found;
                        SearchEvent::Hits(hits.len())
                    }
                    Err(e) => SearchEvent::SearchFailed(e.to_string()),
                }
            }
            SearchAction::LoadHit(place) => match searcher.doc::<TantivyDocument>(hits[place].1) {
                Ok(document) => SearchEvent::HitIri(
                    document
                        .get_first(iri_field)
                        .and_then(|value| value.as_str())
                        .map(|iri| iri.to_string()),
                ),
                Err(e) => SearchEvent::DocumentFailed(e.to_string()),
            },
            SearchAction::Retrieve(query) => {
                let event = describe(&query);
                retrieved.push(query);
                event
            }
            last => return (search, last, retrieved),
        };
        let next = search.advance(event, request);
        search = next.0;
        action = next.1;
    }
    panic!("the search did not end");
}

#[test]
fn search_merges_what_the_store_knows_of_each_hit() {
    let request = search_request("GET", "query=hello&limit=10", None);
    let (search, last, retrieved) =
        run(&[("<http://example/x>", "hello world")], &request);
    assert_eq!(
        retrieved,
        vec![format!("{}\nVALUES ?iri {{ <http://example/x> }}", TEMPLATE)]
    );
    match last {
        SearchAction::Stream { format, total_count } => {
            assert_eq!(format, GraphFormat::NTriples);
            assert_eq!(total_count, 1);
        }
        other => panic!("{:?}", other),
    }
    assert_eq!(search.stage(), SearchStage::Finished);
    let graph = search.graph();
    assert_eq!(graph.len(), 2);
    assert!(graph.contains(&triple(
        "<http://example/x>",
        "<http://example/label>",
        "\"hello world\""
    )));
    assert!(graph.contains(&triple(
        "<http://example/x>",
        "<http://example/seeAlso>",
        "<http://example/shared>"
    )));
    let mut headers = Headers::new();
    append_total_count(&mut headers, 1);
    assert_eq!(headers.get("X-Total-Count"), Some(&b"1".to_vec()));
}

#[test]
fn search_for_no_hits_tells_the_count_alone() {
    let request = search_request("GET", "query=hello&limit=0", None);
    let (search, last, retrieved) = run(
        &[("<http://example/x>", "hello world"), ("<http://example/y>", "hello again")],
        &request,
    );
    assert!(retrieved.is_empty());
    match last {
        SearchAction::Respond(response) => {
            assert_eq!(response.status, Status::NoContent);
            assert_eq!(response.status.code(), 204);
            assert_eq!(response.headers.get("X-Total-Count"), Some(&b"2".to_vec()));
            assert!(response.body.is_empty());
        }
        other => panic!("{:?}", other),
    }
    assert_eq!(search.graph().len(), 0);
}

#[test]
fn search_on_an_empty_index_fails() {
    let request = search_request("GET", "query=x", None);
    let (_, last, retrieved) = run(&[], &request);
    assert!(retrieved.is_empty());
    match last {
        SearchAction::Fail(e) => {
            assert_eq!(e.status, Status::InternalServerError);
            assert_eq!(e.status.code(), 500);
            assert_eq!(e.message, "index is empty");
        }
        other => panic!("{:?}", other),
    }
}

#[test]
fn triples_of_several_hits_collapse() {
    let request = search_request("GET", "query=hello", Some("text/turtle"));
    let (search, last, retrieved) = run(
        &[("<http://example/x>", "hello world"), ("<http://example/y>", "hello again")],
        &request,
    );
    assert_eq!(retrieved.len(), 2);
    assert!(matches!(
        last,
        SearchAction::Stream { format: GraphFormat::Turtle, total_count: 2 }
    ));
    assert_eq!(search.graph().len(), 3);
    assert_eq!(search.graph().triples().len(), 3);
}

#[test]
fn limit_and_offset_bound_the_hits() {
    let documents = [
        ("<http://example/x>", "hello world"),
        ("<http://example/y>", "hello again"),
        ("<http://example/z>", "hello hello hello"),
    ];
    let request = search_request("GET", "query=hello&limit=1", None);
    let (_, last, retrieved) = run(&documents, &request);
    assert_eq!(retrieved.len(), 1);
    assert!(matches!(last, SearchAction::Stream { total_count: 3, .. }));
    let request = search_request("GET", "query=hello&limit=5&offset=2", None);
    let (_, last, retrieved) = run(&documents, &request);
    assert_eq!(retrieved.len(), 1);
    assert!(matches!(last, SearchAction::Stream { total_count: 3, .. }));
    let request = search_request("GET", "query=hello&offset=3", None);
    let (search, last, retrieved) = run(&documents, &request);
    assert!(retrieved.is_empty());
    assert!(matches!(last, SearchAction::Stream { total_count: 3, .. }));
    assert_eq!(search.graph().len(), 0);
}

#[test]
fn search_without_match_gives_an_empty_graph() {
    let request = search_request("GET", "query=nothing", None);
    let (search, last, _) = run(&[("<http://example/x>", "hello world")], &request);
    assert!(matches!(
        last,
        SearchAction::Stream { format: GraphFormat::NTriples, total_count: 0 }
    ));
    assert_eq!(search.graph().len(), 0);
}

#[test]
fn format_is_negotiated_after_retrieval() {
    let request = search_request("GET", "query=hello", Some("image/png"));
    let (_, last, retrieved) = run(&[("<http://example/x>", "hello world")], &request);
    assert_eq!(retrieved.len(), 1);
    assert!(matches!(last, SearchAction::Fail(e) if e.status == Status::NotAcceptable));
}

#[test]
fn search_takes_get_alone() {
    let request = search_request("POST", "query=hello", None);
    let error = handle_request(TEMPLATE.to_string(), &request).unwrap_err();
    assert_eq!(error.status, Status::MethodNotAllowed);
    assert_eq!(error.message, "POST is not supported by this server");
}

#[test]
fn search_request_is_read_from_the_query_string() {
    let parsed = ParsedUrl::parse("query=hello+world&limit=3&offset=7").unwrap();
    assert_eq!(parsed.query, "hello world");
    assert_eq!(parsed.limit, 3);
    assert_eq!(parsed.offset, 7);
    let parsed = ParsedUrl::parse("query=caf%C3%A9").unwrap();
    assert_eq!(parsed.query, "caf\u{e9}");
    assert_eq!(parsed.limit, 10);
    assert_eq!(parsed.offset, 0);
    let parsed = ParsedUrl::parse("limit=1&query=a&limit=2&query=b").unwrap();
    assert_eq!(parsed.query, "b");
    assert_eq!(parsed.limit, 2);
}

#[test]
fn search_request_errors_have_their_messages() {
    assert_eq!(ParsedUrl::parse("").unwrap_err(), "missing query string");
    assert_eq!(ParsedUrl::parse("limit=5").unwrap_err(), "missing query string");
    assert_eq!(
        ParsedUrl::parse("query=a&limit=x").unwrap_err(),
        "error parsing limit: invalid digit found in string"
    );
    assert_eq!(
        ParsedUrl::parse("query=a&limit=").unwrap_err(),
        "error parsing limit: cannot parse integer from empty string"
    );
    assert_eq!(
        ParsedUrl::parse("query=a&offset=-1").unwrap_err(),
        "error parsing offset: invalid digit found in string"
    );
    assert_eq!(
        ParsedUrl::parse("query=a&offset=99999999999999999999999").unwrap_err(),
        "error parsing offset: number too large to fit in target type"
    );
    assert_eq!(
        ParsedUrl::parse("limit=x&offset=y").unwrap_err(),
        "error parsing limit: invalid digit found in string"
    );
    let request = search_request("GET", "limit=x", None);
    let error = handle_request(TEMPLATE.to_string(), &request).unwrap_err();
    assert_eq!(error.status, Status::BadRequest);
    assert_eq!(error.message, "error parsing limit: invalid digit found in string");
}

#[test]
fn backend_failures_have_their_messages() {
    let request = search_request("GET", "query=hello", None);
    let start = || handle_request(TEMPLATE.to_string(), &request).unwrap().0;
    let message = |action: SearchAction| match action {
        SearchAction::Fail(e) => (e.status, e.message),
        other => panic!("{:?}", other),
    };
    let (search, action) =
        start().advance(SearchEvent::QueryRejected("syntax error".to_string()), &request);
    assert_eq!(search.stage(), SearchStage::Finished);
    assert_eq!(message(action), (Status::BadRequest, "syntax error".to_string()));

    let counting = start()
        .advance(SearchEvent::QueryParsed, &request)
        .0
        .advance(SearchEvent::DocumentCount(2), &request)
        .0;
    assert_eq!(counting.stage(), SearchStage::CountingMatches);
    let (_, action) = counting.advance(SearchEvent::SearchFailed("io error".to_string()), &request);
    assert_eq!(
        message(action),
        (
            Status::InternalServerError,
            "error searching index:\nQuery: hello\nError: io error".to_string()
        )
    );

    let finding = || {
        start()
            .advance(SearchEvent::QueryParsed, &request)
            .0
            .advance(SearchEvent::DocumentCount(2), &request)
            .0
            .advance(SearchEvent::MatchCount(2), &request)
            .0
    };
    assert_eq!(finding().stage(), SearchStage::FindingHits);
    let (_, action) =
        finding().advance(SearchEvent::FieldMissing("no field iri".to_string()), &request);
    assert_eq!(
        message(action),
        (
            Status::InternalServerError,
            "error getting IRI field from index: no field iri".to_string()
        )
    );
    let (loading, action) = finding().advance(SearchEvent::Hits(2), &request);
    assert!(matches!(action, SearchAction::LoadHit(0)));
    let (_, action) = loading.advance(SearchEvent::DocumentFailed("gone".to_string()), &request);
    assert_eq!(message(action), (Status::InternalServerError, "gone".to_string()));

    let retrieving = || {
        finding()
            .advance(SearchEvent::Hits(2), &request)
            .0
            .advance(SearchEvent::HitIri(Some("<http://example/x>".to_string())), &request)
            .0
    };
    assert_eq!(retrieving().stage(), SearchStage::Retrieving);
    let (_, action) = retrieving().advance(SearchEvent::NotAGraph, &request);
    assert_eq!(
        message(action),
        (
            Status::InternalServerError,
            "index result query did not return a graph (is it a CONSTRUCT query?)".to_string()
        )
    );
    let (_, action) =
        retrieving().advance(SearchEvent::RetrievalFailed("timeout".to_string()), &request);
    assert_eq!(
        message(action),
        (
            Status::InternalServerError,
            format!(
                "error executing index result query:\nQuery:\n{}\nVALUES ?iri {{ <http://example/x> }}\nError:\ntimeout",
                TEMPLATE
            )
        )
    );
}

#[test]
fn hit_without_stored_name_is_passed_over() {
    let request = search_request("GET", "query=hello", None);
    let search = handle_request(TEMPLATE.to_string(), &request).unwrap().0;
    let search = search.advance(SearchEvent::QueryParsed, &request).0;
    let search = search.advance(SearchEvent::DocumentCount(5), &request).0;
    let search = search.advance(SearchEvent::MatchCount(2), &request).0;
    let (search, action) = search.advance(SearchEvent::Hits(2), &request);
    assert!(matches!(action, SearchAction::LoadHit(0)));
    let (search, action) = search.advance(SearchEvent::HitIri(None), &request);
    assert!(matches!(action, SearchAction::LoadHit(1)));
    let (search, action) = search.advance(SearchEvent::HitIri(None), &request);
    assert!(matches!(action, SearchAction::Stream { total_count: 2, .. }));
    let (search, action) = search.advance(SearchEvent::QueryParsed, &request);
    assert_eq!(search.stage(), SearchStage::Finished);
    assert!(matches!(action, SearchAction::Fail(e) if e.status == Status::InternalServerError));
}

#[test]
fn no_more_hits_are_worked_on_than_asked_for() {
    let request = search_request("GET", "query=hello&limit=2", None);
    let search = handle_request(TEMPLATE.to_string(), &request).unwrap().0;
    let search = search.advance(SearchEvent::QueryParsed, &request).0;
    let search = search.advance(SearchEvent::DocumentCount(9), &request).0;
    let (search, action) = search.advance(SearchEvent::MatchCount(9), &request);
    assert!(matches!(action, SearchAction::FindHits { limit: 2, offset: 0 }));
    let (search, action) = search.advance(SearchEvent::Hits(5), &request);
    assert!(matches!(action, SearchAction::LoadHit(0)));
    let (search, action) = search.advance(SearchEvent::HitIri(None), &request);
    assert!(matches!(action, SearchAction::LoadHit(1)));
    let (_, action) = search.advance(SearchEvent::HitIri(None), &request);
    assert!(matches!(action, SearchAction::Stream { total_count: 9, .. }));
}

#[test]
fn reports_out_of_turn_end_the_search() {
    let request = search_request("GET", "query=hello", None);
    let search = handle_request(TEMPLATE.to_string(), &request).unwrap().0;
    let (search, action) = search.advance(SearchEvent::MatchCount(3), &request);
    assert_eq!(search.stage(), SearchStage::Finished);
    assert!(matches!(action, SearchAction::Fail(e) if e.status == Status::InternalServerError));
}

#[test]
fn retrieval_query_binds_the_name() {
    assert_eq!(
        retrieval_query("DESCRIBE ?iri", "<http://example/x>"),
        "DESCRIBE ?iri\nVALUES ?iri { <http://example/x> }"
    );
}

#[test]
fn total_count_is_written_in_decimal() {
    assert_eq!(total_count_header(0), "0");
    assert_eq!(total_count_header(1), "1");
    assert_eq!(total_count_header(12345), "12345");
}

#[test]
fn response_graph_is_a_set() {
    let mut graph = ResponseGraph::new();
    assert_eq!(graph.len(), 0);
    assert!(graph.insert(triple("<a>", "<p>", "<b>")));
    assert!(!graph.insert(triple("<a>", "<p>", "<b>")));
    assert!(graph.insert(triple("<a>", "<p>", "<c>")));
    assert_eq!(graph.len(), 2);
    graph.merge(&vec![
        triple("<a>", "<p>", "<c>"),
        triple("<d>", "<p>", "<c>"),
        triple("<d>", "<p>", "<c>"),
    ]);
    assert_eq!(graph.len(), 3);
    assert!(graph.contains(&triple("<d>", "<p>", "<c>")));
    assert!(!graph.contains(&triple("<d>", "<p>", "<a>")));
    let first = &graph.triples()[0];
    assert!(first.same(&triple("<a>", "<p>", "<b>")));
    assert!(first.copy().same(first));
}
