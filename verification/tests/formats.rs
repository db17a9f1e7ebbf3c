use kos_kit_server::format::{
    dataset_content_negotiation, DatasetFormat, GraphFormat, QueryResultsFormat,
};
use kos_kit_server::http::{Headers, Request};

#[test]
fn graph_formats_have_their_media_types() {
    assert_eq!(GraphFormat::NTriples.media_type(), "application/n-triples");
    assert_eq!(GraphFormat::Turtle.media_type(), "text/turtle");
    assert_eq!(GraphFormat::RdfXml.media_type(), "application/rdf+xml");
    assert_eq!(GraphFormat::NTriples.file_extension(), "nt");
    assert_eq!(GraphFormat::Turtle.file_extension(), "ttl");
    assert_eq!(GraphFormat::RdfXml.file_extension(), "rdf");
}

#[test]
fn graph_media_types_and_aliases_are_known() {
    assert_eq!(
        GraphFormat::from_media_type("application/n-triples"),
        Some(GraphFormat::NTriples)
    );
    assert_eq!(GraphFormat::from_media_type("text/plain"), Some(GraphFormat::NTriples));
    assert_eq!(
        GraphFormat::from_media_type(" text/turtle ; charset=utf-8"),
        Some(GraphFormat::Turtle)
    );
    assert_eq!(GraphFormat::from_media_type("application/x-turtle"), Some(GraphFormat::Turtle));
    assert_eq!(GraphFormat::from_media_type("text/xml"), Some(GraphFormat::RdfXml));
    assert_eq!(GraphFormat::from_media_type("application/n-quads"), None);
    assert_eq!(GraphFormat::from_media_type(""), None);
}

#[test]
fn dataset_formats_have_their_media_types() {
    assert_eq!(DatasetFormat::NQuads.media_type(), "application/n-quads");
    assert_eq!(DatasetFormat::TriG.media_type(), "application/trig");
    assert_eq!(DatasetFormat::NQuads.file_extension(), "nq");
    assert_eq!(DatasetFormat::TriG.file_extension(), "trig");
    assert_eq!(
        DatasetFormat::from_media_type("text/x-nquads"),
        Some(DatasetFormat::NQuads)
    );
    assert_eq!(
        DatasetFormat::from_media_type("application/x-trig"),
        Some(DatasetFormat::TriG)
    );
    assert_eq!(DatasetFormat::from_media_type("text/turtle"), None);
    assert_eq!(DatasetFormat::from_extension("nq"), Some(DatasetFormat::NQuads));
    assert_eq!(DatasetFormat::from_extension("trig"), Some(DatasetFormat::TriG));
    assert_eq!(DatasetFormat::from_extension("ttl"), None);
}

#[test]
fn graph_extensions_are_known() {
    assert_eq!(GraphFormat::from_extension("nt"), Some(GraphFormat::NTriples));
    assert_eq!(GraphFormat::from_extension("txt"), Some(GraphFormat::NTriples));
    assert_eq!(GraphFormat::from_extension("ttl"), Some(GraphFormat::Turtle));
    assert_eq!(GraphFormat::from_extension("rdf"), Some(GraphFormat::RdfXml));
    assert_eq!(GraphFormat::from_extension("xml"), Some(GraphFormat::RdfXml));
    assert_eq!(GraphFormat::from_extension("NT"), None);
}

#[test]
fn results_formats_have_their_media_types() {
    assert_eq!(
        QueryResultsFormat::Xml.media_type(),
        "application/sparql-results+xml"
    );
    assert_eq!(
        QueryResultsFormat::Json.media_type(),
        "application/sparql-results+json"
    );
    assert_eq!(QueryResultsFormat::Csv.media_type(), "text/csv; charset=utf-8");
    assert_eq!(
        QueryResultsFormat::Tsv.media_type(),
        "text/tab-separated-values; charset=utf-8"
    );
}

#[test]
fn results_media_types_and_aliases_are_known() {
    assert_eq!(
        QueryResultsFormat::from_media_type("application/sparql-results+json; charset=utf-8"),
        Some(QueryResultsFormat::Json)
    );
    assert_eq!(
        QueryResultsFormat::from_media_type("application/json"),
        Some(QueryResultsFormat::Json)
    );
    assert_eq!(
        QueryResultsFormat::from_media_type("text/xml"),
        Some(QueryResultsFormat::Xml)
    );
    assert_eq!(
        QueryResultsFormat::from_media_type(" text/csv "),
        Some(QueryResultsFormat::Csv)
    );
    assert_eq!(
        QueryResultsFormat::from_media_type("text/tsv"),
        Some(QueryResultsFormat::Tsv)
    );
    assert_eq!(QueryResultsFormat::from_media_type("text/turtle"), None);
}

#[test]
fn datasets_are_negotiated_among_dataset_formats() {
    let mut headers = Headers::new();
    headers.append("Accept", b"application/trig");
    let request = Request {
        method: "GET".to_string(),
        url: "http://localhost:7878/store".to_string(),
        path: "/store".to_string(),
        query: String::new(),
        headers,
    };
    assert_eq!(dataset_content_negotiation(&request).unwrap(), DatasetFormat::TriG);
}
