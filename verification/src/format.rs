//! The serialization formats that the server reads and writes, each with its media type
//! and its file extension.

use crate::http::{Failure, HttpError, Request};
use crate::negotiation::{accept_of, content_negotiation, negotiate_header, range_text, texts};
use crate::text::{chars_eq, chars_of, copy_range, find_in, trim, trim_chars};
use vstd::prelude::*;

verus! {

/// A format for one graph.
#[derive(Clone, Copy, Debug, PartialEq, Eq, Structural)]
pub enum GraphFormat {
    NTriples,
    Turtle,
    RdfXml,
}

/// A format for a dataset, that is for several graphs.
#[derive(Clone, Copy, Debug, PartialEq, Eq, Structural)]
pub enum DatasetFormat {
    NQuads,
    TriG,
}

/// A format for the results of a query.
#[derive(Clone, Copy, Debug, PartialEq, Eq, Structural)]
pub enum QueryResultsFormat {
    Xml,
    Json,
    Csv,
    Tsv,
}

/// A media type without its parameters and without the whitespace around it.
pub open spec fn essence(media_type: Seq<char>) -> Seq<char> {
    trim(range_text(media_type))
}

fn essence_of(media_type: &str) -> (e: Vec<char>)
    ensures
        e@ == essence(media_type@),
{
    let text = chars_of(media_type);
    let semi = find_in(text.as_slice(), ';');
    let base = copy_range(text.as_slice(), 0, semi);
    trim_chars(base.as_slice())
}

fn is_text(s: &Vec<char>, literal: &str) -> (same: bool)
    ensures
        same == (s@ == literal@),
{
    let l = chars_of(literal);
    chars_eq(s.as_slice(), l.as_slice())
}

impl GraphFormat {
    pub open spec fn media_type_of(self) -> Seq<char> {
        match self {
            GraphFormat::NTriples => "application/n-triples"@,
            GraphFormat::Turtle => "text/turtle"@,
            GraphFormat::RdfXml => "application/rdf+xml"@,
        }
    }

    /// The media type that responses in this format carry.
    pub fn media_type(&self) -> (m: &'static str)
        ensures
            m@ == self.media_type_of(),
    {
        match self {
            GraphFormat::NTriples => "application/n-triples",
            GraphFormat::Turtle => "text/turtle",
            GraphFormat::RdfXml => "application/rdf+xml",
        }
    }

    pub open spec fn file_extension_of(self) -> Seq<char> {
        match self {
            GraphFormat::NTriples => "nt"@,
            GraphFormat::Turtle => "ttl"@,
            GraphFormat::RdfXml => "rdf"@,
        }
    }

    /// The usual file extension of this format.
    pub fn file_extension(&self) -> (e: &'static str)
        ensures
            e@ == self.file_extension_of(),
    {
        match self {
            GraphFormat::NTriples => "nt",
            GraphFormat::Turtle => "ttl",
            GraphFormat::RdfXml => "rdf",
        }
    }

    /// The format that a media type names, by its canonical name or a known alias.
    pub open spec fn for_media_type(media_type: Seq<char>) -> Option<GraphFormat> {
        let e = essence(media_type);
        if e == "application/n-triples"@ || e == "text/plain"@ {
            Some(GraphFormat::NTriples)
        } else if e == "text/turtle"@ || e == "application/turtle"@ || e == "application/x-turtle"@ {
            Some(GraphFormat::Turtle)
        } else if e == "application/rdf+xml"@ || e == "application/xml"@ || e == "text/xml"@ {
            Some(GraphFormat::RdfXml)
        } else {
            None
        }
    }

    /// The format that a media type names.
    pub fn from_media_type(media_type: &str) -> (f: Option<GraphFormat>)
        ensures
            f == GraphFormat::for_media_type(media_type@),
    {
        let e = essence_of(media_type);
        if is_text(&e, "application/n-triples") || is_text(&e, "text/plain") {
            Some(GraphFormat::NTriples)
        } else if is_text(&e, "text/turtle") || is_text(&e, "application/turtle") || is_text(
            &e,
            "application/x-turtle",
        ) {
            Some(GraphFormat::Turtle)
        } else if is_text(&e, "application/rdf+xml") || is_text(&e, "application/xml") || is_text(
            &e,
            "text/xml",
        ) {
            Some(GraphFormat::RdfXml)
        } else {
            None
        }
    }

    /// The format that a file extension names.
    pub open spec fn for_extension(extension: Seq<char>) -> Option<GraphFormat> {
        if extension == "nt"@ || extension == "txt"@ {
            Some(GraphFormat::NTriples)
        } else if extension == "ttl"@ {
            Some(GraphFormat::Turtle)
        } else if extension == "rdf"@ || extension == "xml"@ {
            Some(GraphFormat::RdfXml)
        } else {
            None
        }
    }

    /// The format that a file extension names.
    pub fn from_extension(extension: &str) -> (f: Option<GraphFormat>)
        ensures
            f == GraphFormat::for_extension(extension@),
    {
        let e = chars_of(extension);
        if is_text(&e, "nt") || is_text(&e, "txt") {
            Some(GraphFormat::NTriples)
        } else if is_text(&e, "ttl") {
            Some(GraphFormat::Turtle)
        } else if is_text(&e, "rdf") || is_text(&e, "xml") {
            Some(GraphFormat::RdfXml)
        } else {
            None
        }
    }
}

impl DatasetFormat {
    pub open spec fn media_type_of(self) -> Seq<char> {
        match self {
            DatasetFormat::NQuads => "application/n-quads"@,
            DatasetFormat::TriG => "application/trig"@,
        }
    }

    /// The media type that responses in this format carry.
    pub fn media_type(&self) -> (m: &'static str)
        ensures
            m@ == self.media_type_of(),
    {
        match self {
            DatasetFormat::NQuads => "application/n-quads",
            DatasetFormat::TriG => "application/trig",
        }
    }

    pub open spec fn file_extension_of(self) -> Seq<char> {
        match self {
            DatasetFormat::NQuads => "nq"@,
            DatasetFormat::TriG => "trig"@,
        }
    }

    /// The usual file extension of this format.
    pub fn file_extension(&self) -> (e: &'static str)
        ensures
            e@ == self.file_extension_of(),
    {
        match self {
            DatasetFormat::NQuads => "nq",
            DatasetFormat::TriG => "trig",
        }
    }

    /// The format that a media type names, by its canonical name or a known alias.
    pub open spec fn for_media_type(media_type: Seq<char>) -> Option<DatasetFormat> {
        let e = essence(media_type);
        if e == "application/n-quads"@ || e == "text/x-nquads"@ || e == "text/nquads"@ {
            Some(DatasetFormat::NQuads)
        } else if e == "application/trig"@ || e == "application/x-trig"@ {
            Some(DatasetFormat::TriG)
        } else {
            None
        }
    }

    /// The format that a media type names.
    pub fn from_media_type(media_type: &str) -> (f: Option<DatasetFormat>)
        ensures
            f == DatasetFormat::for_media_type(media_type@),
    {
        let e = essence_of(media_type);
        if is_text(&e, "application/n-quads") || is_text(&e, "text/x-nquads") || is_text(
            &e,
            "text/nquads",
        ) {
            Some(DatasetFormat::NQuads)
        } else if is_text(&e, "application/trig") || is_text(&e, "application/x-trig") {
            Some(DatasetFormat::TriG)
        } else {
            None
        }
    }

    /// The format that a file extension names.
    pub open spec fn for_extension(extension: Seq<char>) -> Option<DatasetFormat> {
        if extension == "nq"@ || extension == "txt"@ {
            Some(DatasetFormat::NQuads)
        } else if extension == "trig"@ {
            Some(DatasetFormat::TriG)
        } else {
            None
        }
    }

    /// The format that a file extension names.
    pub fn from_extension(extension: &str) -> (f: Option<DatasetFormat>)
        ensures
            f == DatasetFormat::for_extension(extension@),
    {
        let e = chars_of(extension);
        if is_text(&e, "nq") || is_text(&e, "txt") {
            Some(DatasetFormat::NQuads)
        } else if is_text(&e, "trig") {
            Some(DatasetFormat::TriG)
        } else {
            None
        }
    }
}

impl QueryResultsFormat {
    pub open spec fn media_type_of(self) -> Seq<char> {
        match self {
            QueryResultsFormat::Xml => "application/sparql-results+xml"@,
            QueryResultsFormat::Json => "application/sparql-results+json"@,
            QueryResultsFormat::Csv => "text/csv; charset=utf-8"@,
            QueryResultsFormat::Tsv => "text/tab-separated-values; charset=utf-8"@,
        }
    }

    /// The media type that responses in this format carry.
    pub fn media_type(&self) -> (m: &'static str)
        ensures
            m@ == self.media_type_of(),
    {
        results_media_type(*self)
    }

    /// The format that a media type names, by its canonical name or a known alias.
    pub open spec fn for_media_type(media_type: Seq<char>) -> Option<QueryResultsFormat> {
        let e = essence(media_type);
        if e == "application/sparql-results+xml"@ || e == "application/xml"@ || e == "text/xml"@ {
            Some(QueryResultsFormat::Xml)
        } else if e == "application/sparql-results+json"@ || e == "application/json"@ || e
            == "text/json"@ {
            Some(QueryResultsFormat::Json)
        } else if e == "text/csv"@ {
            Some(QueryResultsFormat::Csv)
        } else if e == "text/tab-separated-values"@ || e == "text/tsv"@ {
            Some(QueryResultsFormat::Tsv)
        } else {
            None
        }
    }

    /// The format that a media type names.
    pub fn from_media_type(media_type: &str) -> (f: Option<QueryResultsFormat>)
        ensures
            f == QueryResultsFormat::for_media_type(media_type@),
    {
        results_format_from_media_type(media_type)
    }
}

/// Calls `sparesults::QueryResultsFormat::media_type`, which gives the canonical media
/// type of each of the four formats, with `charset=utf-8` for the two textual ones.
#[verifier::external_body]
fn results_media_type(format: QueryResultsFormat) -> (m: &'static str)
    ensures
        m@ == format.media_type_of(),
{
    match format {
        QueryResultsFormat::Xml => sparesults::QueryResultsFormat::Xml,
        QueryResultsFormat::Json => sparesults::QueryResultsFormat::Json,
        QueryResultsFormat::Csv => sparesults::QueryResultsFormat::Csv,
        QueryResultsFormat::Tsv => sparesults::QueryResultsFormat::Tsv,
    }.media_type()
}

/// Calls `sparesults::QueryResultsFormat::from_media_type`, which cuts the media type at
/// its first `;`, trims it, and knows the canonical name of each format and the aliases
/// that `for_media_type` lists.
#[verifier::external_body]
fn results_format_from_media_type(media_type: &str) -> (f: Option<QueryResultsFormat>)
    ensures
        f == QueryResultsFormat::for_media_type(media_type@),
{
    match sparesults::QueryResultsFormat::from_media_type(media_type) {
        Some(sparesults::QueryResultsFormat::Xml) => Some(QueryResultsFormat::Xml),
        Some(sparesults::QueryResultsFormat::Json) => Some(QueryResultsFormat::Json),
        Some(sparesults::QueryResultsFormat::Csv) => Some(QueryResultsFormat::Csv),
        Some(sparesults::QueryResultsFormat::Tsv) => Some(QueryResultsFormat::Tsv),
        _ => None,
    }
}

/// The media types in which a graph can be written, best first.
pub open spec fn graph_media_types() -> Seq<Seq<char>> {
    seq![
        GraphFormat::NTriples.media_type_of(),
        GraphFormat::Turtle.media_type_of(),
        GraphFormat::RdfXml.media_type_of(),
    ]
}

/// The graph format at a place of `graph_media_types`.
pub open spec fn graph_format_at(i: int) -> GraphFormat {
    if i == 0 {
        GraphFormat::NTriples
    } else if i == 1 {
        GraphFormat::Turtle
    } else {
        GraphFormat::RdfXml
    }
}

/// Selects the format in which a graph goes back to the client.
pub fn graph_content_negotiation(request: &Request) -> (r: Result<GraphFormat, HttpError>)
    ensures
        match r {
            Ok(f) => negotiate_header(accept_of(request), graph_media_types()) matches Ok(i) && f
                == graph_format_at(i),
            Err(e) => negotiate_header(accept_of(request), graph_media_types()) == Err::<
                int,
                Failure,
            >(e@),
        },
{
    let supported: Vec<&str> = vec![
        GraphFormat::NTriples.media_type(),
        GraphFormat::Turtle.media_type(),
        GraphFormat::RdfXml.media_type(),
    ];
    assert(texts(supported@) =~= graph_media_types());
    match content_negotiation(request, supported.as_slice()) {
        Err(e) => Err(e),
        Ok(i) => Ok(
            if i == 0 {
                GraphFormat::NTriples
            } else if i == 1 {
                GraphFormat::Turtle
            } else {
                GraphFormat::RdfXml
            },
        ),
    }
}

/// The media types in which a dataset can be written, best first.
pub open spec fn dataset_media_types() -> Seq<Seq<char>> {
    seq![DatasetFormat::NQuads.media_type_of(), DatasetFormat::TriG.media_type_of()]
}

/// The dataset format at a place of `dataset_media_types`.
pub open spec fn dataset_format_at(i: int) -> DatasetFormat {
    if i == 0 {
        DatasetFormat::NQuads
    } else {
        DatasetFormat::TriG
    }
}

/// Selects the format in which a dataset goes back to the client.
pub fn dataset_content_negotiation(request: &Request) -> (r: Result<DatasetFormat, HttpError>)
    ensures
        match r {
            Ok(f) => negotiate_header(accept_of(request), dataset_media_types()) matches Ok(i)
                && f == dataset_format_at(i),
            Err(e) => negotiate_header(accept_of(request), dataset_media_types()) == Err::<
                int,
                Failure,
            >(e@),
        },
{
    let supported: Vec<&str> = vec![
        DatasetFormat::NQuads.media_type(),
        DatasetFormat::TriG.media_type(),
    ];
    assert(texts(supported@) =~= dataset_media_types());
    match content_negotiation(request, supported.as_slice()) {
        Err(e) => Err(e),
        Ok(i) => Ok(
            if i == 0 {
                DatasetFormat::NQuads
            } else {
                DatasetFormat::TriG
            },
        ),
    }
}

/// The media types in which query results can be written, best first.
pub open spec fn results_media_types() -> Seq<Seq<char>> {
    seq![
        QueryResultsFormat::Json.media_type_of(),
        QueryResultsFormat::Xml.media_type_of(),
        QueryResultsFormat::Csv.media_type_of(),
        QueryResultsFormat::Tsv.media_type_of(),
    ]
}

/// The results format at a place of `results_media_types`.
pub open spec fn results_format_at(i: int) -> QueryResultsFormat {
    if i == 0 {
        QueryResultsFormat::Json
    } else if i == 1 {
        QueryResultsFormat::Xml
    } else if i == 2 {
        QueryResultsFormat::Csv
    } else {
        QueryResultsFormat::Tsv
    }
}

/// Selects the format in which the results of a query go back to the client.
pub fn query_results_content_negotiation(request: &Request) -> (r: Result<
    QueryResultsFormat,
    HttpError,
>)
    ensures
        match r {
            Ok(f) => negotiate_header(accept_of(request), results_media_types()) matches Ok(i)
                && f == results_format_at(i),
            Err(e) => negotiate_header(accept_of(request), results_media_types()) == Err::<
                int,
                Failure,
            >(e@),
        },
{
    let supported: Vec<&str> = vec![
        QueryResultsFormat::Json.media_type(),
        QueryResultsFormat::Xml.media_type(),
        QueryResultsFormat::Csv.media_type(),
        QueryResultsFormat::Tsv.media_type(),
    ];
    assert(texts(supported@) =~= results_media_types());
    match content_negotiation(request, supported.as_slice()) {
        Err(e) => Err(e),
        Ok(i) => Ok(
            if i == 0 {
                QueryResultsFormat::Json
            } else if i == 1 {
                QueryResultsFormat::Xml
            } else if i == 2 {
                QueryResultsFormat::Csv
            } else {
                QueryResultsFormat::Tsv
            },
        ),
    }
}

} // verus!
