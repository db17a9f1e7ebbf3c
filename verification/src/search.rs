//! Federated search: what a search request asks for, and the graph that is put together
//! from what the graph store knows of each hit.

use crate::format::{graph_content_negotiation, graph_format_at, graph_media_types, GraphFormat};
use crate::http::{
    appended, bad, bad_request, internal, internal_server_error, method_not_allowed,
    method_not_allowed_error, Failure, Headers, HttpError, Request, Response, ResponseView,
    Status,
};
use crate::negotiation::{accept_of, negotiate_header};
use crate::number::{decimal, parse_usize, parse_usize_chars, push_decimal, IntError};
use crate::params::{form_pairs, last_of, last_value, pairs_view, parse_form, Pair};
use crate::text::{append_str, chars_of, lowercase, str_eq, string_of};
use vstd::prelude::*;
use vstd::string::*;
use vstd::utf8::*;

verus! {

/// What a search request asks for, as plain values.
pub struct ParsedUrlView {
    pub limit: usize,
    pub offset: usize,
    pub query: Seq<char>,
}

/// A number given under `key`, `default` where the key is missing.
pub open spec fn number_of(pairs: Seq<Pair>, key: Seq<char>, default: usize) -> Result<
    usize,
    IntError,
> {
    match last_value(pairs, key) {
        Some(text) => parse_usize(text),
        None => Ok(default),
    }
}

/// Reads a search request out of the decoded pairs of a URL's query string: `limit`,
/// 10 where it is missing; `offset`, 0 where it is missing; and `query`, which must be
/// there. The first of these that fails gives the message.
pub open spec fn parsed_url(pairs: Seq<Pair>) -> Result<ParsedUrlView, Seq<char>> {
    match number_of(pairs, "limit"@, 10) {
        Err(e) => Err("error parsing limit: "@ + e.message()),
        Ok(limit) => match number_of(pairs, "offset"@, 0) {
            Err(e) => Err("error parsing offset: "@ + e.message()),
            Ok(offset) => match last_value(pairs, "query"@) {
                None => Err("missing query string"@),
                Some(query) => Ok(ParsedUrlView { limit, offset, query }),
            },
        },
    }
}

/// What a search request asks for.
#[derive(Debug)]
pub struct ParsedUrl {
    /// How many hits are wanted at most.
    pub limit: usize,
    /// How many of the best hits are passed over.
    pub offset: usize,
    /// The text to search for.
    pub query: String,
}

impl View for ParsedUrl {
    type V = ParsedUrlView;

    open spec fn view(&self) -> ParsedUrlView {
        ParsedUrlView { limit: self.limit, offset: self.offset, query: self.query@ }
    }
}

fn read_number(pairs: &Vec<(String, String)>, key: &str, default: usize) -> (r: Result<
    usize,
    IntError,
>)
    ensures
        r == number_of(pairs_view(pairs@), key@, default),
{
    match last_of(pairs, key) {
        None => Ok(default),
        Some(text) => {
            let chars = chars_of(text.as_str());
            parse_usize_chars(chars.as_slice())
        },
    }
}

fn number_error(prefix: &str, e: IntError) -> (message: String)
    ensures
        message@ == prefix@ + e.message(),
{
    let mut message = chars_of(prefix);
    append_str(&mut message, e.describe());
    string_of(message.as_slice())
}

impl ParsedUrl {
    /// Reads a search request out of decoded pairs.
    pub fn from_pairs(pairs: &Vec<(String, String)>) -> (r: Result<ParsedUrl, String>)
        ensures
            match r {
                Ok(p) => parsed_url(pairs_view(pairs@)) == Ok::<ParsedUrlView, Seq<char>>(p@),
                Err(m) => parsed_url(pairs_view(pairs@)) == Err::<ParsedUrlView, Seq<char>>(m@),
            },
    {
        let limit = match read_number(pairs, "limit", 10) {
            Err(e) => {
                return Err(number_error("error parsing limit: ", e));
            },
            Ok(limit) => limit,
        };
        let offset = match read_number(pairs, "offset", 0) {
            Err(e) => {
                return Err(number_error("error parsing offset: ", e));
            },
            Ok(offset) => offset,
        };
        match last_of(pairs, "query") {
            None => Err(String::from_str("missing query string")),
            Some(query) => Ok(ParsedUrl { limit, offset, query }),
        }
    }

    /// Reads a search request out of a URL's query string.
    pub fn parse(query: &str) -> (r: Result<ParsedUrl, String>)
        ensures
            match r {
                Ok(p) => parsed_url(form_pairs(encode_utf8(query@))) == Ok::<
                    ParsedUrlView,
                    Seq<char>,
                >(p@),
                Err(m) => parsed_url(form_pairs(encode_utf8(query@))) == Err::<
                    ParsedUrlView,
                    Seq<char>,
                >(m@),
            },
    {
        let pairs = parse_form(query.as_bytes());
        ParsedUrl::from_pairs(&pairs)
    }
}

/// A triple as plain values: subject, predicate and object, each as it is written in
/// N-Triples.
pub type TripleView = (Seq<char>, Seq<char>, Seq<char>);

/// A triple: subject, predicate and object, each as it is written in N-Triples.
#[derive(Debug)]
pub struct Triple {
    pub subject: String,
    pub predicate: String,
    pub object: String,
}

impl View for Triple {
    type V = TripleView;

    open spec fn view(&self) -> TripleView {
        (self.subject@, self.predicate@, self.object@)
    }
}

impl Triple {
    /// Whether two triples are the same.
    pub fn same(&self, other: &Triple) -> (b: bool)
        ensures
            b == (self@ == other@),
    {
        self.subject == other.subject && self.predicate == other.predicate && self.object
            == other.object
    }

    /// A copy of the triple.
    pub fn copy(&self) -> (t: Triple)
        ensures
            t@ == self@,
    {
        Triple {
            subject: self.subject.clone(),
            predicate: self.predicate.clone(),
            object: self.object.clone(),
        }
    }
}

/// The views of a list of triples.
pub open spec fn triples_view(list: Seq<Triple>) -> Seq<TripleView> {
    Seq::new(list.len(), |i: int| list[i]@)
}

/// The graph of one response: a set of triples, put together for one request and given
/// up when the response has gone out.
#[derive(Debug)]
pub struct ResponseGraph {
    triples: Vec<Triple>,
}

impl ResponseGraph {
    /// The triples of the graph.
    pub closed spec fn view(&self) -> Set<TripleView> {
        triples_view(self.triples@).to_set()
    }

    /// The graph holds each triple once.
    pub closed spec fn wf(&self) -> bool {
        triples_view(self.triples@).no_duplicates()
    }

    /// The number of triples that the graph holds.
    pub closed spec fn count(&self) -> nat {
        self.triples@.len()
    }

    /// A graph without triples.
    pub fn new() -> (g: ResponseGraph)
        ensures
            g.wf(),
            g@ == Set::<TripleView>::empty(),
            g.count() == 0,
    {
        let g = ResponseGraph { triples: Vec::new() };
        assert(triples_view(g.triples@).to_set() =~= Set::<TripleView>::empty());
        g
    }

    /// Whether the graph holds the triple.
    pub fn contains(&self, triple: &Triple) -> (found: bool)
        ensures
            found == self@.contains(triple@),
    {
        let mut i: usize = 0;
        while i < self.triples.len()
            invariant
                i <= self.triples@.len(),
                forall|j: int| 0 <= j < i ==> triples_view(self.triples@)[j] != triple@,
            decreases self.triples@.len() - i,
        {
            if self.triples[i].same(triple) {
                assert(triples_view(self.triples@)[i as int] == triple@);
                return true;
            }
            i = i + 1;
        }
        false
    }

    /// Puts a triple into the graph, and says whether it was new. A triple that the
    /// graph holds already leaves it as it is.
    pub fn insert(&mut self, triple: Triple) -> (fresh: bool)
        requires
            old(self).wf(),
        ensures
            final(self).wf(),
            final(self)@ == old(self)@.insert(triple@),
            fresh == !old(self)@.contains(triple@),
            final(self).count() == old(self).count() + if fresh {
                1nat
            } else {
                0nat
            },
    {
        if self.contains(&triple) {
            assert(self@.insert(triple@) =~= self@);
            false
        } else {
            let ghost before = triples_view(self.triples@);
            self.triples.push(triple);
            proof {
                let after = triples_view(self.triples@);
                assert(after == before.push(triple@));
                assert forall|a: TripleView| after.contains(a) <==> (before.contains(a) || a
                    == triple@) by {
                    if after.contains(a) {
                        let j = choose|j: int| 0 <= j < after.len() && after[j] == a;
                        if j < before.len() {
                            assert(before[j] == a);
                        }
                    }
                    if before.contains(a) {
                        let j = choose|j: int| 0 <= j < before.len() && before[j] == a;
                        assert(after[j] == a);
                    }
                    if a == triple@ {
                        assert(after[before.len() as int] == a);
                    }
                }
                assert(after.to_set() =~= before.to_set().insert(triple@));
                assert forall|i: int, j: int|
                    0 <= i < after.len() && 0 <= j < after.len() && i != j implies after[i]
                    != after[j] by {
                    if i < before.len() && j < before.len() {
                        assert(before[i] != before[j]);
                    } else if i < before.len() {
                        assert(before.contains(before[i]));
                    } else if j < before.len() {
                        assert(before.contains(before[j]));
                    }
                }
            }
            true
        }
    }

    /// Puts all of `triples` into the graph.
    pub fn merge(&mut self, triples: &Vec<Triple>)
        requires
            old(self).wf(),
        ensures
            final(self).wf(),
            final(self)@ == old(self)@.union(triples_view(triples@).to_set()),
    {
        let mut k: usize = 0;
        assert(triples_view(triples@).take(0).to_set() =~= Set::<TripleView>::empty());
        assert(self@.union(Set::<TripleView>::empty()) =~= self@);
        while k < triples.len()
            invariant
                k <= triples@.len(),
                self.wf(),
                self@ == old(self)@.union(triples_view(triples@).take(k as int).to_set()),
            decreases triples@.len() - k,
        {
            let ghost seen = triples_view(triples@).take(k as int);
            let ghost next = triples_view(triples@).take(k + 1);
            proof {
                assert(next == seen.push(triples@[k as int]@));
                assert forall|a: TripleView| next.contains(a) <==> (seen.contains(a) || a
                    == triples@[k as int]@) by {
                    if next.contains(a) {
                        let j = choose|j: int| 0 <= j < next.len() && next[j] == a;
                        if j < k {
                            assert(seen[j] == a);
                        }
                    }
                    if seen.contains(a) {
                        let j = choose|j: int| 0 <= j < seen.len() && seen[j] == a;
                        assert(next[j] == a);
                    }
                    if a == triples@[k as int]@ {
                        assert(next[k as int] == a);
                    }
                }
                assert(next.to_set() =~= seen.to_set().insert(triples@[k as int]@));
            }
            let ghost before = self@;
            self.insert(triples[k].copy());
            proof {
                assert(self@ =~= old(self)@.union(next.to_set()));
            }
            k = k + 1;
        }
        assert(triples_view(triples@).take(triples@.len() as int) == triples_view(triples@));
    }

    /// The number of triples that the graph holds.
    pub fn len(&self) -> (n: usize)
        ensures
            n == self.count(),
    {
        self.triples.len()
    }

    /// The triples of the graph, each one once.
    pub fn triples(&self) -> (list: &Vec<Triple>)
        requires
            self.wf(),
        ensures
            triples_view(list@).to_set() == self@,
            triples_view(list@).no_duplicates(),
            list@.len() == self.count(),
    {
        &self.triples
    }
}

/// How far a search has come.
#[derive(Clone, Copy, Debug, PartialEq, Eq, Structural)]
pub enum SearchStage {
    /// The text index parses the text to search for.
    ParsingQuery,
    /// The text index counts its documents.
    CountingDocuments,
    /// The text index counts the matches.
    CountingMatches,
    /// The text index finds the best hits.
    FindingHits,
    /// The text index loads the document of a hit.
    LoadingHit,
    /// The graph store runs the retrieval query for a hit.
    Retrieving,
    /// The response is decided.
    Finished,
}

/// A search at one moment, as plain values.
pub struct SearchView {
    pub stage: SearchStage,
    pub request: ParsedUrlView,
    /// The retrieval query, without the name of a hit.
    pub template: Seq<char>,
    /// How many documents match.
    pub count: usize,
    /// How many hits were found.
    pub hits: usize,
    /// The place of the hit that is worked on.
    pub next: usize,
    /// The retrieval query that is running.
    pub current: Seq<char>,
    /// The graph of the response, as far as it is put together.
    pub graph: Set<TripleView>,
}

/// A search: its request, how far it has come, and the graph of the response.
#[derive(Debug)]
pub struct Search {
    stage: SearchStage,
    parsed: ParsedUrl,
    template: String,
    count: usize,
    hits: usize,
    next: usize,
    current: String,
    graph: ResponseGraph,
}

/// What the text index and the graph store report, as plain values.
pub enum SearchEventView {
    QueryParsed,
    QueryRejected(Seq<char>),
    DocumentCount(u64),
    MatchCount(usize),
    SearchFailed(Seq<char>),
    Hits(usize),
    FieldMissing(Seq<char>),
    HitIri(Option<Seq<char>>),
    DocumentFailed(Seq<char>),
    Retrieved(Seq<TripleView>),
    NotAGraph,
    RetrievalFailed(Seq<char>),
}

/// What the text index and the graph store report.
#[derive(Debug)]
pub enum SearchEvent {
    /// The text to search for is a well-formed query.
    QueryParsed,
    /// The text to search for is not well formed; the message says why.
    QueryRejected(String),
    /// The number of documents in the index.
    DocumentCount(u64),
    /// The number of documents that match.
    MatchCount(usize),
    /// Counting or finding failed; the message says why.
    SearchFailed(String),
    /// The number of hits found.
    Hits(usize),
    /// The index has no field for the names; the message says why.
    FieldMissing(String),
    /// The name stored with the hit, where there is one.
    HitIri(Option<String>),
    /// The document of the hit could not be loaded; the message says why.
    DocumentFailed(String),
    /// The triples that the retrieval query gave for the hit.
    Retrieved(Vec<Triple>),
    /// The retrieval query gave something else than a graph.
    NotAGraph,
    /// The retrieval query failed; the message says why.
    RetrievalFailed(String),
}

impl View for SearchEvent {
    type V = SearchEventView;

    open spec fn view(&self) -> SearchEventView {
        match self {
            SearchEvent::QueryParsed => SearchEventView::QueryParsed,
            SearchEvent::QueryRejected(m) => SearchEventView::QueryRejected(m@),
            SearchEvent::DocumentCount(n) => SearchEventView::DocumentCount(*n),
            SearchEvent::MatchCount(n) => SearchEventView::MatchCount(*n),
            SearchEvent::SearchFailed(m) => SearchEventView::SearchFailed(m@),
            SearchEvent::Hits(n) => SearchEventView::Hits(*n),
            SearchEvent::FieldMissing(m) => SearchEventView::FieldMissing(m@),
            SearchEvent::HitIri(iri) => SearchEventView::HitIri(
                match iri {
                    Some(i) => Some(i@),
                    None => None,
                },
            ),
            SearchEvent::DocumentFailed(m) => SearchEventView::DocumentFailed(m@),
            SearchEvent::Retrieved(triples) => SearchEventView::Retrieved(triples_view(triples@)),
            SearchEvent::NotAGraph => SearchEventView::NotAGraph,
            SearchEvent::RetrievalFailed(m) => SearchEventView::RetrievalFailed(m@),
        }
    }
}

/// What is to be done next in a search, as plain values.
pub enum SearchActionView {
    ParseQuery(Seq<char>),
    CountDocuments,
    CountMatches,
    FindHits { limit: usize, offset: usize },
    LoadHit(usize),
    Retrieve(Seq<char>),
    Respond(ResponseView),
    Stream { format: GraphFormat, total_count: usize },
    Fail(Failure),
}

/// What is to be done next in a search.
#[derive(Debug)]
pub enum SearchAction {
    /// Have the text index parse the text to search for.
    ParseQuery(String),
    /// Have the text index count its documents.
    CountDocuments,
    /// Have the text index count the documents that match.
    CountMatches,
    /// Have the text index find the best `limit` hits behind the first `offset`.
    FindHits { limit: usize, offset: usize },
    /// Have the text index load the name stored with the hit at the place.
    LoadHit(usize),
    /// Have the graph store run the query.
    Retrieve(String),
    /// Answer with the response.
    Respond(Response),
    /// Stream the graph of the search in the format, and tell the number of matches.
    Stream { format: GraphFormat, total_count: usize },
    /// Answer with the failure.
    Fail(HttpError),
}

impl View for SearchAction {
    type V = SearchActionView;

    open spec fn view(&self) -> SearchActionView {
        match self {
            SearchAction::ParseQuery(q) => SearchActionView::ParseQuery(q@),
            SearchAction::CountDocuments => SearchActionView::CountDocuments,
            SearchAction::CountMatches => SearchActionView::CountMatches,
            SearchAction::FindHits { limit, offset } => SearchActionView::FindHits {
                limit: *limit,
                offset: *offset,
            },
            SearchAction::LoadHit(i) => SearchActionView::LoadHit(*i),
            SearchAction::Retrieve(q) => SearchActionView::Retrieve(q@),
            SearchAction::Respond(r) => SearchActionView::Respond(r@),
            SearchAction::Stream { format, total_count } => SearchActionView::Stream {
                format: *format,
                total_count: *total_count,
            },
            SearchAction::Fail(e) => SearchActionView::Fail(e@),
        }
    }
}

/// The name of the header that tells how many documents match.
pub open spec fn total_count_name() -> Seq<char> {
    lowercase("X-Total-Count"@)
}

/// The value of the header that tells how many documents match.
pub open spec fn total_count_value(count: usize) -> Seq<u8> {
    encode_utf8(decimal(count as nat))
}

/// The answer to a search that asks for no hits: no content, and the number of matches.
pub open spec fn count_only(count: usize) -> ResponseView {
    ResponseView {
        status: Status::NoContent,
        headers: seq![(total_count_name(), total_count_value(count))],
        body: Seq::empty(),
    }
}

/// The retrieval query for one hit: the template, with the name of the hit bound to
/// `?iri`.
pub open spec fn retrieval_query_of(template: Seq<char>, iri: Seq<char>) -> Seq<char> {
    template + "\nVALUES ?iri { "@ + iri + " }"@
}

/// The message for a failure of the text index while it counts or finds.
pub open spec fn search_error(query: Seq<char>, error: Seq<char>) -> Seq<char> {
    "error searching index:\nQuery: "@ + query + "\nError: "@ + error
}

/// The message for a failure of the retrieval query.
pub open spec fn retrieval_error(query: Seq<char>, error: Seq<char>) -> Seq<char> {
    "error executing index result query:\nQuery:\n"@ + query + "\nError:\n"@ + error
}

/// The failure for a report that does not belong to the stage.
pub open spec fn search_out_of_turn() -> Failure {
    internal("The search backends answered out of turn"@)
}

/// The search ends with a failure.
pub open spec fn failed(s: SearchView, failure: Failure) -> (SearchView, SearchActionView) {
    (SearchView { stage: SearchStage::Finished, ..s }, SearchActionView::Fail(failure))
}

/// Goes on with the hit at `s.next`; behind the last hit the format of the response is
/// negotiated, and the graph goes out with the number of matches.
pub open spec fn onward(s: SearchView, accept: Option<Seq<u8>>) -> (SearchView, SearchActionView) {
    if s.next < s.hits {
        (SearchView { stage: SearchStage::LoadingHit, ..s }, SearchActionView::LoadHit(s.next))
    } else {
        match negotiate_header(accept, graph_media_types()) {
            Err(e) => failed(s, e),
            Ok(i) => (
                SearchView { stage: SearchStage::Finished, ..s },
                SearchActionView::Stream { format: graph_format_at(i), total_count: s.count },
            ),
        }
    }
}

/// The number of hits that are worked on: no more than were asked for, however many the
/// text index reports.
pub open spec fn bounded(found: usize, limit: usize) -> usize {
    if found <= limit {
        found
    } else {
        limit
    }
}

/// What follows a report at a stage of a search.
///
/// The text is parsed first, and a text that does not parse is the client's fault. An
/// index without documents is an internal error. The matches are counted whatever the
/// limit; with a limit of 0 the count is the whole answer. Else the best hits are found,
/// and for each hit in turn the name stored with it is loaded and the retrieval query
/// is run for that name; a hit without a stored name is passed over. What the retrieval
/// query gives is merged into the graph of the response. Behind the last hit the graph
/// goes out in the negotiated format, with the number of matches.
pub open spec fn search_step(s: SearchView, event: SearchEventView, accept: Option<Seq<u8>>) -> (
    SearchView,
    SearchActionView,
) {
    match (s.stage, event) {
        (SearchStage::ParsingQuery, SearchEventView::QueryParsed) => (
            SearchView { stage: SearchStage::CountingDocuments, ..s },
            SearchActionView::CountDocuments,
        ),
        (SearchStage::ParsingQuery, SearchEventView::QueryRejected(m)) => failed(s, bad(m)),
        (SearchStage::CountingDocuments, SearchEventView::DocumentCount(n)) => if n == 0 {
            failed(s, internal("index is empty"@))
        } else {
            (
                SearchView { stage: SearchStage::CountingMatches, ..s },
                SearchActionView::CountMatches,
            )
        },
        (SearchStage::CountingMatches, SearchEventView::MatchCount(c)) => if s.request.limit == 0 {
            (
                SearchView { stage: SearchStage::Finished, count: c, ..s },
                SearchActionView::Respond(count_only(c)),
            )
        } else {
            (
                SearchView { stage: SearchStage::FindingHits, count: c, ..s },
                SearchActionView::FindHits { limit: s.request.limit, offset: s.request.offset },
            )
        },
        (SearchStage::CountingMatches, SearchEventView::SearchFailed(m)) => failed(
            s,
            internal(search_error(s.request.query, m)),
        ),
        (SearchStage::FindingHits, SearchEventView::SearchFailed(m)) => failed(
            s,
            internal(search_error(s.request.query, m)),
        ),
        (SearchStage::FindingHits, SearchEventView::FieldMissing(m)) => failed(
            s,
            internal("error getting IRI field from index: "@ + m),
        ),
        (SearchStage::FindingHits, SearchEventView::Hits(n)) => onward(
            SearchView { hits: bounded(n, s.request.limit), next: 0, ..s },
            accept,
        ),
        (SearchStage::LoadingHit, SearchEventView::HitIri(Some(iri))) => (
            SearchView {
                stage: SearchStage::Retrieving,
                current: retrieval_query_of(s.template, iri),
                ..s
            },
            SearchActionView::Retrieve(retrieval_query_of(s.template, iri)),
        ),
        (SearchStage::LoadingHit, SearchEventView::HitIri(None)) => onward(
            SearchView { next: (s.next + 1) as usize, ..s },
            accept,
        ),
        (SearchStage::LoadingHit, SearchEventView::DocumentFailed(m)) => failed(s, internal(m)),
        (SearchStage::Retrieving, SearchEventView::Retrieved(triples)) => onward(
            SearchView { next: (s.next + 1) as usize, graph: s.graph.union(triples.to_set()), ..s },
            accept,
        ),
        (SearchStage::Retrieving, SearchEventView::NotAGraph) => failed(
            s,
            internal("index result query did not return a graph (is it a CONSTRUCT query?)"@),
        ),
        (SearchStage::Retrieving, SearchEventView::RetrievalFailed(m)) => failed(
            s,
            internal(retrieval_error(s.current, m)),
        ),
        _ => failed(s, search_out_of_turn()),
    }
}

/// The search that a request starts, with its first action: the text to search for goes
/// to the text index. Searching takes `GET` alone.
pub open spec fn search_request(template: Seq<char>, request: &Request) -> Result<
    (SearchView, SearchActionView),
    Failure,
> {
    if request.method@ != "GET"@ {
        Err(method_not_allowed(request.method@))
    } else {
        match parsed_url(form_pairs(encode_utf8(request.query@))) {
            Err(m) => Err(bad(m)),
            Ok(p) => Ok(
                (
                    SearchView {
                        stage: SearchStage::ParsingQuery,
                        request: p,
                        template,
                        count: 0,
                        hits: 0,
                        next: 0,
                        current: Seq::empty(),
                        graph: Set::empty(),
                    },
                    SearchActionView::ParseQuery(p.query),
                ),
            ),
        }
    }
}

/// The value of the header that tells how many documents match.
pub fn total_count_header(count: usize) -> (value: String)
    ensures
        encode_utf8(value@) == total_count_value(count),
        value@ == decimal(count as nat),
{
    let mut digits: Vec<char> = Vec::new();
    push_decimal(count, &mut digits);
    assert(Seq::<char>::empty() + decimal(count as nat) == decimal(count as nat));
    string_of(digits.as_slice())
}

/// Adds the header that tells how many documents match.
pub fn append_total_count(headers: &mut Headers, count: usize)
    ensures
        final(headers)@ == appended(old(headers)@, total_count_name(), total_count_value(count)),
{
    let value = total_count_header(count);
    headers.append("X-Total-Count", value.as_str().as_bytes());
}

/// The retrieval query for one hit.
pub fn retrieval_query(template: &str, iri: &str) -> (query: String)
    ensures
        query@ == retrieval_query_of(template@, iri@),
{
    let mut query = String::from_str(template);
    query.append("\nVALUES ?iri { ");
    query.append(iri);
    query.append(" }");
    query
}

impl Search {
    pub closed spec fn view(&self) -> SearchView {
        SearchView {
            stage: self.stage,
            request: self.parsed@,
            template: self.template@,
            count: self.count,
            hits: self.hits,
            next: self.next,
            current: self.current@,
            graph: self.graph@,
        }
    }

    /// The search is sound: its graph holds each triple once, and while a hit is worked
    /// on, its place is one of the hits.
    pub closed spec fn wf(&self) -> bool {
        &&& self.graph.wf()
        &&& (self.stage == SearchStage::LoadingHit || self.stage == SearchStage::Retrieving)
            ==> self.next < self.hits
    }

    /// How far the search has come.
    pub fn stage(&self) -> (stage: SearchStage)
        ensures
            stage == self@.stage,
    {
        self.stage
    }

    /// The graph of the response, as far as it is put together.
    pub fn graph(&self) -> (graph: &ResponseGraph)
        requires
            self.wf(),
        ensures
            graph@ == self@.graph,
            graph.wf(),
    {
        &self.graph
    }

    fn finish(self, failure: HttpError) -> (next: (Search, SearchAction))
        requires
            self.wf(),
        ensures
            next.0.wf(),
            (next.0@, next.1@) == failed(self@, failure@),
    {
        let Search { stage, parsed, template, count, hits, next, current, graph } = self;
        (
            Search { stage: SearchStage::Finished, parsed, template, count, hits, next, current, graph },
            SearchAction::Fail(failure),
        )
    }

    fn go_on(self, request: &Request) -> (next: (Search, SearchAction))
        requires
            self.graph.wf(),
        ensures
            next.0.wf(),
            (next.0@, next.1@) == onward(self@, accept_of(request)),
    {
        let Search { stage, parsed, template, count, hits, next, current, graph } = self;
        if next < hits {
            (
                Search {
                    stage: SearchStage::LoadingHit,
                    parsed,
                    template,
                    count,
                    hits,
                    next,
                    current,
                    graph,
                },
                SearchAction::LoadHit(next),
            )
        } else {
            let finished = Search {
                stage: SearchStage::Finished,
                parsed,
                template,
                count,
                hits,
                next,
                current,
                graph,
            };
            match graph_content_negotiation(request) {
                Err(e) => (finished, SearchAction::Fail(e)),
                Ok(format) => (finished, SearchAction::Stream { format, total_count: count }),
            }
        }
    }

    /// Decides what follows a report of the text index or the graph store.
    pub fn advance(self, event: SearchEvent, request: &Request) -> (next: (Search, SearchAction))
        requires
            self.wf(),
        ensures
            next.0.wf(),
            (next.0@, next.1@) == search_step(self@, event@, accept_of(request)),
    {
        match self.stage {
            SearchStage::ParsingQuery => match event {
                SearchEvent::QueryParsed => {
                    let Search { stage, parsed, template, count, hits, next, current, graph } =
                        self;
                    (
                        Search {
                            stage: SearchStage::CountingDocuments,
                            parsed,
                            template,
                            count,
                            hits,
                            next,
                            current,
                            graph,
                        },
                        SearchAction::CountDocuments,
                    )
                },
                SearchEvent::QueryRejected(m) => self.finish(bad_request(m)),
                _ => self.finish(out_of_turn_error()),
            },
            SearchStage::CountingDocuments => match event {
                SearchEvent::DocumentCount(n) => {
                    if n == 0 {
                        self.finish(internal_server_error(String::from_str("index is empty")))
                    } else {
                        let Search { stage, parsed, template, count, hits, next, current, graph } =
                            self;
                        (
                            Search {
                                stage: SearchStage::CountingMatches,
                                parsed,
                                template,
                                count,
                                hits,
                                next,
                                current,
                                graph,
                            },
                            SearchAction::CountMatches,
                        )
                    }
                },
                _ => self.finish(out_of_turn_error()),
            },
            SearchStage::CountingMatches => match event {
                SearchEvent::MatchCount(c) => {
                    let Search { stage, parsed, template, count, hits, next, current, graph } =
                        self;
                    if parsed.limit == 0 {
                        let mut headers = Headers::new();
                        append_total_count(&mut headers, c);
                        let response = Response {
                            status: Status::NoContent,
                            headers,
                            body: Vec::new(),
                        };
                        assert(response@.headers =~= count_only(c).headers);
                        (
                            Search {
                                stage: SearchStage::Finished,
                                parsed,
                                template,
                                count: c,
                                hits,
                                next,
                                current,
                                graph,
                            },
                            SearchAction::Respond(response),
                        )
                    } else {
                        let limit = parsed.limit;
                        let offset = parsed.offset;
                        (
                            Search {
                                stage: SearchStage::FindingHits,
                                parsed,
                                template,
                                count: c,
                                hits,
                                next,
                                current,
                                graph,
                            },
                            SearchAction::FindHits { limit, offset },
                        )
                    }
                },
                SearchEvent::SearchFailed(m) => {
                    let message = search_failure(self.parsed.query.as_str(), m.as_str());
                    self.finish(internal_server_error(message))
                },
                _ => self.finish(out_of_turn_error()),
            },
            SearchStage::FindingHits => match event {
                SearchEvent::SearchFailed(m) => {
                    let message = search_failure(self.parsed.query.as_str(), m.as_str());
                    self.finish(internal_server_error(message))
                },
                SearchEvent::FieldMissing(m) => {
                    let mut message = String::from_str("error getting IRI field from index: ");
                    message.append(m.as_str());
                    self.finish(internal_server_error(message))
                },
                SearchEvent::Hits(n) => {
                    let Search { stage, parsed, template, count, hits, next, current, graph } =
                        self;
                    let within = if n <= parsed.limit {
                        n
                    } else {
                        parsed.limit
                    };
                    let found = Search {
                        stage,
                        parsed,
                        template,
                        count,
                        hits: within,
                        next: 0,
                        current,
                        graph,
                    };
                    found.go_on(request)
                },
                _ => self.finish(out_of_turn_error()),
            },
            SearchStage::LoadingHit => match event {
                SearchEvent::HitIri(Some(iri)) => {
                    let Search { stage, parsed, template, count, hits, next, current, graph } =
                        self;
                    let query = retrieval_query(template.as_str(), iri.as_str());
                    let running = query.clone();
                    (
                        Search {
                            stage: SearchStage::Retrieving,
                            parsed,
                            template,
                            count,
                            hits,
                            next,
                            current: running,
                            graph,
                        },
                        SearchAction::Retrieve(query),
                    )
                },
                SearchEvent::HitIri(None) => {
                    let Search { stage, parsed, template, count, hits, next, current, graph } =
                        self;
                    let skipped = Search {
                        stage,
                        parsed,
                        template,
                        count,
                        hits,
                        next: next + 1,
                        current,
                        graph,
                    };
                    skipped.go_on(request)
                },
                SearchEvent::DocumentFailed(m) => self.finish(internal_server_error(m)),
                _ => self.finish(out_of_turn_error()),
            },
            SearchStage::Retrieving => match event {
                SearchEvent::Retrieved(triples) => {
                    let Search { stage, parsed, template, count, hits, next, current, graph } =
                        self;
                    let mut graph = graph;
                    graph.merge(&triples);
                    let merged = Search {
                        stage,
                        parsed,
                        template,
                        count,
                        hits,
                        next: next + 1,
                        current,
                        graph,
                    };
                    merged.go_on(request)
                },
                SearchEvent::NotAGraph => self.finish(
                    internal_server_error(
                        String::from_str(
                            "index result query did not return a graph (is it a CONSTRUCT query?)",
                        ),
                    ),
                ),
                SearchEvent::RetrievalFailed(m) => {
                    let mut message = String::from_str(
                        "error executing index result query:\nQuery:\n",
                    );
                    message.append(self.current.as_str());
                    message.append("\nError:\n");
                    message.append(m.as_str());
                    self.finish(internal_server_error(message))
                },
                _ => self.finish(out_of_turn_error()),
            },
            SearchStage::Finished => self.finish(out_of_turn_error()),
        }
    }
}

fn out_of_turn_error() -> (e: HttpError)
    ensures
        e@ == search_out_of_turn(),
{
    internal_server_error(String::from_str("The search backends answered out of turn"))
}

fn search_failure(query: &str, error: &str) -> (message: String)
    ensures
        message@ == search_error(query@, error@),
{
    let mut message = String::from_str("error searching index:\nQuery: ");
    message.append(query);
    message.append("\nError: ");
    message.append(error);
    message
}

/// Starts a search for a request. `index_result_sparql` is the retrieval query that is
/// run for each hit.
pub fn handle_request(index_result_sparql: String, request: &Request) -> (r: Result<
    (Search, SearchAction),
    HttpError,
>)
    ensures
        match r {
            Ok(started) => started.0.wf() && search_request(index_result_sparql@, request) == Ok::<
                (SearchView, SearchActionView),
                Failure,
            >((started.0@, started.1@)),
            Err(e) => search_request(index_result_sparql@, request) == Err::<
                (SearchView, SearchActionView),
                Failure,
            >(e@),
        },
{
    if !str_eq(request.method.as_str(), "GET") {
        return Err(method_not_allowed_error(request.method.as_str()));
    }
    match ParsedUrl::parse(request.query.as_str()) {
        Err(m) => Err(bad_request(m)),
        Ok(parsed) => {
            let query = parsed.query.clone();
            let search = Search {
                stage: SearchStage::ParsingQuery,
                parsed,
                template: index_result_sparql,
                count: 0,
                hits: 0,
                next: 0,
                current: String::new(),
                graph: ResponseGraph::new(),
            };
            Ok((search, SearchAction::ParseQuery(query)))
        },
    }
}

/// A search that asks for no hits ends when the matches are counted: the answer tells
/// their number and has no body, and no retrieval follows, whatever is reported then.
pub proof fn lemma_count_only_probe(
    s: SearchView,
    count: usize,
    later: SearchEventView,
    accept: Option<Seq<u8>>,
)
    requires
        s.stage == SearchStage::CountingMatches,
        s.request.limit == 0,
    ensures
        search_step(s, SearchEventView::MatchCount(count), accept).1 == SearchActionView::Respond(
            count_only(count),
        ),
        count_only(count).status == Status::NoContent,
        count_only(count).body.len() == 0,
        search_step(s, SearchEventView::MatchCount(count), accept).0.stage
            == SearchStage::Finished,
        search_step(search_step(s, SearchEventView::MatchCount(count), accept).0, later, accept).1
            is Fail,
{
}

/// A search on an index without documents fails; it never answers with an empty result.
pub proof fn lemma_empty_index_fails(s: SearchView, accept: Option<Seq<u8>>)
    requires
        s.stage == SearchStage::CountingDocuments,
    ensures
        search_step(s, SearchEventView::DocumentCount(0), accept).1 == SearchActionView::Fail(
            internal("index is empty"@),
        ),
        search_step(s, SearchEventView::DocumentCount(0), accept).0.stage == SearchStage::Finished,
{
}

/// No more hits are worked on than the request asks for.
pub proof fn lemma_hits_are_bounded(s: SearchView, found: usize, accept: Option<Seq<u8>>)
    requires
        s.stage == SearchStage::FindingHits,
    ensures
        search_step(s, SearchEventView::Hits(found), accept).0.hits <= s.request.limit,
        search_step(s, SearchEventView::Hits(found), accept).1 matches SearchActionView::LoadHit(
            place,
        ) ==> place < s.request.limit,
{
}

/// Nothing follows the end of a search: any further report is answered with a failure.
pub proof fn lemma_finished_stays_finished(
    s: SearchView,
    event: SearchEventView,
    accept: Option<Seq<u8>>,
)
    requires
        s.stage == SearchStage::Finished,
    ensures
        search_step(s, event, accept).0.stage == SearchStage::Finished,
        search_step(s, event, accept).1 is Fail,
{
}

/// What the retrieval query gives for a hit is in the graph of the response from then
/// on, with all that was there before.
pub proof fn lemma_retrieved_triples_are_merged(
    s: SearchView,
    triples: Seq<TripleView>,
    accept: Option<Seq<u8>>,
)
    requires
        s.stage == SearchStage::Retrieving,
    ensures
        s.graph.subset_of(search_step(s, SearchEventView::Retrieved(triples), accept).0.graph),
        forall|i: int|
            0 <= i < triples.len() ==> search_step(
                s,
                SearchEventView::Retrieved(triples),
                accept,
            ).0.graph.contains(#[trigger] triples[i]),
{
    let merged = SearchView {
        next: (s.next + 1) as usize,
        graph: s.graph.union(triples.to_set()),
        ..s
    };
    assert(search_step(s, SearchEventView::Retrieved(triples), accept) == onward(merged, accept));
    assert forall|i: int| 0 <= i < triples.len() implies merged.graph.contains(
        #[trigger] triples[i],
    ) by {
        assert(triples.to_set().contains(triples[i]));
    }
}

} // verus!
