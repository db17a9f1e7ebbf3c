//! The parsers of the graph store: whether a text is a query, an update, or an IRI.

use crate::nesting::fits;
use oxigraph::sparql::{PreparedSparqlQuery, PreparedSparqlUpdate};
use vstd::prelude::*;

verus! {

/// A query that the graph store has parsed and can evaluate.
#[verifier::external_type_specification]
#[verifier::external_body]
pub struct ExPreparedSparqlQuery(PreparedSparqlQuery);

/// An update that the graph store has parsed and can evaluate.
#[verifier::external_type_specification]
#[verifier::external_body]
pub struct ExPreparedSparqlUpdate(PreparedSparqlUpdate);

/// What is wrong with a text as a query whose relative IRIs are resolved against
/// `base_iri`; nothing for a well-formed query.
pub uninterp spec fn query_syntax_error(text: Seq<char>, base_iri: Seq<char>) -> Option<Seq<char>>;

/// Whether a text is refused as an update whose relative IRIs are resolved against
/// `base_iri`.
pub uninterp spec fn update_is_refused(text: Seq<char>, base_iri: Seq<char>) -> bool;

/// What is wrong with a text as an absolute IRI; nothing for an IRI.
pub uninterp spec fn iri_error(iri: Seq<char>) -> Option<Seq<char>>;

/// Parses a query through `SparqlEvaluator::with_base_iri` and
/// `SparqlEvaluator::parse_query`. The parser has no state of its own: whether the text
/// is refused, be it for the base IRI or for its own syntax, and with which message,
/// depends on the two texts alone. The parser calls itself for each level of nesting,
/// folds each chain of terms, steps or parts into a nest as deep as the chain is long,
/// and has no limit of its own. So a text goes to it only where both are bounded; the
/// bounds are such that a thread with a stack of the usual size has room for them.
#[verifier::external_body]
pub(crate) fn parse_query(text: &str, base_iri: &str) -> (r: Result<PreparedSparqlQuery, String>)
    requires
        fits(text@),
    ensures
        match r {
            Ok(_) => query_syntax_error(text@, base_iri@) is None,
            Err(message) => query_syntax_error(text@, base_iri@) == Some(message@),
        },
{
    oxigraph::sparql::SparqlEvaluator::new()
        .with_base_iri(base_iri)
        .map_err(|e| e.to_string())
        .and_then(|evaluator| evaluator.parse_query(text).map_err(|e| e.to_string()))
}

/// Parses an update through `SparqlEvaluator::with_base_iri` and
/// `SparqlEvaluator::parse_update`. Whether the text is refused depends on the two texts
/// alone. The message of a refusal does not: where an update inserts the same blank
/// nodes twice, the parser names one of them as it comes out of a hashed set. So
/// nothing is said of the message. As to nesting and chains, see `parse_query`.
#[verifier::external_body]
pub(crate) fn parse_update(text: &str, base_iri: &str) -> (r: Result<PreparedSparqlUpdate, String>)
    requires
        fits(text@),
    ensures
        r is Err <==> update_is_refused(text@, base_iri@),
{
    oxigraph::sparql::SparqlEvaluator::new()
        .with_base_iri(base_iri)
        .map_err(|e| e.to_string())
        .and_then(|evaluator| evaluator.parse_update(text).map_err(|e| e.to_string()))
}

/// Checks an IRI through `NamedNode::new`, which builds a named node out of an absolute
/// IRI and refuses any other text. The message of the refusal depends on the text alone.
#[verifier::external_body]
pub(crate) fn check_iri(iri: &str) -> (error: Option<String>)
    ensures
        match error {
            Some(message) => iri_error(iri@) == Some(message@),
            None => iri_error(iri@) is None,
        },
{
    oxigraph::model::NamedNode::new(iri).err().map(|e| e.to_string())
}

/// The first fault among IRIs, in order; nothing where each is an IRI.
pub open spec fn first_iri_error(iris: Seq<Seq<char>>) -> Option<Seq<char>>
    decreases iris.len(),
{
    if iris.len() == 0 {
        None
    } else {
        match iri_error(iris[0]) {
            Some(message) => Some(message),
            None => first_iri_error(iris.drop_first()),
        }
    }
}

/// The first fault in two lists is the first fault in the first list, or else in the
/// second.
pub proof fn lemma_first_iri_error_concat(first: Seq<Seq<char>>, second: Seq<Seq<char>>)
    ensures
        first_iri_error(first + second) == match first_iri_error(first) {
            Some(message) => Some(message),
            None => first_iri_error(second),
        },
    decreases first.len(),
{
    if first.len() == 0 {
        assert(first + second == second);
    } else {
        assert((first + second)[0] == first[0]);
        assert((first + second).drop_first() == first.drop_first() + second);
        lemma_first_iri_error_concat(first.drop_first(), second);
    }
}

/// The views of a list of strings.
pub open spec fn iris_view(list: Seq<String>) -> Seq<Seq<char>> {
    Seq::new(list.len(), |i: int| list[i]@)
}

/// Checks each IRI in order, and gives the message of the first that is refused.
pub fn check_iris(iris: &Vec<String>) -> (error: Option<String>)
    ensures
        match error {
            Some(message) => first_iri_error(iris_view(iris@)) == Some(message@),
            None => first_iri_error(iris_view(iris@)) is None,
        },
{
    let mut k: usize = 0;
    assert(iris_view(iris@).skip(0) == iris_view(iris@));
    while k < iris.len()
        invariant
            k <= iris@.len(),
            first_iri_error(iris_view(iris@)) == first_iri_error(iris_view(iris@).skip(k as int)),
        decreases iris@.len() - k,
    {
        proof {
            let rest = iris_view(iris@).skip(k as int);
            assert(rest[0] == iris@[k as int]@);
            assert(rest.drop_first() == iris_view(iris@).skip(k + 1));
        }
        match check_iri(iris[k].as_str()) {
            Some(message) => {
                return Some(message);
            },
            None => {},
        }
        k = k + 1;
    }
    None
}

} // verus!
