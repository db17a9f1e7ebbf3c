//! Protocol parameters: reading `query`, `update` and the graph parameters out of a
//! URL's query string and a form body.

use crate::http::{bad, bad_request, Failure, HttpError};
use vstd::prelude::*;
use vstd::string::*;

verus! {

/// A decoded pair of name and value.
pub type Pair = (Seq<char>, Seq<char>);

/// The pairs that a text in `application/x-www-form-urlencoded` syntax holds, names and
/// values decoded.
pub uninterp spec fn form_pairs(input: Seq<u8>) -> Seq<Pair>;

/// The views of decoded pairs.
pub open spec fn pairs_view(pairs: Seq<(String, String)>) -> Seq<Pair> {
    Seq::new(pairs.len(), |i: int| (pairs[i].0@, pairs[i].1@))
}

/// Decodes a form-encoded text through `url::form_urlencoded::parse`. What comes out
/// depends on the bytes alone.
#[verifier::external_body]
pub(crate) fn parse_form(input: &[u8]) -> (pairs: Vec<(String, String)>)
    ensures
        pairs_view(pairs@) == form_pairs(input@),
{
    url::form_urlencoded::parse(input).into_owned().collect()
}

/// The pairs of several encoded sources, one source after the other.
pub open spec fn decode_sources(sources: Seq<Seq<u8>>) -> Seq<Pair>
    decreases sources.len(),
{
    if sources.len() == 0 {
        Seq::empty()
    } else {
        decode_sources(sources.drop_last()) + form_pairs(sources.last())
    }
}

/// The views of a list of byte slices.
pub open spec fn sources_view(sources: Seq<&[u8]>) -> Seq<Seq<u8>> {
    Seq::new(sources.len(), |i: int| sources[i]@)
}

/// Decodes each source and puts the pairs in one list, in the order of the sources.
pub fn decode_all(sources: &[&[u8]]) -> (pairs: Vec<(String, String)>)
    ensures
        pairs_view(pairs@) == decode_sources(sources_view(sources@)),
{
    let mut pairs: Vec<(String, String)> = Vec::new();
    let mut k: usize = 0;
    assert(sources_view(sources@).take(0) == Seq::<Seq<u8>>::empty());
    assert(pairs_view(pairs@) == Seq::<Pair>::empty());
    while k < sources.len()
        invariant
            k <= sources@.len(),
            pairs_view(pairs@) == decode_sources(sources_view(sources@).take(k as int)),
        decreases sources@.len() - k,
    {
        let mut more = parse_form(sources[k]);
        proof {
            let next = sources_view(sources@).take(k + 1);
            assert(next.drop_last() == sources_view(sources@).take(k as int));
            assert(next.last() == sources@[k as int]@);
            assert(pairs_view(pairs@ + more@) == pairs_view(pairs@) + pairs_view(more@));
        }
        pairs.append(&mut more);
        k = k + 1;
    }
    assert(sources_view(sources@).take(sources@.len() as int) == sources_view(sources@));
    pairs
}

/// The values that `pairs` holds under `key`, in order.
pub open spec fn values_of(pairs: Seq<Pair>, key: Seq<char>) -> Seq<Seq<char>>
    decreases pairs.len(),
{
    if pairs.len() == 0 {
        Seq::empty()
    } else if pairs.last().0 == key {
        values_of(pairs.drop_last(), key).push(pairs.last().1)
    } else {
        values_of(pairs.drop_last(), key)
    }
}

/// The value that counts for a key that may be given several times: the last one.
pub open spec fn last_value(pairs: Seq<Pair>, key: Seq<char>) -> Option<Seq<char>> {
    if values_of(pairs, key).len() > 0 {
        Some(values_of(pairs, key).last())
    } else {
        None
    }
}

/// The last value that `pairs` holds under `key`.
pub fn last_of(pairs: &Vec<(String, String)>, key: &str) -> (value: Option<String>)
    ensures
        match value {
            Some(v) => last_value(pairs_view(pairs@), key@) == Some(v@),
            None => last_value(pairs_view(pairs@), key@) is None,
        },
{
    let wanted = String::from_str(key);
    let ghost all = pairs_view(pairs@);
    let mut found: Option<String> = None;
    let mut k: usize = 0;
    assert(all.take(0) == Seq::<Pair>::empty());
    while k < pairs.len()
        invariant
            k <= pairs@.len(),
            all == pairs_view(pairs@),
            wanted@ == key@,
            match found {
                Some(v) => last_value(all.take(k as int), key@) == Some(v@),
                None => last_value(all.take(k as int), key@) is None,
            },
        decreases pairs@.len() - k,
    {
        proof {
            let next = all.take(k + 1);
            assert(next.drop_last() == all.take(k as int));
            assert(next.last() == all[k as int]);
            assert(all[k as int] == (pairs@[k as int].0@, pairs@[k as int].1@));
        }
        if pairs[k].0 == wanted {
            found = Some(pairs[k].1.clone());
        }
        k = k + 1;
    }
    assert(all.take(pairs@.len() as int) == all);
    found
}

/// Whether `pairs` holds `key`, whatever its value.
pub fn has_key(pairs: &Vec<(String, String)>, key: &str) -> (found: bool)
    ensures
        found == (values_of(pairs_view(pairs@), key@).len() > 0),
{
    last_of(pairs, key).is_some()
}

/// The values under a key in two lists, one after the other, are the values in the
/// first followed by the values in the second.
pub proof fn lemma_values_of_concat(first: Seq<Pair>, second: Seq<Pair>, key: Seq<char>)
    ensures
        values_of(first + second, key) == values_of(first, key) + values_of(second, key),
    decreases second.len(),
{
    if second.len() == 0 {
        assert(first + second == first);
        assert(values_of(first, key) + values_of(second, key) == values_of(first, key));
    } else {
        lemma_values_of_concat(first, second.drop_last(), key);
        assert((first + second).drop_last() == first + second.drop_last());
        assert((first + second).last() == second.last());
        if second.last().0 == key {
            assert((values_of(first, key) + values_of(second.drop_last(), key)).push(
                second.last().1,
            ) == values_of(first, key) + values_of(second.drop_last(), key).push(
                second.last().1,
            ));
        }
    }
}

/// The two operations of the protocol. Each has its own parameter names.
#[derive(Clone, Copy, Debug, PartialEq, Eq, Structural)]
pub enum Operation {
    Query,
    Update,
}

impl Operation {
    /// The parameter that carries the text of the operation.
    pub open spec fn text_key(self) -> Seq<char> {
        match self {
            Operation::Query => "query"@,
            Operation::Update => "update"@,
        }
    }

    /// The parameter that names a graph of the default graph.
    pub open spec fn default_graph_key(self) -> Seq<char> {
        match self {
            Operation::Query => "default-graph-uri"@,
            Operation::Update => "using-graph-uri"@,
        }
    }

    /// The parameter that names a named graph.
    pub open spec fn named_graph_key(self) -> Seq<char> {
        match self {
            Operation::Query => "named-graph-uri"@,
            Operation::Update => "using-named-graph-uri"@,
        }
    }

    /// The parameter that asks for the union of all graphs as default graph.
    pub open spec fn union_key(self) -> Seq<char> {
        match self {
            Operation::Query => "union-default-graph"@,
            Operation::Update => "using-union-graph"@,
        }
    }

    pub open spec fn multiple_message(self) -> Seq<char> {
        match self {
            Operation::Query => "Multiple query parameters provided"@,
            Operation::Update => "Multiple update parameters provided"@,
        }
    }

    pub open spec fn missing_message(self) -> Seq<char> {
        match self {
            Operation::Query => "You should set the 'query' parameter"@,
            Operation::Update => "You should set the 'update' parameter"@,
        }
    }

    pub open spec fn conflict_message(self) -> Seq<char> {
        match self {
            Operation::Query => "default-graph-uri or named-graph-uri and union-default-graph should not be set at the same time"@,
            Operation::Update => "using-graph-uri or using-named-graph-uri and using-union-graph should not be set at the same time"@,
        }
    }

    fn text_name(&self) -> (s: String)
        ensures
            s@ == self.text_key(),
    {
        match self {
            Operation::Query => String::from_str("query"),
            Operation::Update => String::from_str("update"),
        }
    }

    fn default_graph_name(&self) -> (s: String)
        ensures
            s@ == self.default_graph_key(),
    {
        match self {
            Operation::Query => String::from_str("default-graph-uri"),
            Operation::Update => String::from_str("using-graph-uri"),
        }
    }

    fn named_graph_name(&self) -> (s: String)
        ensures
            s@ == self.named_graph_key(),
    {
        match self {
            Operation::Query => String::from_str("named-graph-uri"),
            Operation::Update => String::from_str("using-named-graph-uri"),
        }
    }

    fn union_name(&self) -> (s: String)
        ensures
            s@ == self.union_key(),
    {
        match self {
            Operation::Query => String::from_str("union-default-graph"),
            Operation::Update => String::from_str("using-union-graph"),
        }
    }

    fn multiple_error(&self) -> (e: HttpError)
        ensures
            e@ == bad(self.multiple_message()),
    {
        match self {
            Operation::Query => bad_request(String::from_str("Multiple query parameters provided")),
            Operation::Update => bad_request(
                String::from_str("Multiple update parameters provided"),
            ),
        }
    }

    fn missing_error(&self) -> (e: HttpError)
        ensures
            e@ == bad(self.missing_message()),
    {
        match self {
            Operation::Query => bad_request(
                String::from_str("You should set the 'query' parameter"),
            ),
            Operation::Update => bad_request(
                String::from_str("You should set the 'update' parameter"),
            ),
        }
    }

    pub(crate) fn conflict_error(&self) -> (e: HttpError)
        ensures
            e@ == bad(self.conflict_message()),
    {
        match self {
            Operation::Query => bad_request(
                String::from_str(
                    "default-graph-uri or named-graph-uri and union-default-graph should not be set at the same time",
                ),
            ),
            Operation::Update => bad_request(
                String::from_str(
                    "using-graph-uri or using-named-graph-uri and using-union-graph should not be set at the same time",
                ),
            ),
        }
    }
}

/// The parameters of one operation, as plain values.
pub struct ParametersView {
    pub text: Seq<char>,
    pub use_union_graph: bool,
    pub default_graph_uris: Seq<Seq<char>>,
    pub named_graph_uris: Seq<Seq<char>>,
}

/// The views of a list of strings.
pub open spec fn strings_view(list: Seq<String>) -> Seq<Seq<char>> {
    Seq::new(list.len(), |i: int| list[i]@)
}

/// The parameters of one query or update.
#[derive(Debug)]
pub struct Parameters {
    /// The text of the query or update.
    pub text: String,
    /// Whether the union of all graphs is asked for as default graph.
    pub use_union_graph: bool,
    pub default_graph_uris: Vec<String>,
    pub named_graph_uris: Vec<String>,
}

impl View for Parameters {
    type V = ParametersView;

    open spec fn view(&self) -> ParametersView {
        ParametersView {
            text: self.text@,
            use_union_graph: self.use_union_graph,
            default_graph_uris: strings_view(self.default_graph_uris@),
            named_graph_uris: strings_view(self.named_graph_uris@),
        }
    }
}

/// How often the text of the operation is given: in the pairs, and once more where the
/// body of the request is that text.
pub open spec fn text_count(op: Operation, pairs: Seq<Pair>, body: Option<Seq<char>>) -> nat {
    values_of(pairs, op.text_key()).len() + if body is Some {
        1nat
    } else {
        0nat
    }
}

/// Reads the parameters of an operation out of decoded pairs. `body` is the text of the
/// operation where the request's body is that text. The text must be given exactly
/// once; the graph parameters are collected; the union flag is set where its parameter
/// occurs, whatever its value. Pairs under other names are passed over.
pub open spec fn resolve(op: Operation, pairs: Seq<Pair>, body: Option<Seq<char>>) -> Result<
    ParametersView,
    Failure,
> {
    if text_count(op, pairs, body) > 1 {
        Err(bad(op.multiple_message()))
    } else if text_count(op, pairs, body) == 0 {
        Err(bad(op.missing_message()))
    } else {
        Ok(
            ParametersView {
                text: if body is Some {
                    body->0
                } else {
                    values_of(pairs, op.text_key())[0]
                },
                use_union_graph: values_of(pairs, op.union_key()).len() > 0,
                default_graph_uris: values_of(pairs, op.default_graph_key()),
                named_graph_uris: values_of(pairs, op.named_graph_key()),
            },
        )
    }
}

/// The view of a text that may be missing.
pub open spec fn text_view(text: Option<String>) -> Option<Seq<char>> {
    match text {
        Some(s) => Some(s@),
        None => None,
    }
}

/// Reads the parameters of an operation out of decoded pairs.
pub fn resolve_parameters(op: Operation, pairs: Vec<(String, String)>, body: Option<String>) -> (r:
    Result<Parameters, HttpError>)
    ensures
        match r {
            Ok(p) => resolve(op, pairs_view(pairs@), text_view(body)) == Ok::<
                ParametersView,
                Failure,
            >(p@),
            Err(e) => resolve(op, pairs_view(pairs@), text_view(body)) == Err::<
                ParametersView,
                Failure,
            >(e@),
        },
{
    let text_name = op.text_name();
    let default_name = op.default_graph_name();
    let named_name = op.named_graph_name();
    let union_name = op.union_name();
    let ghost all = pairs_view(pairs@);
    let ghost given = text_view(body);
    let mut text: Option<String> = body;
    let mut default_graph_uris: Vec<String> = Vec::new();
    let mut named_graph_uris: Vec<String> = Vec::new();
    let mut use_union_graph = false;
    let mut k: usize = 0;
    proof {
        assert(all.take(0) == Seq::<Pair>::empty());
        assert(strings_view(default_graph_uris@) == Seq::<Seq<char>>::empty());
        assert(strings_view(named_graph_uris@) == Seq::<Seq<char>>::empty());
    }
    while k < pairs.len()
        invariant
            k <= pairs@.len(),
            all == pairs_view(pairs@),
            given == text_view(body),
            text_name@ == op.text_key(),
            default_name@ == op.default_graph_key(),
            named_name@ == op.named_graph_key(),
            union_name@ == op.union_key(),
            text_count(op, all.take(k as int), given) <= 1,
            text is Some <==> text_count(op, all.take(k as int), given) == 1,
            text matches Some(t) ==> t@ == (if given is Some {
                given->0
            } else {
                values_of(all.take(k as int), op.text_key())[0]
            }),
            use_union_graph == (values_of(all.take(k as int), op.union_key()).len() > 0),
            strings_view(default_graph_uris@) == values_of(
                all.take(k as int),
                op.default_graph_key(),
            ),
            strings_view(named_graph_uris@) == values_of(all.take(k as int), op.named_graph_key()),
        decreases pairs@.len() - k,
    {
        proof {
            let next = all.take(k + 1);
            assert(next.drop_last() == all.take(k as int));
            assert(next.last() == all[k as int]);
            assert(all[k as int] == (pairs@[k as int].0@, pairs@[k as int].1@));
        }
        let key = &pairs[k].0;
        let value = &pairs[k].1;
        if *key == text_name {
            if text.is_some() {
                proof {
                    lemma_values_of_grow(all, k + 1, op.text_key());
                    assert(all.take(k + 1).last().0 == op.text_key());
                    assert(values_of(all.take(k + 1), op.text_key()).len() == values_of(
                        all.take(k as int),
                        op.text_key(),
                    ).len() + 1);
                    assert(text_count(op, all, given) > 1);
                }
                return Err(op.multiple_error());
            }
            text = Some(value.clone());
        }
        if *key == default_name {
            let ghost before = strings_view(default_graph_uris@);
            default_graph_uris.push(value.clone());
            assert(strings_view(default_graph_uris@) == before.push(value@));
        }
        if *key == union_name {
            use_union_graph = true;
        }
        if *key == named_name {
            let ghost before = strings_view(named_graph_uris@);
            named_graph_uris.push(value.clone());
            assert(strings_view(named_graph_uris@) == before.push(value@));
        }
        k = k + 1;
    }
    assert(all.take(pairs@.len() as int) == all);
    match text {
        None => Err(op.missing_error()),
        Some(t) => Ok(
            Parameters { text: t, use_union_graph, default_graph_uris, named_graph_uris },
        ),
    }
}

/// The values under a key in a longer prefix are at least as many.
pub proof fn lemma_values_of_grow(pairs: Seq<Pair>, k: int, key: Seq<char>)
    requires
        0 <= k <= pairs.len(),
    ensures
        values_of(pairs.take(k), key).len() <= values_of(pairs, key).len(),
    decreases pairs.len() - k,
{
    if k < pairs.len() {
        lemma_values_of_grow(pairs, k + 1, key);
        assert(pairs.take(k + 1).drop_last() == pairs.take(k));
    } else {
        assert(pairs.take(k) == pairs);
    }
}

/// Reads the parameters of an operation out of encoded sources: the URL's query string,
/// and the body of a form. The sources are read in order.
pub fn resolve_encoded(op: Operation, sources: &[&[u8]], body: Option<String>) -> (r: Result<
    Parameters,
    HttpError,
>)
    ensures
        match r {
            Ok(p) => resolve(op, decode_sources(sources_view(sources@)), text_view(body)) == Ok::<
                ParametersView,
                Failure,
            >(p@),
            Err(e) => resolve(op, decode_sources(sources_view(sources@)), text_view(body)) == Err::<
                ParametersView,
                Failure,
            >(e@),
        },
{
    let pairs = decode_all(sources);
    resolve_parameters(op, pairs, body)
}

/// The pairs of a URL's query string and a form body, read one after the other.
pub proof fn lemma_two_sources(url_query: Seq<u8>, form: Seq<u8>)
    ensures
        decode_sources(seq![url_query, form]) == form_pairs(url_query) + form_pairs(form),
{
    let both = seq![url_query, form];
    assert(both.drop_last() == seq![url_query]);
    assert(seq![url_query].drop_last() == Seq::<Seq<u8>>::empty());
    assert(decode_sources(Seq::<Seq<u8>>::empty()) == Seq::<Pair>::empty());
    assert(decode_sources(seq![url_query]) == Seq::<Pair>::empty() + form_pairs(url_query));
    assert(Seq::<Pair>::empty() + form_pairs(url_query) == form_pairs(url_query));
}

/// The text of an operation that stands in the URL's query string and in the form body
/// as well is refused.
pub proof fn lemma_text_in_both_sources_is_refused(op: Operation, url_query: Seq<u8>, form: Seq<u8>)
    requires
        values_of(form_pairs(url_query), op.text_key()).len() > 0,
        values_of(form_pairs(form), op.text_key()).len() > 0,
    ensures
        resolve(op, decode_sources(seq![url_query, form]), None) == Err::<ParametersView, Failure>(
            bad(op.multiple_message()),
        ),
{
    lemma_two_sources(url_query, form);
    lemma_values_of_concat(form_pairs(url_query), form_pairs(form), op.text_key());
}

/// The text of an operation that stands once in the URL's query string or the form
/// body, and not in the other, is accepted, and is the text of the operation.
pub proof fn lemma_text_in_one_source_is_accepted(op: Operation, url_query: Seq<u8>, form: Seq<u8>)
    requires
        values_of(form_pairs(url_query), op.text_key()).len() + values_of(
            form_pairs(form),
            op.text_key(),
        ).len() == 1,
    ensures
        resolve(op, decode_sources(seq![url_query, form]), None) matches Ok(p) && p.text == (
        values_of(form_pairs(url_query), op.text_key()) + values_of(
            form_pairs(form),
            op.text_key(),
        ))[0],
{
    lemma_two_sources(url_query, form);
    lemma_values_of_concat(form_pairs(url_query), form_pairs(form), op.text_key());
}

} // verus!
