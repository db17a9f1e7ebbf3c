//! The dataset that a query or an update works on.

use crate::http::{bad, Failure, HttpError};
use crate::params::{strings_view, Operation, Parameters, ParametersView};
use vstd::prelude::*;
use vstd::string::*;

verus! {

/// A dataset scope as plain values: either the union of all graphs as default graph, or
/// the graphs that make up the default graph and the named graphs that can be used. With
/// neither, the operation works on the dataset that its own text names.
pub struct ScopeView {
    pub use_union_default_graph: bool,
    pub default_graph_iris: Set<Seq<char>>,
    pub named_graph_iris: Set<Seq<char>>,
}

/// Parameters that ask for the union of all graphs and name graphs as well.
pub open spec fn conflicting(p: ParametersView) -> bool {
    p.use_union_graph && (p.default_graph_uris.len() > 0 || p.named_graph_uris.len() > 0)
}

/// The scope that parameters describe.
pub open spec fn scope_of(p: ParametersView) -> ScopeView {
    ScopeView {
        use_union_default_graph: p.use_union_graph,
        default_graph_iris: p.default_graph_uris.to_set(),
        named_graph_iris: p.named_graph_uris.to_set(),
    }
}

/// The scope of parameters, where they describe one.
pub open spec fn scope_for(op: Operation, p: ParametersView) -> Result<ScopeView, Failure> {
    if conflicting(p) {
        Err(bad(op.conflict_message()))
    } else {
        Ok(scope_of(p))
    }
}

/// Whether `list` holds `item`.
pub fn holds(list: &Vec<String>, item: &String) -> (found: bool)
    ensures
        found == strings_view(list@).contains(item@),
{
    let mut i: usize = 0;
    while i < list.len()
        invariant
            i <= list@.len(),
            forall|j: int| 0 <= j < i ==> strings_view(list@)[j] != item@,
        decreases list@.len() - i,
    {
        if list[i] == *item {
            assert(strings_view(list@)[i as int] == item@);
            return true;
        }
        i = i + 1;
    }
    false
}

/// The items of `list`, each one once.
pub fn distinct(list: &Vec<String>) -> (out: Vec<String>)
    ensures
        strings_view(out@).no_duplicates(),
        strings_view(out@).to_set() == strings_view(list@).to_set(),
{
    let mut out: Vec<String> = Vec::new();
    let mut k: usize = 0;
    assert(strings_view(out@).to_set() =~= strings_view(list@).take(0).to_set());
    while k < list.len()
        invariant
            k <= list@.len(),
            strings_view(out@).no_duplicates(),
            strings_view(out@).to_set() == strings_view(list@).take(k as int).to_set(),
        decreases list@.len() - k,
    {
        let ghost before = strings_view(out@);
        let ghost seen = strings_view(list@).take(k as int);
        let ghost next = strings_view(list@).take(k + 1);
        let ghost item = list@[k as int]@;
        proof {
            assert(next == seen.push(item));
            assert forall|a: Seq<char>| next.contains(a) <==> (seen.contains(a) || a == item) by {
                if next.contains(a) {
                    let j = choose|j: int| 0 <= j < next.len() && next[j] == a;
                    if j < k {
                        assert(seen[j] == a);
                    }
                }
                if seen.contains(a) {
                    let j = choose|j: int| 0 <= j < seen.len() && seen[j] == a;
                    assert(next[j] == a);
                }
                if a == item {
                    assert(next[k as int] == a);
                }
            }
            assert(forall|a: Seq<char>| before.contains(a) <==> before.to_set().contains(a));
            assert(forall|a: Seq<char>| seen.contains(a) <==> seen.to_set().contains(a));
        }
        if !holds(&out, &list[k]) {
            out.push(list[k].clone());
            proof {
                let after = strings_view(out@);
                assert(after == before.push(item));
                assert forall|a: Seq<char>| after.contains(a) <==> (before.contains(a) || a
                    == item) by {
                    if after.contains(a) {
                        let j = choose|j: int| 0 <= j < after.len() && after[j] == a;
                        if j < before.len() {
                            assert(before[j] == a);
                        }
                    }
                    if before.contains(a) {
                        let j = choose|j: int| 0 <= j < before.len() && before[j] == a;
                        assert(after[j] == a);
                    }
                    if a == item {
                        assert(after[before.len() as int] == a);
                    }
                }
                assert(after.to_set() =~= next.to_set());
                assert forall|i: int, j: int|
                    0 <= i < after.len() && 0 <= j < after.len() && i != j implies after[i]
                    != after[j] by {
                    if i < before.len() && j < before.len() {
                        assert(before[i] != before[j]);
                    } else if i < before.len() {
                        assert(before.contains(before[i]));
                    } else if j < before.len() {
                        assert(before.contains(before[j]));
                    }
                }
            }
        } else {
            proof {
                assert(before.to_set() =~= next.to_set());
            }
        }
        k = k + 1;
    }
    assert(strings_view(list@).take(list@.len() as int) == strings_view(list@));
    out
}

/// The dataset that an operation works on.
#[derive(Debug)]
pub struct DatasetScope {
    use_union_default_graph: bool,
    default_graph_iris: Vec<String>,
    named_graph_iris: Vec<String>,
}

impl DatasetScope {
    pub closed spec fn view(&self) -> ScopeView {
        ScopeView {
            use_union_default_graph: self.use_union_default_graph,
            default_graph_iris: strings_view(self.default_graph_iris@).to_set(),
            named_graph_iris: strings_view(self.named_graph_iris@).to_set(),
        }
    }

    /// A scope never asks for the union of all graphs and names graphs as well, and it
    /// holds each graph name once.
    pub closed spec fn wf(&self) -> bool {
        &&& self.use_union_default_graph ==> self.default_graph_iris@.len() == 0
            && self.named_graph_iris@.len() == 0
        &&& strings_view(self.default_graph_iris@).no_duplicates()
        &&& strings_view(self.named_graph_iris@).no_duplicates()
    }

    /// The scope that the parameters of an operation describe. Parameters that ask for
    /// the union of all graphs and name graphs as well describe none.
    pub fn new(op: Operation, parameters: &Parameters) -> (r: Result<DatasetScope, HttpError>)
        ensures
            match r {
                Ok(scope) => scope.wf() && scope_for(op, parameters@) == Ok::<ScopeView, Failure>(
                    scope@,
                ),
                Err(e) => scope_for(op, parameters@) == Err::<ScopeView, Failure>(e@),
            },
    {
        let named = parameters.default_graph_uris.len() > 0 || parameters.named_graph_uris.len()
            > 0;
        if parameters.use_union_graph && named {
            return Err(op.conflict_error());
        }
        let default_graph_iris = distinct(&parameters.default_graph_uris);
        let named_graph_iris = distinct(&parameters.named_graph_uris);
        proof {
            if !named {
                assert(strings_view(default_graph_iris@).to_set() =~= Set::<Seq<char>>::empty());
                assert(strings_view(named_graph_iris@).to_set() =~= Set::<Seq<char>>::empty());
                if default_graph_iris@.len() > 0 {
                    assert(strings_view(default_graph_iris@).to_set().contains(
                        strings_view(default_graph_iris@)[0],
                    ));
                }
                if named_graph_iris@.len() > 0 {
                    assert(strings_view(named_graph_iris@).to_set().contains(
                        strings_view(named_graph_iris@)[0],
                    ));
                }
            }
        }
        Ok(
            DatasetScope {
                use_union_default_graph: parameters.use_union_graph,
                default_graph_iris,
                named_graph_iris,
            },
        )
    }

    /// Whether the default graph is the union of all graphs.
    pub fn use_union_default_graph(&self) -> (b: bool)
        ensures
            b == self@.use_union_default_graph,
    {
        self.use_union_default_graph
    }

    /// The graphs that make up the default graph, each one once.
    pub fn default_graph_iris(&self) -> (list: &Vec<String>)
        requires
            self.wf(),
        ensures
            strings_view(list@).to_set() == self@.default_graph_iris,
            strings_view(list@).no_duplicates(),
    {
        &self.default_graph_iris
    }

    /// The named graphs that can be used, each one once.
    pub fn named_graph_iris(&self) -> (list: &Vec<String>)
        requires
            self.wf(),
        ensures
            strings_view(list@).to_set() == self@.named_graph_iris,
            strings_view(list@).no_duplicates(),
    {
        &self.named_graph_iris
    }

    /// Whether the scope names any graph.
    pub fn names_graphs(&self) -> (b: bool)
        ensures
            b == (self@.default_graph_iris.len() > 0 || self@.named_graph_iris.len() > 0),
    {
        proof {
            lemma_empty_list(strings_view(self.default_graph_iris@));
            lemma_empty_list(strings_view(self.named_graph_iris@));
        }
        self.default_graph_iris.len() > 0 || self.named_graph_iris.len() > 0
    }

    /// In a sound scope the union of all graphs excludes any named graph.
    pub proof fn lemma_exclusive(&self)
        requires
            self.wf(),
        ensures
            self@.use_union_default_graph ==> self@.default_graph_iris == Set::<Seq<char>>::empty()
                && self@.named_graph_iris == Set::<Seq<char>>::empty(),
    {
        if self.use_union_default_graph {
            assert(strings_view(self.default_graph_iris@).to_set() =~= Set::<Seq<char>>::empty());
            assert(strings_view(self.named_graph_iris@).to_set() =~= Set::<Seq<char>>::empty());
        }
    }
}

/// A list is empty exactly when the set of its items is.
pub proof fn lemma_empty_list(list: Seq<Seq<char>>)
    ensures
        list.to_set().finite(),
        list.len() == 0 <==> list.to_set().len() == 0,
{
    vstd::seq_lib::seq_to_set_is_finite(list);
    if list.len() == 0 {
        assert(list.to_set() =~= Set::<Seq<char>>::empty());
    } else {
        assert(list.to_set().contains(list[0]));
        if list.to_set().len() == 0 {
            list.to_set().lemma_len0_is_empty();
        }
    }
}

/// Whatever the parameters, a scope that they describe never asks for the union of all
/// graphs and names graphs as well.
pub proof fn lemma_scope_is_exclusive(op: Operation, p: ParametersView)
    ensures
        scope_for(op, p) matches Ok(scope) ==> (scope.use_union_default_graph
            ==> scope.default_graph_iris == Set::<Seq<char>>::empty() && scope.named_graph_iris
            == Set::<Seq<char>>::empty()),
{
    if !conflicting(p) && p.use_union_graph {
        assert(p.default_graph_uris.to_set() =~= Set::<Seq<char>>::empty());
        assert(p.named_graph_uris.to_set() =~= Set::<Seq<char>>::empty());
    }
}

} // verus!
