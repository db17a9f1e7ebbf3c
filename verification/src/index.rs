//! The layout of the text index.

use vstd::prelude::*;
use vstd::string::*;

verus! {

/// How a field of the text index is indexed.
#[derive(Clone, Copy, Debug, PartialEq, Eq, Structural)]
pub enum Indexing {
    /// The whole value is one term: the field is found by its exact value.
    Exact,
    /// The value is cut into words: the field is found by full-text search.
    FullText,
}

/// A field of the text index, as plain values.
pub struct FieldView {
    pub name: Seq<char>,
    pub indexing: Indexing,
    pub stored: bool,
}

/// A field of the text index.
#[derive(Debug)]
pub struct Field {
    pub name: &'static str,
    pub indexing: Indexing,
    /// Whether the value can be read back from a hit.
    pub stored: bool,
}

impl View for Field {
    type V = FieldView;

    open spec fn view(&self) -> FieldView {
        FieldView { name: self.name@, indexing: self.indexing, stored: self.stored }
    }
}

/// The two fields of the text index: `iri`, found by its exact value and stored, and
/// `text`, found by full-text search and not stored.
pub fn schema() -> (fields: Vec<Field>)
    ensures
        fields@.len() == 2,
        fields@[0]@ == (FieldView { name: "iri"@, indexing: Indexing::Exact, stored: true }),
        fields@[1]@ == (FieldView { name: "text"@, indexing: Indexing::FullText, stored: false }),
{
    let mut fields: Vec<Field> = Vec::new();
    fields.push(Field { name: "iri", indexing: Indexing::Exact, stored: true });
    fields.push(Field { name: "text", indexing: Indexing::FullText, stored: false });
    fields
}

} // verus!
