//! Start-up: which files are loaded into the graph store and how, how many workers load
//! them, what becomes of the failures, and which solutions go into the text index.

use crate::format::{DatasetFormat, GraphFormat};
use crate::text::{chars_of, copy_range, str_eq, string_of};
use vstd::prelude::*;
use vstd::string::*;

verus! {

/// The format of a file: of one graph, or of a dataset.
#[derive(Clone, Copy, Debug, PartialEq, Eq, Structural)]
pub enum GraphOrDatasetFormat {
    Graph(GraphFormat),
    Dataset(DatasetFormat),
}

/// Why the format of a file is not known, as plain values.
pub enum FormatErrorView {
    NoExtension(Seq<char>),
    Unknown(Seq<char>),
    Ambiguous(Seq<char>, GraphFormat, DatasetFormat),
}

/// Why the format of a file is not known.
#[derive(Debug)]
pub enum FormatError {
    /// The file name has no extension.
    NoExtension(String),
    /// No format has the extension.
    Unknown(String),
    /// A graph format and a dataset format have the extension.
    Ambiguous(String, GraphFormat, DatasetFormat),
}

impl View for FormatError {
    type V = FormatErrorView;

    open spec fn view(&self) -> FormatErrorView {
        match self {
            FormatError::NoExtension(name) => FormatErrorView::NoExtension(name@),
            FormatError::Unknown(ext) => FormatErrorView::Unknown(ext@),
            FormatError::Ambiguous(ext, g, d) => FormatErrorView::Ambiguous(ext@, *g, *d),
        }
    }
}

/// The first line of the message for an extension that names no single format.
pub open spec fn guess_failed(extension: Seq<char>) -> Seq<char> {
    "Not able to guess the file format from file name extension '"@ + extension + "': "@
}

impl FormatErrorView {
    /// The message that describes the error.
    pub open spec fn message(self) -> Seq<char> {
        match self {
            FormatErrorView::NoExtension(name) => "The path "@ + name
                + " has no extension to guess a file format from"@,
            FormatErrorView::Unknown(ext) => guess_failed(ext) + "The file extension '"@ + ext
                + "' is unknown"@,
            FormatErrorView::Ambiguous(ext, g, d) => guess_failed(ext) + "The file extension '"@
                + ext + "' can be resolved to both '"@ + g.file_extension_of() + "' and '"@
                + d.file_extension_of() + "', not sure what to pick"@,
        }
    }
}

impl FormatError {
    /// The message that describes the error.
    pub fn message(&self) -> (m: String)
        ensures
            m@ == self@.message(),
    {
        match self {
            FormatError::NoExtension(name) => {
                let mut m = String::from_str("The path ");
                m.append(name.as_str());
                m.append(" has no extension to guess a file format from");
                m
            },
            FormatError::Unknown(ext) => {
                let mut m = String::from_str(
                    "Not able to guess the file format from file name extension '",
                );
                m.append(ext.as_str());
                m.append("': ");
                m.append("The file extension '");
                m.append(ext.as_str());
                m.append("' is unknown");
                m
            },
            FormatError::Ambiguous(ext, g, d) => {
                let mut m = String::from_str(
                    "Not able to guess the file format from file name extension '",
                );
                m.append(ext.as_str());
                m.append("': ");
                m.append("The file extension '");
                m.append(ext.as_str());
                m.append("' can be resolved to both '");
                m.append(g.file_extension());
                m.append("' and '");
                m.append(d.file_extension());
                m.append("', not sure what to pick");
                m
            },
        }
    }
}

/// The format that an extension names: the one format that has it.
pub open spec fn format_for_extension(extension: Seq<char>) -> Result<
    GraphOrDatasetFormat,
    FormatErrorView,
> {
    match (GraphFormat::for_extension(extension), DatasetFormat::for_extension(extension)) {
        (Some(g), Some(d)) => Err(FormatErrorView::Ambiguous(extension, g, d)),
        (Some(g), None) => Ok(GraphOrDatasetFormat::Graph(g)),
        (None, Some(d)) => Ok(GraphOrDatasetFormat::Dataset(d)),
        (None, None) => Err(FormatErrorView::Unknown(extension)),
    }
}

/// Index of the last occurrence of `c` in `s`, or -1 where there is none.
pub open spec fn rfind(s: Seq<char>, c: char) -> int
    decreases s.len(),
{
    if s.len() == 0 {
        -1
    } else if s.last() == c {
        s.len() - 1
    } else {
        rfind(s.drop_last(), c)
    }
}

/// The name of the file that a path leads to: what stands behind its last `/`. A path
/// that ends in `/` names no file.
pub open spec fn file_name_of(path: Seq<char>) -> Seq<char> {
    path.skip(rfind(path, '/') + 1)
}

/// Place in a path of the `.` before its extension, where it has one: the last `.` of
/// its file name. A name without a `.` has no extension, nor has a name whose only `.`
/// stands in front, nor has `..`.
pub open spec fn dot_of(path: Seq<char>) -> Option<int> {
    let name = file_name_of(path);
    if name == ".."@ || rfind(name, '.') <= 0 {
        None
    } else {
        Some(rfind(path, '/') + 1 + rfind(name, '.'))
    }
}

/// The extension of the file that a path leads to: what stands behind the last `.` of
/// its file name.
pub open spec fn extension_of(path: Seq<char>) -> Option<Seq<char>> {
    match dot_of(path) {
        Some(dot) => Some(path.skip(dot + 1)),
        None => None,
    }
}

/// A path without the extension of its file name and the `.` before it.
pub open spec fn stem_of(path: Seq<char>) -> Seq<char> {
    match dot_of(path) {
        Some(dot) => path.take(dot),
        None => path,
    }
}

/// Place of the last occurrence of `c` in `s`.
fn last_index(s: &[char], c: char) -> (place: Option<usize>)
    ensures
        match place {
            Some(i) => i == rfind(s@, c) && i < s@.len() && s@[i as int] == c,
            None => rfind(s@, c) == -1,
        },
{
    let mut i: usize = s.len();
    assert(s@.take(i as int) == s@);
    while i > 0 && s[i - 1] != c
        invariant
            i <= s@.len(),
            rfind(s@, c) == rfind(s@.take(i as int), c),
        decreases i,
    {
        proof {
            assert(s@.take(i as int).drop_last() == s@.take(i - 1));
        }
        i = i - 1;
    }
    if i == 0 {
        None
    } else {
        assert(s@.take(i as int).last() == c);
        Some(i - 1)
    }
}

/// Place of the `.` before the extension of a path that has one.
fn extension_dot(path: &[char]) -> (dot: Option<usize>)
    ensures
        match dot {
            Some(d) => dot_of(path@) == Some(d as int) && d < path@.len(),
            None => dot_of(path@) is None,
        },
{
    proof {
        reveal_strlit("..");
    }
    let end = path.len();
    let start: usize = match last_index(path, '/') {
        Some(slash) => {
            assert(slash < end);
            slash + 1
        },
        None => 0,
    };
    let name = copy_range(path, start, end);
    assert(name@ == file_name_of(path@));
    match last_index(name.as_slice(), '.') {
        None => None,
        Some(dot) => {
            if dot == 0 {
                return None;
            }
            if name.len() == 2 && name[0] == '.' {
                assert(name@ =~= ".."@);
                return None;
            }
            proof {
                if name@ == ".."@ {
                    assert(name@.len() == 2 && name@[0] == '.');
                }
            }
            Some(start + dot)
        },
    }
}

impl GraphOrDatasetFormat {
    /// The format that a file extension names.
    pub fn from_extension(name: &str) -> (r: Result<GraphOrDatasetFormat, FormatError>)
        ensures
            match r {
                Ok(f) => format_for_extension(name@) == Ok::<GraphOrDatasetFormat, FormatErrorView>(
                    f,
                ),
                Err(e) => format_for_extension(name@) == Err::<
                    GraphOrDatasetFormat,
                    FormatErrorView,
                >(e@),
            },
    {
        match (GraphFormat::from_extension(name), DatasetFormat::from_extension(name)) {
            (Some(g), Some(d)) => Err(FormatError::Ambiguous(String::from_str(name), g, d)),
            (Some(g), None) => Ok(GraphOrDatasetFormat::Graph(g)),
            (None, Some(d)) => Ok(GraphOrDatasetFormat::Dataset(d)),
            (None, None) => Err(FormatError::Unknown(String::from_str(name))),
        }
    }

    /// The format of a file, by the extension of its name.
    pub fn from_path(file_name: &str) -> (r: Result<GraphOrDatasetFormat, FormatError>)
        ensures
            match r {
                Ok(f) => format_of(file_name@) == Ok::<GraphOrDatasetFormat, FormatErrorView>(f),
                Err(e) => format_of(file_name@) == Err::<GraphOrDatasetFormat, FormatErrorView>(
                    e@,
                ),
            },
    {
        format_from_path(file_name)
    }
}

/// The format of the file that a path leads to, by the extension of its name.
pub open spec fn format_of(file_name: Seq<char>) -> Result<GraphOrDatasetFormat, FormatErrorView> {
    match extension_of(file_name) {
        Some(extension) => format_for_extension(extension),
        None => Err(FormatErrorView::NoExtension(file_name)),
    }
}

/// Guesses the format of a file from the extension of its name.
pub fn format_from_path(file_name: &str) -> (r: Result<GraphOrDatasetFormat, FormatError>)
    ensures
        match r {
            Ok(f) => format_of(file_name@) == Ok::<GraphOrDatasetFormat, FormatErrorView>(f),
            Err(e) => format_of(file_name@) == Err::<GraphOrDatasetFormat, FormatErrorView>(e@),
        },
{
    let name = chars_of(file_name);
    match extension_dot(name.as_slice()) {
        None => Err(FormatError::NoExtension(String::from_str(file_name))),
        Some(dot) => {
            let end = name.len();
            let extension = copy_range(name.as_slice(), dot + 1, end);
            assert(extension@ == name@.skip(dot + 1));
            let text = string_of(extension.as_slice());
            GraphOrDatasetFormat::from_extension(text.as_str())
        },
    }
}

/// How one file is loaded, as plain values.
pub struct FilePlanView {
    pub compressed: bool,
    pub format: Result<GraphOrDatasetFormat, FormatErrorView>,
}

/// How one file is loaded.
#[derive(Debug)]
pub struct FilePlan {
    /// Whether the file is compressed with gzip.
    pub compressed: bool,
    /// The format of what the file holds, once decompressed.
    pub format: Result<GraphOrDatasetFormat, FormatError>,
}

impl View for FilePlan {
    type V = FilePlanView;

    open spec fn view(&self) -> FilePlanView {
        FilePlanView {
            compressed: self.compressed,
            format: match self.format {
                Ok(f) => Ok(f),
                Err(e) => Err(e@),
            },
        }
    }
}

/// A file with the extension `gz` is compressed, and its format is that of its path
/// without that extension; any other file is read as it is.
pub open spec fn file_plan_of(file_name: Seq<char>) -> FilePlanView {
    if extension_of(file_name) == Some("gz"@) {
        FilePlanView { compressed: true, format: format_of(stem_of(file_name)) }
    } else {
        FilePlanView { compressed: false, format: format_of(file_name) }
    }
}

/// Decides how a file is loaded, by its name.
pub fn plan_file(file_name: &str) -> (plan: FilePlan)
    ensures
        plan@ == file_plan_of(file_name@),
{
    let name = chars_of(file_name);
    match extension_dot(name.as_slice()) {
        None => FilePlan { compressed: false, format: format_from_path(file_name) },
        Some(dot) => {
            let end = name.len();
            let extension = copy_range(name.as_slice(), dot + 1, end);
            assert(extension@ == name@.skip(dot + 1));
            let text = string_of(extension.as_slice());
            if str_eq(text.as_str(), "gz") {
                let stem = copy_range(name.as_slice(), 0, dot);
                assert(stem@ == name@.take(dot as int));
                let stem_text = string_of(stem.as_slice());
                FilePlan { compressed: true, format: format_from_path(stem_text.as_str()) }
            } else {
                FilePlan { compressed: false, format: format_from_path(file_name) }
            }
        },
    }
}

/// The number of workers for a host with `parallelism` hardware threads: half of them,
/// and one at least.
pub open spec fn workers_for(parallelism: usize) -> usize {
    if parallelism / 2 >= 1 {
        parallelism / 2
    } else {
        1
    }
}

/// The number of workers for a host with `parallelism` hardware threads.
pub fn worker_count(parallelism: usize) -> (workers: usize)
    ensures
        workers == workers_for(parallelism),
        workers >= 1,
{
    let half: usize = parallelism / 2;
    if half >= 1 {
        half
    } else {
        1
    }
}

/// The plan for loading the graph store.
#[derive(Debug)]
pub struct LoadPlan {
    /// The number of workers. Each worker loads one file at a time, from its opening to
    /// its end.
    pub workers: usize,
    /// How each file is loaded, in the order of the file names.
    pub files: Vec<FilePlan>,
}

/// Plans the loading of the graph store: the workers, and how each file is loaded.
pub fn init_oxigraph(file_names: &Vec<String>, parallelism: usize) -> (plan: LoadPlan)
    ensures
        plan.workers == workers_for(parallelism),
        plan.files@.len() == file_names@.len(),
        forall|i: int|
            0 <= i < file_names@.len() ==> (#[trigger] plan.files@[i])@ == file_plan_of(
                file_names@[i]@,
            ),
{
    let mut files: Vec<FilePlan> = Vec::new();
    let mut k: usize = 0;
    while k < file_names.len()
        invariant
            k <= file_names@.len(),
            files@.len() == k,
            forall|i: int|
                0 <= i < k ==> (#[trigger] files@[i])@ == file_plan_of(file_names@[i]@),
        decreases file_names@.len() - k,
    {
        files.push(plan_file(file_names[k].as_str()));
        k = k + 1;
    }
    LoadPlan { workers: worker_count(parallelism), files }
}

/// Plans the start-up of the server.
pub fn init(file_names: &Vec<String>, parallelism: usize) -> (plan: LoadPlan)
    ensures
        plan.workers == workers_for(parallelism),
        plan.files@.len() == file_names@.len(),
        forall|i: int|
            0 <= i < file_names@.len() ==> (#[trigger] plan.files@[i])@ == file_plan_of(
                file_names@[i]@,
            ),
{
    init_oxigraph(file_names, parallelism)
}

/// What is done when a file fails to load.
#[derive(Clone, Copy, Debug, PartialEq, Eq, Structural)]
pub enum FailurePolicy {
    /// The server starts with what could be loaded.
    Continue,
    /// The server does not start.
    Abort,
}

/// How the loading of the files ended.
#[derive(Clone, Copy, Debug, PartialEq, Eq, Structural)]
pub struct LoadReport {
    /// The number of files that were loaded.
    pub loaded: usize,
    /// The number of files that failed.
    pub failed: usize,
}

/// How many of the outcomes are failures.
pub open spec fn failures(outcomes: Seq<bool>) -> nat
    decreases outcomes.len(),
{
    if outcomes.len() == 0 {
        0
    } else {
        failures(outcomes.drop_last()) + if outcomes.last() {
            0nat
        } else {
            1nat
        }
    }
}

/// Decides what follows when every worker has ended. `outcomes` says of each file
/// whether it was loaded. The failure of a file never stops the loading of another; it
/// is counted here, and stops the start-up only under `FailurePolicy::Abort`. The data
/// is flushed once, behind the last file, where the result is `Ok`.
pub fn conclude(outcomes: &Vec<bool>, policy: FailurePolicy) -> (r: Result<LoadReport, LoadReport>)
    ensures
        match r {
            Ok(report) => (policy == FailurePolicy::Continue || failures(outcomes@) == 0)
                && report.failed == failures(outcomes@) && report.loaded + report.failed
                == outcomes@.len(),
            Err(report) => policy == FailurePolicy::Abort && failures(outcomes@) > 0
                && report.failed == failures(outcomes@) && report.loaded + report.failed
                == outcomes@.len(),
        },
{
    let mut loaded: usize = 0;
    let mut failed: usize = 0;
    let mut k: usize = 0;
    assert(outcomes@.take(0) == Seq::<bool>::empty());
    while k < outcomes.len()
        invariant
            k <= outcomes@.len(),
            failed == failures(outcomes@.take(k as int)),
            loaded + failed == k,
        decreases outcomes@.len() - k,
    {
        proof {
            assert(outcomes@.take(k + 1).drop_last() == outcomes@.take(k as int));
            assert(outcomes@.take(k + 1).last() == outcomes@[k as int]);
        }
        if outcomes[k] {
            loaded = loaded + 1;
        } else {
            failed = failed + 1;
        }
        k = k + 1;
    }
    assert(outcomes@.take(outcomes@.len() as int) == outcomes@);
    let report = LoadReport { loaded, failed };
    match policy {
        FailurePolicy::Continue => Ok(report),
        FailurePolicy::Abort => if failed == 0 {
            Ok(report)
        } else {
            Err(report)
        },
    }
}

/// A term of a solution, as plain values.
pub enum TermView {
    NamedNode(Seq<char>),
    BlankNode(Seq<char>),
    Literal(Seq<char>),
    Triple,
}

/// A term of a solution, as far as indexing reads it.
#[derive(Debug)]
pub enum Term {
    /// An IRI.
    NamedNode(String),
    /// A blank node, by its label.
    BlankNode(String),
    /// A literal, by its lexical value.
    Literal(String),
    /// A quoted triple.
    Triple,
}

impl View for Term {
    type V = TermView;

    open spec fn view(&self) -> TermView {
        match self {
            Term::NamedNode(iri) => TermView::NamedNode(iri@),
            Term::BlankNode(label) => TermView::BlankNode(label@),
            Term::Literal(value) => TermView::Literal(value@),
            Term::Triple => TermView::Triple,
        }
    }
}

/// The view of a term that may be missing.
pub open spec fn term_view(term: Option<&Term>) -> Option<TermView> {
    match term {
        Some(t) => Some(t@),
        None => None,
    }
}

/// A document of the text index, as plain values: the name of a resource as it is
/// written in a query, between `<` and `>`, and the text to find it by.
pub struct DocumentView {
    pub iri: Seq<char>,
    pub text: Seq<char>,
}

/// A document of the text index.
#[derive(Debug)]
pub struct Document {
    pub iri: String,
    pub text: String,
}

impl View for Document {
    type V = DocumentView;

    open spec fn view(&self) -> DocumentView {
        DocumentView { iri: self.iri@, text: self.text@ }
    }
}

/// The document that a solution gives: `iri` must be bound to an IRI and `text` to a
/// literal. Any other solution gives none.
pub open spec fn document_of(iri: Option<TermView>, text: Option<TermView>) -> Option<
    DocumentView,
> {
    match (iri, text) {
        (Some(TermView::NamedNode(name)), Some(TermView::Literal(value))) => Some(
            DocumentView { iri: "<"@ + name + ">"@, text: value },
        ),
        _ => None,
    }
}

/// Decides whether a solution of the indexing query goes into the text index, and as
/// what. `iri` and `text` are what the solution binds to the variables of these names.
pub fn init_index(iri: Option<&Term>, text: Option<&Term>) -> (document: Option<Document>)
    ensures
        match document {
            Some(d) => document_of(term_view(iri), term_view(text)) == Some(d@),
            None => document_of(term_view(iri), term_view(text)) is None,
        },
{
    match (iri, text) {
        (Some(Term::NamedNode(name)), Some(Term::Literal(value))) => {
            let mut written = String::from_str("<");
            written.append(name.as_str());
            written.append(">");
            Some(Document { iri: written, text: value.clone() })
        },
        _ => None,
    }
}

} // verus!
