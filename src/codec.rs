//! Parsing JSON response bodies and rendering fragments as YAML, through
//! serde_json and serde_yaml; the errors that the run reports.

use vstd::prelude::*;

verus! {

/// A parsed response body, read down to its top level: the members of an
/// object in the order of the text, or any other value whole.
#[derive(Debug)]
pub enum Document {
    Object(Vec<(String, serde_json::Value)>),
    Other(serde_json::Value),
}

/// A document as the contracts see it: keys as character sequences.
pub enum DocView {
    Object(Seq<(Seq<char>, serde_json::Value)>),
    Other(serde_json::Value),
}

/// A fragment as the contracts see it.
pub enum FragmentView {
    Named(Seq<char>, DocView),
    Whole(DocView),
}

pub open spec fn members_view(m: Seq<(String, serde_json::Value)>) -> Seq<(Seq<char>, serde_json::Value)> {
    m.map_values(|p: (String, serde_json::Value)| (p.0@, p.1))
}

impl View for Document {
    type V = DocView;

    open spec fn view(&self) -> DocView {
        match self {
            Document::Object(m) => DocView::Object(members_view(m@)),
            Document::Other(v) => DocView::Other(*v),
        }
    }
}

/// What one endpoint contributes to the output, before rendering.
#[derive(Debug)]
pub enum Fragment {
    /// A mapping with the single key given, whose value is the document.
    Named(String, Document),
    /// The document itself.
    Whole(Document),
}

impl View for Fragment {
    type V = FragmentView;

    open spec fn view(&self) -> FragmentView {
        match self {
            Fragment::Named(k, d) => FragmentView::Named(k@, d@),
            Fragment::Whole(d) => FragmentView::Whole(d@),
        }
    }
}

/// The reasons a run stops.
#[derive(Debug)]
pub enum ConfigError {
    /// The transport could not complete the request.
    Hyper(hyper::Error),
    /// The endpoint answered with a status outside 2xx; its code and body.
    HTTP(u16, String),
    /// The response body was not UTF-8.
    UTF8(std::str::Utf8Error),
    /// The response body was not JSON.
    JSON(serde_json::Error),
    /// The fragment could not be rendered as YAML.
    Yaml(serde_yaml::Error),
    /// A selected endpoint declares no resolvable 200 JSON response schema;
    /// its path.
    MissingSchema(String),
}

/// No two members share a key.
pub open spec fn keys_distinct(m: Seq<(Seq<char>, serde_json::Value)>) -> bool {
    forall|i: int, j: int| 0 <= i < j < m.len() ==> #[trigger] m[i].0 != #[trigger] m[j].0
}

/// Whether `text` is one JSON value, as serde_json reads it.
pub uninterp spec fn json_valid(text: Seq<char>) -> bool;

/// The document that serde_json reads from valid JSON `text`.
pub uninterp spec fn json_doc_of(text: Seq<char>) -> DocView;

/// The YAML text that serde_yaml renders for `fragment`.
pub uninterp spec fn yaml_of(fragment: FragmentView) -> Seq<char>;

/// Relies on serde_json::from_str into serde_json::Value: it succeeds exactly
/// on valid JSON text; with the crate's `preserve_order` feature an object's
/// members keep the order of the text, and its map holds each key once.
#[verifier::external_body]
pub(crate) fn parse_json(text: &str) -> (r: Result<Document, serde_json::Error>)
    ensures
        r is Ok <==> json_valid(text@),
        r is Ok ==> r->Ok_0@ == json_doc_of(text@),
        r is Ok && r->Ok_0 is Object ==> keys_distinct(r->Ok_0@->Object_0),
{
    serde_json::from_str::<serde_json::Value>(text).map(|v| match v {
        serde_json::Value::Object(m) => Document::Object(m.into_iter().collect()),
        v => Document::Other(v),
    })
}

/// Relies on serde_yaml::to_string: renders the fragment, as a JSON value,
/// as one YAML document. Its serializer has no error path for a JSON value,
/// and it writes into a `Vec`, so it does not fail.
#[verifier::external_body]
pub(crate) fn render_yaml(fragment: Fragment) -> (r: Result<String, serde_yaml::Error>)
    ensures
        r is Ok,
        r->Ok_0@ == yaml_of(fragment@),
{
    let (key, doc) = match fragment {
        Fragment::Named(k, d) => (Some(k), d),
        Fragment::Whole(d) => (None, d),
    };
    let mut value = match doc {
        Document::Object(members) => serde_json::Value::Object(members.into_iter().collect()),
        Document::Other(v) => v,
    };
    if let Some(k) = key {
        value = serde_json::Value::Object(std::iter::once((k, value)).collect());
    }
    serde_yaml::to_string(&value)
}

} // verus!
