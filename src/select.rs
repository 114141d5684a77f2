//! The API descriptions as the selection reads them, and the choice of the
//! endpoints whose responses make up the running configuration.

use vstd::prelude::*;

use crate::naming::{trim_slashes, trim_slashes_of};

verus! {

/// What the 200 JSON response schema of an operation declares.
#[derive(Clone, Copy, Debug, PartialEq, Eq, Structural)]
pub struct Schema {
    /// An "additional properties" sub-schema is declared: an open-ended map.
    pub additional_properties: bool,
    /// An "items" sub-schema is declared: a list.
    pub items: bool,
}

/// A GET operation of a path.
#[derive(Debug)]
pub struct Operation {
    pub tags: Vec<String>,
    pub parameter_count: usize,
    /// The schema of the 200 JSON response; `None` where it is not declared
    /// or cannot be resolved.
    pub schema: Option<Schema>,
}

/// A path of an API description, with its GET operation if it declares one.
#[derive(Debug)]
pub struct PathEntry {
    pub path: String,
    pub get: Option<Operation>,
}

/// An API description: its paths in declared order.
#[derive(Debug)]
pub struct ValidatedSpec {
    pub paths: Vec<PathEntry>,
}

/// A selected endpoint: its path and the schema of its response.
#[derive(Debug)]
pub struct Endpoint {
    pub path: String,
    pub schema: Option<Schema>,
}

impl View for Endpoint {
    type V = (Seq<char>, Option<Schema>);

    open spec fn view(&self) -> (Seq<char>, Option<Schema>) {
        (self.path@, self.schema)
    }
}

/// The tag that marks an operation as a source of configuration.
pub open spec fn config_tag() -> Seq<char> {
    seq!['c', 'o', 'n', 'f', 'i', 'g']
}

pub open spec fn has_config_tag(tags: Seq<String>) -> bool {
    exists|i: int| 0 <= i < tags.len() && #[trigger] tags[i]@ == config_tag()
}

/// An entry is selected iff it declares a GET operation without parameters
/// and with the `config` tag, and its path, slashes trimmed, begins with
/// `prefix`.
pub open spec fn selected(e: PathEntry, prefix: Seq<char>) -> bool {
    &&& e.get is Some
    &&& e.get->Some_0.parameter_count == 0
    &&& has_config_tag(e.get->Some_0.tags@)
    &&& prefix.is_prefix_of(trim_slashes(e.path@))
}

pub open spec fn endpoint_of(e: PathEntry) -> (Seq<char>, Option<Schema>) {
    (e.path@, e.get->Some_0.schema)
}

/// The selected entries of `paths`, in order.
pub open spec fn select_paths(paths: Seq<PathEntry>, prefix: Seq<char>) -> Seq<
    (Seq<char>, Option<Schema>),
>
    decreases paths.len(),
{
    if paths.len() == 0 {
        seq![]
    } else {
        let rest = select_paths(paths.drop_last(), prefix);
        if selected(paths.last(), prefix) {
            rest.push(endpoint_of(paths.last()))
        } else {
            rest
        }
    }
}

/// The selected entries of every description, descriptions in order and
/// paths in declared order.
pub open spec fn select_specs(specs: Seq<ValidatedSpec>, prefix: Seq<char>) -> Seq<
    (Seq<char>, Option<Schema>),
>
    decreases specs.len(),
{
    if specs.len() == 0 {
        seq![]
    } else {
        select_specs(specs.drop_last(), prefix) + select_paths(specs.last().paths@, prefix)
    }
}

/// Whether `prefix` is a prefix of `s`.
pub fn starts_with(s: &str, prefix: &str) -> (r: bool)
    ensures
        r == prefix@.is_prefix_of(s@),
{
    let n = prefix.unicode_len();
    let m = s.unicode_len();
    if n > m {
        return false;
    }
    let mut i: usize = 0;
    while i < n
        invariant
            i <= n <= m,
            n == prefix@.len(),
            m == s@.len(),
            forall|k: int| 0 <= k < i ==> prefix@[k] == s@[k],
        decreases n - i,
    {
        if prefix.get_char(i) != s.get_char(i) {
            return false;
        }
        i = i + 1;
    }
    true
}

/// Whether `tags` holds the `config` tag.
pub fn has_config(tags: &Vec<String>) -> (r: bool)
    ensures
        r == has_config_tag(tags@),
{
    let config = String::from_str("config");
    proof {
        reveal_strlit("config");
        assert(config@ =~= config_tag());
    }
    let mut i: usize = 0;
    while i < tags.len()
        invariant
            i <= tags@.len(),
            config@ == config_tag(),
            forall|k: int| 0 <= k < i ==> #[trigger] tags@[k]@ != config_tag(),
        decreases tags.len() - i,
    {
        if tags[i] == config {
            return true;
        }
        i = i + 1;
    }
    false
}

/// Whether the entry is a source of configuration under `prefix`.
pub fn is_selected(e: &PathEntry, prefix: &str) -> (r: bool)
    ensures
        r == selected(*e, prefix@),
{
    match &e.get {
        None => false,
        Some(op) => op.parameter_count == 0 && has_config(&op.tags) && starts_with(
            trim_slashes_of(e.path.as_str()),
            prefix,
        ),
    }
}

/// Appends to `out` the selected entries of `paths`, in declared order.
fn select_from(paths: &Vec<PathEntry>, prefix: &str, out: &mut Vec<Endpoint>)
    ensures
        final(out)@.map_values(|e: Endpoint| e@) == old(out)@.map_values(|e: Endpoint| e@)
            + select_paths(paths@, prefix@),
{
    let ghost start = out@.map_values(|e: Endpoint| e@);
    let mut i: usize = 0;
    assert(paths@.subrange(0, 0).len() == 0);
    while i < paths.len()
        invariant
            i <= paths@.len(),
            out@.map_values(|e: Endpoint| e@) == start + select_paths(
                paths@.subrange(0, i as int),
                prefix@,
            ),
        decreases paths.len() - i,
    {
        let e = &paths[i];
        assert(paths@.subrange(0, i + 1).drop_last() =~= paths@.subrange(0, i as int));
        assert(paths@.subrange(0, i + 1).last() == paths@[i as int]);
        let ghost before = out@;
        if is_selected(e, prefix) {
            let schema = match &e.get {
                Some(op) => op.schema,
                None => None,
            };
            let ep = Endpoint { path: e.path.clone(), schema };
            assert(ep@ == endpoint_of(*e));
            out.push(ep);
            assert(out@ == before.push(ep));
            assert(out@.map_values(|e: Endpoint| e@) =~= before.map_values(|e: Endpoint| e@).push(
                ep@,
            ));
            assert(out@.map_values(|e: Endpoint| e@) =~= start + select_paths(
                paths@.subrange(0, i + 1),
                prefix@,
            ));
        } else {
            assert(select_paths(paths@.subrange(0, i + 1), prefix@) == select_paths(
                paths@.subrange(0, i as int),
                prefix@,
            ));
        }
        i = i + 1;
    }
    assert(paths@.subrange(0, i as int) =~= paths@);
}

/// The endpoints selected from `specs` under `prefix`: descriptions in the
/// order given, and in each the paths in declared order.
pub fn select_endpoints(specs: &[ValidatedSpec], prefix: &str) -> (r: Vec<Endpoint>)
    ensures
        r@.map_values(|e: Endpoint| e@) == select_specs(specs@, prefix@),
{
    let mut out: Vec<Endpoint> = Vec::new();
    let mut i: usize = 0;
    assert(out@.map_values(|e: Endpoint| e@) =~= select_specs(specs@.subrange(0, 0), prefix@));
    while i < specs.len()
        invariant
            i <= specs@.len(),
            out@.map_values(|e: Endpoint| e@) == select_specs(
                specs@.subrange(0, i as int),
                prefix@,
            ),
        decreases specs.len() - i,
    {
        assert(specs@.subrange(0, i + 1).drop_last() =~= specs@.subrange(0, i as int));
        select_from(&specs[i].paths, prefix, &mut out);
        i = i + 1;
    }
    assert(specs@.subrange(0, i as int) =~= specs@);
    out
}

} // verus!
