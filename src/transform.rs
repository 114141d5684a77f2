//! The shape of a response and the keys under which it is placed.

use vstd::prelude::*;

use crate::codec::{keys_distinct, members_view, DocView, Document, Fragment, FragmentView};
use crate::naming::{key_name, key_of, prefix_name, prefix_of};
use crate::select::Schema;

verus! {

/// The shape of a response, from what its schema declares.
#[derive(Clone, Copy, Debug, PartialEq, Eq, Structural)]
pub enum Shape {
    /// Neither additional properties nor items: one named whole.
    Fixed,
    /// Additional properties only: an open-ended map.
    Open,
    /// Items only: a list.
    List,
    /// Both additional properties and items.
    OpenList,
}

pub open spec fn shape_of(s: Schema) -> Shape {
    if s.additional_properties && s.items {
        Shape::OpenList
    } else if s.additional_properties {
        Shape::Open
    } else if s.items {
        Shape::List
    } else {
        Shape::Fixed
    }
}

/// Responses of every shape but the fixed one are collections of named
/// entries.
pub open spec fn is_plural(s: Shape) -> bool {
    !(s is Fixed)
}

/// `key` under `prefix`: the two joined by a space.
pub open spec fn prefixed(prefix: Seq<char>, key: Seq<char>) -> Seq<char> {
    prefix + seq![' '] + key
}

/// The members of `m`, in order, each key put under `prefix` and each value
/// unchanged.
pub open spec fn rename(prefix: Seq<char>, m: Seq<(Seq<char>, serde_json::Value)>) -> Seq<
    (Seq<char>, serde_json::Value),
> {
    m.map_values(|p: (Seq<char>, serde_json::Value)| (prefixed(prefix, p.0), p.1))
}

/// The fragment that `doc`, fetched from `path`, becomes under `schema`:
/// wrapped under the key of the path for a fixed shape; otherwise an
/// object's members each under the prefix of the path, and any other value
/// unchanged.
pub open spec fn fragment_of(schema: Schema, path: Seq<char>, doc: DocView) -> FragmentView {
    if !is_plural(shape_of(schema)) {
        FragmentView::Named(key_of(path), doc)
    } else {
        match doc {
            DocView::Object(m) => FragmentView::Whole(DocView::Object(rename(prefix_of(path), m))),
            DocView::Other(v) => FragmentView::Whole(DocView::Other(v)),
        }
    }
}

/// Keys under one prefix are equal only where they were equal before.
proof fn lemma_prefixed_injective(prefix: Seq<char>, a: Seq<char>, b: Seq<char>)
    requires
        prefixed(prefix, a) == prefixed(prefix, b),
    ensures
        a == b,
{
    let n = prefix.len() + 1int;
    assert(prefixed(prefix, a).subrange(n, prefixed(prefix, a).len() as int) =~= a);
    assert(prefixed(prefix, b).subrange(n, prefixed(prefix, b).len() as int) =~= b);
}

/// Putting the keys under one prefix keeps them distinct.
pub proof fn lemma_rename_keeps_keys_distinct(
    prefix: Seq<char>,
    m: Seq<(Seq<char>, serde_json::Value)>,
)
    requires
        keys_distinct(m),
    ensures
        keys_distinct(rename(prefix, m)),
{
    let r = rename(prefix, m);
    assert forall|i: int, j: int| 0 <= i < j < r.len() implies #[trigger] r[i].0 != #[trigger] r[j].0 by {
        if r[i].0 == r[j].0 {
            lemma_prefixed_injective(prefix, m[i].0, m[j].0);
        }
    }
}

impl Shape {
    pub fn classify(schema: Schema) -> (r: Shape)
        ensures
            r == shape_of(schema),
    {
        if schema.additional_properties && schema.items {
            Shape::OpenList
        } else if schema.additional_properties {
            Shape::Open
        } else if schema.items {
            Shape::List
        } else {
            Shape::Fixed
        }
    }
}

/// Puts every key of `mapping` under the prefix derived from `path`.
pub fn transform_mapping(path: &str, mapping: Vec<(String, serde_json::Value)>) -> (r: Vec<
    (String, serde_json::Value),
>)
    ensures
        members_view(r@) == rename(prefix_of(path@), members_view(mapping@)),
        keys_distinct(members_view(mapping@)) ==> keys_distinct(members_view(r@)),
{
    let prefix = prefix_name(path);
    let ghost orig = mapping@;
    let mut rest = mapping;
    let mut out: Vec<(String, serde_json::Value)> = Vec::new();
    while rest.len() > 0
        invariant
            prefix@ == prefix_of(path@),
            out@.len() + rest@.len() == orig.len(),
            rest@ == orig.subrange(out@.len() as int, orig.len() as int),
            forall|i: int|
                0 <= i < out@.len() ==> #[trigger] out@[i].0@ == prefixed(prefix@, orig[i].0@)
                    && out@[i].1 == orig[i].1,
        decreases rest.len(),
    {
        let ghost k = out@.len() as int;
        let (key, value) = rest.remove(0);
        assert(orig[k] == (key, value));
        let mut new_key = prefix.clone();
        new_key.append(" ");
        new_key.append(key.as_str());
        proof {
            reveal_strlit(" ");
        }
        assert(new_key@ =~= prefixed(prefix@, key@));
        out.push((new_key, value));
        assert(rest@ =~= orig.subrange(out@.len() as int, orig.len() as int));
    }
    assert(members_view(out@) =~= rename(prefix@, members_view(orig)));
    proof {
        if keys_distinct(members_view(orig)) {
            lemma_rename_keeps_keys_distinct(prefix@, members_view(orig));
        }
    }
    out
}

/// The fragment that the document fetched from `path` becomes: under the
/// key of the path for a fixed shape; otherwise with each member of an
/// object put under the prefix of the path, and any other value unchanged.
pub fn transform(schema: Schema, path: &str, doc: Document) -> (r: Fragment)
    ensures
        r@ == fragment_of(schema, path@, doc@),
{
    match Shape::classify(schema) {
        Shape::Fixed => Fragment::Named(key_name(path), doc),
        _ => match doc {
            Document::Object(m) => Fragment::Whole(Document::Object(transform_mapping(path, m))),
            other => Fragment::Whole(other),
        },
    }
}

} // verus!
