//! Properties of the endpoint selection, proved over its spec functions.

use vstd::prelude::*;

use crate::config::{joined, rendered};
use crate::naming::trim_slashes;
use crate::select::{
    Schema, endpoint_of, has_config_tag, select_paths, select_specs, selected, PathEntry, ValidatedSpec,
};

verus! {

/// Selecting from two runs of paths one after the other gives the
/// selection from the first followed by that from the second: the declared
/// order is kept.
pub proof fn lemma_select_paths_append(a: Seq<PathEntry>, b: Seq<PathEntry>, prefix: Seq<char>)
    ensures
        select_paths(a + b, prefix) == select_paths(a, prefix) + select_paths(b, prefix),
    decreases b.len(),
{
    if b.len() == 0 {
        assert(a + b =~= a);
        assert(select_paths(a, prefix) + select_paths(b, prefix) =~= select_paths(a, prefix));
    } else {
        assert((a + b).drop_last() =~= a + b.drop_last());
        assert((a + b).last() == b.last());
        lemma_select_paths_append(a, b.drop_last(), prefix);
        if selected(b.last(), prefix) {
            assert(select_paths(a + b, prefix) =~= select_paths(a, prefix) + select_paths(
                b,
                prefix,
            ));
        } else {
            assert(select_paths(a + b, prefix) =~= select_paths(a, prefix) + select_paths(
                b,
                prefix,
            ));
        }
    }
}

/// Selecting from two lists of descriptions one after the other gives the
/// selection from the first followed by that from the second: the order of
/// the descriptions is kept.
pub proof fn lemma_select_specs_append(
    a: Seq<ValidatedSpec>,
    b: Seq<ValidatedSpec>,
    prefix: Seq<char>,
)
    ensures
        select_specs(a + b, prefix) == select_specs(a, prefix) + select_specs(b, prefix),
    decreases b.len(),
{
    if b.len() == 0 {
        assert(a + b =~= a);
        assert(select_specs(a, prefix) + select_specs(b, prefix) =~= select_specs(a, prefix));
    } else {
        assert((a + b).drop_last() =~= a + b.drop_last());
        assert((a + b).last() == b.last());
        lemma_select_specs_append(a, b.drop_last(), prefix);
        assert(select_specs(a + b, prefix) =~= select_specs(a, prefix) + select_specs(b, prefix));
    }
}

/// `x` is the endpoint of a selected entry of `paths`.
pub open spec fn from_selected(paths: Seq<PathEntry>, prefix: Seq<char>, x: (Seq<char>, Option<Schema>)) -> bool {
    exists|j: int| 0 <= j < paths.len() && selected(#[trigger] paths[j], prefix) && endpoint_of(paths[j]) == x
}

/// Every endpoint that the selection yields comes from a selected entry of
/// the paths, and every selected entry yields one.
pub proof fn lemma_select_paths_members(paths: Seq<PathEntry>, prefix: Seq<char>)
    ensures
        forall|k: int|
            0 <= k < select_paths(paths, prefix).len() ==> from_selected(
                paths,
                prefix,
                #[trigger] select_paths(paths, prefix)[k],
            ),
        forall|j: int|
            0 <= j < paths.len() && selected(#[trigger] paths[j], prefix) ==> select_paths(
                paths,
                prefix,
            ).contains(endpoint_of(paths[j])),
    decreases paths.len(),
{
    if paths.len() > 0 {
        let init = paths.drop_last();
        lemma_select_paths_members(init, prefix);
        let r = select_paths(paths, prefix);
        let ri = select_paths(init, prefix);
        assert forall|k: int| 0 <= k < r.len() implies from_selected(paths, prefix, #[trigger] r[k]) by {
            if k < ri.len() {
                assert(r[k] == ri[k]);
                assert(from_selected(init, prefix, ri[k]));
                let j = choose|j: int|
                    0 <= j < init.len() && selected(#[trigger] init[j], prefix) && endpoint_of(
                        init[j],
                    ) == ri[k];
                assert(paths[j] == init[j]);
                assert(selected(paths[j], prefix) && endpoint_of(paths[j]) == r[k]);
            } else {
                let j = paths.len() - 1;
                assert(paths[j] == paths.last());
                if !selected(paths.last(), prefix) {
                    assert(r == ri);
                }
                assert(r == ri.push(endpoint_of(paths.last())));
                assert(selected(paths[j], prefix) && endpoint_of(paths[j]) == r[k]);
            }
        }
        assert forall|j: int| 0 <= j < paths.len() && selected(#[trigger] paths[j], prefix) implies r.contains(
            endpoint_of(paths[j]),
        ) by {
            if j < init.len() {
                assert(paths[j] == init[j]);
                let k = choose|k: int| 0 <= k < ri.len() && ri[k] == endpoint_of(init[j]);
                assert(r[k] == ri[k]);
            } else {
                assert(paths[j] == paths.last());
                assert(r[r.len() - 1] == endpoint_of(paths[j]));
            }
        }
    } else {
        assert(select_paths(paths, prefix).len() == 0);
    }
}

/// An operation that declares a parameter is never selected, whatever its
/// tags.
pub proof fn lemma_parameters_exclude(e: PathEntry, prefix: Seq<char>)
    requires
        e.get is Some,
        e.get->Some_0.parameter_count >= 1,
    ensures
        !selected(e, prefix),
{
}

/// An operation without the `config` tag is never selected, whatever its
/// parameters.
pub proof fn lemma_config_tag_required(e: PathEntry, prefix: Seq<char>)
    requires
        !has_config_tag(e.get->Some_0.tags@),
    ensures
        !selected(e, prefix),
{
}

/// An operation that qualifies otherwise is selected exactly when its path,
/// slashes trimmed, begins with the prefix.
pub proof fn lemma_prefix_filter(e: PathEntry, prefix: Seq<char>)
    requires
        e.get is Some,
        e.get->Some_0.parameter_count == 0,
        has_config_tag(e.get->Some_0.tags@),
    ensures
        selected(e, prefix) <==> prefix.is_prefix_of(trim_slashes(e.path@)),
{
}

/// Replacing an entry that is not selected by another that is not selected
/// leaves the selection from the paths as it was.
pub proof fn lemma_replace_unselected_path(
    paths: Seq<PathEntry>,
    j: int,
    e: PathEntry,
    prefix: Seq<char>,
)
    requires
        0 <= j < paths.len(),
        !selected(paths[j], prefix),
        !selected(e, prefix),
    ensures
        select_paths(paths.update(j, e), prefix) == select_paths(paths, prefix),
    decreases paths.len(),
{
    let q = paths.update(j, e);
    if j == paths.len() - 1 {
        assert(q.drop_last() =~= paths.drop_last());
    } else {
        assert(q.drop_last() =~= paths.drop_last().update(j, e));
        assert(q.last() == paths.last());
        lemma_replace_unselected_path(paths.drop_last(), j, e, prefix);
    }
}

/// Where the descriptions `specs2` differ from `specs` only in one entry,
/// neither version of which is selected (an operation with a parameter,
/// without the `config` tag, or removed), the selection is the same, and so
/// is the output of a run on the same answers.
pub proof fn lemma_unselected_entry_changes_nothing(
    specs: Seq<ValidatedSpec>,
    specs2: Seq<ValidatedSpec>,
    k: int,
    j: int,
    e: PathEntry,
    prefix: Seq<char>,
    bodies: Seq<Seq<char>>,
)
    requires
        specs2.len() == specs.len(),
        0 <= k < specs.len(),
        0 <= j < specs[k].paths@.len(),
        forall|i: int| 0 <= i < specs.len() && i != k ==> #[trigger] specs2[i].paths@ == specs[i].paths@,
        specs2[k].paths@ == specs[k].paths@.update(j, e),
        !selected(specs[k].paths@[j], prefix),
        !selected(e, prefix),
    ensures
        select_specs(specs2, prefix) == select_specs(specs, prefix),
        joined(rendered(select_specs(specs2, prefix), bodies)) == joined(
            rendered(select_specs(specs, prefix), bodies),
        ),
    decreases specs.len(),
{
    if k == specs.len() - 1 {
        lemma_same_paths_same_selection(specs.drop_last(), specs2.drop_last(), prefix);
        lemma_replace_unselected_path(specs[k].paths@, j, e, prefix);
    } else {
        assert(specs2.last().paths@ == specs.last().paths@);
        lemma_unselected_entry_changes_nothing(
            specs.drop_last(),
            specs2.drop_last(),
            k,
            j,
            e,
            prefix,
            bodies,
        );
    }
}

/// Descriptions with the same paths give the same selection.
pub proof fn lemma_same_paths_same_selection(
    specs: Seq<ValidatedSpec>,
    specs2: Seq<ValidatedSpec>,
    prefix: Seq<char>,
)
    requires
        specs2.len() == specs.len(),
        forall|i: int| 0 <= i < specs.len() ==> #[trigger] specs2[i].paths@ == specs[i].paths@,
    ensures
        select_specs(specs2, prefix) == select_specs(specs, prefix),
    decreases specs.len(),
{
    if specs.len() > 0 {
        assert(specs2.last().paths@ == specs.last().paths@);
        lemma_same_paths_same_selection(specs.drop_last(), specs2.drop_last(), prefix);
    }
}

} // verus!
