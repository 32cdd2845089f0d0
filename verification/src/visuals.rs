//! Bookkeeping of client-side visuals that mirror replicated entities
//! (placed buildings, ground items): which sources still lack a visual and
//! which visuals outlived their source.

use vstd::prelude::*;
use crate::audio::contains_u64;

verus! {

broadcast use vstd::seq_lib::group_seq_properties;

/// Whether no visual shows a source.
pub open spec fn unshown(visual_targets: Seq<u64>) -> spec_fn(u64) -> bool {
    |b: u64| !visual_targets.contains(b)
}

/// Whether a (visual, source) pair's source is gone.
pub open spec fn source_gone(sources: Seq<u64>) -> spec_fn((u64, u64)) -> bool {
    |v: (u64, u64)| !sources.contains(v.1)
}

/// The visual entity of a (visual, source) pair.
pub open spec fn visual_of() -> spec_fn((u64, u64)) -> u64 {
    |v: (u64, u64)| v.0
}

/// The sources that no visual shows yet.
pub open spec fn missing_visuals_spec(sources: Seq<u64>, visual_targets: Seq<u64>) -> Seq<u64> {
    sources.filter(unshown(visual_targets))
}

/// The visuals whose source is gone.
pub open spec fn orphaned_visuals_spec(visuals: Seq<(u64, u64)>, sources: Seq<u64>) -> Seq<u64> {
    visuals.filter(source_gone(sources)).map_values(visual_of())
}

/// The sources (`buildings`) that no visual shows yet (`visual_targets` are
/// the sources that visuals show), in order.
pub fn missing_visuals(buildings: &Vec<u64>, visual_targets: &Vec<u64>) -> (fresh: Vec<u64>)
    ensures
        fresh@ == missing_visuals_spec(buildings@, visual_targets@),
{
    let ghost pred = unshown(visual_targets@);
    let mut fresh: Vec<u64> = Vec::new();
    let mut i: usize = 0;
    while i < buildings.len()
        invariant
            0 <= i <= buildings.len(),
            pred == unshown(visual_targets@),
            fresh@ == buildings@.take(i as int).filter(pred),
        decreases buildings.len() - i,
    {
        proof {
            buildings@.take(i as int).lemma_filter_push(buildings@[i as int], pred);
            assert(buildings@.take(i + 1) =~= buildings@.take(i as int).push(buildings@[i as int]));
        }
        if !contains_u64(visual_targets, buildings[i]) {
            fresh.push(buildings[i]);
        }
        i += 1;
    }
    assert(buildings@.take(buildings.len() as int) =~= buildings@);
    fresh
}

/// The visuals whose source is gone: `visuals` pairs each visual entity
/// with the source entity it shows.
pub fn orphaned_visuals(visuals: &Vec<(u64, u64)>, buildings: &Vec<u64>) -> (stale: Vec<u64>)
    ensures
        stale@ == orphaned_visuals_spec(visuals@, buildings@),
{
    let ghost pred = source_gone(buildings@);
    let ghost f = visual_of();
    let mut stale: Vec<u64> = Vec::new();
    let mut i: usize = 0;
    while i < visuals.len()
        invariant
            0 <= i <= visuals.len(),
            pred == source_gone(buildings@),
            f == visual_of(),
            stale@ == visuals@.take(i as int).filter(pred).map_values(f),
        decreases visuals.len() - i,
    {
        let v = visuals[i];
        proof {
            visuals@.take(i as int).lemma_filter_push(v, pred);
            assert(visuals@.take(i + 1) =~= visuals@.take(i as int).push(v));
        }
        if !contains_u64(buildings, v.1) {
            stale.push(v.0);
            proof {
                let g = visuals@.take(i as int).filter(pred);
                assert(g.push(v).map_values(f) =~= g.map_values(f).push(v.0));
            }
        }
        i += 1;
    }
    assert(visuals@.take(visuals.len() as int) =~= visuals@);
    stale
}

/// A source gets a new visual exactly when no visual shows it yet; a visual
/// is removed exactly when its source is gone.
pub proof fn lemma_visuals_mirror_sources(sources: Seq<u64>, visual_targets: Seq<u64>, visuals: Seq<(u64, u64)>)
    ensures
        forall|k: int| 0 <= k < sources.len() ==>
            (missing_visuals_spec(sources, visual_targets).contains(#[trigger] sources[k]) <==> !visual_targets.contains(sources[k])),
        forall|k: int| 0 <= k < visuals.len() ==>
            (visuals.filter(source_gone(sources)).contains(#[trigger] visuals[k]) <==> !sources.contains(visuals[k].1)),
        forall|k: int| 0 <= k < visuals.len() && !sources.contains(visuals[k].1) ==>
            orphaned_visuals_spec(visuals, sources).contains(#[trigger] visuals[k].0),
{
    broadcast use vstd::seq_lib::group_filter_ensures;
    assert forall|k: int| 0 <= k < sources.len() implies
        (missing_visuals_spec(sources, visual_targets).contains(#[trigger] sources[k]) <==> !visual_targets.contains(sources[k])) by {
        let f = missing_visuals_spec(sources, visual_targets);
        if f.contains(sources[k]) {
            let j = choose|j: int| 0 <= j < f.len() && f[j] == sources[k];
            assert(unshown(visual_targets)(f[j]));
        } else {
            assert(sources.contains(sources[k]));
        }
    }
    assert forall|k: int| 0 <= k < visuals.len() implies
        (visuals.filter(source_gone(sources)).contains(#[trigger] visuals[k]) <==> !sources.contains(visuals[k].1)) by {
        let f = visuals.filter(source_gone(sources));
        if f.contains(visuals[k]) {
            let j = choose|j: int| 0 <= j < f.len() && f[j] == visuals[k];
            assert(source_gone(sources)(f[j]));
        } else {
            assert(visuals.contains(visuals[k]));
        }
    }
    assert forall|k: int| 0 <= k < visuals.len() && !sources.contains(visuals[k].1) implies
        orphaned_visuals_spec(visuals, sources).contains(#[trigger] visuals[k].0) by {
        let f = visuals.filter(source_gone(sources));
        assert(visuals.contains(visuals[k]));
        assert(source_gone(sources)(visuals[k]));
        assert(f.contains(visuals[k]));
        let j = choose|j: int| 0 <= j < f.len() && f[j] == visuals[k];
        let m = f.map_values(visual_of());
        assert(m[j] == visuals[k].0);
    }
}

/// After visuals for the missing sources are added, every source has one,
/// and a second pass finds nothing missing.
pub proof fn lemma_visuals_complete(buildings: Seq<u64>, visual_targets: Seq<u64>)
    ensures
        ({
            let after = visual_targets + missing_visuals_spec(buildings, visual_targets);
            &&& forall|k: int| 0 <= k < buildings.len() ==> after.contains(#[trigger] buildings[k])
            &&& missing_visuals_spec(buildings, after).len() == 0
        }),
{
    let pred = unshown(visual_targets);
    let fresh = buildings.filter(pred);
    let after = visual_targets + fresh;
    assert forall|k: int| 0 <= k < buildings.len() implies after.contains(#[trigger] buildings[k]) by {
        let b = buildings[k];
        if visual_targets.contains(b) {
            let j = choose|j: int| 0 <= j < visual_targets.len() && visual_targets[j] == b;
            assert(after[j] == b);
        } else {
            buildings.lemma_filter_contains(pred, k);
            let j = choose|j: int| 0 <= j < fresh.len() && fresh[j] == b;
            assert(after[visual_targets.len() + j] == b);
        }
    }
    let pred2 = unshown(after);
    let left = buildings.filter(pred2);
    if left.len() > 0 {
        broadcast use vstd::seq_lib::group_filter_ensures;
        let b = left[0];
        assert(pred2(b));
        assert(left.contains(b));
        buildings.lemma_filter_contains_rev(pred2, b);
        let k = choose|k: int| 0 <= k < buildings.len() && buildings[k] == b;
        assert(after.contains(buildings[k]));
    }
}


/// The parent of `e` in a hierarchy given as (child, parent) pairs: the
/// first pair naming `e` as the child.
pub open spec fn parent_in(parents: Seq<(u64, u64)>, e: u64) -> Option<u64>
    decreases parents.len(),
{
    if parents.len() == 0 {
        None
    } else if parents[0].0 == e {
        Some(parents[0].1)
    } else {
        parent_in(parents.drop_first(), e)
    }
}

/// The nearest entity, from `e` up through its ancestors (at most `steps`
/// parent links), that carries a render tuning.
pub open spec fn tuned_ancestor(parents: Seq<(u64, u64)>, tuned: Seq<u64>, e: u64, steps: nat) -> Option<u64>
    decreases steps,
{
    if tuned.contains(e) {
        Some(e)
    } else if steps == 0 {
        None
    } else {
        match parent_in(parents, e) {
            Some(p) => tuned_ancestor(parents, tuned, p, (steps - 1) as nat),
            None => None,
        }
    }
}

fn parent_of(parents: &Vec<(u64, u64)>, e: u64) -> (r: Option<u64>)
    ensures
        r == parent_in(parents@, e),
{
    let mut i: usize = 0;
    while i < parents.len()
        invariant
            0 <= i <= parents.len(),
            parent_in(parents@, e) == parent_in(parents@.skip(i as int), e),
        decreases parents.len() - i,
    {
        assert(parents@.skip(i as int).drop_first() =~= parents@.skip(i + 1));
        if parents[i].0 == e {
            return Some(parents[i].1);
        }
        i += 1;
    }
    None
}

/// For each newly added mesh, the entity whose render tuning applies to it:
/// the nearest of the mesh and its ancestors carrying one (`None` when none
/// does). `parents` lists each child with its parent; a hierarchy has no
/// cycles, so no chain is longer than `parents`.
pub fn apply_prop_render_tuning(new_meshes: &Vec<u64>, parents: &Vec<(u64, u64)>, tuned: &Vec<u64>) -> (r: Vec<Option<u64>>)
    ensures
        r@.len() == new_meshes@.len(),
        forall|k: int| 0 <= k < new_meshes@.len() ==> #[trigger] r@[k] == tuned_ancestor(parents@, tuned@, new_meshes@[k], parents@.len()),
{
    let mut r: Vec<Option<u64>> = Vec::new();
    let mut k: usize = 0;
    while k < new_meshes.len()
        invariant
            0 <= k <= new_meshes.len(),
            r@.len() == k,
            forall|j: int| 0 <= j < k ==> #[trigger] r@[j] == tuned_ancestor(parents@, tuned@, new_meshes@[j], parents@.len()),
        decreases new_meshes.len() - k,
    {
        let start = new_meshes[k];
        let mut current = start;
        let mut steps: usize = parents.len();
        let mut found: Option<u64> = None;
        loop
            invariant_except_break
                steps <= parents.len(),
                found is None,
                tuned_ancestor(parents@, tuned@, start, parents@.len()) == tuned_ancestor(parents@, tuned@, current, steps as nat),
            ensures
                found == tuned_ancestor(parents@, tuned@, start, parents@.len()),
            decreases steps,
        {
            if contains_u64(tuned, current) {
                found = Some(current);
                break;
            }
            if steps == 0 {
                break;
            }
            match parent_of(parents, current) {
                Some(p) => {
                    current = p;
                    steps -= 1;
                },
                None => {
                    break;
                },
            }
        }
        r.push(found);
        k += 1;
    }
    r
}

} // verus!
