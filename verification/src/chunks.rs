//! Terrain chunk streaming around the player, and the bookkeeping that keeps
//! props and structures spawned exactly for the loaded chunks.

use vstd::prelude::*;
use vstd::multiset::Multiset;

verus! {

broadcast use vstd::seq_lib::group_seq_properties;

/// A terrain chunk, by its grid position.
#[derive(Clone, Copy, Debug, PartialEq, Eq, Structural)]
pub struct ChunkCoord {
    pub x: i32,
    pub z: i32,
}

/// A set of chunks (no chunk twice), kept in insertion order.
#[derive(Debug)]
pub struct ChunkSet {
    items: Vec<ChunkCoord>,
}

impl View for ChunkSet {
    type V = Set<ChunkCoord>;

    closed spec fn view(&self) -> Set<ChunkCoord> {
        self.items@.to_set()
    }
}

impl ChunkSet {
    #[verifier::type_invariant]
    spec fn no_chunk_twice(self) -> bool {
        self.items@.no_duplicates()
    }

    /// The chunks in insertion order.
    pub closed spec fn order(self) -> Seq<ChunkCoord> {
        self.items@
    }

    /// An empty set.
    pub fn new() -> (r: ChunkSet)
        ensures
            r@ == Set::<ChunkCoord>::empty(),
            r.order() == Seq::<ChunkCoord>::empty(),
    {
        let r = ChunkSet { items: Vec::new() };
        assert(r@ =~= Set::<ChunkCoord>::empty());
        r
    }

    /// Whether `c` is in the set.
    pub fn contains(&self, c: ChunkCoord) -> (r: bool)
        ensures
            r == self@.contains(c),
    {
        let mut i: usize = 0;
        while i < self.items.len()
            invariant
                0 <= i <= self.items.len(),
                forall|j: int| 0 <= j < i ==> self.items@[j] != c,
            decreases self.items.len() - i,
        {
            if self.items[i] == c {
                assert(self.items@.contains(c));
                return true;
            }
            i += 1;
        }
        false
    }

    /// Adds `c`; a chunk already present keeps its place.
    pub fn insert(&mut self, c: ChunkCoord)
        ensures
            final(self)@ == old(self)@.insert(c),
            final(self).order() == (if old(self)@.contains(c) { old(self).order() } else { old(self).order().push(c) }),
    {
        proof { use_type_invariant(&*self); }
        if !self.contains(c) {
            let mut items = Vec::new();
            std::mem::swap(&mut items, &mut self.items);
            let ghost before = items@;
            items.push(c);
            proof {
                assert(items@.no_duplicates()) by {
                    assert forall|a: int, b: int| 0 <= a < items@.len() && 0 <= b < items@.len() && a != b
                        implies items@[a] != items@[b] by {
                        if a < before.len() && b < before.len() {
                        } else if a == before.len() {
                            assert(before.contains(before[b]));
                        } else {
                            assert(before.contains(before[a]));
                        }
                    }
                }
                assert(items@.to_set() =~= before.to_set().insert(c));
            }
            self.items = items;
        } else {
            assert(old(self)@.insert(c) =~= old(self)@);
        }
    }

    /// Removes `c` if present; the others keep their order.
    pub fn remove(&mut self, c: ChunkCoord)
        ensures
            final(self)@ == old(self)@.remove(c),
            final(self).order() == old(self).order().filter(|x: ChunkCoord| x != c),
    {
        proof { use_type_invariant(&*self); }
        let mut items = Vec::new();
        std::mem::swap(&mut items, &mut self.items);
        let ghost before = items@;
        let ghost pred = |x: ChunkCoord| x != c;
        let mut kept: Vec<ChunkCoord> = Vec::new();
        let mut i: usize = 0;
        while i < items.len()
            invariant
                0 <= i <= items.len(),
                items@ == before,
                pred == (|x: ChunkCoord| x != c),
                before.no_duplicates(),
                kept@ == before.take(i as int).filter(pred),
                kept@.no_duplicates(),
                forall|x: ChunkCoord| kept@.contains(x) <==> (before.take(i as int).contains(x) && x != c),
            decreases items.len() - i,
        {
            let x = items[i];
            proof {
                assert(before.take(i + 1) =~= before.take(i as int).push(x));
                                before.take(i as int).lemma_filter_push(x, pred);
                assert(pred(x) == (x != c));
                assert(before.take(i + 1).filter(pred) == (if x != c {
                    before.take(i as int).filter(pred).push(x)
                } else {
                    before.take(i as int).filter(pred)
                }));
            }
            if x != c {
                proof {
                    assert(!kept@.contains(x)) by {
                        if kept@.contains(x) {
                            let k = choose|k: int| 0 <= k < i && before[k] == x;
                            assert(before.take(i as int)[k] == x);
                        }
                    }
                }
                let ghost old_kept = kept@;
                kept.push(x);
                proof {
                    assert forall|a: int, b: int| 0 <= a < kept@.len() && 0 <= b < kept@.len() && a != b
                        implies kept@[a] != kept@[b] by {
                        if a < old_kept.len() && b < old_kept.len() {
                        } else if a == old_kept.len() {
                            assert(old_kept.contains(old_kept[b]));
                        } else {
                            assert(old_kept.contains(old_kept[a]));
                        }
                    }
                }
            }
            i += 1;
        }
        proof {
            assert(before.take(items.len() as int) =~= before);
            assert(kept@.to_set() =~= before.to_set().remove(c));
        }
        self.items = kept;
    }

    /// The number of chunks in the set.
    pub fn len(&self) -> (r: usize)
        ensures
            r == self@.len(),
            self@.finite(),
    {
        proof {
            use_type_invariant(self);
            self.items@.unique_seq_to_set();
        }
        self.items.len()
    }

    /// The chunks in insertion order, as a vector.
    pub fn to_vec(&self) -> (r: Vec<ChunkCoord>)
        ensures
            r@ == self.order(),
            r@.no_duplicates(),
            r@.to_set() == self@,
    {
        proof { use_type_invariant(self); }
        let mut r: Vec<ChunkCoord> = Vec::new();
        let mut i: usize = 0;
        while i < self.items.len()
            invariant
                0 <= i <= self.items.len(),
                r@ == self.items@.take(i as int),
            decreases self.items.len() - i,
        {
            r.push(self.items[i]);
            assert(self.items@.take(i + 1) =~= self.items@.take(i as int).push(self.items@[i as int]));
            i += 1;
        }
        assert(self.items@.take(self.items.len() as int) =~= self.items@);
        r
    }
}

/// The terrain chunks that are currently loaded.
#[derive(Debug)]
pub struct LoadedChunks {
    pub chunks: ChunkSet,
}

/// The chunks whose props have been spawned.
#[derive(Debug)]
pub struct LoadedPropChunks {
    pub chunks: ChunkSet,
}

/// The chunks whose settlement structures have been spawned.
#[derive(Debug)]
pub struct LoadedStructureChunks {
    pub chunks: ChunkSet,
}

/// The loaded chunks that do not have their content yet, in loaded order.
pub open spec fn chunks_needing_content(loaded: Seq<ChunkCoord>, have: Set<ChunkCoord>) -> Seq<ChunkCoord> {
    loaded.filter(|c: ChunkCoord| !have.contains(c))
}

/// The entities (of `owners`) whose chunk had content but is no longer loaded.
pub open spec fn stale_owners(owners: Seq<(u64, ChunkCoord)>, have: Set<ChunkCoord>, loaded: Set<ChunkCoord>) -> Seq<(u64, ChunkCoord)> {
    owners.filter(|o: (u64, ChunkCoord)| have.contains(o.1) && !loaded.contains(o.1))
}

/// Marks every loaded chunk as having content and returns the ones that need
/// their content spawned now, in loaded order.
fn spawn_missing(loaded: &ChunkSet, have: &mut ChunkSet) -> (r: Vec<ChunkCoord>)
    ensures
        r@ == chunks_needing_content(loaded.order(), old(have)@),
        final(have)@ == old(have)@.union(loaded@),
{
    let order = loaded.to_vec();
    let ghost h0 = have@;
    let ghost pred = |c: ChunkCoord| !h0.contains(c);
    let mut r: Vec<ChunkCoord> = Vec::new();
    let mut i: usize = 0;
    while i < order.len()
        invariant
            0 <= i <= order.len(),
            order@.no_duplicates(),
            pred == (|c: ChunkCoord| !h0.contains(c)),
            r@ == order@.take(i as int).filter(pred),
            have@ == h0.union(order@.take(i as int).to_set()),
        decreases order.len() - i,
    {
        let c = order[i];
        proof {
            assert(order@.take(i + 1) =~= order@.take(i as int).push(c));
            order@.take(i as int).lemma_filter_push(c, pred);
            assert(pred(c) == !h0.contains(c));
            assert(!order@.take(i as int).contains(c)) by {
                if order@.take(i as int).contains(c) {
                    let k = choose|k: int| 0 <= k < i && order@.take(i as int)[k] == c;
                    assert(order@[k] == order@[i as int]);
                }
            }
        }
        if !have.contains(c) {
            r.push(c);
            have.insert(c);
        }
        proof {
            assert(order@.take(i + 1).to_set() =~= order@.take(i as int).to_set().insert(c));
            assert(have@ =~= h0.union(order@.take(i + 1).to_set()));
        }
        i += 1;
    }
    proof {
        assert(order@.take(order.len() as int) =~= order@);
    }
    r
}

/// Forgets the content of every chunk that is no longer loaded and returns
/// the owning entities to despawn, in the order given.
fn cleanup_stale(loaded: &ChunkSet, have: &mut ChunkSet, owners: &Vec<(u64, ChunkCoord)>) -> (r: Vec<u64>)
    ensures
        r@ == stale_owners(owners@, old(have)@, loaded@).map_values(|o: (u64, ChunkCoord)| o.0),
        final(have)@ == old(have)@.intersect(loaded@),
{
    let ghost h0 = have@;
    let ghost pred = |o: (u64, ChunkCoord)| h0.contains(o.1) && !loaded@.contains(o.1);
    let mut r: Vec<u64> = Vec::new();
    let mut i: usize = 0;
    while i < owners.len()
        invariant
            0 <= i <= owners.len(),
            have@ == h0,
            pred == (|o: (u64, ChunkCoord)| h0.contains(o.1) && !loaded@.contains(o.1)),
            r@ == owners@.take(i as int).filter(pred).map_values(|o: (u64, ChunkCoord)| o.0),
        decreases owners.len() - i,
    {
        let o = owners[i];
        proof {
            assert(owners@.take(i + 1) =~= owners@.take(i as int).push(o));
            owners@.take(i as int).lemma_filter_push(o, pred);
            assert(pred(o) == (h0.contains(o.1) && !loaded@.contains(o.1)));
        }
        if have.contains(o.1) && !loaded.contains(o.1) {
            r.push(o.0);
            proof {
                let f = owners@.take(i as int).filter(pred);
                assert(f.push(o).map_values(|o: (u64, ChunkCoord)| o.0)
                    =~= f.map_values(|o: (u64, ChunkCoord)| o.0).push(o.0));
            }
        }
        i += 1;
    }
    proof {
        assert(owners@.take(owners.len() as int) =~= owners@);
    }
    let order = have.to_vec();
    let mut j: usize = 0;
    while j < order.len()
        invariant
            0 <= j <= order.len(),
            order@.to_set() == h0,
            have@ == h0.difference(order@.take(j as int).to_set().difference(loaded@)),
        decreases order.len() - j,
    {
        let c = order[j];
        if !loaded.contains(c) {
            have.remove(c);
        }
        proof {
            assert(order@.take(j + 1) =~= order@.take(j as int).push(c));
            assert(order@.take(j + 1).to_set() =~= order@.take(j as int).to_set().insert(c));
            assert(have@ =~= h0.difference(order@.take(j + 1).to_set().difference(loaded@)));
        }
        j += 1;
    }
    proof {
        assert(order@.take(order.len() as int) =~= order@);
        assert(have@ =~= h0.intersect(loaded@));
    }
    r
}

/// Spawning props for newly loaded chunks: returns the chunks whose props
/// must be spawned now (in loaded order) and records them as done.
pub fn spawn_chunk_props(loaded_chunks: &LoadedChunks, loaded_prop_chunks: &mut LoadedPropChunks) -> (r: Vec<ChunkCoord>)
    ensures
        r@ == chunks_needing_content(loaded_chunks.chunks.order(), old(loaded_prop_chunks).chunks@),
        final(loaded_prop_chunks).chunks@ == old(loaded_prop_chunks).chunks@.union(loaded_chunks.chunks@),
{
    spawn_missing(&loaded_chunks.chunks, &mut loaded_prop_chunks.chunks)
}

/// Cleaning up props of unloaded chunks: returns the prop entities (of
/// `props`, entity id and chunk) to despawn and forgets those chunks.
pub fn cleanup_chunk_props(loaded_chunks: &LoadedChunks, loaded_prop_chunks: &mut LoadedPropChunks, props: &Vec<(u64, ChunkCoord)>) -> (r: Vec<u64>)
    ensures
        r@ == stale_owners(props@, old(loaded_prop_chunks).chunks@, loaded_chunks.chunks@).map_values(|o: (u64, ChunkCoord)| o.0),
        final(loaded_prop_chunks).chunks@ == old(loaded_prop_chunks).chunks@.intersect(loaded_chunks.chunks@),
{
    cleanup_stale(&loaded_chunks.chunks, &mut loaded_prop_chunks.chunks, props)
}

/// Spawning structures for newly loaded chunks, as for props.
pub fn spawn_chunk_structures(loaded_chunks: &LoadedChunks, loaded_structure_chunks: &mut LoadedStructureChunks) -> (r: Vec<ChunkCoord>)
    ensures
        r@ == chunks_needing_content(loaded_chunks.chunks.order(), old(loaded_structure_chunks).chunks@),
        final(loaded_structure_chunks).chunks@ == old(loaded_structure_chunks).chunks@.union(loaded_chunks.chunks@),
{
    spawn_missing(&loaded_chunks.chunks, &mut loaded_structure_chunks.chunks)
}

/// Cleaning up structures of unloaded chunks, as for props.
pub fn cleanup_chunk_structures(loaded_chunks: &LoadedChunks, loaded_structure_chunks: &mut LoadedStructureChunks, structures: &Vec<(u64, ChunkCoord)>) -> (r: Vec<u64>)
    ensures
        r@ == stale_owners(structures@, old(loaded_structure_chunks).chunks@, loaded_chunks.chunks@).map_values(|o: (u64, ChunkCoord)| o.0),
        final(loaded_structure_chunks).chunks@ == old(loaded_structure_chunks).chunks@.intersect(loaded_chunks.chunks@),
{
    cleanup_stale(&loaded_chunks.chunks, &mut loaded_structure_chunks.chunks, structures)
}

/// After a spawn pass and a cleanup pass over the same loaded chunks, exactly
/// the loaded chunks have their content.
pub proof fn lemma_content_follows_loaded(have: Set<ChunkCoord>, loaded: Set<ChunkCoord>)
    ensures
        have.union(loaded).intersect(loaded) == loaded,
        have.intersect(loaded).union(loaded) == loaded,
{
    assert(have.union(loaded).intersect(loaded) =~= loaded);
    assert(have.intersect(loaded).union(loaded) =~= loaded);
}

/// A spawn pass never spawns content for a chunk twice: the chunks it returns
/// are distinct and had no content before.
pub proof fn lemma_spawn_pass_is_fresh(loaded: Seq<ChunkCoord>, have: Set<ChunkCoord>)
    requires
        loaded.no_duplicates(),
    ensures
        chunks_needing_content(loaded, have).no_duplicates(),
        forall|c: ChunkCoord| #[trigger] chunks_needing_content(loaded, have).contains(c) ==> !have.contains(c) && loaded.contains(c),
    decreases loaded.len(),
{
    let pred = |c: ChunkCoord| !have.contains(c);
    if loaded.len() > 0 {
        let t = loaded.drop_last();
        assert(t.no_duplicates());
        lemma_spawn_pass_is_fresh(t, have);
        assert(t.push(loaded.last()) =~= loaded);
        t.lemma_filter_push(loaded.last(), pred);
        assert(!t.contains(loaded.last()));
        let f = chunks_needing_content(t, have);
        if pred(loaded.last()) {
            assert(!f.contains(loaded.last()));
            let g = f.push(loaded.last());
            assert forall|a: int, b: int| 0 <= a < g.len() && 0 <= b < g.len() && a != b implies g[a] != g[b] by {
                if a < f.len() && b < f.len() {
                } else if a == f.len() {
                    assert(f.contains(f[b]));
                } else {
                    assert(f.contains(f[a]));
                }
            }
        }
        assert forall|c: ChunkCoord| #[trigger] chunks_needing_content(loaded, have).contains(c) implies !have.contains(c) && loaded.contains(c) by {
            if f.contains(c) {
                let k = choose|k: int| 0 <= k < t.len() && t[k] == c;
                assert(loaded[k] == c);
            } else {
                assert(c == loaded.last());
            }
        }
    }
}

/// Which chunk the player streams around, and the wanted chunks ordered
/// from nearest to farthest (near chunks spawn first).
#[derive(Debug)]
pub struct TerrainStreamingState {
    pub center: Option<ChunkCoord>,
    pub desired_order: Vec<ChunkCoord>,
}

/// Chebyshev (square-ring) distance between two chunks.
pub open spec fn ring_distance(c: ChunkCoord, center: ChunkCoord) -> int {
    let dx = if c.x - center.x < 0 { center.x - c.x } else { c.x - center.x };
    let dz = if c.z - center.z < 0 { center.z - c.z } else { c.z - center.z };
    if dx >= dz { dx } else { dz }
}

/// Inserts `c` after every chunk of `sorted` that is at most as far as `c`
/// (scanning from the back), so equal distances keep their arrival order.
pub open spec fn insert_by_distance(sorted: Seq<ChunkCoord>, c: ChunkCoord, center: ChunkCoord) -> Seq<ChunkCoord>
    decreases sorted.len(),
{
    if sorted.len() == 0 || ring_distance(sorted.last(), center) <= ring_distance(c, center) {
        sorted.push(c)
    } else {
        insert_by_distance(sorted.drop_last(), c, center).push(sorted.last())
    }
}

/// `chunks` stably sorted by distance from `center`, nearest first.
pub open spec fn sort_by_distance(chunks: Seq<ChunkCoord>, center: ChunkCoord) -> Seq<ChunkCoord>
    decreases chunks.len(),
{
    if chunks.len() == 0 {
        chunks
    } else {
        insert_by_distance(sort_by_distance(chunks.drop_last(), center), chunks.last(), center)
    }
}

/// Chunks are ordered nearest to farthest.
pub open spec fn nearest_first(s: Seq<ChunkCoord>, center: ChunkCoord) -> bool {
    forall|i: int, j: int| 0 <= i <= j < s.len() ==> ring_distance(s[i], center) <= ring_distance(s[j], center)
}

fn ring_distance_exec(c: ChunkCoord, center: ChunkCoord) -> (r: i64)
    ensures
        r == ring_distance(c, center),
{
    let ddx: i64 = c.x as i64 - center.x as i64;
    let ddz: i64 = c.z as i64 - center.z as i64;
    let dx: i64 = if ddx < 0 { -ddx } else { ddx };
    let dz: i64 = if ddz < 0 { -ddz } else { ddz };
    if dx >= dz { dx } else { dz }
}

proof fn lemma_insert_at(s: Seq<ChunkCoord>, c: ChunkCoord, center: ChunkCoord, p: int)
    requires
        0 <= p <= s.len(),
        forall|j: int| p <= j < s.len() ==> ring_distance(s[j], center) > ring_distance(c, center),
        p == 0 || ring_distance(s[p - 1], center) <= ring_distance(c, center),
    ensures
        insert_by_distance(s, c, center) == s.insert(p, c),
    decreases s.len(),
{
    if s.len() == 0 {
        assert(s.insert(p, c) =~= s.push(c));
    } else if p == s.len() {
        assert(s.insert(p, c) =~= s.push(c));
    } else {
        let t = s.drop_last();
        lemma_insert_at(t, c, center, p);
        assert(s.insert(p, c) =~= t.insert(p, c).push(s.last()));
    }
}

/// The spec of the stable distance sort: sorted nearest first, and a
/// permutation of its input.
pub proof fn lemma_sort_by_distance(chunks: Seq<ChunkCoord>, center: ChunkCoord)
    ensures
        nearest_first(sort_by_distance(chunks, center), center),
        sort_by_distance(chunks, center).to_multiset() == chunks.to_multiset(),
    decreases chunks.len(),
{
    broadcast use vstd::multiset::group_multiset_axioms;
    if chunks.len() > 0 {
        let t = chunks.drop_last();
        lemma_sort_by_distance(t, center);
        lemma_insert_sorted(sort_by_distance(t, center), chunks.last(), center);
        assert(t.push(chunks.last()) =~= chunks);
        t.to_multiset_ensures();
    } else {
        assert(chunks.to_multiset() =~= Multiset::empty()) by {
            chunks.to_multiset_ensures();
        }
    }
}

proof fn lemma_insert_sorted(s: Seq<ChunkCoord>, c: ChunkCoord, center: ChunkCoord)
    requires
        nearest_first(s, center),
    ensures
        nearest_first(insert_by_distance(s, c, center), center),
        insert_by_distance(s, c, center).to_multiset() == s.to_multiset().insert(c),
        insert_by_distance(s, c, center).len() == s.len() + 1,
        forall|i: int| 0 <= i < s.len() + 1 ==> #[trigger] insert_by_distance(s, c, center)[i] == c
            || s.contains(insert_by_distance(s, c, center)[i]),
    decreases s.len(),
{
    broadcast use vstd::multiset::group_multiset_axioms;
    s.to_multiset_ensures();
    if s.len() == 0 || ring_distance(s.last(), center) <= ring_distance(c, center) {
        let r = s.push(c);
        assert forall|i: int, j: int| 0 <= i <= j < r.len() implies ring_distance(r[i], center) <= ring_distance(r[j], center) by {
            if j == s.len() && i < s.len() {
                assert(ring_distance(s[i], center) <= ring_distance(s.last(), center));
            }
        }
        assert forall|i: int| 0 <= i < s.len() + 1 implies #[trigger] r[i] == c || s.contains(r[i]) by {
            if i < s.len() { assert(s.contains(s[i])); }
        }
    } else {
        let t = s.drop_last();
        assert(nearest_first(t, center));
        lemma_insert_sorted(t, c, center);
        let u = insert_by_distance(t, c, center);
        let r = u.push(s.last());
        assert(t.push(s.last()) =~= s);
        t.to_multiset_ensures();
        u.to_multiset_ensures();
        assert forall|i: int| 0 <= i < u.len() implies ring_distance(#[trigger] u[i], center) <= ring_distance(s.last(), center) by {
            if u[i] == c {
            } else {
                assert(t.contains(u[i]));
                let k = choose|k: int| 0 <= k < t.len() && t[k] == u[i];
                assert(ring_distance(s[k], center) <= ring_distance(s[s.len() - 1], center));
            }
        }
        assert forall|i: int, j: int| 0 <= i <= j < r.len() implies ring_distance(r[i], center) <= ring_distance(r[j], center) by {
            if j == u.len() && i < u.len() {
                assert(ring_distance(u[i], center) <= ring_distance(s.last(), center));
            }
        }
        assert forall|i: int| 0 <= i < s.len() + 1 implies #[trigger] r[i] == c || s.contains(r[i]) by {
            if i < u.len() {
                if u[i] != c {
                    assert(t.contains(u[i]));
                    let k = choose|k: int| 0 <= k < t.len() && t[k] == u[i];
                    assert(s[k] == u[i]);
                }
            } else {
                assert(s.contains(s[s.len() - 1]));
            }
        }
        assert(r.to_multiset() =~= s.to_multiset().insert(c));
    }
}

/// Stable sort of `chunks` by distance from `center`, nearest first.
pub fn order_by_distance(chunks: &Vec<ChunkCoord>, center: ChunkCoord) -> (r: Vec<ChunkCoord>)
    ensures
        r@ == sort_by_distance(chunks@, center),
{
    let mut r: Vec<ChunkCoord> = Vec::new();
    let mut i: usize = 0;
    while i < chunks.len()
        invariant
            0 <= i <= chunks.len(),
            r@ == sort_by_distance(chunks@.take(i as int), center),
        decreases chunks.len() - i,
    {
        let c = chunks[i];
        let k = ring_distance_exec(c, center);
        let mut p: usize = r.len();
        while p > 0 && ring_distance_exec(r[p - 1], center) > k
            invariant
                0 <= p <= r.len(),
                k == ring_distance(c, center),
                forall|j: int| p <= j < r.len() ==> ring_distance(r@[j], center) > ring_distance(c, center),
            decreases p,
        {
            p -= 1;
        }
        proof {
            lemma_insert_at(r@, c, center, p as int);
            assert(chunks@.take(i + 1).drop_last() =~= chunks@.take(i as int));
            assert(chunks@.take(i + 1).last() == c);
        }
        r.insert(p, c);
        i += 1;
    }
    assert(chunks@.take(chunks.len() as int) =~= chunks@);
    r
}

/// A chunk further than `view_distance` from `center` along either axis.
pub open spec fn out_of_view(c: ChunkCoord, center: ChunkCoord, view_distance: i32) -> bool {
    let dx = if c.x - center.x < 0 { center.x - c.x } else { c.x - center.x };
    let dz = if c.z - center.z < 0 { center.z - c.z } else { c.z - center.z };
    dx > view_distance || dz > view_distance
}

/// The chunk entities (entity id, chunk) that fall out of view.
pub open spec fn out_of_view_entities(entities: Seq<(u64, ChunkCoord)>, center: ChunkCoord, view_distance: i32) -> Seq<(u64, ChunkCoord)> {
    entities.filter(|e: (u64, ChunkCoord)| out_of_view(e.1, center, view_distance))
}

/// The chunks of a list of chunk entities.
pub open spec fn entity_chunks(entities: Seq<(u64, ChunkCoord)>) -> Set<ChunkCoord> {
    entities.map_values(|e: (u64, ChunkCoord)| e.1).to_set()
}

fn out_of_view_exec(c: ChunkCoord, center: ChunkCoord, view_distance: i32) -> (r: bool)
    ensures
        r == out_of_view(c, center, view_distance),
{
    let ddx: i64 = c.x as i64 - center.x as i64;
    let ddz: i64 = c.z as i64 - center.z as i64;
    let dx: i64 = if ddx < 0 { -ddx } else { ddx };
    let dz: i64 = if ddz < 0 { -ddz } else { ddz };
    dx > view_distance as i64 || dz > view_distance as i64
}

/// When the player enters a new chunk: records it as the streaming center,
/// orders the wanted chunks (`in_radius`, the chunks within view of it)
/// nearest first, and unloads the chunks out of view. Returns the chunk
/// entities to despawn; nothing happens while the player stays in the same chunk.
pub fn update_terrain_chunks(
    player_chunk: ChunkCoord,
    in_radius: &Vec<ChunkCoord>,
    view_distance: i32,
    streaming: &mut TerrainStreamingState,
    loaded_chunks: &mut LoadedChunks,
    chunk_entities: &Vec<(u64, ChunkCoord)>,
) -> (despawn: Vec<u64>)
    ensures
        old(streaming).center == Some(player_chunk) ==> {
            &&& despawn@.len() == 0
            &&& final(streaming).center == old(streaming).center
            &&& final(streaming).desired_order@ == old(streaming).desired_order@
            &&& final(loaded_chunks).chunks@ == old(loaded_chunks).chunks@
        },
        old(streaming).center != Some(player_chunk) ==> {
            let gone = out_of_view_entities(chunk_entities@, player_chunk, view_distance);
            &&& final(streaming).center == Some(player_chunk)
            &&& final(streaming).desired_order@ == sort_by_distance(in_radius@, player_chunk)
            &&& despawn@ == gone.map_values(|e: (u64, ChunkCoord)| e.0)
            &&& final(loaded_chunks).chunks@ == old(loaded_chunks).chunks@.difference(entity_chunks(gone))
        },
{
    let mut despawn: Vec<u64> = Vec::new();
    if let Some(c) = streaming.center {
        if c == player_chunk {
            return despawn;
        }
    }
    streaming.center = Some(player_chunk);
    streaming.desired_order = order_by_distance(in_radius, player_chunk);
    let ghost l0 = loaded_chunks.chunks@;
    let ghost pred = |e: (u64, ChunkCoord)| out_of_view(e.1, player_chunk, view_distance);
    let mut i: usize = 0;
    while i < chunk_entities.len()
        invariant
            0 <= i <= chunk_entities.len(),
            pred == (|e: (u64, ChunkCoord)| out_of_view(e.1, player_chunk, view_distance)),
            despawn@ == chunk_entities@.take(i as int).filter(pred).map_values(|e: (u64, ChunkCoord)| e.0),
            loaded_chunks.chunks@ == l0.difference(entity_chunks(chunk_entities@.take(i as int).filter(pred))),
        decreases chunk_entities.len() - i,
    {
        let e = chunk_entities[i];
        let ghost f = chunk_entities@.take(i as int).filter(pred);
        proof {
            assert(chunk_entities@.take(i + 1) =~= chunk_entities@.take(i as int).push(e));
            chunk_entities@.take(i as int).lemma_filter_push(e, pred);
            assert(pred(e) == out_of_view(e.1, player_chunk, view_distance));
        }
        if out_of_view_exec(e.1, player_chunk, view_distance) {
            despawn.push(e.0);
            loaded_chunks.chunks.remove(e.1);
            proof {
                assert(f.push(e).map_values(|e: (u64, ChunkCoord)| e.0)
                    =~= f.map_values(|e: (u64, ChunkCoord)| e.0).push(e.0));
                assert(f.push(e).map_values(|e: (u64, ChunkCoord)| e.1)
                    =~= f.map_values(|e: (u64, ChunkCoord)| e.1).push(e.1));
                assert(entity_chunks(f.push(e)) =~= entity_chunks(f).insert(e.1));
                assert(loaded_chunks.chunks@ =~= l0.difference(entity_chunks(f.push(e))));
            }
        }
        i += 1;
    }
    assert(chunk_entities@.take(chunk_entities.len() as int) =~= chunk_entities@);
    despawn
}

/// On entering a new center, a chunk within `view_distance` of it along both
/// axes (the view square) is never unloaded: no chunk entity of it is
/// despawned, and it stays among the loaded chunks. A chunk entity beyond
/// `view_distance` along some axis is despawned and its chunk unloaded.
pub proof fn lemma_unload_spares_the_view_square(
    loaded: Set<ChunkCoord>,
    entities: Seq<(u64, ChunkCoord)>,
    center: ChunkCoord,
    view_distance: i32,
)
    ensures
        forall|i: int| 0 <= i < entities.len()
            && -view_distance <= entities[i].1.x - center.x <= view_distance
            && -view_distance <= entities[i].1.z - center.z <= view_distance
            ==> !out_of_view_entities(entities, center, view_distance).contains(#[trigger] entities[i]),
        forall|c: ChunkCoord| loaded.contains(c)
            && -view_distance <= c.x - center.x <= view_distance
            && -view_distance <= c.z - center.z <= view_distance
            ==> #[trigger] loaded.difference(entity_chunks(out_of_view_entities(entities, center, view_distance))).contains(c),
        forall|i: int| 0 <= i < entities.len()
            && (entities[i].1.x - center.x > view_distance || center.x - entities[i].1.x > view_distance
                || entities[i].1.z - center.z > view_distance || center.z - entities[i].1.z > view_distance)
            ==> out_of_view_entities(entities, center, view_distance).contains(#[trigger] entities[i])
                && !loaded.difference(entity_chunks(out_of_view_entities(entities, center, view_distance))).contains(entities[i].1),
{
    broadcast use vstd::seq_lib::group_filter_ensures;
    let pred = |e: (u64, ChunkCoord)| out_of_view(e.1, center, view_distance);
    let gone = out_of_view_entities(entities, center, view_distance);
    assert forall|i: int| 0 <= i < entities.len()
        && -view_distance <= entities[i].1.x - center.x <= view_distance
        && -view_distance <= entities[i].1.z - center.z <= view_distance
        implies !gone.contains(#[trigger] entities[i]) by {
        if gone.contains(entities[i]) {
            let k = choose|k: int| 0 <= k < gone.len() && gone[k] == entities[i];
            assert(pred(gone[k]));
        }
    }
    assert forall|c: ChunkCoord| loaded.contains(c)
        && -view_distance <= c.x - center.x <= view_distance
        && -view_distance <= c.z - center.z <= view_distance
        implies #[trigger] loaded.difference(entity_chunks(gone)).contains(c) by {
        if entity_chunks(gone).contains(c) {
            let m = gone.map_values(|e: (u64, ChunkCoord)| e.1);
            let k = choose|k: int| 0 <= k < m.len() && #[trigger] m[k] == c;
            assert(m[k] == gone[k].1);
            assert(pred(gone[k]));
        }
    }
    assert forall|i: int| 0 <= i < entities.len()
        && (entities[i].1.x - center.x > view_distance || center.x - entities[i].1.x > view_distance
            || entities[i].1.z - center.z > view_distance || center.z - entities[i].1.z > view_distance)
        implies gone.contains(#[trigger] entities[i])
            && !loaded.difference(entity_chunks(gone)).contains(entities[i].1) by {
        assert(pred(entities[i]));
        assert(entities.contains(entities[i]));
        assert(gone.contains(entities[i]));
        let k = choose|k: int| 0 <= k < gone.len() && gone[k] == entities[i];
        let m = gone.map_values(|e: (u64, ChunkCoord)| e.1);
        assert(m[k] == entities[i].1);
        assert(m.contains(entities[i].1));
    }
}

/// Unloading keeps only chunks in view, provided every loaded chunk has its
/// chunk entity.
pub proof fn lemma_unload_keeps_view(
    loaded: Set<ChunkCoord>,
    entities: Seq<(u64, ChunkCoord)>,
    center: ChunkCoord,
    view_distance: i32,
)
    requires
        loaded.subset_of(entity_chunks(entities)),
    ensures
        forall|c: ChunkCoord| #[trigger] loaded.difference(entity_chunks(out_of_view_entities(entities, center, view_distance))).contains(c)
            ==> !out_of_view(c, center, view_distance),
{
    let gone = out_of_view_entities(entities, center, view_distance);
    let pred = |e: (u64, ChunkCoord)| out_of_view(e.1, center, view_distance);
    assert forall|c: ChunkCoord| #[trigger] loaded.difference(entity_chunks(gone)).contains(c)
        implies !out_of_view(c, center, view_distance) by {
        if out_of_view(c, center, view_distance) {
            assert(entity_chunks(entities).contains(c));
            let m1 = entities.map_values(|e: (u64, ChunkCoord)| e.1);
            let k = choose|k: int| 0 <= k < m1.len() && #[trigger] m1[k] == c;
            let e = entities[k];
            assert(entities.contains(e));
            assert(pred(e));
            broadcast use vstd::seq_lib::group_filter_ensures;
            assert(gone.contains(e));
            let m = choose|m: int| 0 <= m < gone.len() && gone[m] == e;
            assert(gone.map_values(|e: (u64, ChunkCoord)| e.1)[m] == c);
            assert(entity_chunks(gone).contains(c));
        }
    }
}

/// At most this many terrain chunks are built per frame.
pub const MAX_CHUNKS_PER_FRAME: usize = 2;

/// The first `budget` chunks of `order` that are not loaded yet (a chunk
/// counts as loaded once picked).
pub open spec fn pick_unloaded(order: Seq<ChunkCoord>, loaded: Set<ChunkCoord>, budget: nat) -> Seq<ChunkCoord>
    decreases order.len(),
{
    if budget == 0 || order.len() == 0 {
        Seq::empty()
    } else if loaded.contains(order[0]) {
        pick_unloaded(order.drop_first(), loaded, budget)
    } else {
        seq![order[0]] + pick_unloaded(order.drop_first(), loaded.insert(order[0]), (budget - 1) as nat)
    }
}

/// The order in which chunks are considered: the streaming order when it was
/// computed around the player's current chunk, otherwise the chunks in
/// radius as given.
pub open spec fn spawn_order(streaming_center: Option<ChunkCoord>, desired: Seq<ChunkCoord>, player_chunk: ChunkCoord, in_radius: Seq<ChunkCoord>) -> Seq<ChunkCoord> {
    if streaming_center == Some(player_chunk) && desired.len() > 0 {
        desired
    } else {
        in_radius
    }
}

/// Picks the terrain chunks to build this frame (nearest first, at most
/// `MAX_CHUNKS_PER_FRAME`) and records them as loaded.
pub fn spawn_terrain_chunks(
    player_chunk: ChunkCoord,
    in_radius: &Vec<ChunkCoord>,
    streaming: &TerrainStreamingState,
    loaded_chunks: &mut LoadedChunks,
) -> (spawned: Vec<ChunkCoord>)
    ensures
        spawned@ == pick_unloaded(
            spawn_order(streaming.center, streaming.desired_order@, player_chunk, in_radius@),
            old(loaded_chunks).chunks@,
            MAX_CHUNKS_PER_FRAME as nat,
        ),
        final(loaded_chunks).chunks@ == old(loaded_chunks).chunks@.union(spawned@.to_set()),
{
    let use_desired = match streaming.center {
        Some(c) => c == player_chunk && streaming.desired_order.len() > 0,
        None => false,
    };
    let order: &Vec<ChunkCoord> = if use_desired { &streaming.desired_order } else { in_radius };
    let ghost full = order@;
    let ghost l0 = loaded_chunks.chunks@;
    let mut spawned: Vec<ChunkCoord> = Vec::new();
    let mut i: usize = 0;
    while i < order.len() && spawned.len() < MAX_CHUNKS_PER_FRAME
        invariant
            0 <= i <= order.len(),
            order@ == full,
            spawned.len() <= MAX_CHUNKS_PER_FRAME,
            loaded_chunks.chunks@ == l0.union(spawned@.to_set()),
            spawned@ + pick_unloaded(full.skip(i as int), loaded_chunks.chunks@, (MAX_CHUNKS_PER_FRAME - spawned.len()) as nat)
                == pick_unloaded(full, l0, MAX_CHUNKS_PER_FRAME as nat),
        decreases order.len() - i,
    {
        let c = order[i];
        proof {
            assert(full.skip(i as int).drop_first() =~= full.skip(i + 1));
            assert(full.skip(i as int)[0] == c);
        }
        if !loaded_chunks.chunks.contains(c) {
            let ghost before = spawned@;
            let ghost rest = pick_unloaded(full.skip(i + 1), loaded_chunks.chunks@.insert(c), (MAX_CHUNKS_PER_FRAME - spawned.len() - 1) as nat);
            spawned.push(c);
            loaded_chunks.chunks.insert(c);
            proof {
                assert(before + (seq![c] + rest) =~= spawned@ + rest);
                assert(spawned@.to_set() =~= before.to_set().insert(c));
            }
        }
        i += 1;
    }
    proof {
        if spawned.len() < MAX_CHUNKS_PER_FRAME {
            assert(full.skip(i as int).len() == 0);
        }
        assert(spawned@ + Seq::<ChunkCoord>::empty() =~= spawned@);
    }
    spawned
}

/// A frame builds at most two chunks, each one not loaded before, and no
/// chunk twice.
pub proof fn lemma_pick_unloaded_is_fresh(order: Seq<ChunkCoord>, loaded: Set<ChunkCoord>, budget: nat)
    ensures
        pick_unloaded(order, loaded, budget).len() <= budget,
        pick_unloaded(order, loaded, budget).no_duplicates(),
        forall|c: ChunkCoord| #[trigger] pick_unloaded(order, loaded, budget).contains(c) ==> !loaded.contains(c) && order.contains(c),
    decreases order.len(),
{
    if budget == 0 || order.len() == 0 {
    } else if loaded.contains(order[0]) {
        lemma_pick_unloaded_is_fresh(order.drop_first(), loaded, budget);
        let r = pick_unloaded(order.drop_first(), loaded, budget);
        assert forall|c: ChunkCoord| #[trigger] r.contains(c) implies order.contains(c) by {
            let k = choose|k: int| 0 <= k < order.len() - 1 && order.drop_first()[k] == c;
            assert(order[k + 1] == c);
        }
    } else {
        let l2 = loaded.insert(order[0]);
        lemma_pick_unloaded_is_fresh(order.drop_first(), l2, (budget - 1) as nat);
        let rest = pick_unloaded(order.drop_first(), l2, (budget - 1) as nat);
        let r = seq![order[0]] + rest;
        assert forall|c: ChunkCoord| #[trigger] r.contains(c) implies !loaded.contains(c) && order.contains(c) by {
            let k = choose|k: int| 0 <= k < r.len() && r[k] == c;
            if k > 0 {
                assert(rest.contains(c));
                let m = choose|m: int| 0 <= m < order.len() - 1 && order.drop_first()[m] == c;
                assert(order[m + 1] == c);
            }
        }
        assert forall|a: int, b: int| 0 <= a < r.len() && 0 <= b < r.len() && a != b implies r[a] != r[b] by {
            if a > 0 && b > 0 {
                assert(r[a] == rest[a - 1]);
                assert(r[b] == rest[b - 1]);
            } else if a == 0 {
                assert(rest.contains(r[b]));
            } else {
                assert(rest.contains(r[a]));
            }
        }
    }
}

/// All chunks of all the lists.
pub open spec fn union_of(lists: Seq<Seq<ChunkCoord>>) -> Set<ChunkCoord>
    decreases lists.len(),
{
    if lists.len() == 0 {
        Set::empty()
    } else {
        union_of(lists.drop_last()).union(lists.last().to_set())
    }
}

/// The number of distinct chunks over all the lists (the debug overlay's
/// "collider chunks": the union of the chunks around every player).
pub fn collider_chunk_count(chunk_lists: &Vec<Vec<ChunkCoord>>) -> (r: usize)
    ensures
        r == union_of(chunk_lists@.map_values(|l: Vec<ChunkCoord>| l@)).len(),
        union_of(chunk_lists@.map_values(|l: Vec<ChunkCoord>| l@)).finite(),
{
    let ghost views = chunk_lists@.map_values(|l: Vec<ChunkCoord>| l@);
    let mut set = ChunkSet::new();
    let mut i: usize = 0;
    while i < chunk_lists.len()
        invariant
            0 <= i <= chunk_lists.len(),
            views == chunk_lists@.map_values(|l: Vec<ChunkCoord>| l@),
            set@ == union_of(views.take(i as int)),
        decreases chunk_lists.len() - i,
    {
        let list = &chunk_lists[i];
        let ghost before = set@;
        let mut j: usize = 0;
        while j < list.len()
            invariant
                0 <= j <= list.len(),
                set@ == before.union(list@.take(j as int).to_set()),
            decreases list.len() - j,
        {
            set.insert(list[j]);
            assert(list@.take(j + 1) =~= list@.take(j as int).push(list@[j as int]));
            assert(list@.take(j + 1).to_set() =~= list@.take(j as int).to_set().insert(list@[j as int]));
            assert(set@ =~= before.union(list@.take(j + 1).to_set()));
            j += 1;
        }
        proof {
            assert(list@.take(list.len() as int) =~= list@);
            assert(views.take(i + 1).drop_last() =~= views.take(i as int));
            assert(views.take(i + 1).last() == list@);
        }
        i += 1;
    }
    assert(views.take(chunk_lists.len() as int) =~= views);
    set.len()
}

/// Every loaded chunk without content yet gets its content in the pass, and
/// content whose chunk was unloaded is removed: an owner whose chunk had
/// content and is no longer loaded is stale, and one whose chunk is still
/// loaded is not.
pub proof fn lemma_content_pass_is_complete(loaded: Seq<ChunkCoord>, have: Set<ChunkCoord>, owners: Seq<(u64, ChunkCoord)>, loaded_set: Set<ChunkCoord>)
    ensures
        forall|c: ChunkCoord| loaded.contains(c) && !have.contains(c) ==> #[trigger] chunks_needing_content(loaded, have).contains(c),
        forall|k: int| 0 <= k < owners.len() && have.contains(owners[k].1) && !loaded_set.contains(owners[k].1)
            ==> #[trigger] stale_owners(owners, have, loaded_set).contains(owners[k]),
        forall|k: int| 0 <= k < owners.len() && loaded_set.contains(owners[k].1)
            ==> !#[trigger] stale_owners(owners, have, loaded_set).contains(owners[k]),
{
    broadcast use vstd::seq_lib::group_filter_ensures;
    assert forall|c: ChunkCoord| loaded.contains(c) && !have.contains(c) implies #[trigger] chunks_needing_content(loaded, have).contains(c) by {
        let pred = |c: ChunkCoord| !have.contains(c);
        assert(pred(c));
    }
    assert forall|k: int| 0 <= k < owners.len() && loaded_set.contains(owners[k].1)
        implies !#[trigger] stale_owners(owners, have, loaded_set).contains(owners[k]) by {
        let pred = |o: (u64, ChunkCoord)| have.contains(o.1) && !loaded_set.contains(o.1);
        if stale_owners(owners, have, loaded_set).contains(owners[k]) {
            let f = stale_owners(owners, have, loaded_set);
            let j = choose|j: int| 0 <= j < f.len() && f[j] == owners[k];
            assert(pred(f[j]));
        }
    }
    assert forall|k: int| 0 <= k < owners.len() && have.contains(owners[k].1) && !loaded_set.contains(owners[k].1)
        implies #[trigger] stale_owners(owners, have, loaded_set).contains(owners[k]) by {
        let pred = |o: (u64, ChunkCoord)| have.contains(o.1) && !loaded_set.contains(o.1);
        assert(pred(owners[k]));
        assert(owners.contains(owners[k]));
    }
}

/// The ring distance is the view square's measure: a chunk is within `r` of
/// the center along both axes exactly when its ring distance is at most `r`.
pub proof fn lemma_ring_distance_is_the_view_square(c: ChunkCoord, center: ChunkCoord, r: int)
    ensures
        (-r <= c.x - center.x <= r && -r <= c.z - center.z <= r) <==> ring_distance(c, center) <= r,
        ring_distance(c, center) >= 0,
        ring_distance(center, center) == 0,
{
}

/// Building starts with the nearest missing chunk: with room in the frame's
/// budget, the first chunk of the order that is not loaded is built first,
/// and a non-empty budget never leaves every chunk of the order unbuilt when
/// one is missing.
pub proof fn lemma_nearest_missing_chunk_first(order: Seq<ChunkCoord>, loaded: Set<ChunkCoord>, budget: nat, k: int)
    requires
        budget > 0,
        0 <= k < order.len(),
        !loaded.contains(order[k]),
        forall|j: int| 0 <= j < k ==> loaded.contains(#[trigger] order[j]),
    ensures
        pick_unloaded(order, loaded, budget).len() > 0,
        pick_unloaded(order, loaded, budget)[0] == order[k],
    decreases k,
{
    if k > 0 {
        assert(loaded.contains(order[0]));
        let t = order.drop_first();
        assert forall|j: int| 0 <= j < k - 1 implies loaded.contains(#[trigger] t[j]) by {
            assert(t[j] == order[j + 1]);
        }
        lemma_nearest_missing_chunk_first(t, loaded, budget, k - 1);
    }
}

} // verus!
