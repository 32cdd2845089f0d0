//! Triangle index buffers of the procedural meshes (buildings, domes, towers,
//! walls, archways, silos, lamps): which vertices each triangle joins. The
//! vertex positions themselves are computed by the caller.

use vstd::prelude::*;

verus! {

broadcast use vstd::seq_lib::group_seq_properties;

/// The two triangle orders of a grid quad.
#[derive(Clone, Copy, Debug, PartialEq, Eq, Structural)]
pub enum GridWinding {
    /// (c, c+1, n) and (c+1, n+1, n): used where the next row is "up" from outside.
    Forward,
    /// (c, n, c+1) and (c+1, n, n+1): the opposite winding.
    Reversed,
}

/// The two triangles of the quad whose corners are `c`, `c + 1` in one row
/// and `n`, `n + 1` in the next.
pub open spec fn quad_spec(c: int, n: int, w: GridWinding) -> Seq<int> {
    match w {
        GridWinding::Forward => seq![c, c + 1, n, c + 1, n + 1, n],
        GridWinding::Reversed => seq![c, n, c + 1, c + 1, n, n + 1],
    }
}

/// The quads of one grid row starting at vertex `cur`, `cols` quads wide.
pub open spec fn row_spec(cur: int, cols: nat, stride: int, w: GridWinding) -> Seq<int>
    decreases cols,
{
    if cols == 0 {
        Seq::empty()
    } else {
        quad_spec(cur, cur + stride, w) + row_spec(cur + 1, (cols - 1) as nat, stride, w)
    }
}

/// The triangles of a grid of `rows` x `cols` quads whose first row starts at
/// vertex `start` and whose rows are `stride` vertices apart.
pub open spec fn grid_spec(start: int, rows: nat, cols: nat, stride: int, w: GridWinding) -> Seq<int>
    decreases rows,
{
    if rows == 0 {
        Seq::empty()
    } else {
        row_spec(start, cols, stride, w) + grid_spec(start + stride, (rows - 1) as nat, cols, stride, w)
    }
}

/// The index buffer as integers.
pub open spec fn as_ints(v: Seq<u32>) -> Seq<int> {
    v.map_values(|x: u32| x as int)
}

fn push_quad(indices: &mut Vec<u32>, c: u32, n: u32, w: GridWinding)
    requires
        n as int + 1 <= u32::MAX,
        c as int + 1 <= u32::MAX,
    ensures
        as_ints(final(indices)@) == as_ints(old(indices)@) + quad_spec(c as int, n as int, w),
{
    let ghost v0 = indices@;
    match w {
        GridWinding::Forward => {
            indices.push(c);
            indices.push(c + 1);
            indices.push(n);
            indices.push(c + 1);
            indices.push(n + 1);
            indices.push(n);
        },
        GridWinding::Reversed => {
            indices.push(c);
            indices.push(n);
            indices.push(c + 1);
            indices.push(c + 1);
            indices.push(n);
            indices.push(n + 1);
        },
    }
    assert(as_ints(indices@) =~= as_ints(v0) + quad_spec(c as int, n as int, w));
}

/// Appends the triangles of a grid of quads (rows of `cols` quads, rows
/// `stride` vertices apart, first row at vertex `start`).
pub fn push_grid(indices: &mut Vec<u32>, start: u32, rows: u32, cols: u32, stride: u32, w: GridWinding)
    requires
        start as int + rows as int * stride as int + cols as int <= u32::MAX,
    ensures
        as_ints(final(indices)@) == as_ints(old(indices)@) + grid_spec(start as int, rows as nat, cols as nat, stride as int, w),
{
    let mut row_start: u32 = start;
    let mut r: u32 = 0;
    while r < rows
        invariant
            0 <= r <= rows,
            row_start as int + (rows - r) as int * stride as int + cols as int <= u32::MAX,
            as_ints(indices@) + grid_spec(row_start as int, (rows - r) as nat, cols as nat, stride as int, w)
                == as_ints(old(indices)@) + grid_spec(start as int, rows as nat, cols as nat, stride as int, w),
        decreases rows - r,
    {
        let ghost k = (rows - r) as int;
        assert(row_start as int + stride as int + (k - 1) * stride as int + cols as int <= u32::MAX) by (nonlinear_arith)
            requires
                row_start as int + k * stride as int + cols as int <= u32::MAX,
                k >= 1,
        ;
        let ghost before = as_ints(indices@);
        let mut c: u32 = 0;
        while c < cols
            invariant
                0 <= c <= cols,
                row_start as int + stride as int + cols as int <= u32::MAX,
                as_ints(indices@) + row_spec(row_start as int + c as int, (cols - c) as nat, stride as int, w)
                    == before + row_spec(row_start as int, cols as nat, stride as int, w),
            decreases cols - c,
        {
            let cur = row_start + c;
            let ghost mid = as_ints(indices@);
            push_quad(indices, cur, cur + stride, w);
            proof {
                let q = quad_spec(cur as int, cur as int + stride as int, w);
                let rest = row_spec(cur as int + 1, (cols - c - 1) as nat, stride as int, w);
                assert(mid + (q + rest) =~= (mid + q) + rest);
            }
            c += 1;
        }
        proof {
            assert(as_ints(indices@) + Seq::<int>::empty() =~= as_ints(indices@));
            let rs = row_spec(row_start as int, cols as nat, stride as int, w);
            let g = grid_spec(row_start as int + stride as int, (k - 1) as nat, cols as nat, stride as int, w);
            assert(before + (rs + g) =~= (before + rs) + g);
        }
        row_start = row_start + stride;
        r += 1;
    }
    assert(as_ints(indices@) + Seq::<int>::empty() =~= as_ints(indices@));
}

/// Every index of a row lies between its first vertex and the last vertex of the next row.
pub proof fn lemma_row_bounds(cur: int, cols: nat, stride: int, w: GridWinding)
    requires
        stride >= 0,
    ensures
        forall|i: int| 0 <= i < row_spec(cur, cols, stride, w).len() ==>
            cur <= #[trigger] row_spec(cur, cols, stride, w)[i] <= cur + cols + stride,
        row_spec(cur, cols, stride, w).len() == 6 * cols,
    decreases cols,
{
    if cols > 0 {
        lemma_row_bounds(cur + 1, (cols - 1) as nat, stride, w);
        let q = quad_spec(cur, cur + stride, w);
        let rest = row_spec(cur + 1, (cols - 1) as nat, stride, w);
        assert forall|i: int| 0 <= i < (q + rest).len() implies cur <= #[trigger] (q + rest)[i] <= cur + cols + stride by {
            if i >= 6 {
                assert((q + rest)[i] == rest[i - 6]);
            }
        }
    }
}

/// Every index of a grid lies between `start` and `start + rows * stride + cols`.
pub proof fn lemma_grid_bounds(start: int, rows: nat, cols: nat, stride: int, w: GridWinding)
    requires
        stride >= 0,
    ensures
        forall|i: int| 0 <= i < grid_spec(start, rows, cols, stride, w).len() ==>
            start <= #[trigger] grid_spec(start, rows, cols, stride, w)[i] <= start + rows * stride + cols,
    decreases rows,
{
    if rows > 0 {
        lemma_grid_bounds(start + stride, (rows - 1) as nat, cols, stride, w);
        lemma_row_bounds(start, cols, stride, w);
        let rs = row_spec(start, cols, stride, w);
        let g = grid_spec(start + stride, (rows - 1) as nat, cols, stride, w);
        assert(start + stride + (rows - 1) * stride + cols == start + rows * stride + cols) by (nonlinear_arith)
            requires rows >= 1;
        assert(start + cols + stride <= start + rows * stride + cols) by (nonlinear_arith)
            requires rows >= 1, stride >= 0;
        assert forall|i: int| 0 <= i < (rs + g).len() implies start <= #[trigger] (rs + g)[i] <= start + rows * stride + cols by {
            if i >= rs.len() {
                assert((rs + g)[i] == g[i - rs.len()]);
            } else {
                assert((rs + g)[i] == rs[i]);
            }
        }
    }
}

/// The six faces of a box whose 24 vertices start at `base`, four per face:
/// each face is the triangles (b, b+1, b+2) and (b, b+2, b+3).
pub open spec fn box_spec(base: int, faces: nat) -> Seq<int>
    decreases faces,
{
    if faces == 0 {
        Seq::empty()
    } else {
        box_spec(base, (faces - 1) as nat) + {
            let b = base + 4 * (faces - 1);
            seq![b, b + 1, b + 2, b, b + 2, b + 3]
        }
    }
}

/// Appends the index triangles of a six-faced box whose 24 vertices start at
/// `base` (the index part of the box helper used by archways and buildings).
pub fn add_box(indices: &mut Vec<u32>, base: u32)
    requires
        base as int + 24 <= u32::MAX,
    ensures
        as_ints(final(indices)@) == as_ints(old(indices)@) + box_spec(base as int, 6),
{
    let mut i: u32 = 0;
    while i < 6
        invariant
            0 <= i <= 6,
            base as int + 24 <= u32::MAX,
            as_ints(indices@) == as_ints(old(indices)@) + box_spec(base as int, i as nat),
        decreases 6 - i,
    {
        let face_base = base + i * 4;
        let ghost v0 = indices@;
        indices.push(face_base);
        indices.push(face_base + 1);
        indices.push(face_base + 2);
        indices.push(face_base);
        indices.push(face_base + 2);
        indices.push(face_base + 3);
        proof {
            let f = seq![face_base as int, face_base + 1, face_base + 2, face_base as int, face_base + 2, face_base + 3];
            assert(as_ints(indices@) =~= as_ints(v0) + f);
            assert(box_spec(base as int, (i + 1) as nat) == box_spec(base as int, i as nat) + f);
            assert(as_ints(old(indices)@) + box_spec(base as int, i as nat) + f
                =~= as_ints(old(indices)@) + (box_spec(base as int, i as nat) + f));
        }
        i += 1;
    }
}

/// The index buffer of a building's fallback box mesh (24 vertices).
pub fn generate_building_mesh_indices() -> (r: Vec<u32>)
    ensures
        as_ints(r@) == box_spec(0, 6),
        all_below(as_ints(r@), 24),
{
    let mut r: Vec<u32> = Vec::new();
    add_box(&mut r, 0);
    assert(as_ints(Seq::<u32>::empty()) + box_spec(0, 6) =~= box_spec(0, 6));
    proof {
        lemma_box_below(0, 6, 24);
    }
    r
}

/// The uv corner (0 or 1 on each axis) of the `j`-th vertex of a box face.
pub fn quad_uv_corner(j: usize) -> (r: (u8, u8))
    ensures
        r.0 == (if j == 0 || j == 3 { 0u8 } else { 1u8 }),
        r.1 == (if j == 0 || j == 1 { 0u8 } else { 1u8 }),
{
    (if j == 0 || j == 3 { 0 } else { 1 }, if j == 0 || j == 1 { 0 } else { 1 })
}

/// A triangle fan around `center` over the rim vertices `first`,
/// `first + 1`, ..., `first + count`: triangles (center, v, v+1), or
/// (center, v+1, v) when `flip`.
pub open spec fn fan_spec(center: int, first: int, count: nat, flip: bool) -> Seq<int>
    decreases count,
{
    if count == 0 {
        Seq::empty()
    } else {
        (if flip { seq![center, first + 1, first] } else { seq![center, first, first + 1] })
            + fan_spec(center, first + 1, (count - 1) as nat, flip)
    }
}

proof fn lemma_fan_bounds(center: int, first: int, count: nat, flip: bool)
    ensures
        forall|i: int| 0 <= i < fan_spec(center, first, count, flip).len() ==> {
            let e = #[trigger] fan_spec(center, first, count, flip)[i];
            e == center || (first <= e <= first + count)
        },
    decreases count,
{
    if count > 0 {
        lemma_fan_bounds(center, first + 1, (count - 1) as nat, flip);
        let t = if flip { seq![center, first + 1, first] } else { seq![center, first, first + 1] };
        let rest = fan_spec(center, first + 1, (count - 1) as nat, flip);
        assert forall|i: int| 0 <= i < (t + rest).len() implies {
            let e = #[trigger] (t + rest)[i];
            e == center || (first <= e <= first + count)
        } by {
            if i >= 3 {
                assert((t + rest)[i] == rest[i - 3]);
            }
        }
    }
}

/// Every index is below `n`.
pub open spec fn all_below(s: Seq<int>, n: int) -> bool {
    forall|i: int| 0 <= i < s.len() ==> 0 <= #[trigger] s[i] < n
}

/// The number of vertices of a dome mesh: the (rings + 1) x (segments + 1)
/// grid and the floor center.
pub open spec fn dome_vertex_count(segments: int, rings: int) -> int {
    (rings + 1) * (segments + 1) + 1
}

/// The dome's triangles: its grid of quads, then the floor fan around the
/// center vertex (the last vertex) over the first ring.
pub open spec fn dome_indices_spec(segments: int, rings: int) -> Seq<int> {
    grid_spec(0, rings as nat, segments as nat, segments + 1, GridWinding::Forward)
        + fan_spec((rings + 1) * (segments + 1), 0, segments as nat, false)
}

/// The index buffer of a dome mesh with `segments` around and `rings` up:
/// every index names one of its vertices.
pub fn generate_dome_indices(segments: u32, rings: u32) -> (r: Vec<u32>)
    requires
        dome_vertex_count(segments as int, rings as int) <= u32::MAX,
    ensures
        as_ints(r@) == dome_indices_spec(segments as int, rings as int),
        all_below(as_ints(r@), dome_vertex_count(segments as int, rings as int)),
{
    proof {
        assert((rings as int + 1) * (segments as int + 1) == rings as int * (segments as int + 1) + segments as int + 1) by (nonlinear_arith);
        assert(0 <= rings as int * (segments as int + 1)) by (nonlinear_arith);
        assert(rings as int + 1 <= (rings as int + 1) * (segments as int + 1)) by (nonlinear_arith);
    }
    let stride = segments + 1;
    let mut r: Vec<u32> = Vec::new();
    push_grid(&mut r, 0, rings, segments, stride, GridWinding::Forward);
    let center = (rings + 1) * stride;
    let ghost g = as_ints(r@);
    let mut seg: u32 = 0;
    while seg < segments
        invariant
            0 <= seg <= segments,
            stride == segments + 1,
            center as int == (rings as int + 1) * (segments as int + 1),
            center as int + 1 <= u32::MAX,
            as_ints(r@) + fan_spec(center as int, seg as int, (segments - seg) as nat, false)
                == g + fan_spec(center as int, 0, segments as nat, false),
        decreases segments - seg,
    {
        let idx1 = seg;
        let idx2 = (seg + 1) % stride;
        proof {
            vstd::arithmetic::div_mod::lemma_small_mod((seg + 1) as nat, stride as nat);
        }
        let ghost before = as_ints(r@);
        r.push(center);
        r.push(idx1);
        r.push(idx2);
        proof {
            let t = seq![center as int, seg as int, seg as int + 1];
            assert(as_ints(r@) =~= before + t);
            let rest = fan_spec(center as int, seg as int + 1, (segments - seg - 1) as nat, false);
            assert(before + (t + rest) =~= (before + t) + rest);
        }
        seg += 1;
    }
    proof {
        assert(as_ints(r@) + Seq::<int>::empty() =~= as_ints(r@));
        assert(as_ints(Seq::<u32>::empty()) =~= Seq::<int>::empty());
        assert(Seq::<int>::empty() + grid_spec(0, rings as nat, segments as nat, segments as int + 1, GridWinding::Forward)
            =~= grid_spec(0, rings as nat, segments as nat, segments as int + 1, GridWinding::Forward));
        lemma_grid_bounds(0, rings as nat, segments as nat, segments as int + 1, GridWinding::Forward);
        lemma_fan_bounds(center as int, 0, segments as nat, false);
        let gs = grid_spec(0, rings as nat, segments as nat, segments as int + 1, GridWinding::Forward);
        let fs = fan_spec(center as int, 0, segments as nat, false);
        assert forall|i: int| 0 <= i < (gs + fs).len() implies 0 <= #[trigger] (gs + fs)[i] < dome_vertex_count(segments as int, rings as int) by {
            if i < gs.len() {
                assert((gs + fs)[i] == gs[i]);
            } else {
                assert((gs + fs)[i] == fs[i - gs.len()]);
            }
        }
    }
    r
}

proof fn lemma_all_below_concat(a: Seq<int>, b: Seq<int>, n: int)
    requires
        all_below(a, n),
        all_below(b, n),
    ensures
        all_below(a + b, n),
{
    assert forall|i: int| 0 <= i < (a + b).len() implies 0 <= #[trigger] (a + b)[i] < n by {
        if i < a.len() {
            assert((a + b)[i] == a[i]);
        } else {
            assert((a + b)[i] == b[i - a.len()]);
        }
    }
}

proof fn lemma_grid_below(start: int, rows: nat, cols: nat, stride: int, w: GridWinding, n: int)
    requires
        start >= 0,
        stride >= 0,
        start + rows * stride + cols < n,
    ensures
        all_below(grid_spec(start, rows, cols, stride, w), n),
{
    lemma_grid_bounds(start, rows, cols, stride, w);
}

proof fn lemma_fan_below(center: int, first: int, count: nat, flip: bool, n: int)
    requires
        0 <= center < n,
        0 <= first,
        first + count < n,
    ensures
        all_below(fan_spec(center, first, count, flip), n),
{
    lemma_fan_bounds(center, first, count, flip);
}

fn push_fan(indices: &mut Vec<u32>, center: u32, first: u32, count: u32, flip: bool)
    requires
        first as int + count as int + 1 <= u32::MAX,
    ensures
        as_ints(final(indices)@) == as_ints(old(indices)@) + fan_spec(center as int, first as int, count as nat, flip),
{
    let mut k: u32 = 0;
    while k < count
        invariant
            0 <= k <= count,
            first as int + count as int + 1 <= u32::MAX,
            as_ints(indices@) + fan_spec(center as int, first as int + k as int, (count - k) as nat, flip)
                == as_ints(old(indices)@) + fan_spec(center as int, first as int, count as nat, flip),
        decreases count - k,
    {
        let v = first + k;
        let ghost before = as_ints(indices@);
        indices.push(center);
        if flip {
            indices.push(v + 1);
            indices.push(v);
        } else {
            indices.push(v);
            indices.push(v + 1);
        }
        proof {
            let t = if flip { seq![center as int, v + 1, v as int] } else { seq![center as int, v as int, v + 1] };
            assert(as_ints(indices@) =~= before + t);
            let rest = fan_spec(center as int, v + 1, (count - k - 1) as nat, flip);
            assert(before + (t + rest) =~= (before + t) + rest);
        }
        k += 1;
    }
    assert(as_ints(indices@) + Seq::<int>::empty() =~= as_ints(indices@));
}

/// The number of vertices of a tower mesh: the 9-ring body and the 7-ring
/// dome of `segments + 1` vertices each, and the dome floor center.
pub open spec fn tower_vertex_count(segments: int) -> int {
    16 * (segments + 1) + 1
}

/// The tower's triangles: body grid, dome grid, then the fan under the dome.
pub open spec fn tower_indices_spec(segments: int) -> Seq<int> {
    grid_spec(0, 8, segments as nat, segments + 1, GridWinding::Reversed)
        + grid_spec(9 * (segments + 1), 6, segments as nat, segments + 1, GridWinding::Reversed)
        + fan_spec(16 * (segments + 1), 9 * (segments + 1), segments as nat, true)
}

/// The index buffer of a watchtower mesh with `segments` around.
pub fn generate_tower_indices(segments: u32) -> (r: Vec<u32>)
    requires
        tower_vertex_count(segments as int) <= u32::MAX,
    ensures
        as_ints(r@) == tower_indices_spec(segments as int),
        all_below(as_ints(r@), tower_vertex_count(segments as int)),
{
    let stride = segments + 1;
    let mut r: Vec<u32> = Vec::new();
    push_grid(&mut r, 0, 8, segments, stride, GridWinding::Reversed);
    let dome_base = 9 * stride;
    push_grid(&mut r, dome_base, 6, segments, stride, GridWinding::Reversed);
    let center = dome_base + 7 * stride;
    push_fan(&mut r, center, dome_base, segments, true);
    proof {
        let n = tower_vertex_count(segments as int);
        let st = segments as int + 1;
        let a = grid_spec(0, 8, segments as nat, st, GridWinding::Reversed);
        let b = grid_spec(9 * st, 6, segments as nat, st, GridWinding::Reversed);
        let c = fan_spec(16 * st, 9 * st, segments as nat, true);
        assert(as_ints(Seq::<u32>::empty()) =~= Seq::<int>::empty());
        assert(Seq::<int>::empty() + a =~= a);
        lemma_grid_below(0, 8, segments as nat, st, GridWinding::Reversed, n);
        lemma_grid_below(9 * st, 6, segments as nat, st, GridWinding::Reversed, n);
        lemma_fan_below(16 * st, 9 * st, segments as nat, true, n);
        lemma_all_below_concat(a, b, n);
        lemma_all_below_concat(a + b, c, n);
    }
    r
}

/// The number of vertices of a silo mesh: the 5-ring cylinder and the 7-ring dome.
pub open spec fn silo_vertex_count(segments: int) -> int {
    12 * (segments + 1)
}

/// The silo's triangles: cylinder grid, then dome grid.
pub open spec fn silo_indices_spec(segments: int) -> Seq<int> {
    grid_spec(0, 4, segments as nat, segments + 1, GridWinding::Reversed)
        + grid_spec(5 * (segments + 1), 6, segments as nat, segments + 1, GridWinding::Reversed)
}

/// The index buffer of a storage silo mesh with `segments` around.
pub fn generate_silo_indices(segments: u32) -> (r: Vec<u32>)
    requires
        silo_vertex_count(segments as int) <= u32::MAX,
    ensures
        as_ints(r@) == silo_indices_spec(segments as int),
        all_below(as_ints(r@), silo_vertex_count(segments as int)),
{
    let stride = segments + 1;
    let mut r: Vec<u32> = Vec::new();
    push_grid(&mut r, 0, 4, segments, stride, GridWinding::Reversed);
    push_grid(&mut r, 5 * stride, 6, segments, stride, GridWinding::Reversed);
    proof {
        let n = silo_vertex_count(segments as int);
        let st = segments as int + 1;
        let a = grid_spec(0, 4, segments as nat, st, GridWinding::Reversed);
        let b = grid_spec(5 * st, 6, segments as nat, st, GridWinding::Reversed);
        assert(as_ints(Seq::<u32>::empty()) =~= Seq::<int>::empty());
        assert(Seq::<int>::empty() + a =~= a);
        lemma_grid_below(0, 4, segments as nat, st, GridWinding::Reversed, n);
        lemma_grid_below(5 * st, 6, segments as nat, st, GridWinding::Reversed, n);
        lemma_all_below_concat(a, b, n);
    }
    r
}

/// The number of vertices of a lamp mesh: the 5-ring pole and the 6-ring lamp top.
pub open spec fn lamp_vertex_count(segments: int) -> int {
    11 * (segments + 1)
}

/// The lamp's triangles: pole grid, then lamp-top grid.
pub open spec fn lamp_indices_spec(segments: int) -> Seq<int> {
    grid_spec(0, 4, segments as nat, segments + 1, GridWinding::Reversed)
        + grid_spec(5 * (segments + 1), 5, segments as nat, segments + 1, GridWinding::Reversed)
}

/// The index buffer of a lamp post mesh with `segments` around.
pub fn generate_lamp_indices(segments: u32) -> (r: Vec<u32>)
    requires
        lamp_vertex_count(segments as int) <= u32::MAX,
    ensures
        as_ints(r@) == lamp_indices_spec(segments as int),
        all_below(as_ints(r@), lamp_vertex_count(segments as int)),
{
    let stride = segments + 1;
    let mut r: Vec<u32> = Vec::new();
    push_grid(&mut r, 0, 4, segments, stride, GridWinding::Reversed);
    push_grid(&mut r, 5 * stride, 5, segments, stride, GridWinding::Reversed);
    proof {
        let n = lamp_vertex_count(segments as int);
        let st = segments as int + 1;
        let a = grid_spec(0, 4, segments as nat, st, GridWinding::Reversed);
        let b = grid_spec(5 * st, 5, segments as nat, st, GridWinding::Reversed);
        assert(as_ints(Seq::<u32>::empty()) =~= Seq::<int>::empty());
        assert(Seq::<int>::empty() + a =~= a);
        lemma_grid_below(0, 4, segments as nat, st, GridWinding::Reversed, n);
        lemma_grid_below(5 * st, 5, segments as nat, st, GridWinding::Reversed, n);
        lemma_all_below_concat(a, b, n);
    }
    r
}

/// The number of vertices of a curved wall: front and back faces of
/// 3 x (segments + 1) vertices, the top cap's 2 x (segments + 1), and 6 per end cap.
pub open spec fn curved_wall_vertex_count(segments: int) -> int {
    8 * (segments + 1) + 12
}

/// The curved wall's triangles: front face, back face, top cap, left end, right end.
pub open spec fn curved_wall_indices_spec(segments: int) -> Seq<int> {
    let s = segments as nat;
    let vpf = 3 * (segments + 1);
    let top = 2 * vpf;
    let left = top + 2 * (segments + 1);
    grid_spec(0, s, 2, 3, GridWinding::Reversed)
        + grid_spec(vpf, s, 2, 3, GridWinding::Forward)
        + grid_spec(top, s, 1, 2, GridWinding::Reversed)
        + grid_spec(left, 2, 1, 2, GridWinding::Reversed)
        + grid_spec(left + 6, 2, 1, 2, GridWinding::Forward)
}

/// The index buffer of a curved wall segment with `segments` along its length.
pub fn generate_curved_wall_indices(segments: u32) -> (r: Vec<u32>)
    requires
        curved_wall_vertex_count(segments as int) <= u32::MAX,
    ensures
        as_ints(r@) == curved_wall_indices_spec(segments as int),
        all_below(as_ints(r@), curved_wall_vertex_count(segments as int)),
{
    let verts_per_face = (segments + 1) * 3;
    let mut r: Vec<u32> = Vec::new();
    push_grid(&mut r, 0, segments, 2, 3, GridWinding::Reversed);
    push_grid(&mut r, verts_per_face, segments, 2, 3, GridWinding::Forward);
    let top_base = 2 * verts_per_face;
    push_grid(&mut r, top_base, segments, 1, 2, GridWinding::Reversed);
    let left_edge_base = top_base + 2 * (segments + 1);
    push_grid(&mut r, left_edge_base, 2, 1, 2, GridWinding::Reversed);
    let right_edge_base = left_edge_base + 6;
    push_grid(&mut r, right_edge_base, 2, 1, 2, GridWinding::Forward);
    proof {
        let n = curved_wall_vertex_count(segments as int);
        let sg = segments as nat;
        let vpf = 3 * (segments as int + 1);
        let top = 2 * vpf;
        let left = top + 2 * (segments as int + 1);
        let a = grid_spec(0, sg, 2, 3, GridWinding::Reversed);
        let b = grid_spec(vpf, sg, 2, 3, GridWinding::Forward);
        let c = grid_spec(top, sg, 1, 2, GridWinding::Reversed);
        let d = grid_spec(left, 2, 1, 2, GridWinding::Reversed);
        let e = grid_spec(left + 6, 2, 1, 2, GridWinding::Forward);
        assert(as_ints(Seq::<u32>::empty()) =~= Seq::<int>::empty());
        assert(Seq::<int>::empty() + a =~= a);
        lemma_grid_below(0, sg, 2, 3, GridWinding::Reversed, n);
        lemma_grid_below(vpf, sg, 2, 3, GridWinding::Forward, n);
        lemma_grid_below(top, sg, 1, 2, GridWinding::Reversed, n);
        lemma_grid_below(left, 2, 1, 2, GridWinding::Reversed, n);
        lemma_grid_below(left + 6, 2, 1, 2, GridWinding::Forward, n);
        lemma_all_below_concat(a, b, n);
        lemma_all_below_concat(a + b, c, n);
        lemma_all_below_concat(a + b + c, d, n);
        lemma_all_below_concat(a + b + c + d, e, n);
    }
    r
}

/// The number of vertices of an archway: two pillar boxes, then four
/// 13 x 2 vertex strips (outer arch, inner arch, front cap, back cap).
pub open spec fn archway_vertex_count() -> int {
    152
}

/// The archway's triangles: both pillars, outer and inner arch, front and back caps.
pub open spec fn archway_indices_spec() -> Seq<int> {
    box_spec(0, 6) + box_spec(24, 6)
        + grid_spec(48, 12, 1, 2, GridWinding::Reversed)
        + grid_spec(74, 12, 1, 2, GridWinding::Reversed)
        + grid_spec(100, 12, 1, 2, GridWinding::Forward)
        + grid_spec(126, 12, 1, 2, GridWinding::Reversed)
}

proof fn lemma_box_below(base: int, faces: nat, n: int)
    requires
        base >= 0,
        base + 4 * faces <= n,
    ensures
        all_below(box_spec(base, faces), n),
    decreases faces,
{
    if faces > 0 {
        lemma_box_below(base, (faces - 1) as nat, n);
        let b = base + 4 * (faces - 1);
        lemma_all_below_concat(box_spec(base, (faces - 1) as nat), seq![b, b + 1, b + 2, b, b + 2, b + 3], n);
    }
}

/// The index buffer of an archway mesh.
pub fn generate_archway_indices() -> (r: Vec<u32>)
    ensures
        as_ints(r@) == archway_indices_spec(),
        all_below(as_ints(r@), archway_vertex_count()),
{
    let mut r: Vec<u32> = Vec::new();
    add_box(&mut r, 0);
    add_box(&mut r, 24);
    push_grid(&mut r, 48, 12, 1, 2, GridWinding::Reversed);
    push_grid(&mut r, 74, 12, 1, 2, GridWinding::Reversed);
    push_grid(&mut r, 100, 12, 1, 2, GridWinding::Forward);
    push_grid(&mut r, 126, 12, 1, 2, GridWinding::Reversed);
    proof {
        let n = archway_vertex_count();
        assert(as_ints(Seq::<u32>::empty()) =~= Seq::<int>::empty());
        assert(Seq::<int>::empty() + box_spec(0, 6) =~= box_spec(0, 6));
        lemma_box_below(0, 6, n);
        lemma_box_below(24, 6, n);
        lemma_grid_below(48, 12, 1, 2, GridWinding::Reversed, n);
        lemma_grid_below(74, 12, 1, 2, GridWinding::Reversed, n);
        lemma_grid_below(100, 12, 1, 2, GridWinding::Forward, n);
        lemma_grid_below(126, 12, 1, 2, GridWinding::Reversed, n);
        let a = box_spec(0, 6);
        let b = box_spec(24, 6);
        let c = grid_spec(48, 12, 1, 2, GridWinding::Reversed);
        let d = grid_spec(74, 12, 1, 2, GridWinding::Reversed);
        let e = grid_spec(100, 12, 1, 2, GridWinding::Forward);
        let f = grid_spec(126, 12, 1, 2, GridWinding::Reversed);
        lemma_all_below_concat(a, b, n);
        lemma_all_below_concat(a + b, c, n);
        lemma_all_below_concat(a + b + c, d, n);
        lemma_all_below_concat(a + b + c + d, e, n);
        lemma_all_below_concat(a + b + c + d + e, f, n);
    }
    r
}


/// The index buffer of the terrain flattening preview: a grid of `steps_x`
/// by `steps_z` quads over `(steps_x + 1) * (steps_z + 1)` vertices laid out
/// row by row, each quad the triangles (top-left, bottom-left, top-right)
/// and (top-right, bottom-left, bottom-right).
pub fn generate_terrain_preview_indices(steps_x: u32, steps_z: u32) -> (r: Vec<u32>)
    requires
        (steps_x + 1) * (steps_z + 1) <= u32::MAX,
    ensures
        as_ints(r@) == grid_spec(0, steps_z as nat, steps_x as nat, steps_x + 1, GridWinding::Reversed),
        all_below(as_ints(r@), (steps_x + 1) * (steps_z + 1)),
        r@.len() == 6 * steps_x * steps_z,
{
    let mut r: Vec<u32> = Vec::new();
    assert(steps_z * (steps_x + 1) + steps_x < (steps_x + 1) * (steps_z + 1)) by (nonlinear_arith);
    push_grid(&mut r, 0, steps_z, steps_x, steps_x + 1, GridWinding::Reversed);
    proof {
        assert(as_ints(Seq::<u32>::empty()) =~= Seq::<int>::empty());
        assert(Seq::<int>::empty() + grid_spec(0, steps_z as nat, steps_x as nat, steps_x + 1, GridWinding::Reversed)
            =~= grid_spec(0, steps_z as nat, steps_x as nat, steps_x + 1, GridWinding::Reversed));
        lemma_grid_below(0, steps_z as nat, steps_x as nat, steps_x + 1, GridWinding::Reversed, (steps_x + 1) * (steps_z + 1));
        lemma_grid_len(0, steps_z as nat, steps_x as nat, steps_x + 1, GridWinding::Reversed);
        assert(as_ints(r@).len() == r@.len());
    }
    r
}

proof fn lemma_grid_len(start: int, rows: nat, cols: nat, stride: int, w: GridWinding)
    requires
        stride >= 0,
    ensures
        grid_spec(start, rows, cols, stride, w).len() == 6 * cols * rows,
    decreases rows,
{
    if rows > 0 {
        lemma_grid_len(start + stride, (rows - 1) as nat, cols, stride, w);
        lemma_row_bounds(start, cols, stride, w);
        assert(6 * cols + 6 * cols * (rows - 1) == 6 * cols * rows) by (nonlinear_arith);
    } else {
        assert(6 * cols * rows == 0) by (nonlinear_arith)
            requires rows == 0;
    }
}

} // verus!
