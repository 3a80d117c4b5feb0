//! What it means for a list of quads to be the greedy mesh of one face
//! orientation of a grid.

use crate::block::BlockType;
use crate::face::Face;
use crate::grid::Grid;
use crate::vector::Cell;
use crate::vector::Vec3;
use vstd::prelude::*;

verus! {

/// A rectangle of block faces of one orientation and one block type, given by
/// the box of cells whose faces it merges.
#[derive(Clone, Copy, Debug, PartialEq, Eq, Structural)]
pub struct Quad {
    pub face: usize,
    pub origin: Vec3,
    pub dim: Vec3,
    pub blocktype: BlockType,
}

/// Whether `c` lies in the box of cells that starts at `origin` and has the
/// extents `dim`.
pub open spec fn in_box(origin: Cell, dim: Cell, c: Cell) -> bool {
    &&& origin.x <= c.x < origin.x + dim.x
    &&& origin.y <= c.y < origin.y + dim.y
    &&& origin.z <= c.z < origin.z + dim.z
}

impl Quad {
    /// Whether the quad covers the face of cell `c`.
    pub open spec fn covers(&self, c: Cell) -> bool {
        in_box(self.origin@, self.dim@, c)
    }

    /// The quad's box lies inside a grid of edge `size` and is not empty.
    pub open spec fn fits(&self, size: int) -> bool {
        &&& 1 <= self.dim.x && self.origin.x + self.dim.x <= size
        &&& 1 <= self.dim.y && self.origin.y + self.dim.y <= size
        &&& 1 <= self.dim.z && self.origin.z + self.dim.z <= size
    }
}

/// Whether a block stands at `c` as far as face culling goes: everything
/// below the grid counts as solid, everything else outside it as empty.
pub open spec fn solid_at(map: Grid, c: Cell) -> bool {
    c.y < 0 || (map.in_bounds(c) && map.block_at(c).spec_is_opaque())
}

/// Whether the face of cell `c` in the given orientation has to be drawn: the
/// cell holds a block that is not air, and no block stands in front of it.
pub open spec fn exposed(map: Grid, face: Face, c: Cell) -> bool {
    &&& map.in_bounds(c)
    &&& map.block_at(c).blocktype != BlockType::BlockAir
    &&& !solid_at(map, c.plus(face.normal@))
}

/// The exposed faces of one orientation.
pub open spec fn exposed_set(map: Grid, face: Face) -> Set<Cell> {
    Set::new(|c: Cell| exposed(map, face, c))
}

/// Whether the face of `c` is exposed and none of the first `n` quads covers
/// it.
pub open spec fn unmeshed(map: Grid, face: Face, quads: Seq<Quad>, n: int, c: Cell) -> bool {
    &&& exposed(map, face, c)
    &&& forall|m: int| 0 <= m < n ==> !(#[trigger] quads[m]).covers(c)
}

/// The exposed faces that the first `n` quads leave uncovered.
pub open spec fn unmeshed_set(map: Grid, face: Face, quads: Seq<Quad>, n: int) -> Set<Cell> {
    Set::new(|c: Cell| unmeshed(map, face, quads, n, c))
}

/// Whether `c` can be merged into a run that starts at `p`: it is a cell of
/// the grid, its face is in `mask`, and it holds the block type of `p`.
pub open spec fn joins(map: Grid, mask: Set<Cell>, p: Cell, c: Cell) -> bool {
    &&& map.in_bounds(c)
    &&& mask.contains(c)
    &&& map.block_at(c).blocktype == map.block_at(p).blocktype
}

/// Whether the `len - 1` cells that follow `p` in direction `d` all join the
/// run of `p`.
pub open spec fn run_reaches(map: Grid, mask: Set<Cell>, p: Cell, d: Cell, len: int) -> bool {
    forall|t: int| 1 <= t < len ==> joins(map, mask, p, #[trigger] p.step(d, t))
}

/// Whether `len` is the length of the longest run from `p` in direction `d`:
/// the run reaches that far, and the next cell does not join it.
pub open spec fn is_run(map: Grid, mask: Set<Cell>, p: Cell, d: Cell, len: int) -> bool {
    &&& len >= 1
    &&& run_reaches(map, mask, p, d, len)
    &&& !joins(map, mask, p, p.step(d, len))
}

/// Whether `dim` is the extent of the greedy rectangle at `p`: one cell thick
/// along the sweep axis, as long along `dk` as the run from `p`, and as long
/// along `dj` as the shortest of the runs along `dj` that start from the cells
/// of that first run.
pub open spec fn is_extent(map: Grid, mask: Set<Cell>, face: Face, p: Cell, dim: Cell) -> bool {
    let len_k = dim.along(face.dk@);
    let len_j = dim.along(face.dj@);
    &&& dim.along(face.di@) == 1
    &&& is_run(map, mask, p, face.dk@, len_k)
    &&& len_j >= 1
    &&& forall|b: int|
        0 <= b < len_k ==> run_reaches(map, mask, #[trigger] p.step(face.dk@, b), face.dj@, len_j)
    &&& exists|b: int|
        0 <= b < len_k && is_run(map, mask, #[trigger] p.step(face.dk@, b), face.dj@, len_j)
}

/// Whether the mesher visits `a` before `b`: it counts up along `di`, within
/// that along `dj`, and within that along `dk`.
pub open spec fn scans_before(face: Face, a: Cell, b: Cell) -> bool {
    let (ai, aj, ak) = (a.along(face.di@), a.along(face.dj@), a.along(face.dk@));
    let (bi, bj, bk) = (b.along(face.di@), b.along(face.dj@), b.along(face.dk@));
    ai < bi || (ai == bi && (aj < bj || (aj == bj && ak < bk)))
}

/// Whether the quad at index `n` is the one that greedy meshing emits after
/// the quads before it: it starts at the first face in scan order that is
/// still unmeshed, carries that cell's block type, and has the greedy extent
/// within the unmeshed faces.
pub open spec fn is_greedy_quad(map: Grid, face: Face, quads: Seq<Quad>, n: int) -> bool {
    let q = quads[n];
    let mask = unmeshed_set(map, face, quads, n);
    &&& q.face == face.index
    &&& mask.contains(q.origin@)
    &&& forall|c: Cell| #[trigger] mask.contains(c) ==> !scans_before(face, c, q.origin@)
    &&& q.blocktype == map.block_at(q.origin@).blocktype
    &&& is_extent(map, mask, face, q.origin@, q.dim@)
}

/// Whether `quads` is the greedy mesh of one orientation: every quad is the
/// greedy choice after its predecessors, and together they leave no exposed
/// face unmeshed.
pub open spec fn is_greedy_mesh(map: Grid, face: Face, quads: Seq<Quad>) -> bool {
    &&& forall|n: int| 0 <= n < quads.len() ==> #[trigger] is_greedy_quad(map, face, quads, n)
    &&& forall|c: Cell| !unmeshed(map, face, quads, quads.len() as int, c)
}

/// Every face that a greedy quad covers was unmeshed before it and holds the
/// quad's block type.
pub proof fn lemma_greedy_quad_cells(map: Grid, face: Face, quads: Seq<Quad>, n: int, c: Cell)
    requires
        face.wf(),
        0 <= n < quads.len(),
        is_greedy_quad(map, face, quads, n),
        quads[n].covers(c),
    ensures
        unmeshed(map, face, quads, n, c),
        map.block_at(c).blocktype == quads[n].blocktype,
{
    let q = quads[n];
    let p = q.origin@;
    let mask = unmeshed_set(map, face, quads, n);
    let len_k = q.dim@.along(face.dk@);
    let len_j = q.dim@.along(face.dj@);
    let b = c.along(face.dk@) - p.along(face.dk@);
    let a = c.along(face.dj@) - p.along(face.dj@);
    let row = p.step(face.dk@, b);
    assert(0 <= b < len_k && 0 <= a < len_j);
    assert(c.along(face.di@) == p.along(face.di@));
    assert(c == row.step(face.dj@, a));
    assert(mask.contains(p));
    if b == 0 {
        assert(row == p);
    } else {
        assert(run_reaches(map, mask, p, face.dk@, len_k));
        assert(joins(map, mask, p, row));
    }
    assert(run_reaches(map, mask, row, face.dj@, len_j));
    if a == 0 {
        assert(c == row);
    } else {
        assert(joins(map, mask, row, row.step(face.dj@, a)));
    }
    assert(mask.contains(c));
}

/// Whether the quads cover exactly the exposed faces of the orientation, and
/// each of them once.
pub open spec fn covers_exposed_once(map: Grid, face: Face, quads: Seq<Quad>) -> bool {
    &&& forall|c: Cell|
        exposed(map, face, c) <==> exists|n: int|
            0 <= n < quads.len() && (#[trigger] quads[n]).covers(c)
    &&& forall|n: int, m: int, c: Cell|
        0 <= n < m < quads.len() && #[trigger] quads[n].covers(c) ==> !#[trigger] quads[m].covers(c)
}

/// Whether every quad covers faces of one block type only, all of them
/// exposed faces of the orientation.
pub open spec fn quads_uniform(map: Grid, face: Face, quads: Seq<Quad>) -> bool {
    forall|n: int, c: Cell|
        0 <= n < quads.len() && #[trigger] quads[n].covers(c) ==> exposed(map, face, c)
            && map.block_at(c).blocktype == quads[n].blocktype && quads[n].face == face.index
}

/// Mesh coverage: the quads of a greedy mesh cover exactly the exposed faces,
/// and no face is covered by two quads.
pub proof fn lemma_mesh_covers_exposed_faces(map: Grid, face: Face, quads: Seq<Quad>)
    requires
        face.wf(),
        is_greedy_mesh(map, face, quads),
    ensures
        covers_exposed_once(map, face, quads),
{
    assert forall|c: Cell|
        exposed(map, face, c) <==> exists|n: int|
            0 <= n < quads.len() && (#[trigger] quads[n]).covers(c) by {
        if exposed(map, face, c) {
            assert(!unmeshed(map, face, quads, quads.len() as int, c));
        }
        if exists|n: int| 0 <= n < quads.len() && (#[trigger] quads[n]).covers(c) {
            let n = choose|n: int| 0 <= n < quads.len() && (#[trigger] quads[n]).covers(c);
            assert(is_greedy_quad(map, face, quads, n));
            lemma_greedy_quad_cells(map, face, quads, n, c);
        }
    }
    assert forall|n: int, m: int, c: Cell|
        0 <= n < m < quads.len() && #[trigger] quads[n].covers(c) implies !#[trigger] quads[m].covers(
            c,
        ) by {
        if quads[m].covers(c) {
            assert(is_greedy_quad(map, face, quads, m));
            lemma_greedy_quad_cells(map, face, quads, m, c);
        }
    }
}

/// Quad uniformity: every face that a quad of a greedy mesh covers is an
/// exposed face of the mesh's orientation and holds the quad's block type.
pub proof fn lemma_quads_are_uniform(map: Grid, face: Face, quads: Seq<Quad>)
    requires
        face.wf(),
        is_greedy_mesh(map, face, quads),
    ensures
        quads_uniform(map, face, quads),
{
    assert forall|n: int, c: Cell|
        0 <= n < quads.len() && #[trigger] quads[n].covers(c) implies exposed(map, face, c)
            && map.block_at(c).blocktype == quads[n].blocktype && quads[n].face == face.index by {
        assert(is_greedy_quad(map, face, quads, n));
        lemma_greedy_quad_cells(map, face, quads, n, c);
    }
}

/// A greedy mesh has no quad exactly when the orientation has no exposed
/// face.
pub proof fn lemma_no_quads_iff_nothing_exposed(map: Grid, face: Face, quads: Seq<Quad>)
    requires
        face.wf(),
        is_greedy_mesh(map, face, quads),
    ensures
        quads.len() == 0 <==> forall|c: Cell| !exposed(map, face, c),
{
    if quads.len() == 0 {
        assert forall|c: Cell| !exposed(map, face, c) by {
            assert(!unmeshed(map, face, quads, quads.len() as int, c));
        }
    } else {
        assert(is_greedy_quad(map, face, quads, 0));
        assert(unmeshed(map, face, quads, 0, quads[0].origin@));
    }
}

/// Quad lists that agree on their first `n` quads leave the same faces
/// unmeshed after these.
pub proof fn lemma_unmeshed_by_prefix(map: Grid, face: Face, a: Seq<Quad>, b: Seq<Quad>, n: int)
    requires
        0 <= n <= a.len(),
        n <= b.len(),
        forall|m: int| 0 <= m < n ==> a[m] == b[m],
    ensures
        unmeshed_set(map, face, a, n) == unmeshed_set(map, face, b, n),
{
    assert forall|c: Cell| unmeshed(map, face, a, n, c) == unmeshed(map, face, b, n, c) by {
        assert forall|m: int| 0 <= m < n implies a[m].covers(c) == b[m].covers(c) by {}
    }
    assert(unmeshed_set(map, face, a, n) =~= unmeshed_set(map, face, b, n));
}

/// Within one set of unmeshed faces, there is one greedy extent at a cell.
pub proof fn lemma_extent_unique(
    map: Grid,
    mask: Set<Cell>,
    face: Face,
    p: Cell,
    first: Cell,
    second: Cell,
)
    requires
        face.wf(),
        is_extent(map, mask, face, p, first),
        is_extent(map, mask, face, p, second),
    ensures
        first == second,
{
    let (dj, dk) = (face.dj@, face.dk@);
    let (k1, k2) = (first.along(dk), second.along(dk));
    let (j1, j2) = (first.along(dj), second.along(dj));
    if k1 < k2 {
        assert(joins(map, mask, p, p.step(dk, k1)));
    }
    if k2 < k1 {
        assert(joins(map, mask, p, p.step(dk, k2)));
    }
    assert(k1 == k2);
    if j1 < j2 {
        let b = choose|b: int| 0 <= b < k1 && is_run(map, mask, #[trigger] p.step(dk, b), dj, j1);
        let row = p.step(dk, b);
        assert(run_reaches(map, mask, row, dj, j2));
        assert(joins(map, mask, row, row.step(dj, j1)));
    }
    if j2 < j1 {
        let b = choose|b: int| 0 <= b < k2 && is_run(map, mask, #[trigger] p.step(dk, b), dj, j2);
        let row = p.step(dk, b);
        assert(run_reaches(map, mask, row, dj, j1));
        assert(joins(map, mask, row, row.step(dj, j2)));
    }
    assert(j1 == j2);
}

/// Two greedy meshes of one orientation agree on their first `n` quads.
pub proof fn lemma_greedy_prefix_unique(
    map: Grid,
    face: Face,
    a: Seq<Quad>,
    b: Seq<Quad>,
    n: int,
)
    requires
        face.wf(),
        is_greedy_mesh(map, face, a),
        is_greedy_mesh(map, face, b),
        0 <= n <= a.len(),
        n <= b.len(),
    ensures
        forall|m: int| 0 <= m < n ==> a[m] == b[m],
    decreases n,
{
    if n > 0 {
        lemma_greedy_prefix_unique(map, face, a, b, n - 1);
        lemma_unmeshed_by_prefix(map, face, a, b, n - 1);
        let mask = unmeshed_set(map, face, a, n - 1);
        let (qa, qb) = (a[n - 1], b[n - 1]);
        assert(is_greedy_quad(map, face, a, n - 1));
        assert(is_greedy_quad(map, face, b, n - 1));
        assert(mask.contains(qa.origin@) && mask.contains(qb.origin@));
        assert(!scans_before(face, qa.origin@, qb.origin@));
        assert(!scans_before(face, qb.origin@, qa.origin@));
        assert(qa.origin@ == qb.origin@);
        lemma_extent_unique(map, mask, face, qa.origin@, qa.dim@, qb.dim@);
        assert(qa == qb);
    }
}

/// Determinism of the merge pass: an orientation of a grid has one greedy
/// mesh only.
pub proof fn lemma_greedy_mesh_unique(map: Grid, face: Face, a: Seq<Quad>, b: Seq<Quad>)
    requires
        face.wf(),
        is_greedy_mesh(map, face, a),
        is_greedy_mesh(map, face, b),
    ensures
        a == b,
{
    let n = if a.len() <= b.len() {
        a.len() as int
    } else {
        b.len() as int
    };
    lemma_greedy_prefix_unique(map, face, a, b, n);
    lemma_unmeshed_by_prefix(map, face, a, b, n);
    if a.len() < b.len() {
        assert(is_greedy_quad(map, face, b, n));
        assert(unmeshed(map, face, a, n, b[n].origin@));
    }
    if b.len() < a.len() {
        assert(is_greedy_quad(map, face, a, n));
        assert(unmeshed(map, face, b, n, a[n].origin@));
    }
    assert(a =~= b);
}

} // verus!
