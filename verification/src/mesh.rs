//! Greedy meshing: the exposed block faces of a grid, merged into rectangles.

use crate::bitmap::BlockBitmap;
use crate::block::BlockType;
use crate::face::face_at;
use crate::face::faces;
use crate::face::lemma_face_at_wf;
use crate::face::Face;
use crate::geometry::range_end;
use crate::geometry::range_quads;
use crate::geometry::MeshData;
use crate::grid::cube;
use crate::grid::lemma_edge_is_small;
use crate::grid::Grid;
use crate::grid::VoxelGrid;
use crate::quad::covers_exposed_once;
use crate::quad::exposed;
use crate::quad::exposed_set;
use crate::quad::in_box;
use crate::quad::is_extent;
use crate::quad::is_greedy_mesh;
use crate::quad::is_greedy_quad;
use crate::quad::is_run;
use crate::quad::joins;
use crate::quad::lemma_greedy_mesh_unique;
use crate::quad::lemma_mesh_covers_exposed_faces;
use crate::quad::lemma_no_quads_iff_nothing_exposed;
use crate::quad::lemma_quads_are_uniform;
use crate::quad::quads_uniform;
use crate::quad::run_reaches;
use crate::quad::scans_before;
use crate::quad::solid_at;
use crate::quad::unmeshed;
use crate::quad::unmeshed_set;
use crate::quad::Quad;
use crate::vector::Cell;
use crate::vector::Vec3;
use crate::NUM_FACES;
use vstd::prelude::*;

verus! {

/// Whether a block stands at the given coordinates as far as face culling
/// goes. Below the grid everything counts as solid, so that the underside of
/// a chunk is never drawn; elsewhere outside the grid nothing does.
pub fn block_exists(map: &VoxelGrid, x: isize, y: isize, z: isize) -> (solid: bool)
    requires
        map.wf(),
    ensures
        solid == solid_at(map@, Cell { x: x as int, y: y as int, z: z as int }),
{
    if y < 0 {
        return true;
    }
    match map.index(x, y, z) {
        Some(block) => block.is_opaque(),
        None => false,
    }
}

/// The exposure pass: marks the faces of one orientation that have to be
/// drawn.
pub fn exposed_faces(map: &VoxelGrid, face: &Face) -> (mask: BlockBitmap)
    requires
        map.wf(),
        face.wf(),
    ensures
        mask.wf(),
        mask.size() == map.size(),
        mask@ == exposed_set(map@, *face),
{
    let size = map.edge();
    proof {
        map.lemma_size_fits();
        lemma_edge_is_small(size);
    }
    let (nx, ny, nz) = (face.normal.x as isize, face.normal.y as isize, face.normal.z as isize);
    let mut mask = BlockBitmap::with_size(size);
    let mut x: usize = 0;
    while x < size
        invariant
            map.wf(),
            face.wf(),
            size == map.size(),
            size < isize::MAX,
            x <= size,
            mask.wf(),
            mask.size() == size,
            nx == face.normal.x && ny == face.normal.y && nz == face.normal.z,
            forall|c: Cell| #[trigger] mask@.contains(c) <==> exposed(map@, *face, c) && c.x < x,
        decreases size - x,
    {
        let mut y: usize = 0;
        while y < size
            invariant
                map.wf(),
                face.wf(),
                size == map.size(),
                size < isize::MAX,
                x < size,
                y <= size,
                mask.wf(),
                mask.size() == size,
                nx == face.normal.x && ny == face.normal.y && nz == face.normal.z,
                forall|c: Cell| #[trigger]
                    mask@.contains(c) <==> exposed(map@, *face, c) && (c.x < x || (c.x == x && c.y
                        < y)),
            decreases size - y,
        {
            let mut z: usize = 0;
            while z < size
                invariant
                    map.wf(),
                    face.wf(),
                    size == map.size(),
                    size < isize::MAX,
                    x < size,
                    y < size,
                    z <= size,
                    mask.wf(),
                    mask.size() == size,
                    nx == face.normal.x && ny == face.normal.y && nz == face.normal.z,
                    forall|c: Cell| #[trigger]
                        mask@.contains(c) <==> exposed(map@, *face, c) && (c.x < x || (c.x == x && (
                        c.y < y || (c.y == y && c.z < z)))),
                decreases size - z,
            {
                let block = map.get(x, y, z);
                if block.blocktype != BlockType::BlockAir && !block_exists(
                    map,
                    x as isize + nx,
                    y as isize + ny,
                    z as isize + nz,
                ) {
                    mask.insert(x, y, z);
                }
                z += 1;
            }
            y += 1;
        }
        x += 1;
    }
    assert(mask@ =~= exposed_set(map@, *face));
    mask
}

/// The length of the run of faces that starts at `p` and goes in direction
/// `dp`: how many consecutive cells, `p` counted in, are still unmeshed and
/// hold the block type of `p`.
pub fn run_length(map: &VoxelGrid, unmeshed_faces: &BlockBitmap, p: Vec3, dp: Vec3) -> (len: usize)
    requires
        map.wf(),
        unmeshed_faces.wf(),
        unmeshed_faces.size() == map.size(),
        map.in_bounds(p@),
        dp@.is_axis(),
    ensures
        is_run(map@, unmeshed_faces@, p@, dp@, len as int),
        p@.along(dp@) + len <= map.size(),
{
    let size = map.edge();
    proof {
        map.lemma_size_fits();
        lemma_edge_is_small(size);
    }
    let block = map.get(p.x, p.y, p.z);
    let mut q = p;
    let mut len: usize = 1;
    loop
        invariant_except_break
            map.in_bounds(q@),
            q@ == p@.step(dp@, len - 1),
        invariant
            map.wf(),
            unmeshed_faces.wf(),
            unmeshed_faces.size() == map.size(),
            size == map.size(),
            size < isize::MAX,
            map.in_bounds(p@),
            dp@.is_axis(),
            block == map.block_at(p@),
            len >= 1,
            run_reaches(map@, unmeshed_faces@, p@, dp@, len as int),
        ensures
            is_run(map@, unmeshed_faces@, p@, dp@, len as int),
            p@.along(dp@) + len <= map.size(),
        decreases size - q@.along(dp@),
    {
        q = q.add_v(&dp);
        assert(q@ == p@.step(dp@, len as int));
        if unmeshed_faces.contains(q.x, q.y, q.z) {
            match map.index(q.x as isize, q.y as isize, q.z as isize) {
                Some(b) if b.blocktype == block.blocktype => {
                    len += 1;
                },
                _ => {
                    break ;
                },
            }
        } else {
            break ;
        }
    }
    len
}

/// The extent of the greedy rectangle at `p`: 1 along the sweep axis, the
/// run length from `p` along `dk`, and along `dj` the shortest of the runs
/// that start from the cells of that run.
pub fn expand_face(map: &VoxelGrid, unmeshed_faces: &BlockBitmap, face: &Face, p: Vec3) -> (dim:
    Vec3)
    requires
        map.wf(),
        unmeshed_faces.wf(),
        unmeshed_faces.size() == map.size(),
        face.wf(),
        map.in_bounds(p@),
    ensures
        is_extent(map@, unmeshed_faces@, *face, p@, dim@),
        p@.along(face.dk@) + dim@.along(face.dk@) <= map.size(),
        p@.along(face.dj@) + dim@.along(face.dj@) <= map.size(),
{
    let size = map.edge();
    proof {
        map.lemma_size_fits();
        lemma_edge_is_small(size);
    }
    let len_k = run_length(map, unmeshed_faces, p, face.dk);
    let mut len_j = run_length(map, unmeshed_faces, p, face.dj);
    let ghost mut shortest: int = 0;
    assert(p@.step(face.dk@, 0) == p@);
    let mut k: usize = 1;
    while k < len_k
        invariant
            map.wf(),
            unmeshed_faces.wf(),
            unmeshed_faces.size() == map.size(),
            size == map.size(),
            size < isize::MAX,
            face.wf(),
            map.in_bounds(p@),
            1 <= k <= len_k,
            is_run(map@, unmeshed_faces@, p@, face.dk@, len_k as int),
            p@.along(face.dk@) + len_k <= size,
            p@.along(face.dj@) + len_j <= size,
            len_j >= 1,
            0 <= shortest < k,
            is_run(map@, unmeshed_faces@, p@.step(face.dk@, shortest), face.dj@, len_j as int),
            forall|b: int|
                0 <= b < k ==> run_reaches(
                    map@,
                    unmeshed_faces@,
                    #[trigger] p@.step(face.dk@, b),
                    face.dj@,
                    len_j as int,
                ),
        decreases len_k - k,
    {
        assert(joins(map@, unmeshed_faces@, p@, p@.step(face.dk@, k as int)));
        let start = p.add_v(&face.dk.mul_s(k));
        assert(start@ == p@.step(face.dk@, k as int));
        let len = run_length(map, unmeshed_faces, start, face.dj);
        if len < len_j {
            len_j = len;
            proof {
                shortest = k as int;
            }
        }
        k += 1;
    }
    let dim = Vec3::new(1, 1, 1).add_v(&face.dk.mul_s(len_k - 1)).add_v(&face.dj.mul_s(len_j - 1));
    assert(dim@.along(face.dk@) == len_k);
    assert(dim@.along(face.dj@) == len_j);
    assert(dim@.along(face.di@) == 1);
    dim
}

/// Takes the cells of the box at `p` with the extents `dim` out of the
/// bitmap.
pub fn clear_box(unmeshed_faces: &mut BlockBitmap, p: Vec3, dim: Vec3)
    requires
        old(unmeshed_faces).wf(),
        p.x + dim.x <= old(unmeshed_faces).size(),
        p.y + dim.y <= old(unmeshed_faces).size(),
        p.z + dim.z <= old(unmeshed_faces).size(),
    ensures
        final(unmeshed_faces).wf(),
        final(unmeshed_faces).size() == old(unmeshed_faces).size(),
        forall|c: Cell| #[trigger]
            final(unmeshed_faces)@.contains(c) <==> old(unmeshed_faces)@.contains(c) && !in_box(
                p@,
                dim@,
                c,
            ),
{
    let ghost before = unmeshed_faces@;
    let ghost size = unmeshed_faces.size();
    proof {
        unmeshed_faces.lemma_size_fits();
    }
    let mut dx: usize = 0;
    while dx < dim.x
        invariant
            unmeshed_faces.wf(),
            unmeshed_faces.size() == size,
            size <= usize::MAX,
            p.x + dim.x <= size,
            p.y + dim.y <= size,
            p.z + dim.z <= size,
            dx <= dim.x,
            forall|c: Cell| #[trigger]
                unmeshed_faces@.contains(c) <==> before.contains(c) && !(in_box(p@, dim@, c) && c.x
                    < p.x + dx),
        decreases dim.x - dx,
    {
        let mut dy: usize = 0;
        while dy < dim.y
            invariant
                unmeshed_faces.wf(),
                unmeshed_faces.size() == size,
                size <= usize::MAX,
                p.x + dim.x <= size,
                p.y + dim.y <= size,
                p.z + dim.z <= size,
                dx < dim.x,
                dy <= dim.y,
                forall|c: Cell| #[trigger]
                    unmeshed_faces@.contains(c) <==> before.contains(c) && !(in_box(p@, dim@, c)
                        && (c.x < p.x + dx || (c.x == p.x + dx && c.y < p.y + dy))),
            decreases dim.y - dy,
        {
            let mut dz: usize = 0;
            while dz < dim.z
                invariant
                    unmeshed_faces.wf(),
                    unmeshed_faces.size() == size,
                    size <= usize::MAX,
                    p.x + dim.x <= size,
                    p.y + dim.y <= size,
                    p.z + dim.z <= size,
                    dx < dim.x,
                    dy < dim.y,
                    dz <= dim.z,
                    forall|c: Cell| #[trigger]
                        unmeshed_faces@.contains(c) <==> before.contains(c) && !(in_box(
                            p@,
                            dim@,
                            c,
                        ) && (c.x < p.x + dx || (c.x == p.x + dx && (c.y < p.y + dy || (c.y == p.y
                            + dy && c.z < p.z + dz))))),
                decreases dim.z - dz,
            {
                unmeshed_faces.remove(p.x + dx, p.y + dy, p.z + dz);
                dz += 1;
            }
            dy += 1;
        }
        dx += 1;
    }
}

/// Appending a quad changes neither what the earlier quads left unmeshed nor
/// whether they were greedy choices, and the new quad takes exactly its own
/// cells out of what was unmeshed before.
proof fn lemma_push_quad(map: Grid, face: Face, quads: Seq<Quad>, q: Quad)
    ensures
        forall|n: int|
            0 <= n <= quads.len() ==> #[trigger] unmeshed_set(map, face, quads.push(q), n)
                == unmeshed_set(map, face, quads, n),
        forall|n: int|
            0 <= n < quads.len() ==> #[trigger] is_greedy_quad(map, face, quads.push(q), n)
                == is_greedy_quad(map, face, quads, n),
        forall|c: Cell| #[trigger]
            unmeshed(map, face, quads.push(q), quads.len() as int + 1, c) <==> unmeshed(
                map,
                face,
                quads,
                quads.len() as int,
                c,
            ) && !q.covers(c),
{
    let longer = quads.push(q);
    assert forall|n: int| 0 <= n <= quads.len() implies #[trigger] unmeshed_set(
        map,
        face,
        longer,
        n,
    ) == unmeshed_set(map, face, quads, n) by {
        assert forall|c: Cell| unmeshed(map, face, longer, n, c) == unmeshed(
            map,
            face,
            quads,
            n,
            c,
        ) by {
            assert forall|m: int| 0 <= m < n implies longer[m] == quads[m] by {}
        }
        assert(unmeshed_set(map, face, longer, n) =~= unmeshed_set(map, face, quads, n));
    }
    assert forall|n: int| 0 <= n < quads.len() implies #[trigger] is_greedy_quad(
        map,
        face,
        longer,
        n,
    ) == is_greedy_quad(map, face, quads, n) by {
        assert(longer[n] == quads[n]);
        assert(unmeshed_set(map, face, longer, n) == unmeshed_set(map, face, quads, n));
    }
    assert forall|c: Cell| #[trigger]
        unmeshed(map, face, longer, quads.len() as int + 1, c) <==> unmeshed(
            map,
            face,
            quads,
            quads.len() as int,
            c,
        ) && !q.covers(c) by {
        assert(longer[quads.len() as int] == q);
        if unmeshed(map, face, quads, quads.len() as int, c) && !q.covers(c) {
            assert forall|m: int| 0 <= m < quads.len() + 1 implies !(#[trigger] longer[m]).covers(
                c,
            ) by {
                if m < quads.len() {
                    assert(longer[m] == quads[m]);
                }
            }
        }
        if unmeshed(map, face, longer, quads.len() as int + 1, c) {
            assert forall|m: int| 0 <= m < quads.len() implies !(#[trigger] quads[m]).covers(
                c,
            ) by {
                assert(longer[m] == quads[m]);
            }
        }
    }
}

/// The merge pass for one orientation: scans the grid in the orientation's
/// own order and, at every face that is exposed and not yet covered, emits
/// the greedy rectangle that starts there.
pub fn mesh_face(map: &VoxelGrid, face: &Face) -> (quads: Vec<Quad>)
    requires
        map.wf(),
        face.wf(),
    ensures
        is_greedy_mesh(map@, *face, quads@),
        covers_exposed_once(map@, *face, quads@),
        quads_uniform(map@, *face, quads@),
        quads@.len() <= cube(map.size()),
        forall|n: int| 0 <= n < quads@.len() ==> (#[trigger] quads@[n]).fits(map.size()),
{
    let size = map.edge();
    let ghost area = size * size;
    proof {
        map.lemma_size_fits();
        lemma_edge_is_small(size);
        assert(0 * area == 0) by (nonlinear_arith);
    }
    let mut unmeshed_faces = exposed_faces(map, face);
    let mut quads: Vec<Quad> = Vec::new();
    assert(unmeshed_faces@ =~= unmeshed_set(map@, *face, quads@, 0));
    let mut i: usize = 0;
    while i < size
        invariant
            map.wf(),
            face.wf(),
            size == map.size(),
            size < isize::MAX,
            area == size * size,
            i <= size,
            unmeshed_faces.wf(),
            unmeshed_faces.size() == size,
            unmeshed_faces@ == unmeshed_set(map@, *face, quads@, quads@.len() as int),
            forall|n: int| 0 <= n < quads@.len() ==> #[trigger] is_greedy_quad(map@, *face, quads@, n),
            forall|n: int| 0 <= n < quads@.len() ==> (#[trigger] quads@[n]).fits(size as int),
            forall|c: Cell| #[trigger] unmeshed_faces@.contains(c) ==> c.along(face.di@) >= i,
            quads@.len() <= i * area,
        decreases size - i,
    {
        proof {
            assert(0 * size == 0) by (nonlinear_arith);
        }
        let mut j: usize = 0;
        while j < size
            invariant
                map.wf(),
                face.wf(),
                size == map.size(),
                size < isize::MAX,
                area == size * size,
                i < size,
                j <= size,
                unmeshed_faces.wf(),
                unmeshed_faces.size() == size,
                unmeshed_faces@ == unmeshed_set(map@, *face, quads@, quads@.len() as int),
                forall|n: int|
                    0 <= n < quads@.len() ==> #[trigger] is_greedy_quad(map@, *face, quads@, n),
                forall|n: int| 0 <= n < quads@.len() ==> (#[trigger] quads@[n]).fits(size as int),
                forall|c: Cell| #[trigger]
                    unmeshed_faces@.contains(c) ==> c.along(face.di@) > i || (c.along(face.di@)
                        == i && c.along(face.dj@) >= j),
                quads@.len() <= i * area + j * size,
            decreases size - j,
        {
            let mut k: usize = 0;
            while k < size
                invariant
                    map.wf(),
                    face.wf(),
                    size == map.size(),
                    size < isize::MAX,
                    area == size * size,
                    i < size,
                    j < size,
                    k <= size,
                    unmeshed_faces.wf(),
                    unmeshed_faces.size() == size,
                    unmeshed_faces@ == unmeshed_set(map@, *face, quads@, quads@.len() as int),
                    forall|n: int|
                        0 <= n < quads@.len() ==> #[trigger] is_greedy_quad(map@, *face, quads@, n),
                    forall|n: int|
                        0 <= n < quads@.len() ==> (#[trigger] quads@[n]).fits(size as int),
                    forall|c: Cell| #[trigger]
                        unmeshed_faces@.contains(c) ==> c.along(face.di@) > i || (c.along(face.di@)
                            == i && (c.along(face.dj@) > j || (c.along(face.dj@) == j && c.along(
                            face.dk@,
                        ) >= k))),
                    quads@.len() <= i * area + j * size + k,
                decreases size - k,
            {
                let p = face.di.mul_s(i).add_v(&face.dj.mul_s(j)).add_v(&face.dk.mul_s(k));
                assert(p@.along(face.di@) == i && p@.along(face.dj@) == j && p@.along(face.dk@)
                    == k);
                assert(map.in_bounds(p@));
                if unmeshed_faces.contains(p.x, p.y, p.z) {
                    let block = map.get(p.x, p.y, p.z);
                    let dim = expand_face(map, &unmeshed_faces, face, p);
                    let quad = Quad { face: face.index, origin: p, dim, blocktype: block.blocktype };
                    let ghost mask = unmeshed_faces@;
                    let ghost earlier = quads@;
                    assert(quad.fits(size as int));
                    clear_box(&mut unmeshed_faces, p, dim);
                    quads.push(quad);
                    proof {
                        lemma_push_quad(map@, *face, earlier, quad);
                        let n = earlier.len() as int;
                        assert(unmeshed_set(map@, *face, quads@, n) == mask);
                        assert(quads@[n] == quad);
                        assert forall|c: Cell| #[trigger] mask.contains(c) implies !scans_before(
                            *face,
                            c,
                            p@,
                        ) by {}
                        assert(is_greedy_quad(map@, *face, quads@, n));
                        assert forall|m: int| 0 <= m < quads@.len() implies #[trigger] is_greedy_quad(
                            map@,
                            *face,
                            quads@,
                            m,
                        ) by {
                            if m < n {
                                assert(is_greedy_quad(map@, *face, earlier, m));
                            }
                        }
                        assert forall|c: Cell|
                            unmeshed_faces@.contains(c) == unmeshed_set(
                                map@,
                                *face,
                                quads@,
                                quads@.len() as int,
                            ).contains(c) by {
                            assert(mask.contains(c) == unmeshed(map@, *face, earlier, n, c));
                        }
                        assert(unmeshed_faces@ =~= unmeshed_set(
                            map@,
                            *face,
                            quads@,
                            quads@.len() as int,
                        ));
                        assert(quad.covers(p@));
                    }
                }
                proof {
                    assert forall|c: Cell| #[trigger] unmeshed_faces@.contains(c) implies c.along(
                        face.di@,
                    ) > i || (c.along(face.di@) == i && (c.along(face.dj@) > j || (c.along(
                        face.dj@,
                    ) == j && c.along(face.dk@) >= k + 1))) by {
                        if c.along(face.di@) == i && c.along(face.dj@) == j && c.along(face.dk@)
                            == k {
                            assert(c == p@);
                        }
                    }
                }
                k += 1;
            }
            proof {
                assert((j + 1) * size == j * size + size) by (nonlinear_arith);
                assert forall|c: Cell| #[trigger] unmeshed_faces@.contains(c) implies c.along(
                    face.di@,
                ) > i || (c.along(face.di@) == i && c.along(face.dj@) >= j + 1) by {
                    assert(unmeshed(map@, *face, quads@, quads@.len() as int, c));
                }
            }
            j += 1;
        }
        proof {
            assert((i + 1) * area == i * area + area) by (nonlinear_arith);
            assert forall|c: Cell| #[trigger] unmeshed_faces@.contains(c) implies c.along(face.di@)
                >= i + 1 by {
                assert(unmeshed(map@, *face, quads@, quads@.len() as int, c));
            }
        }
        i += 1;
    }
    proof {
        assert(size * area == cube(size as int)) by (nonlinear_arith)
            requires
                area == size * size,
        ;
        assert forall|c: Cell| !unmeshed(map@, *face, quads@, quads@.len() as int, c) by {
            if unmeshed(map@, *face, quads@, quads@.len() as int, c) {
                assert(unmeshed_faces@.contains(c));
            }
        }
        lemma_mesh_covers_exposed_faces(map@, *face, quads@);
        lemma_quads_are_uniform(map@, *face, quads@);
    }
    quads
}

/// Whether `data` is the mesh of `map` for a chunk at `(chunk_x, chunk_z)`:
/// the quads of each orientation are the greedy mesh of that orientation,
/// the element ranges part the elements by orientation, and the arrays
/// encode the quads.
pub open spec fn is_mesh_of(data: &MeshData, chunk_x: int, chunk_z: int, map: Grid) -> bool {
    &&& data.encodes_quads(chunk_x, chunk_z)
    &&& data.ranges_partition()
    &&& forall|face: int|
        0 <= face < NUM_FACES ==> is_greedy_mesh(map, face_at(face), #[trigger] data.face_quads(face))
}

/// Whether no face of the grid is exposed in any orientation.
pub open spec fn nothing_exposed(map: Grid) -> bool {
    forall|face: int, c: Cell| 0 <= face < NUM_FACES ==> !#[trigger] exposed(map, face_at(face), c)
}

/// Empty-grid law: a grid of air has no exposed face.
pub proof fn lemma_empty_grid_exposes_nothing(map: Grid)
    requires
        map.is_empty(),
    ensures
        nothing_exposed(map),
{
    assert forall|face: int, c: Cell| 0 <= face < NUM_FACES implies !#[trigger] exposed(
        map,
        face_at(face),
        c,
    ) by {
        if map.in_bounds(c) {
            assert(map.block_at(c).blocktype == BlockType::BlockAir);
        }
    }
}

/// Two meshes of one grid for one chunk position are the same.
pub proof fn lemma_mesh_unique(
    first: &MeshData,
    second: &MeshData,
    chunk_x: int,
    chunk_z: int,
    map: Grid,
)
    requires
        is_mesh_of(first, chunk_x, chunk_z, map),
        is_mesh_of(second, chunk_x, chunk_z, map),
    ensures
        first.quads@ == second.quads@,
        first.vertices@ == second.vertices@,
        first.normals@ == second.normals@,
        first.blocktypes@ == second.blocktypes@,
        first.elements@ == second.elements@,
        first.face_ranges == second.face_ranges,
{
    let (ra, rb) = (first.face_ranges, second.face_ranges);
    let (qa, qb) = (first.quads@, second.quads@);
    assert forall|face: int| 0 <= face < NUM_FACES implies #[trigger] first.face_quads(face)
        == second.face_quads(face) by {
        lemma_face_at_wf(face);
        lemma_greedy_mesh_unique(
            map,
            face_at(face),
            first.face_quads(face),
            second.face_quads(face),
        );
    }
    assert(ra[1].0 == range_end(ra, 0) && rb[1].0 == range_end(rb, 0));
    assert(ra[2].0 == range_end(ra, 1) && rb[2].0 == range_end(rb, 1));
    assert(ra[3].0 == range_end(ra, 2) && rb[3].0 == range_end(rb, 2));
    assert(ra[4].0 == range_end(ra, 3) && rb[4].0 == range_end(rb, 3));
    assert(ra[5].0 == range_end(ra, 4) && rb[5].0 == range_end(rb, 4));
    assert forall|face: int| 0 <= face < NUM_FACES implies (#[trigger] ra[face]).0 % 6 == 0
        && ra[face].1 % 6 == 0 && rb[face].0 % 6 == 0 && rb[face].1 % 6 == 0
        && first.face_quads(face).len() == ra[face].1 / 6 && second.face_quads(face).len()
        == rb[face].1 / 6 by {
        assert(rb[face].0 % 6 == 0);
    }
    assert(first.face_quads(0).len() == second.face_quads(0).len());
    assert(ra[0] == rb[0]);
    assert(first.face_quads(1).len() == second.face_quads(1).len());
    assert(ra[1] == rb[1]);
    assert(first.face_quads(2).len() == second.face_quads(2).len());
    assert(ra[2] == rb[2]);
    assert(first.face_quads(3).len() == second.face_quads(3).len());
    assert(ra[3] == rb[3]);
    assert(first.face_quads(4).len() == second.face_quads(4).len());
    assert(ra[4] == rb[4]);
    assert(first.face_quads(5).len() == second.face_quads(5).len());
    assert(ra[5] == rb[5]);
    assert(ra =~= rb);
    assert(qa.len() == qb.len());
    assert forall|n: int| 0 <= n < qa.len() implies qa[n] == qb[n] by {
        let face: int = if 6 * n < range_end(ra, 0) {
            0
        } else if 6 * n < range_end(ra, 1) {
            1
        } else if 6 * n < range_end(ra, 2) {
            2
        } else if 6 * n < range_end(ra, 3) {
            3
        } else if 6 * n < range_end(ra, 4) {
            4
        } else {
            5
        };
        let start = ra[face].0 as int / 6;
        assert(start <= n < range_end(ra, face) / 6);
        assert(first.face_quads(face)[n - start] == qa[n]);
        assert(second.face_quads(face)[n - start] == qb[n]);
    }
    assert(qa =~= qb);
    assert forall|i: int| 0 <= i < first.vertices@.len() implies first.vertices@[i]
        == second.vertices@[i] by {
        assert(first.vertices@[i]@ == second.vertices@[i]@);
    }
    assert(first.vertices@ =~= second.vertices@);
    assert(first.normals@ =~= second.normals@);
    assert(first.blocktypes@ =~= second.blocktypes@);
    assert(first.elements@ =~= second.elements@);
}

/// What holds of every mesh of a grid: in each orientation the quads cover
/// exactly the exposed faces, each once, and every quad covers one block type
/// only; and the mesh is empty exactly when no face is exposed.
pub proof fn lemma_mesh_laws(data: &MeshData, chunk_x: int, chunk_z: int, map: Grid)
    requires
        is_mesh_of(data, chunk_x, chunk_z, map),
    ensures
        forall|face: int|
            0 <= face < NUM_FACES ==> covers_exposed_once(
                map,
                face_at(face),
                #[trigger] data.face_quads(face),
            ),
        forall|face: int|
            0 <= face < NUM_FACES ==> quads_uniform(
                map,
                face_at(face),
                #[trigger] data.face_quads(face),
            ),
        data.elements@.len() == 0 <==> nothing_exposed(map),
{
    assert forall|face: int| 0 <= face < NUM_FACES implies covers_exposed_once(
        map,
        face_at(face),
        #[trigger] data.face_quads(face),
    ) && quads_uniform(map, face_at(face), data.face_quads(face)) by {
        lemma_face_at_wf(face);
        lemma_mesh_covers_exposed_faces(map, face_at(face), data.face_quads(face));
        lemma_quads_are_uniform(map, face_at(face), data.face_quads(face));
    }
    let ranges = data.face_ranges;
    assert(ranges[1].0 == range_end(ranges, 0));
    assert(ranges[2].0 == range_end(ranges, 1));
    assert(ranges[3].0 == range_end(ranges, 2));
    assert(ranges[4].0 == range_end(ranges, 3));
    assert(ranges[5].0 == range_end(ranges, 4));
    assert forall|face: int| 0 <= face < NUM_FACES implies ((#[trigger] ranges[face]).1 == 0 <==> (
    forall|c: Cell| !exposed(map, face_at(face), c))) by {
        lemma_face_at_wf(face);
        assert(is_greedy_mesh(map, face_at(face), data.face_quads(face)));
        lemma_no_quads_iff_nothing_exposed(map, face_at(face), data.face_quads(face));
        assert(ranges[face].0 % 6 == 0 && ranges[face].1 % 6 == 0);
        assert(data.face_quads(face).len() == ranges[face].1 / 6);
    }
    if data.elements@.len() == 0 {
        assert forall|face: int, c: Cell| 0 <= face < NUM_FACES implies !#[trigger] exposed(
            map,
            face_at(face),
            c,
        ) by {
            assert(ranges[face].1 == 0);
        }
    }
    if nothing_exposed(map) {
        assert forall|face: int| 0 <= face < NUM_FACES implies (#[trigger] ranges[face]).1 == 0 by {
            assert forall|c: Cell| !exposed(map, face_at(face), c) by {}
        }
        assert(ranges[0].1 == 0 && ranges[1].1 == 0 && ranges[2].1 == 0);
        assert(ranges[3].1 == 0 && ranges[4].1 == 0 && ranges[5].1 == 0);
    }
}

/// Meshes a grid: for each of the six orientations, the exposure pass and the
/// greedy merge pass, and then the vertices, normals, block type ids and
/// element indices of the quads, orientation after orientation.
pub fn mesh_gen(chunk_x: i64, chunk_z: i64, map: &VoxelGrid) -> (data: MeshData)
    requires
        map.wf(),
        24 * cube(map.size()) <= u32::MAX,
        chunk_x + map.size() <= i64::MAX,
        chunk_z + map.size() <= i64::MAX,
    ensures
        is_mesh_of(&data, chunk_x as int, chunk_z as int, map@),
        forall|face: int|
            0 <= face < NUM_FACES ==> covers_exposed_once(
                map@,
                face_at(face),
                #[trigger] data.face_quads(face),
            ),
        forall|face: int|
            0 <= face < NUM_FACES ==> quads_uniform(
                map@,
                face_at(face),
                #[trigger] data.face_quads(face),
            ),
        data.elements@.len() == 0 <==> nothing_exposed(map@),
        map.is_empty() ==> data.elements@.len() == 0,
{
    let size = map.edge();
    let ghost volume = cube(size as int);
    proof {
        map.lemma_size_fits();
        lemma_edge_is_small(size);
        assert(0 * volume == 0) by (nonlinear_arith);
    }
    let table = faces();
    let mut data = MeshData::new();
    let mut face_ranges: [(usize, usize); 6] = [(0, 0); 6];
    let mut f: usize = 0;
    while f < NUM_FACES
        invariant
            map.wf(),
            size == map.size(),
            size < isize::MAX,
            volume == cube(size as int),
            24 * volume <= u32::MAX,
            chunk_x + size <= i64::MAX,
            chunk_z + size <= i64::MAX,
            f <= NUM_FACES,
            forall|index: int| 0 <= index < NUM_FACES ==> #[trigger] table[index] == face_at(index),
            data.encodes_quads(chunk_x as int, chunk_z as int),
            data.quads@.len() <= f * volume,
            f == 0 ==> data.elements@.len() == 0,
            f > 0 ==> face_ranges[0].0 == 0 && range_end(face_ranges, f - 1) == data.elements@.len(),
            forall|g: int|
                1 <= g < f ==> (#[trigger] face_ranges[g]).0 == range_end(face_ranges, g - 1),
            forall|g: int|
                0 <= g < f ==> (#[trigger] face_ranges[g]).0 % 6 == 0 && face_ranges[g].1 % 6 == 0
                    && range_end(face_ranges, g) <= data.elements@.len(),
            forall|g: int| f <= g < NUM_FACES ==> #[trigger] face_ranges[g] == (0usize, 0usize),
            forall|g: int|
                0 <= g < f ==> is_greedy_mesh(
                    map@,
                    face_at(g),
                    #[trigger] range_quads(data.quads@, face_ranges, g),
                ),
        decreases NUM_FACES - f,
    {
        let face = &table[f];
        proof {
            lemma_face_at_wf(f as int);
            assert((f + 1) * volume == f * volume + volume) by (nonlinear_arith);
            assert(6 * volume >= (f + 1) * volume) by (nonlinear_arith)
                requires
                    f + 1 <= 6,
                    volume >= 0,
            ;
        }
        let face_quads = mesh_face(map, face);
        let num_elements_start = data.elements.len();
        let ghost earlier = data.quads@;
        let ghost old_ranges = face_ranges;
        let mut t: usize = 0;
        while t < face_quads.len()
            invariant
                size == map.size(),
                size < isize::MAX,
                chunk_x + size <= i64::MAX,
                chunk_z + size <= i64::MAX,
                f < NUM_FACES,
                *face == face_at(f as int),
                face.wf(),
                face.index == f,
                t <= face_quads@.len(),
                is_greedy_mesh(map@, *face, face_quads@),
                forall|n: int|
                    0 <= n < face_quads@.len() ==> (#[trigger] face_quads@[n]).fits(size as int),
                data.encodes_quads(chunk_x as int, chunk_z as int),
                data.quads@ == earlier + face_quads@.take(t as int),
                4 * (earlier.len() + face_quads@.len()) <= u32::MAX,
            decreases face_quads@.len() - t,
        {
            let quad = face_quads[t];
            assert(is_greedy_quad(map@, *face, face_quads@, t as int));
            assert(quad.fits(size as int));
            data.emit_quad(chunk_x, chunk_z, face, quad);
            assert(face_quads@.take(t + 1) == face_quads@.take(t as int).push(quad));
            t += 1;
        }
        face_ranges[f] = (num_elements_start, data.elements.len() - num_elements_start);
        proof {
            assert(face_quads@.take(face_quads@.len() as int) == face_quads@);
            assert(range_quads(data.quads@, face_ranges, f as int) == face_quads@);
            assert forall|g: int| 0 <= g < f + 1 implies is_greedy_mesh(
                map@,
                face_at(g),
                #[trigger] range_quads(data.quads@, face_ranges, g),
            ) by {
                if g < f {
                    assert(face_ranges[g] == old_ranges[g]);
                    assert(range_quads(data.quads@, face_ranges, g) == range_quads(
                        earlier,
                        old_ranges,
                        g,
                    ));
                }
            }
        }
        f += 1;
    }
    data.face_ranges = face_ranges;
    proof {
        lemma_mesh_laws(&data, chunk_x as int, chunk_z as int, map@);
        if map.is_empty() {
            lemma_empty_grid_exposes_nothing(map@);
        }
    }
    data
}

} // verus!
