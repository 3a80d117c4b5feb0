//! The geometry of a meshed chunk, as the arrays that go to the graphics
//! buffers.

use crate::face::element_offset;
use crate::face::face_at;
use crate::face::face_elements;
use crate::face::lemma_face_at_wf;
use crate::face::Face;
use crate::quad::Quad;
use crate::vector::Cell;
use crate::vector::Vec3;
use crate::vector::Vec3i;
use crate::NUM_FACES;
use vstd::prelude::*;

verus! {

/// The world position of the corner of a quad that belongs to the corner
/// `template` of the unit square: the template scaled by the quad's extents,
/// moved to the quad's first cell and then to the chunk's place in the world.
pub open spec fn corner(chunk_x: int, chunk_z: int, quad: Quad, template: Vec3) -> Cell {
    Cell {
        x: chunk_x + quad.origin.x + Cell::times(template.x as int, quad.dim.x as int),
        y: quad.origin.y + Cell::times(template.y as int, quad.dim.y as int),
        z: chunk_z + quad.origin.z + Cell::times(template.z as int, quad.dim.z as int),
    }
}

/// One past the last element index of a range.
pub open spec fn range_end(ranges: [(usize, usize); 6], face: int) -> int {
    ranges[face].0 + ranges[face].1
}

/// The quads that the element range of one orientation spans: six elements
/// make one quad.
pub open spec fn range_quads(quads: Seq<Quad>, ranges: [(usize, usize); 6], face: int) -> Seq<Quad> {
    quads.subrange(ranges[face].0 as int / 6, range_end(ranges, face) / 6)
}

/// The geometry of one chunk: its quads, and for each quad four vertices with
/// their normals and block type ids and six element indices. `face_ranges`
/// holds, for each orientation, where its elements start and how many they
/// are.
pub struct MeshData {
    pub quads: Vec<Quad>,
    pub vertices: Vec<Vec3i>,
    pub normals: Vec<Vec3i>,
    pub blocktypes: Vec<u8>,
    pub elements: Vec<u32>,
    pub face_ranges: [(usize, usize); 6],
}

impl MeshData {
    /// The arrays hold exactly the encoding of the quads for a chunk at
    /// `(chunk_x, chunk_z)`.
    pub open spec fn encodes_quads(&self, chunk_x: int, chunk_z: int) -> bool {
        &&& self.vertices@.len() == 4 * self.quads@.len()
        &&& self.normals@.len() == 4 * self.quads@.len()
        &&& self.blocktypes@.len() == 4 * self.quads@.len()
        &&& self.elements@.len() == 6 * self.quads@.len()
        &&& forall|n: int| 0 <= n < self.quads@.len() ==> (#[trigger] self.quads@[n]).face < NUM_FACES
        &&& forall|i: int|
            0 <= i < self.vertices@.len() ==> (#[trigger] self.vertices@[i])@ == corner(
                chunk_x,
                chunk_z,
                self.quads@[i / 4],
                face_at(self.quads@[i / 4].face as int).vertices[i % 4],
            )
        &&& forall|i: int|
            0 <= i < self.normals@.len() ==> #[trigger] self.normals@[i] == face_at(
                self.quads@[i / 4].face as int,
            ).normal
        &&& forall|i: int|
            0 <= i < self.blocktypes@.len() ==> #[trigger] self.blocktypes@[i]
                == self.quads@[i / 4].blocktype.spec_id()
        &&& forall|i: int|
            0 <= i < self.elements@.len() ==> #[trigger] self.elements@[i] == 4 * (i / 6)
                + element_offset(i % 6)
    }

    /// The element ranges of the six orientations follow one another in the
    /// order of the orientations, start at 0, end where the elements end, and
    /// each holds whole quads.
    pub open spec fn ranges_partition(&self) -> bool {
        &&& self.face_ranges[0].0 == 0
        &&& forall|face: int|
            1 <= face < NUM_FACES ==> (#[trigger] self.face_ranges[face]).0 == range_end(
                self.face_ranges,
                face - 1,
            )
        &&& range_end(self.face_ranges, NUM_FACES - 1) == self.elements@.len()
        &&& forall|face: int|
            0 <= face < NUM_FACES ==> (#[trigger] self.face_ranges[face]).0 % 6 == 0
                && self.face_ranges[face].1 % 6 == 0
    }

    /// The quads of one orientation.
    pub open spec fn face_quads(&self, face: int) -> Seq<Quad> {
        range_quads(self.quads@, self.face_ranges, face)
    }

    /// Geometry without any quad.
    pub fn new() -> (data: MeshData)
        ensures
            data.quads@.len() == 0,
            data.elements@.len() == 0,
            forall|chunk_x: int, chunk_z: int| data.encodes_quads(chunk_x, chunk_z),
            forall|face: int| 0 <= face < NUM_FACES ==> #[trigger] data.face_ranges[face] == (0usize, 0usize),
    {
        MeshData {
            quads: Vec::new(),
            vertices: Vec::new(),
            normals: Vec::new(),
            blocktypes: Vec::new(),
            elements: Vec::new(),
            face_ranges: [(0, 0); 6],
        }
    }

    /// Whether there is anything to hand to the graphics buffers.
    pub fn is_empty(&self) -> (empty: bool)
        ensures
            empty == (self.elements@.len() == 0),
    {
        self.elements.len() == 0
    }

    /// Appends one quad: its four corners in the order of the orientation's
    /// corner table, each with the orientation's normal and the quad's block
    /// type id, and the six element indices of its two triangles.
    pub fn emit_quad(&mut self, chunk_x: i64, chunk_z: i64, face: &Face, quad: Quad)
        requires
            old(self).encodes_quads(chunk_x as int, chunk_z as int),
            quad.face < NUM_FACES,
            *face == face_at(quad.face as int),
            4 * (old(self).quads@.len() + 1) <= u32::MAX,
            quad.origin.x + quad.dim.x <= isize::MAX,
            quad.origin.y + quad.dim.y <= isize::MAX,
            quad.origin.z + quad.dim.z <= isize::MAX,
            chunk_x + quad.origin.x + quad.dim.x <= i64::MAX,
            chunk_z + quad.origin.z + quad.dim.z <= i64::MAX,
        ensures
            final(self).encodes_quads(chunk_x as int, chunk_z as int),
            final(self).quads@ == old(self).quads@.push(quad),
            final(self).face_ranges == old(self).face_ranges,
    {
        proof {
            lemma_face_at_wf(quad.face as int);
        }
        let ghost count = self.quads@.len() as int;
        let vertex_offset = self.vertices.len();
        self.quads.push(quad);
        let mut v: usize = 0;
        while v < 4
            invariant
                v <= 4,
                face.wf(),
                *face == face_at(quad.face as int),
                count + 1 == self.quads@.len(),
                self.quads@ == old(self).quads@.push(quad),
                self.face_ranges == old(self).face_ranges,
                self.elements@ == old(self).elements@,
                self.vertices@.len() == 4 * count + v,
                self.normals@.len() == 4 * count + v,
                self.blocktypes@.len() == 4 * count + v,
                quad.origin.x + quad.dim.x <= isize::MAX,
                quad.origin.y + quad.dim.y <= isize::MAX,
                quad.origin.z + quad.dim.z <= isize::MAX,
                chunk_x + quad.origin.x + quad.dim.x <= i64::MAX,
                chunk_z + quad.origin.z + quad.dim.z <= i64::MAX,
                forall|n: int| 0 <= n < self.quads@.len() ==> (#[trigger] self.quads@[n]).face < NUM_FACES,
                forall|i: int|
                    0 <= i < self.vertices@.len() ==> (#[trigger] self.vertices@[i])@ == corner(
                        chunk_x as int,
                        chunk_z as int,
                        self.quads@[i / 4],
                        face_at(self.quads@[i / 4].face as int).vertices[i % 4],
                    ),
                forall|i: int|
                    0 <= i < self.normals@.len() ==> #[trigger] self.normals@[i] == face_at(
                        self.quads@[i / 4].face as int,
                    ).normal,
                forall|i: int|
                    0 <= i < self.blocktypes@.len() ==> #[trigger] self.blocktypes@[i]
                        == self.quads@[i / 4].blocktype.spec_id(),
            decreases 4 - v,
        {
            let template = face.vertices[v];
            assert(template@.within(2));
            let local = template.mul_v(&quad.dim).add_v(&quad.origin);
            let world = Vec3i {
                x: chunk_x + local.x as i64,
                y: local.y as i64,
                z: chunk_z + local.z as i64,
            };
            self.vertices.push(world);
            self.normals.push(face.normal);
            self.blocktypes.push(quad.blocktype.id());
            v += 1;
        }
        let offsets = face_elements();
        let mut e: usize = 0;
        while e < 6
            invariant
                e <= 6,
                vertex_offset == 4 * count,
                4 * (count + 1) <= u32::MAX,
                self.quads@ == old(self).quads@.push(quad),
                count + 1 == self.quads@.len(),
                self.face_ranges == old(self).face_ranges,
                self.elements@.len() == 6 * count + e,
                forall|k: int| 0 <= k < 6 ==> #[trigger] offsets[k] == element_offset(k),
                forall|i: int|
                    0 <= i < self.elements@.len() ==> #[trigger] self.elements@[i] == 4 * (i / 6)
                        + element_offset(i % 6),
                self.vertices@.len() == 4 * self.quads@.len(),
                self.normals@.len() == 4 * self.quads@.len(),
                self.blocktypes@.len() == 4 * self.quads@.len(),
                forall|n: int| 0 <= n < self.quads@.len() ==> (#[trigger] self.quads@[n]).face < NUM_FACES,
                forall|i: int|
                    0 <= i < self.vertices@.len() ==> (#[trigger] self.vertices@[i])@ == corner(
                        chunk_x as int,
                        chunk_z as int,
                        self.quads@[i / 4],
                        face_at(self.quads@[i / 4].face as int).vertices[i % 4],
                    ),
                forall|i: int|
                    0 <= i < self.normals@.len() ==> #[trigger] self.normals@[i] == face_at(
                        self.quads@[i / 4].face as int,
                    ).normal,
                forall|i: int|
                    0 <= i < self.blocktypes@.len() ==> #[trigger] self.blocktypes@[i]
                        == self.quads@[i / 4].blocktype.spec_id(),
            decreases 6 - e,
        {
            self.elements.push(vertex_offset as u32 + offsets[e]);
            e += 1;
        }
    }
}

} // verus!
