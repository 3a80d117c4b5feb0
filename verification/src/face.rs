//! The six face orientations of a cube.

use crate::vector::Vec3;
use crate::vector::Vec3i;
use crate::NUM_FACES;
use vstd::prelude::*;

verus! {

/// One face orientation: its outward normal, the axis `di` along which the
/// mesher sweeps, the two axes `dj` and `dk` that span the face, and the
/// corners of the unit square that the face of a single block occupies.
#[derive(Clone, Copy, Debug)]
pub struct Face {
    pub index: usize,
    pub normal: Vec3i,
    pub di: Vec3,
    pub dj: Vec3,
    pub dk: Vec3,
    pub vertices: [Vec3; 4],
}

impl Face {
    /// The three axes are the three coordinate axes in some order, the normal
    /// points along the sweep axis or against it, and the corners are corners
    /// of the unit cube.
    pub open spec fn wf(&self) -> bool {
        &&& self.index < NUM_FACES
        &&& self.di@.is_axis()
        &&& self.dj@.is_axis()
        &&& self.dk@.is_axis()
        &&& self.di != self.dj
        &&& self.dj != self.dk
        &&& self.di != self.dk
        &&& (self.normal@ == self.di@ || self.normal@ == self.di@.negated())
        &&& forall|v: int| 0 <= v < 4 ==> (#[trigger] self.vertices[v])@.within(2)
    }
}

/// The orientation with the given index: front, back, right, left, top,
/// bottom.
pub open spec fn face_at(index: int) -> Face {
    if index == 0 {
        Face {
            index: 0,
            normal: Vec3i { x: 0, y: 0, z: 1 },
            di: Vec3 { x: 0, y: 0, z: 1 },
            dj: Vec3 { x: 1, y: 0, z: 0 },
            dk: Vec3 { x: 0, y: 1, z: 0 },
            vertices: [
                Vec3 { x: 0, y: 0, z: 1 },
                Vec3 { x: 1, y: 0, z: 1 },
                Vec3 { x: 0, y: 1, z: 1 },
                Vec3 { x: 1, y: 1, z: 1 },
            ],
        }
    } else if index == 1 {
        Face {
            index: 1,
            normal: Vec3i { x: 0, y: 0, z: -1i64 },
            di: Vec3 { x: 0, y: 0, z: 1 },
            dj: Vec3 { x: 1, y: 0, z: 0 },
            dk: Vec3 { x: 0, y: 1, z: 0 },
            vertices: [
                Vec3 { x: 1, y: 0, z: 0 },
                Vec3 { x: 0, y: 0, z: 0 },
                Vec3 { x: 1, y: 1, z: 0 },
                Vec3 { x: 0, y: 1, z: 0 },
            ],
        }
    } else if index == 2 {
        Face {
            index: 2,
            normal: Vec3i { x: 1, y: 0, z: 0 },
            di: Vec3 { x: 1, y: 0, z: 0 },
            dj: Vec3 { x: 0, y: 1, z: 0 },
            dk: Vec3 { x: 0, y: 0, z: 1 },
            vertices: [
                Vec3 { x: 1, y: 0, z: 1 },
                Vec3 { x: 1, y: 0, z: 0 },
                Vec3 { x: 1, y: 1, z: 1 },
                Vec3 { x: 1, y: 1, z: 0 },
            ],
        }
    } else if index == 3 {
        Face {
            index: 3,
            normal: Vec3i { x: -1i64, y: 0, z: 0 },
            di: Vec3 { x: 1, y: 0, z: 0 },
            dj: Vec3 { x: 0, y: 1, z: 0 },
            dk: Vec3 { x: 0, y: 0, z: 1 },
            vertices: [
                Vec3 { x: 0, y: 0, z: 0 },
                Vec3 { x: 0, y: 0, z: 1 },
                Vec3 { x: 0, y: 1, z: 0 },
                Vec3 { x: 0, y: 1, z: 1 },
            ],
        }
    } else if index == 4 {
        Face {
            index: 4,
            normal: Vec3i { x: 0, y: 1, z: 0 },
            di: Vec3 { x: 0, y: 1, z: 0 },
            dj: Vec3 { x: 1, y: 0, z: 0 },
            dk: Vec3 { x: 0, y: 0, z: 1 },
            vertices: [
                Vec3 { x: 0, y: 1, z: 1 },
                Vec3 { x: 1, y: 1, z: 1 },
                Vec3 { x: 0, y: 1, z: 0 },
                Vec3 { x: 1, y: 1, z: 0 },
            ],
        }
    } else {
        Face {
            index: 5,
            normal: Vec3i { x: 0, y: -1i64, z: 0 },
            di: Vec3 { x: 0, y: 1, z: 0 },
            dj: Vec3 { x: 1, y: 0, z: 0 },
            dk: Vec3 { x: 0, y: 0, z: 1 },
            vertices: [
                Vec3 { x: 0, y: 0, z: 0 },
                Vec3 { x: 1, y: 0, z: 0 },
                Vec3 { x: 0, y: 0, z: 1 },
                Vec3 { x: 1, y: 0, z: 1 },
            ],
        }
    }
}

/// Every orientation of the table is well formed and stands at its own index.
pub proof fn lemma_face_at_wf(index: int)
    requires
        0 <= index < NUM_FACES,
    ensures
        face_at(index).wf(),
        face_at(index).index == index,
{
    let face = face_at(index);
    assert forall|v: int| 0 <= v < 4 implies (#[trigger] face.vertices[v])@.within(2) by {
        if v == 0 {
        } else if v == 1 {
        } else if v == 2 {
        } else {
        }
    }
}

/// The table of the six orientations.
pub fn faces() -> (table: [Face; 6])
    ensures
        forall|index: int| 0 <= index < NUM_FACES ==> #[trigger] table[index] == face_at(index),
{
    [
        Face {
            index: 0,
            normal: Vec3i { x: 0, y: 0, z: 1 },
            di: Vec3 { x: 0, y: 0, z: 1 },
            dj: Vec3 { x: 1, y: 0, z: 0 },
            dk: Vec3 { x: 0, y: 1, z: 0 },
            vertices: [
                Vec3 { x: 0, y: 0, z: 1 },
                Vec3 { x: 1, y: 0, z: 1 },
                Vec3 { x: 0, y: 1, z: 1 },
                Vec3 { x: 1, y: 1, z: 1 },
            ],
        },
        Face {
            index: 1,
            normal: Vec3i { x: 0, y: 0, z: -1 },
            di: Vec3 { x: 0, y: 0, z: 1 },
            dj: Vec3 { x: 1, y: 0, z: 0 },
            dk: Vec3 { x: 0, y: 1, z: 0 },
            vertices: [
                Vec3 { x: 1, y: 0, z: 0 },
                Vec3 { x: 0, y: 0, z: 0 },
                Vec3 { x: 1, y: 1, z: 0 },
                Vec3 { x: 0, y: 1, z: 0 },
            ],
        },
        Face {
            index: 2,
            normal: Vec3i { x: 1, y: 0, z: 0 },
            di: Vec3 { x: 1, y: 0, z: 0 },
            dj: Vec3 { x: 0, y: 1, z: 0 },
            dk: Vec3 { x: 0, y: 0, z: 1 },
            vertices: [
                Vec3 { x: 1, y: 0, z: 1 },
                Vec3 { x: 1, y: 0, z: 0 },
                Vec3 { x: 1, y: 1, z: 1 },
                Vec3 { x: 1, y: 1, z: 0 },
            ],
        },
        Face {
            index: 3,
            normal: Vec3i { x: -1, y: 0, z: 0 },
            di: Vec3 { x: 1, y: 0, z: 0 },
            dj: Vec3 { x: 0, y: 1, z: 0 },
            dk: Vec3 { x: 0, y: 0, z: 1 },
            vertices: [
                Vec3 { x: 0, y: 0, z: 0 },
                Vec3 { x: 0, y: 0, z: 1 },
                Vec3 { x: 0, y: 1, z: 0 },
                Vec3 { x: 0, y: 1, z: 1 },
            ],
        },
        Face {
            index: 4,
            normal: Vec3i { x: 0, y: 1, z: 0 },
            di: Vec3 { x: 0, y: 1, z: 0 },
            dj: Vec3 { x: 1, y: 0, z: 0 },
            dk: Vec3 { x: 0, y: 0, z: 1 },
            vertices: [
                Vec3 { x: 0, y: 1, z: 1 },
                Vec3 { x: 1, y: 1, z: 1 },
                Vec3 { x: 0, y: 1, z: 0 },
                Vec3 { x: 1, y: 1, z: 0 },
            ],
        },
        Face {
            index: 5,
            normal: Vec3i { x: 0, y: -1, z: 0 },
            di: Vec3 { x: 0, y: 1, z: 0 },
            dj: Vec3 { x: 1, y: 0, z: 0 },
            dk: Vec3 { x: 0, y: 0, z: 1 },
            vertices: [
                Vec3 { x: 0, y: 0, z: 0 },
                Vec3 { x: 1, y: 0, z: 0 },
                Vec3 { x: 0, y: 0, z: 1 },
                Vec3 { x: 1, y: 0, z: 1 },
            ],
        },
    ]
}

/// Where the `e`-th index of a quad's two triangles points among the quad's
/// four corners.
pub open spec fn element_offset(e: int) -> int {
    if e == 0 {
        0
    } else if e == 1 {
        1
    } else if e == 2 {
        2
    } else if e == 3 {
        3
    } else if e == 4 {
        2
    } else {
        1
    }
}

/// The corner indices of the two triangles that make up a quad.
pub fn face_elements() -> (offsets: [u32; 6])
    ensures
        forall|e: int| 0 <= e < 6 ==> #[trigger] offsets[e] == element_offset(e),
{
    [0, 1, 2, 3, 2, 1]
}

} // verus!
