use cubeland::bitmap::BlockBitmap;
use cubeland::block::{Block, BlockType};
use cubeland::face::{face_elements, faces, Face};
use cubeland::geometry::MeshData;
use cubeland::grid::VoxelGrid;
use cubeland::mesh::{
    block_exists, clear_box, expand_face, exposed_faces, mesh_face, mesh_gen, run_length,
};
use cubeland::quad::Quad;
use cubeland::vector::{Vec3, Vec3i};

const FRONT: usize = 0;
const BACK: usize = 1;
const RIGHT: usize = 2;
const LEFT: usize = 3;
const TOP: usize = 4;
const BOTTOM: usize = 5;

fn block(blocktype: BlockType) -> Block {
    Block { blocktype }
}

fn v(x: usize, y: usize, z: usize) -> Vec3 {
    Vec3 { x, y, z }
}

fn w(x: i64, y: i64, z: i64) -> Vec3i {
    Vec3i { x, y, z }
}

/// A grid of edge 4 with stone at (0, 0, 0), (0, 1, 0) and (0, 2, 0).
fn column_grid() -> VoxelGrid {
    let mut grid = VoxelGrid::new(4);
    for y in 0..3 {
        grid.set(0, y, 0, block(BlockType::BlockStone));
    }
    grid
}

/// A grid whose cells are decided by a small mixing function, so that it has
/// holes, overhangs and several block types.
fn patchy_grid(size: usize, salt: u64) -> VoxelGrid {
    let types = [
        BlockType::BlockAir,
        BlockType::BlockGrass,
        BlockType::BlockStone,
        BlockType::BlockAir,
        BlockType::BlockStone,
        BlockType::BlockDirt,
        BlockType::BlockWater,
        BlockType::BlockStone,
    ];
    let mut grid = VoxelGrid::new(size);
    let mut state = salt.wrapping_mul(0x9E37_79B9_7F4A_7C15).wrapping_add(1);
    for x in 0..size {
        for y in 0..size {
            for z in 0..size {
                state = state.wrapping_mul(6364136223846793005).wrapping_add(1442695040888963407);
                let pick = ((state >> 33) % 8) as usize;
                grid.set(x, y, z, block(types[pick]));
            }
        }
    }
    grid
}

/// Whether the face of a cell is exposed, straight from the rule: the cell is
/// not air, and the neighbour along the normal is air, or lies outside the
/// grid but not below it.
fn naive_exposed(grid: &VoxelGrid, face: &Face, x: usize, y: usize, z: usize) -> bool {
    let size = grid.edge() as i64;
    if grid.get(x, y, z).blocktype == BlockType::BlockAir {
        return false;
    }
    let (nx, ny, nz) = (x as i64 + face.normal.x, y as i64 + face.normal.y, z as i64 + face.normal.z);
    if ny < 0 {
        return false;
    }
    if nx < 0 || nz < 0 || nx >= size || ny >= size || nz >= size {
        return true;
    }
    grid.get(nx as usize, ny as usize, nz as usize).blocktype == BlockType::BlockAir
}

fn quads_of_face(data: &MeshData, face: usize) -> Vec<Quad> {
    let (start, count) = data.face_ranges[face];
    assert_eq!(start % 6, 0);
    assert_eq!(count % 6, 0);
    data.quads[start / 6..(start + count) / 6].to_vec()
}

fn covers(quad: &Quad, x: usize, y: usize, z: usize) -> bool {
    quad.origin.x <= x
        && x < quad.origin.x + quad.dim.x
        && quad.origin.y <= y
        && y < quad.origin.y + quad.dim.y
        && quad.origin.z <= z
        && z < quad.origin.z + quad.dim.z
}

/// Holds `data` against the rules that every mesh obeys.
fn check_mesh(grid: &VoxelGrid, chunk_x: i64, chunk_z: i64, data: &MeshData) {
    let size = grid.edge();
    let table = faces();
    let offsets = face_elements();
    // The ranges follow one another and span the elements.
    let mut next = 0;
    for face in 0..6 {
        assert_eq!(data.face_ranges[face].0, next);
        next += data.face_ranges[face].1;
    }
    assert_eq!(next, data.elements.len());
    assert_eq!(data.elements.len(), 6 * data.quads.len());
    assert_eq!(data.vertices.len(), 4 * data.quads.len());
    assert_eq!(data.normals.len(), 4 * data.quads.len());
    assert_eq!(data.blocktypes.len(), 4 * data.quads.len());
    for (f, face) in table.iter().enumerate() {
        let quads = quads_of_face(data, f);
        // Coverage: each exposed face is covered once, and nothing else.
        for x in 0..size {
            for y in 0..size {
                for z in 0..size {
                    let count = quads.iter().filter(|q| covers(q, x, y, z)).count();
                    let expected = if naive_exposed(grid, face, x, y, z) { 1 } else { 0 };
                    assert_eq!(count, expected, "face {} cell ({}, {}, {})", f, x, y, z);
                }
            }
        }
        for quad in quads.iter() {
            assert_eq!(quad.face, f);
            // The box lies in the grid and is one cell thick along the normal.
            assert!(quad.dim.x >= 1 && quad.origin.x + quad.dim.x <= size);
            assert!(quad.dim.y >= 1 && quad.origin.y + quad.dim.y <= size);
            assert!(quad.dim.z >= 1 && quad.origin.z + quad.dim.z <= size);
            assert_eq!(
                quad.dim.x * face.di.x + quad.dim.y * face.di.y + quad.dim.z * face.di.z,
                1
            );
            // Uniformity: one block type in every covered cell.
            for dx in 0..quad.dim.x {
                for dy in 0..quad.dim.y {
                    for dz in 0..quad.dim.z {
                        let cell =
                            grid.get(quad.origin.x + dx, quad.origin.y + dy, quad.origin.z + dz);
                        assert_eq!(cell.blocktype, quad.blocktype);
                    }
                }
            }
        }
    }
    // The arrays encode the quads.
    for (n, quad) in data.quads.iter().enumerate() {
        let face = &table[quad.face];
        for corner in 0..4 {
            let t = face.vertices[corner];
            let expected = Vec3i {
                x: chunk_x + (quad.origin.x + t.x * quad.dim.x) as i64,
                y: (quad.origin.y + t.y * quad.dim.y) as i64,
                z: chunk_z + (quad.origin.z + t.z * quad.dim.z) as i64,
            };
            assert_eq!(data.vertices[4 * n + corner], expected);
            assert_eq!(data.normals[4 * n + corner], face.normal);
            assert_eq!(data.blocktypes[4 * n + corner], quad.blocktype.id());
        }
        for e in 0..6 {
            assert_eq!(data.elements[6 * n + e], 4 * n as u32 + offsets[e]);
        }
    }
}

#[test]
fn block_exists_below_the_grid() {
    let grid = VoxelGrid::new(4);
    assert!(block_exists(&grid, 0, -1, 0));
    assert!(block_exists(&grid, 2, -5, 3));
    // Below counts even where the other coordinates are outside.
    assert!(block_exists(&grid, -1, -1, 9));
}

#[test]
fn block_exists_not_beside_or_above_the_grid() {
    let mut grid = VoxelGrid::new(4);
    grid.set(0, 3, 0, block(BlockType::BlockStone));
    assert!(!block_exists(&grid, -1, 0, 0));
    assert!(!block_exists(&grid, 4, 0, 0));
    assert!(!block_exists(&grid, 0, 0, -1));
    assert!(!block_exists(&grid, 0, 0, 4));
    assert!(!block_exists(&grid, 0, 4, 0));
}

#[test]
fn block_exists_where_a_block_is_not_air() {
    let mut grid = VoxelGrid::new(4);
    grid.set(1, 2, 3, block(BlockType::BlockWater));
    assert!(block_exists(&grid, 1, 2, 3));
    assert!(!block_exists(&grid, 1, 2, 2));
}

#[test]
fn exposure_pass_marks_faces_with_air_in_front() {
    let grid = column_grid();
    let table = faces();
    let top = exposed_faces(&grid, &table[TOP]);
    assert!(top.contains(0, 2, 0));
    assert!(!top.contains(0, 1, 0));
    assert!(!top.contains(0, 0, 0));
    assert!(!top.contains(1, 0, 0));
    let bottom = exposed_faces(&grid, &table[BOTTOM]);
    for y in 0..4 {
        assert!(!bottom.contains(0, y, 0));
    }
    let left = exposed_faces(&grid, &table[LEFT]);
    for y in 0..3 {
        assert!(left.contains(0, y, 0));
    }
    assert!(!left.contains(0, 3, 0));
}

#[test]
fn exposure_pass_agrees_with_the_rule_on_a_patchy_grid() {
    let grid = patchy_grid(5, 11);
    for face in faces().iter() {
        let mask = exposed_faces(&grid, face);
        for x in 0..5 {
            for y in 0..5 {
                for z in 0..5 {
                    assert_eq!(mask.contains(x, y, z), naive_exposed(&grid, face, x, y, z));
                }
            }
        }
    }
}

#[test]
fn run_length_counts_same_type_marked_cells() {
    let mut grid = VoxelGrid::new(6);
    let mut mask = BlockBitmap::with_size(6);
    for x in 0..4 {
        grid.set(x, 0, 0, block(BlockType::BlockStone));
        mask.insert(x, 0, 0);
    }
    grid.set(4, 0, 0, block(BlockType::BlockDirt));
    mask.insert(4, 0, 0);
    // Four stone cells, then dirt ends the run.
    assert_eq!(run_length(&grid, &mask, v(0, 0, 0), v(1, 0, 0)), 4);
    assert_eq!(run_length(&grid, &mask, v(2, 0, 0), v(1, 0, 0)), 2);
    // The dirt cell starts a run of its own; the next cell is not marked.
    assert_eq!(run_length(&grid, &mask, v(4, 0, 0), v(1, 0, 0)), 1);
    // Across the run, nothing follows.
    assert_eq!(run_length(&grid, &mask, v(0, 0, 0), v(0, 1, 0)), 1);
    assert_eq!(run_length(&grid, &mask, v(0, 0, 0), v(0, 0, 1)), 1);
}

#[test]
fn run_length_stops_at_an_unmarked_cell() {
    let mut grid = VoxelGrid::new(4);
    let mut mask = BlockBitmap::with_size(4);
    for z in 0..4 {
        grid.set(1, 1, z, block(BlockType::BlockGrass));
    }
    mask.insert(1, 1, 0);
    mask.insert(1, 1, 1);
    mask.insert(1, 1, 3);
    assert_eq!(run_length(&grid, &mask, v(1, 1, 0), v(0, 0, 1)), 2);
}

#[test]
fn run_length_stops_at_the_edge_of_the_grid() {
    let mut grid = VoxelGrid::new(3);
    let mut mask = BlockBitmap::with_size(3);
    for y in 0..3 {
        grid.set(2, y, 2, block(BlockType::BlockStone));
        mask.insert(2, y, 2);
    }
    assert_eq!(run_length(&grid, &mask, v(2, 0, 2), v(0, 1, 0)), 3);
    assert_eq!(run_length(&grid, &mask, v(2, 2, 2), v(0, 1, 0)), 1);
    assert_eq!(run_length(&grid, &mask, v(2, 2, 2), v(1, 0, 0)), 1);
}

#[test]
fn run_length_counts_the_start_even_if_unmarked() {
    let mut grid = VoxelGrid::new(3);
    let mut mask = BlockBitmap::with_size(3);
    grid.set(0, 0, 0, block(BlockType::BlockStone));
    grid.set(1, 0, 0, block(BlockType::BlockStone));
    mask.insert(1, 0, 0);
    assert_eq!(run_length(&grid, &mask, v(0, 0, 0), v(1, 0, 0)), 2);
}

#[test]
fn expand_face_takes_the_shortest_row() {
    // Top faces of an L-shaped floor: rows along x of lengths 3, 3 and 1 at
    // z = 0, 1, 2.
    let mut grid = VoxelGrid::new(4);
    for (z, len) in [(0usize, 3usize), (1, 3), (2, 1)] {
        for x in 0..len {
            grid.set(x, 0, z, block(BlockType::BlockStone));
        }
    }
    let table = faces();
    let mask = exposed_faces(&grid, &table[TOP]);
    // Along dk = z the run from (0, 0, 0) is 3 long; the rows along dj = x
    // from its cells are 3, 3 and 1 long.
    assert_eq!(expand_face(&grid, &mask, &table[TOP], v(0, 0, 0)), v(1, 1, 3));
    // From (1, 0, 0) the run along z is 2 long, and both rows reach x = 2.
    assert_eq!(expand_face(&grid, &mask, &table[TOP], v(1, 0, 0)), v(2, 1, 2));
}

#[test]
fn expand_face_of_a_single_cell() {
    let mut grid = VoxelGrid::new(4);
    grid.set(2, 2, 2, block(BlockType::BlockStone));
    let table = faces();
    for face in table.iter() {
        let mask = exposed_faces(&grid, face);
        assert_eq!(expand_face(&grid, &mask, face, v(2, 2, 2)), v(1, 1, 1));
    }
}

#[test]
fn clear_box_takes_out_the_box_and_nothing_else() {
    let mut mask = BlockBitmap::with_size(4);
    for x in 0..4 {
        for y in 0..4 {
            for z in 0..4 {
                mask.insert(x, y, z);
            }
        }
    }
    clear_box(&mut mask, v(1, 0, 2), v(2, 3, 1));
    for x in 0..4 {
        for y in 0..4 {
            for z in 0..4 {
                let inside = (1..3).contains(&x) && (0..3).contains(&y) && z == 2;
                assert_eq!(mask.contains(x, y, z), !inside);
            }
        }
    }
}

#[test]
fn merge_pass_joins_a_flat_floor_into_one_quad() {
    let mut grid = VoxelGrid::new(4);
    for x in 0..4 {
        for z in 0..4 {
            grid.set(x, 1, z, block(BlockType::BlockGrass));
        }
    }
    let table = faces();
    let quads = mesh_face(&grid, &table[TOP]);
    assert_eq!(
        quads,
        vec![Quad { face: TOP, origin: v(0, 1, 0), dim: v(4, 1, 4), blocktype: BlockType::BlockGrass }]
    );
    // The underside is exposed too: the floor hangs above air.
    let quads = mesh_face(&grid, &table[BOTTOM]);
    assert_eq!(
        quads,
        vec![Quad {
            face: BOTTOM,
            origin: v(0, 1, 0),
            dim: v(4, 1, 4),
            blocktype: BlockType::BlockGrass
        }]
    );
}

#[test]
fn merge_pass_keeps_block_types_apart() {
    let mut grid = VoxelGrid::new(4);
    for x in 0..4 {
        for z in 0..4 {
            let blocktype = if z < 2 { BlockType::BlockStone } else { BlockType::BlockDirt };
            grid.set(x, 0, z, block(blocktype));
        }
    }
    let table = faces();
    let quads = mesh_face(&grid, &table[TOP]);
    assert_eq!(
        quads,
        vec![
            Quad { face: TOP, origin: v(0, 0, 0), dim: v(4, 1, 2), blocktype: BlockType::BlockStone },
            Quad { face: TOP, origin: v(0, 0, 2), dim: v(4, 1, 2), blocktype: BlockType::BlockDirt },
        ]
    );
}

#[test]
fn merge_pass_is_greedy_in_scan_order() {
    // An L-shaped floor: the first quad takes the full run along z with the
    // width of its shortest row, the rest follows as the scan reaches it.
    let mut grid = VoxelGrid::new(4);
    for (z, len) in [(0usize, 3usize), (1, 3), (2, 1)] {
        for x in 0..len {
            grid.set(x, 0, z, block(BlockType::BlockStone));
        }
    }
    let table = faces();
    let quads = mesh_face(&grid, &table[TOP]);
    assert_eq!(
        quads,
        vec![
            Quad { face: TOP, origin: v(0, 0, 0), dim: v(1, 1, 3), blocktype: BlockType::BlockStone },
            Quad { face: TOP, origin: v(1, 0, 0), dim: v(2, 1, 2), blocktype: BlockType::BlockStone },
        ]
    );
}

#[test]
fn single_column_scenario() {
    let grid = column_grid();
    let data = mesh_gen(0, 0, &grid);
    let stone = BlockType::BlockStone;
    // Top: one quad on the block at y = 2, over the footprint (0, 0).
    assert_eq!(
        quads_of_face(&data, TOP),
        vec![Quad { face: TOP, origin: v(0, 2, 0), dim: v(1, 1, 1), blocktype: stone }]
    );
    // Bottom: the block at y = 0 stands on the floor of the world, which
    // counts as solid, so no face is drawn.
    assert_eq!(quads_of_face(&data, BOTTOM), vec![]);
    // The sides: one quad each, three blocks high.
    for side in [FRONT, BACK, RIGHT, LEFT] {
        assert_eq!(
            quads_of_face(&data, side),
            vec![Quad { face: side, origin: v(0, 0, 0), dim: v(1, 3, 1), blocktype: stone }]
        );
    }
    assert_eq!(data.face_ranges, [(0, 6), (6, 6), (12, 6), (18, 6), (24, 6), (30, 0)]);
    assert_eq!(data.quads.len(), 5);
    // The corners of the top quad, and of the front quad.
    assert_eq!(data.vertices[16..20], [w(0, 3, 1), w(1, 3, 1), w(0, 3, 0), w(1, 3, 0)]);
    assert_eq!(data.vertices[0..4], [w(0, 0, 1), w(1, 0, 1), w(0, 3, 1), w(1, 3, 1)]);
    assert_eq!(data.vertices[4..8], [w(1, 0, 0), w(0, 0, 0), w(1, 3, 0), w(0, 3, 0)]);
    assert_eq!(data.normals[16..20], [w(0, 1, 0); 4]);
    assert_eq!(data.normals[12..16], [w(-1, 0, 0); 4]);
    assert_eq!(data.blocktypes, vec![2u8; 20]);
    assert_eq!(data.elements[0..6], [0, 1, 2, 3, 2, 1]);
    assert_eq!(data.elements[24..30], [16, 17, 18, 19, 18, 17]);
    check_mesh(&grid, 0, 0, &data);
}

#[test]
fn a_neighbour_occludes_the_side_of_the_column() {
    let mut grid = column_grid();
    // A second column right of the first hides the first one's right side
    // and its own left side.
    for y in 0..3 {
        grid.set(1, y, 0, block(BlockType::BlockStone));
    }
    let data = mesh_gen(0, 0, &grid);
    let stone = BlockType::BlockStone;
    assert_eq!(
        quads_of_face(&data, RIGHT),
        vec![Quad { face: RIGHT, origin: v(1, 0, 0), dim: v(1, 3, 1), blocktype: stone }]
    );
    assert_eq!(
        quads_of_face(&data, LEFT),
        vec![Quad { face: LEFT, origin: v(0, 0, 0), dim: v(1, 3, 1), blocktype: stone }]
    );
    assert_eq!(
        quads_of_face(&data, FRONT),
        vec![Quad { face: FRONT, origin: v(0, 0, 0), dim: v(2, 3, 1), blocktype: stone }]
    );
    assert_eq!(
        quads_of_face(&data, TOP),
        vec![Quad { face: TOP, origin: v(0, 2, 0), dim: v(2, 1, 1), blocktype: stone }]
    );
    check_mesh(&grid, 0, 0, &data);
}

#[test]
fn empty_grid_has_an_empty_mesh() {
    let grid = VoxelGrid::new(4);
    let data = mesh_gen(3, -7, &grid);
    assert!(data.quads.is_empty());
    assert!(data.vertices.is_empty());
    assert!(data.normals.is_empty());
    assert!(data.blocktypes.is_empty());
    assert!(data.elements.is_empty());
    assert_eq!(data.face_ranges, [(0, 0); 6]);
    assert!(data.is_empty());
}

#[test]
fn full_grid_shows_its_hull_without_the_underside() {
    let mut grid = VoxelGrid::new(3);
    for x in 0..3 {
        for y in 0..3 {
            for z in 0..3 {
                grid.set(x, y, z, block(BlockType::BlockStone));
            }
        }
    }
    let data = mesh_gen(0, 0, &grid);
    let stone = BlockType::BlockStone;
    assert_eq!(
        data.quads,
        vec![
            Quad { face: FRONT, origin: v(0, 0, 2), dim: v(3, 3, 1), blocktype: stone },
            Quad { face: BACK, origin: v(0, 0, 0), dim: v(3, 3, 1), blocktype: stone },
            Quad { face: RIGHT, origin: v(2, 0, 0), dim: v(1, 3, 3), blocktype: stone },
            Quad { face: LEFT, origin: v(0, 0, 0), dim: v(1, 3, 3), blocktype: stone },
            Quad { face: TOP, origin: v(0, 2, 0), dim: v(3, 1, 3), blocktype: stone },
        ]
    );
    assert_eq!(data.face_ranges[BOTTOM], (30, 0));
    assert!(!data.is_empty());
    check_mesh(&grid, 0, 0, &data);
}

#[test]
fn vertices_are_moved_to_the_chunk_position() {
    let mut grid = VoxelGrid::new(4);
    grid.set(1, 2, 3, block(BlockType::BlockWater));
    let data = mesh_gen(-100, 64, &grid);
    // Front comes first: corners (0,0,1), (1,0,1), (0,1,1), (1,1,1) of the
    // cell at (1, 2, 3), moved by (-100, 0, 64).
    assert_eq!(data.vertices[0..4], [w(-99, 2, 68), w(-98, 2, 68), w(-99, 3, 68), w(-98, 3, 68)]);
    assert_eq!(data.blocktypes[0], 4);
    // A floating block shows all six faces.
    assert_eq!(data.quads.len(), 6);
    check_mesh(&grid, -100, 64, &data);
}

#[test]
fn mesh_covers_exactly_the_exposed_faces() {
    for (size, salt) in [(2usize, 1u64), (3, 2), (4, 3), (5, 4), (6, 5), (7, 6)] {
        let grid = patchy_grid(size, salt);
        let data = mesh_gen(size as i64 * 3, -(size as i64), &grid);
        check_mesh(&grid, size as i64 * 3, -(size as i64), &data);
    }
}

#[test]
fn quads_are_uniform_and_lie_in_their_mask() {
    let grid = patchy_grid(6, 77);
    let table = faces();
    for face in table.iter() {
        let mask = exposed_faces(&grid, face);
        for quad in mesh_face(&grid, face).iter() {
            for dx in 0..quad.dim.x {
                for dy in 0..quad.dim.y {
                    for dz in 0..quad.dim.z {
                        let (x, y, z) = (quad.origin.x + dx, quad.origin.y + dy, quad.origin.z + dz);
                        assert!(mask.contains(x, y, z));
                        assert_eq!(grid.get(x, y, z).blocktype, quad.blocktype);
                    }
                }
            }
        }
    }
}

#[test]
fn quads_come_in_scan_order() {
    let grid = patchy_grid(5, 9);
    for face in faces().iter() {
        let quads = mesh_face(&grid, face);
        let rank = |q: &Quad| {
            let along = |d: &Vec3| q.origin.x * d.x + q.origin.y * d.y + q.origin.z * d.z;
            (along(&face.di), along(&face.dj), along(&face.dk))
        };
        for pair in quads.windows(2) {
            assert!(rank(&pair[0]) < rank(&pair[1]));
        }
    }
}

#[test]
fn meshing_twice_gives_the_same_mesh() {
    let grid = patchy_grid(5, 123);
    let first = mesh_gen(10, 20, &grid);
    let second = mesh_gen(10, 20, &grid);
    assert_eq!(first.quads, second.quads);
    assert_eq!(first.vertices, second.vertices);
    assert_eq!(first.normals, second.normals);
    assert_eq!(first.blocktypes, second.blocktypes);
    assert_eq!(first.elements, second.elements);
    assert_eq!(first.face_ranges, second.face_ranges);
}

#[test]
fn emit_quad_appends_four_corners_and_six_elements() {
    let table = faces();
    let mut data = MeshData::new();
    let first = Quad { face: LEFT, origin: v(0, 0, 0), dim: v(1, 2, 3), blocktype: BlockType::BlockDirt };
    let second = Quad { face: TOP, origin: v(1, 1, 1), dim: v(2, 1, 2), blocktype: BlockType::BlockGrass };
    data.emit_quad(5, 7, &table[LEFT], first);
    data.emit_quad(5, 7, &table[TOP], second);
    assert_eq!(data.quads, vec![first, second]);
    assert_eq!(
        data.vertices,
        vec![
            w(5, 0, 7),
            w(5, 0, 10),
            w(5, 2, 7),
            w(5, 2, 10),
            w(6, 2, 10),
            w(8, 2, 10),
            w(6, 2, 8),
            w(8, 2, 8),
        ]
    );
    assert_eq!(data.normals[0..4], [w(-1, 0, 0); 4]);
    assert_eq!(data.normals[4..8], [w(0, 1, 0); 4]);
    assert_eq!(data.blocktypes, vec![3, 3, 3, 3, 1, 1, 1, 1]);
    assert_eq!(data.elements, vec![0, 1, 2, 3, 2, 1, 4, 5, 6, 7, 6, 5]);
}
