//! Block registry, terrain generation and meshing behaviour.

use voxel_terrain::atlas_origin;
use voxel_terrain::block::{default_registry, BlockRegistry, BlockType};
use voxel_terrain::chunk::{vox_index_at, Chunk};
use voxel_terrain::data::{CHUNK_HEIGHT, CHUNK_WIDTH};
use voxel_terrain::mesh::MeshData;

fn flat_heights(h: u32) -> Vec<u32> {
    vec![h; CHUNK_WIDTH * CHUNK_WIDTH]
}

#[test]
fn registry_well_formed() {
    let reg = default_registry();
    assert!(reg.check());
    assert_eq!(reg.blocks.len(), 4);
    assert!(!reg.blocks[0].is_solid);
    assert!(reg.blocks[1].is_solid);
    assert!(reg.blocks[2].is_solid);
    assert!(reg.blocks[3].is_solid);
    assert_eq!(reg.blocks[1].textures, [39; 6]);
    assert_eq!(reg.blocks[2].textures, [52; 6]);
    assert_eq!(reg.blocks[3].textures, [43, 43, 15, 52, 43, 43]);
}

#[test]
fn registry_rejects_texture_outside_atlas() {
    let mut reg = default_registry();
    reg.blocks.push(BlockType { name: "Bad", is_solid: true, textures: [90; 6] });
    assert!(!reg.check());
}

#[test]
fn registry_rejects_solid_air() {
    let reg = BlockRegistry {
        blocks: vec![BlockType { name: "NotAir", is_solid: true, textures: [0; 6] }],
    };
    assert!(!reg.check());
}

#[test]
fn atlas_cell_of_43() {
    // 43 = 4 * 9 + 7: column 7, row 4.
    let (col, row) = atlas_origin(43);
    assert_eq!(col, 7);
    assert_eq!(row, 4);
    // UV origin of that cell in a 9 x 10 atlas.
    let u = col as f32 / 9.0;
    let v = row as f32 / 10.0;
    assert_eq!(u, 7.0 / 9.0);
    assert_eq!(v, 4.0 / 10.0);
}

#[test]
fn elevation_bands_height_seven() {
    let reg = default_registry();
    let chunk = Chunk::new(0, 0, &flat_heights(7), &reg);
    for x in 0..CHUNK_WIDTH {
        for z in 0..CHUNK_WIDTH {
            for y in 0..CHUNK_HEIGHT {
                let v = chunk.voxels[vox_index_at(x, y, z)];
                if y < 2 {
                    assert_eq!(v, 1, "bedrock expected at y={}", y);
                } else if y == 6 {
                    assert_eq!(v, 3, "surface expected at y=6");
                } else if y < 6 {
                    assert_eq!(v, 2, "fill expected at y={}", y);
                } else {
                    assert_eq!(v, 0, "air expected at y={}", y);
                }
            }
        }
    }
}

#[test]
fn elevation_bands_low_column_is_bedrock_only() {
    // With height 0 the surface and fill bands never fire: only the two
    // bedrock layers are solid.
    let reg = default_registry();
    let chunk = Chunk::new(0, 0, &flat_heights(0), &reg);
    for x in 0..CHUNK_WIDTH {
        for z in 0..CHUNK_WIDTH {
            for y in 0..CHUNK_HEIGHT {
                let v = chunk.voxels[vox_index_at(x, y, z)];
                if y < 2 {
                    assert_eq!(v, 1);
                } else {
                    assert_eq!(v, 0);
                }
            }
        }
    }
}

#[test]
fn check_voxel_agrees_with_grid_index() {
    let reg = default_registry();
    let chunk = Chunk::new(3, -2, &flat_heights(7), &reg);
    for x in 0..CHUNK_WIDTH {
        for z in 0..CHUNK_WIDTH {
            for y in 0..CHUNK_HEIGHT {
                let direct = reg.blocks[chunk.voxels[vox_index_at(x, y, z)] as usize].is_solid;
                assert_eq!(chunk.check_voxel(x as i32, y as i32, z as i32, &reg), direct);
            }
        }
    }
}

#[test]
fn check_voxel_outside_chunk_is_absent() {
    let reg = default_registry();
    let chunk = Chunk::new(0, 0, &flat_heights(7), &reg);
    assert!(!chunk.check_voxel(-1, 0, 0, &reg));
    assert!(!chunk.check_voxel(0, -1, 0, &reg));
    assert!(!chunk.check_voxel(0, 0, -1, &reg));
    assert!(!chunk.check_voxel(CHUNK_WIDTH as i32, 0, 0, &reg));
    assert!(!chunk.check_voxel(0, CHUNK_HEIGHT as i32, 0, &reg));
    assert!(!chunk.check_voxel(0, 0, CHUNK_WIDTH as i32, &reg));
}

#[test]
fn generation_is_deterministic() {
    let reg = default_registry();
    let heights: Vec<u32> = (0..25u32).map(|i| (i * 7) % 13).collect();
    let a = Chunk::new(-4, 9, &heights, &reg);
    let b = Chunk::new(-4, 9, &heights, &reg);
    assert_eq!(a.voxels, b.voxels);
    assert_eq!(a.mesh.positions, b.mesh.positions);
    assert_eq!(a.mesh.uvs, b.mesh.uvs);
    assert_eq!(a.mesh.normals, b.mesh.normals);
    assert_eq!(a.mesh.indices, b.mesh.indices);
}

fn bare_chunk(voxels: Vec<u8>) -> Chunk {
    Chunk { coords: (0, 0), active: false, handle: None, voxels, mesh: MeshData::empty() }
}

#[test]
fn isolated_voxel_emits_six_quads() {
    let reg = default_registry();
    let mut c = bare_chunk(vec![0; CHUNK_WIDTH * CHUNK_HEIGHT * CHUNK_WIDTH]);
    c.voxels[vox_index_at(2, 7, 2)] = 1;
    c.create_mesh_data(&reg);
    assert_eq!(c.mesh.positions.len(), 24);
    assert_eq!(c.mesh.uvs.len(), 24);
    assert_eq!(c.mesh.normals.len(), 24);
    assert_eq!(c.mesh.indices.len(), 36);
}

#[test]
fn surrounded_voxels_emit_no_faces() {
    // A fully solid grid: only the faces on the chunk boundary appear.
    // Interior voxels are surrounded on all six sides and emit nothing.
    let reg = default_registry();
    let mut c = bare_chunk(vec![1; CHUNK_WIDTH * CHUNK_HEIGHT * CHUNK_WIDTH]);
    c.create_mesh_data(&reg);
    let boundary_faces = 2 * (CHUNK_WIDTH * CHUNK_WIDTH) + 4 * (CHUNK_WIDTH * CHUNK_HEIGHT);
    assert_eq!(c.mesh.positions.len(), 4 * boundary_faces);
    assert_eq!(c.mesh.indices.len(), 6 * boundary_faces);
}

#[test]
fn quad_layout_of_single_voxel() {
    let reg = default_registry();
    let mut c = bare_chunk(vec![0; CHUNK_WIDTH * CHUNK_HEIGHT * CHUNK_WIDTH]);
    c.voxels[vox_index_at(1, 1, 1)] = 1;
    c.create_mesh_data(&reg);
    // First emitted face is direction 0 (back): corners 0,3,1,2 of the
    // unit cube translated to (1,1,1).
    assert_eq!(c.mesh.positions[0], (1, 1, 1));
    assert_eq!(c.mesh.positions[1], (1, 2, 1));
    assert_eq!(c.mesh.positions[2], (2, 1, 1));
    assert_eq!(c.mesh.positions[3], (2, 2, 1));
    assert_eq!(c.mesh.normals[0], (0, 0, 1));
    assert_eq!(c.mesh.indices[0..6], [0, 1, 2, 2, 1, 3]);
    // Stone texture 39: column 3, row 4 of the atlas; each vertex picks
    // one corner of that single cell.
    assert_eq!(c.mesh.uvs[0], (4, 5));
    assert_eq!(c.mesh.uvs[1], (4, 4));
    assert_eq!(c.mesh.uvs[2], (3, 5));
    assert_eq!(c.mesh.uvs[3], (3, 4));
    // Second quad reuses no vertex of the first.
    assert_eq!(c.mesh.indices[6..12], [4, 5, 6, 6, 5, 7]);
}

#[test]
fn world_offset_translates_positions() {
    let reg = default_registry();
    let heights = flat_heights(3);
    let at_origin = Chunk::new(0, 0, &heights, &reg);
    let moved = Chunk::new(2, -1, &heights, &reg);
    assert_eq!(at_origin.mesh.positions.len(), moved.mesh.positions.len());
    for (a, b) in at_origin.mesh.positions.iter().zip(moved.mesh.positions.iter()) {
        assert_eq!(b.0, a.0 + 2 * CHUNK_WIDTH as i64);
        assert_eq!(b.1, a.1);
        assert_eq!(b.2, a.2 - CHUNK_WIDTH as i64);
    }
}
