//! Streaming manager behaviour: the view window, activation state and
//! mesh reuse across deactivation.

use voxel_terrain::block::{default_registry, BlockRegistry};
use voxel_terrain::data::CHUNK_WIDTH;
use voxel_terrain::store::{block_to_chunk, window_coords, ChunkDatas};

/// Runs one streaming update tick: deactivates the chunks that left the
/// window, generates the missing coordinates, activates everything in
/// the window, and returns the withdrawn presentation handles.
fn tick(
    store: &mut ChunkDatas,
    reg: &BlockRegistry,
    ccx: i32,
    ccz: i32,
    r: i32,
    next_handle: &mut u64,
) -> Vec<u64> {
    let withdrawn = store.deactivate_outside(ccx, ccz, r);
    for (cx, cz) in store.missing_in_window(ccx, ccz, r) {
        let heights = vec![7; CHUNK_WIDTH * CHUNK_WIDTH];
        if !store.contains(cx, cz) {
            store.insert_new(cx, cz, &heights, reg);
        }
    }
    for (cx, cz) in window_coords(ccx, ccz, r) {
        if !store.is_active(cx, cz) {
            let mesh = store.mesh_of(cx, cz);
            assert!(!mesh.positions.is_empty());
            let handle = *next_handle;
            *next_handle += 1;
            store.activate(cx, cz, handle);
        }
    }
    withdrawn
}

#[test]
fn window_after_first_tick() {
    let reg = default_registry();
    let mut store = ChunkDatas::new();
    let mut handle = 1;
    let withdrawn = tick(&mut store, &reg, 0, 0, 8, &mut handle);
    assert!(withdrawn.is_empty());
    assert_eq!(store.chunk_count(), 256);
    for x in -9..9 {
        for z in -9..9 {
            let expected = (-8..8).contains(&x) && (-8..8).contains(&z);
            assert_eq!(store.is_active(x, z), expected, "at ({}, {})", x, z);
        }
    }
    assert_eq!(store.active_coords().len(), 256);
}

#[test]
fn window_moves_with_viewpoint() {
    let reg = default_registry();
    let mut store = ChunkDatas::new();
    let mut handle = 1;
    tick(&mut store, &reg, 0, 0, 8, &mut handle);
    let withdrawn = tick(&mut store, &reg, 20, 0, 8, &mut handle);
    // The old window [-8, 8) is disjoint from the new one [12, 28):
    // every previously active chunk is withdrawn.
    assert_eq!(withdrawn.len(), 256);
    for x in -8..8 {
        for z in -8..8 {
            assert!(!store.is_active(x, z));
        }
    }
    for x in 12..28 {
        for z in -8..8 {
            assert!(store.is_active(x, z));
        }
    }
    assert_eq!(store.active_coords().len(), 256);
    assert_eq!(store.chunk_count(), 512);
}

#[test]
fn reentry_reuses_cached_chunk() {
    let reg = default_registry();
    let mut store = ChunkDatas::new();
    let mut handle = 1;
    tick(&mut store, &reg, 0, 0, 1, &mut handle);
    assert_eq!(store.chunk_count(), 4);
    let positions_before = store.mesh_of(0, 0).positions.clone();
    let voxels_before = {
        let mut v = None;
        for c in &store.datas {
            if c.coords == (0, 0) {
                v = Some(c.voxels.clone());
            }
        }
        v.unwrap()
    };

    let withdrawn = tick(&mut store, &reg, 10, 0, 1, &mut handle);
    assert_eq!(withdrawn.len(), 4);
    assert!(!store.is_active(0, 0));
    assert_eq!(store.chunk_count(), 8);

    // Coming back: nothing is missing, so nothing is regenerated.
    assert!(store.missing_in_window(0, 0, 1).is_empty());
    tick(&mut store, &reg, 0, 0, 1, &mut handle);
    assert_eq!(store.chunk_count(), 8);
    assert!(store.is_active(0, 0));
    assert_eq!(store.mesh_of(0, 0).positions, positions_before);
    for c in &store.datas {
        if c.coords == (0, 0) {
            assert_eq!(c.voxels, voxels_before);
        }
    }
}

#[test]
fn deactivation_returns_the_withdrawn_handles() {
    let reg = default_registry();
    let mut store = ChunkDatas::new();
    let heights = vec![7; CHUNK_WIDTH * CHUNK_WIDTH];
    store.insert_new(0, 0, &heights, &reg);
    store.insert_new(5, 5, &heights, &reg);
    store.insert_new(0, 1, &heights, &reg);
    store.activate(0, 0, 101);
    store.activate(5, 5, 202);
    store.activate(0, 1, 303);
    // Window of radius 2 around the origin: (5, 5) leaves it.
    let withdrawn = store.deactivate_outside(0, 0, 2);
    assert_eq!(withdrawn, vec![202]);
    assert!(store.is_active(0, 0));
    assert!(!store.is_active(5, 5));
    assert!(store.is_active(0, 1));
}

#[test]
fn activation_requires_presence_first() {
    let reg = default_registry();
    let mut store = ChunkDatas::new();
    assert!(!store.contains(3, 4));
    let heights = vec![2; CHUNK_WIDTH * CHUNK_WIDTH];
    store.insert_new(3, 4, &heights, &reg);
    assert!(store.contains(3, 4));
    assert!(!store.is_active(3, 4));
    store.activate(3, 4, 7);
    assert!(store.is_active(3, 4));
}

#[test]
fn window_coords_cover_the_square() {
    let w = window_coords(0, 0, 1);
    assert_eq!(w.len(), 4);
    for c in [(-1, -1), (-1, 0), (0, -1), (0, 0)] {
        assert!(w.contains(&c));
    }
    let shifted = window_coords(3, -2, 1);
    assert_eq!(shifted.len(), 4);
    for c in [(2, -3), (2, -2), (3, -3), (3, -2)] {
        assert!(shifted.contains(&c));
    }
}

#[test]
fn block_to_chunk_floors_toward_negative_infinity() {
    assert_eq!(block_to_chunk(0, 0), (0, 0));
    assert_eq!(block_to_chunk(4, 4), (0, 0));
    assert_eq!(block_to_chunk(5, 9), (1, 1));
    assert_eq!(block_to_chunk(-1, -5), (-1, -1));
    assert_eq!(block_to_chunk(-6, -10), (-2, -2));
    assert_eq!(block_to_chunk(12, -12), (2, -3));
}
