//! Fixed configuration of the terrain: chunk dimensions, view distance,
//! texture-atlas layout, and the canonical per-face geometry tables
//! (cube corners, per-face vertex selection, face normals, neighbour
//! offsets, and per-corner texture deltas).

use vstd::prelude::*;

verus! {

/// Horizontal extent of a chunk, in voxels, on both the x and z axes.
pub const CHUNK_WIDTH: usize = 5;

/// Vertical extent of a chunk, in voxels.
pub const CHUNK_HEIGHT: usize = 15;

/// Number of texture cells per row of the atlas.
pub const TEXTURE_ATLAS_WIDTH: u32 = 9;

/// Number of texture-cell rows in the atlas.
pub const TEXTURE_ATLAS_HEIGHT: u32 = 10;

/// Radius, in chunks, of the square window of active chunks around the
/// viewpoint.
pub const VIEW_DISTANCE_IN_CHUNKS: i32 = 8;

/// The offset, in voxels, of cube corner `v` (0..8) from the voxel's own
/// corner. The eight corners are numbered bottom ring first (counter-
/// clockwise seen from -z), then the top ring.
pub open spec fn corner(v: int) -> (int, int, int) {
    if v == 0 {
        (0, 0, 0)
    } else if v == 1 {
        (1, 0, 0)
    } else if v == 2 {
        (1, 1, 0)
    } else if v == 3 {
        (0, 1, 0)
    } else if v == 4 {
        (0, 0, 1)
    } else if v == 5 {
        (1, 0, 1)
    } else if v == 6 {
        (1, 1, 1)
    } else {
        (0, 1, 1)
    }
}

/// Which cube corner supplies vertex `i` (0..4) of face `p` (0..6).
/// Faces are ordered back, front, top, bottom, left, right.
pub open spec fn tri_vert(p: int, i: int) -> int {
    if p == 0 {
        if i == 0 { 0 } else if i == 1 { 3 } else if i == 2 { 1 } else { 2 }
    } else if p == 1 {
        if i == 0 { 5 } else if i == 1 { 6 } else if i == 2 { 4 } else { 7 }
    } else if p == 2 {
        if i == 0 { 3 } else if i == 1 { 7 } else if i == 2 { 2 } else { 6 }
    } else if p == 3 {
        if i == 0 { 1 } else if i == 1 { 5 } else if i == 2 { 0 } else { 4 }
    } else if p == 4 {
        if i == 0 { 4 } else if i == 1 { 7 } else if i == 2 { 0 } else { 3 }
    } else {
        if i == 0 { 1 } else if i == 1 { 2 } else if i == 2 { 5 } else { 6 }
    }
}

/// The offset of the neighbouring voxel that face `p` looks toward.
pub open spec fn face_dir(p: int) -> (int, int, int) {
    if p == 0 {
        (0, 0, -1)
    } else if p == 1 {
        (0, 0, 1)
    } else if p == 2 {
        (0, 1, 0)
    } else if p == 3 {
        (0, -1, 0)
    } else if p == 4 {
        (-1, 0, 0)
    } else {
        (1, 0, 0)
    }
}

/// The canonical normal vector shared by all four vertices of face `p`.
pub open spec fn face_normal(p: int) -> (int, int, int) {
    if p == 0 {
        (0, 0, 1)
    } else if p == 1 {
        (0, 0, -1)
    } else if p == 2 {
        (0, 1, 0)
    } else if p == 3 {
        (0, -1, 0)
    } else if p == 4 {
        (-1, 0, 0)
    } else {
        (1, 0, 0)
    }
}

/// Texture-cell corner picked by vertex `i` of a quad, in units of one
/// atlas cell: the stored texture coordinate of a vertex is the cell
/// origin plus this delta, later divided by the atlas dimensions.
pub open spec fn uv_delta(i: int) -> (int, int) {
    if i == 0 {
        (1, 1)
    } else if i == 1 {
        (1, 0)
    } else if i == 2 {
        (0, 1)
    } else {
        (0, 0)
    }
}

/// Executable counterpart of [`corner`].
pub fn corner_at(v: usize) -> (r: (i64, i64, i64))
    requires
        v < 8,
    ensures
        (r.0 as int, r.1 as int, r.2 as int) == corner(v as int),
{
    if v == 0 {
        (0, 0, 0)
    } else if v == 1 {
        (1, 0, 0)
    } else if v == 2 {
        (1, 1, 0)
    } else if v == 3 {
        (0, 1, 0)
    } else if v == 4 {
        (0, 0, 1)
    } else if v == 5 {
        (1, 0, 1)
    } else if v == 6 {
        (1, 1, 1)
    } else {
        (0, 1, 1)
    }
}

/// Executable counterpart of [`tri_vert`].
pub fn tri_vert_at(p: usize, i: usize) -> (r: usize)
    requires
        p < 6,
        i < 4,
    ensures
        r as int == tri_vert(p as int, i as int),
        r < 8,
{
    if p == 0 {
        if i == 0 { 0 } else if i == 1 { 3 } else if i == 2 { 1 } else { 2 }
    } else if p == 1 {
        if i == 0 { 5 } else if i == 1 { 6 } else if i == 2 { 4 } else { 7 }
    } else if p == 2 {
        if i == 0 { 3 } else if i == 1 { 7 } else if i == 2 { 2 } else { 6 }
    } else if p == 3 {
        if i == 0 { 1 } else if i == 1 { 5 } else if i == 2 { 0 } else { 4 }
    } else if p == 4 {
        if i == 0 { 4 } else if i == 1 { 7 } else if i == 2 { 0 } else { 3 }
    } else {
        if i == 0 { 1 } else if i == 1 { 2 } else if i == 2 { 5 } else { 6 }
    }
}

/// Executable counterpart of [`face_dir`].
pub fn face_dir_at(p: usize) -> (r: (i32, i32, i32))
    requires
        p < 6,
    ensures
        (r.0 as int, r.1 as int, r.2 as int) == face_dir(p as int),
{
    if p == 0 {
        (0, 0, -1)
    } else if p == 1 {
        (0, 0, 1)
    } else if p == 2 {
        (0, 1, 0)
    } else if p == 3 {
        (0, -1, 0)
    } else if p == 4 {
        (-1, 0, 0)
    } else {
        (1, 0, 0)
    }
}

/// Executable counterpart of [`face_normal`].
pub fn face_normal_at(p: usize) -> (r: (i32, i32, i32))
    requires
        p < 6,
    ensures
        (r.0 as int, r.1 as int, r.2 as int) == face_normal(p as int),
{
    if p == 0 {
        (0, 0, 1)
    } else if p == 1 {
        (0, 0, -1)
    } else if p == 2 {
        (0, 1, 0)
    } else if p == 3 {
        (0, -1, 0)
    } else if p == 4 {
        (-1, 0, 0)
    } else {
        (1, 0, 0)
    }
}

} // verus!
