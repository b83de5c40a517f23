//! Procedurally generated voxel terrain: chunk data model, elevation-band
//! terrain generation, face-visibility-culled meshing, and a streaming
//! manager that activates the chunks around a moving viewpoint.

pub mod block;
pub mod chunk;
pub mod data;
pub mod mesh;
pub mod store;

use vstd::prelude::*;

verus! {

/// Converts a linear texture-atlas index into the (column, row) cell it
/// denotes: cells are numbered row-major across a grid of
/// `TEXTURE_ATLAS_WIDTH` columns.
pub fn atlas_origin(tex: u32) -> (r: (u32, u32))
    requires
        tex < data::TEXTURE_ATLAS_WIDTH * data::TEXTURE_ATLAS_HEIGHT,
    ensures
        r.1 == tex / data::TEXTURE_ATLAS_WIDTH,
        r.0 == tex - r.1 * data::TEXTURE_ATLAS_WIDTH,
        r.0 < data::TEXTURE_ATLAS_WIDTH,
        r.1 < data::TEXTURE_ATLAS_HEIGHT,
{
    let row = tex / data::TEXTURE_ATLAS_WIDTH;
    let col = tex - row * data::TEXTURE_ATLAS_WIDTH;
    (col, row)
}

} // verus!
