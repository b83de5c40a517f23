//! Block-type definitions: the immutable registry that maps a voxel's
//! block index to its solidity and per-face texture-atlas indices.

use vstd::prelude::*;

use crate::data::{TEXTURE_ATLAS_HEIGHT, TEXTURE_ATLAS_WIDTH};

verus! {

/// One kind of voxel: whether it occupies space, and which atlas cell
/// textures each of its six faces (back, front, top, bottom, left, right).
pub struct BlockType {
    pub name: &'static str,
    pub is_solid: bool,
    pub textures: [u32; 6],
}

/// The ordered list of block types; a voxel stores an index into it.
/// Index 0 is reserved for air and must be non-solid.
pub struct BlockRegistry {
    pub blocks: Vec<BlockType>,
}

impl BlockRegistry {
    /// A registry is well formed when index 0 is a non-solid air block and
    /// every face texture of every block lies inside the texture atlas.
    pub open spec fn wf(&self) -> bool {
        &&& self.blocks@.len() > 0
        &&& !self.blocks@[0].is_solid
        &&& forall|b: int, f: int|
            0 <= b < self.blocks@.len() && 0 <= f < 6 ==> (#[trigger] self.blocks@[b].textures@[f])
                < TEXTURE_ATLAS_WIDTH * TEXTURE_ATLAS_HEIGHT
    }

    /// Checks well-formedness of a registry built at run time, so that a
    /// malformed configuration can be rejected before any mesh is built.
    pub fn check(&self) -> (r: bool)
        ensures
            r == self.wf(),
    {
        if self.blocks.len() == 0 {
            return false;
        }
        if self.blocks[0].is_solid {
            return false;
        }
        let mut b: usize = 0;
        while b < self.blocks.len()
            invariant
                b <= self.blocks@.len(),
                forall|bb: int, f: int|
                    0 <= bb < b && 0 <= f < 6 ==> (#[trigger] self.blocks@[bb].textures@[f])
                        < TEXTURE_ATLAS_WIDTH * TEXTURE_ATLAS_HEIGHT,
            decreases self.blocks@.len() - b,
        {
            let mut f: usize = 0;
            while f < 6
                invariant
                    b < self.blocks@.len(),
                    f <= 6,
                    forall|ff: int|
                        0 <= ff < f ==> (#[trigger] self.blocks@[b as int].textures@[ff])
                            < TEXTURE_ATLAS_WIDTH * TEXTURE_ATLAS_HEIGHT,
                decreases 6 - f,
            {
                if self.blocks[b].textures[f] >= TEXTURE_ATLAS_WIDTH * TEXTURE_ATLAS_HEIGHT {
                    return false;
                }
                f += 1;
            }
            b += 1;
        }
        true
    }
}

/// The block set of the terrain: air, then stone (the bedrock base),
/// dirt (subsurface fill), and grass (the surface layer).
pub fn default_registry() -> (r: BlockRegistry)
    ensures
        r.wf(),
        r.blocks@.len() == 4,
        !r.blocks@[0].is_solid,
        r.blocks@[1].is_solid,
        r.blocks@[2].is_solid,
        r.blocks@[3].is_solid,
        forall|f: int| 0 <= f < 6 ==> (#[trigger] r.blocks@[1].textures@[f]) == 39,
        forall|f: int| 0 <= f < 6 ==> (#[trigger] r.blocks@[2].textures@[f]) == 52,
        r.blocks@[3].textures@ =~= seq![43u32, 43u32, 15u32, 52u32, 43u32, 43u32],
{
    let mut blocks: Vec<BlockType> = Vec::new();
    blocks.push(BlockType { name: "Air", is_solid: false, textures: [0; 6] });
    blocks.push(BlockType { name: "Stone", is_solid: true, textures: [39; 6] });
    blocks.push(BlockType { name: "Dirt", is_solid: true, textures: [52; 6] });
    blocks.push(BlockType { name: "Grass", is_solid: true, textures: [43, 43, 15, 52, 43, 43] });
    BlockRegistry { blocks }
}

} // verus!
