//! A chunk: one fixed-size vertical column of voxels. Holds the voxel
//! grid generated from per-column terrain heights, the triangle mesh
//! built from it by face-visibility culling, and the streaming state
//! (active flag and presentation handle).

use vstd::prelude::*;

use crate::atlas_origin;
use crate::block::BlockRegistry;
use crate::data::{corner_at, face_dir_at, face_normal_at, tri_vert_at, CHUNK_HEIGHT, CHUNK_WIDTH};
use crate::mesh::{
    all_faces, cell_faces, face_visible, layer_faces, lemma_cell_faces_len, lemma_layer_faces_len,
    lemma_stack_faces_len, lemma_zrow_faces_len, mesh_matches, push_face, quad_ok, stack_faces,
    tex_of, zrow_faces, MeshData,
};

verus! {

/// Whether `(x, y, z)` is a voxel position inside the chunk grid.
pub open spec fn in_bounds(x: int, y: int, z: int) -> bool {
    &&& 0 <= x < CHUNK_WIDTH
    &&& 0 <= y < CHUNK_HEIGHT
    &&& 0 <= z < CHUNK_WIDTH
}

/// Position of voxel `(x, y, z)` in the flat grid vector: x strides over
/// whole vertical slabs, y over rows, z over single cells.
pub open spec fn vox_index(x: int, y: int, z: int) -> int {
    x * (CHUNK_HEIGHT * CHUNK_WIDTH) + y * CHUNK_WIDTH + z
}

/// Total number of voxels in a chunk.
pub open spec fn grid_len() -> int {
    CHUNK_WIDTH * CHUNK_HEIGHT * CHUNK_WIDTH
}

/// Position of column `(x, z)` in a flat vector of per-column values.
pub open spec fn col_index(x: int, z: int) -> int {
    x * CHUNK_WIDTH + z
}

/// The block index the generation rule assigns at height `y` in a column
/// of terrain height `h`: the two lowest layers are always bedrock, the
/// layer just below `h` is the surface block, the layers between are
/// fill, and everything else is air. The bedrock rule takes precedence.
pub open spec fn band_block(y: int, h: int) -> u8 {
    if y < 2 {
        1u8
    } else if y + 1 == h {
        3u8
    } else if y + 1 < h {
        2u8
    } else {
        0u8
    }
}

/// The grid holds exactly the blocks the elevation-band rule assigns for
/// the given per-column heights.
pub open spec fn grid_matches(grid: Seq<u8>, heights: Seq<u32>) -> bool {
    &&& grid.len() == grid_len()
    &&& forall|x: int, y: int, z: int|
        in_bounds(x, y, z) ==> #[trigger] grid[vox_index(x, y, z)] == band_block(
            y,
            heights[col_index(x, z)] as int,
        )
}

/// Every block index stored in the grid names a block of the registry.
pub open spec fn grid_wf(grid: Seq<u8>, reg: BlockRegistry) -> bool {
    &&& grid.len() == grid_len()
    &&& forall|i: int| 0 <= i < grid.len() ==> (#[trigger] grid[i]) < reg.blocks@.len()
}

/// Whether the voxel at `(x, y, z)` is solid: positions outside the grid
/// count as absent and therefore non-solid.
pub open spec fn voxel_solid(grid: Seq<u8>, reg: BlockRegistry, x: int, y: int, z: int) -> bool {
    in_bounds(x, y, z) && reg.blocks@[grid[vox_index(x, y, z)] as int].is_solid
}

/// Computes the flat grid index of an in-bounds voxel position.
pub fn vox_index_at(x: usize, y: usize, z: usize) -> (r: usize)
    requires
        in_bounds(x as int, y as int, z as int),
    ensures
        r as int == vox_index(x as int, y as int, z as int),
        (r as int) < grid_len(),
{
    proof {
        assert(CHUNK_HEIGHT * CHUNK_WIDTH == 75);
        lemma_vox_index_bounds(x as int, y as int, z as int);
        assert((x * CHUNK_HEIGHT + y) * CHUNK_WIDTH + z == vox_index(x as int, y as int, z as int));
    }
    (x * CHUNK_HEIGHT + y) * CHUNK_WIDTH + z
}

/// A voxel position inside the chunk indexes inside the flat grid.
pub proof fn lemma_vox_index_bounds(x: int, y: int, z: int)
    requires
        in_bounds(x, y, z),
    ensures
        0 <= vox_index(x, y, z) < grid_len(),
{
    assert(grid_len() == 375);
    assert(CHUNK_HEIGHT * CHUNK_WIDTH == 75);
    assert(vox_index(x, y, z) == x * 75 + y * 5 + z);
}

/// The flat index respects the lexicographic order of `(x, y, z)`.
pub proof fn lemma_vox_index_lex(a: int, b: int, c: int, x: int, y: int, z: int)
    requires
        in_bounds(a, b, c),
        0 <= x,
        0 <= y,
        0 <= z,
        a < x || (a == x && b < y) || (a == x && b == y && c < z),
    ensures
        vox_index(a, b, c) < vox_index(x, y, z),
{
    assert(CHUNK_HEIGHT * CHUNK_WIDTH == 75);
    assert(vox_index(a, b, c) == a * 75 + b * 5 + c);
    assert(vox_index(x, y, z) == x * 75 + y * 5 + z);
}

/// A generated grid is well formed with respect to any registry that has
/// entries for all four band blocks.
pub proof fn lemma_generated_grid_wf(grid: Seq<u8>, heights: Seq<u32>, reg: BlockRegistry)
    requires
        grid_matches(grid, heights),
        reg.blocks@.len() >= 4,
    ensures
        grid_wf(grid, reg),
{
    assert forall|i: int| 0 <= i < grid.len() implies (#[trigger] grid[i]) < reg.blocks@.len() by {
        let x = i / (CHUNK_HEIGHT * CHUNK_WIDTH) as int;
        let r = i % (CHUNK_HEIGHT * CHUNK_WIDTH) as int;
        let y = r / CHUNK_WIDTH as int;
        let z = r % CHUNK_WIDTH as int;
        assert(i == vox_index(x, y, z) && in_bounds(x, y, z)) by (nonlinear_arith)
            requires
                0 <= i < grid_len(),
                x == i / (CHUNK_HEIGHT * CHUNK_WIDTH) as int,
                r == i % (CHUNK_HEIGHT * CHUNK_WIDTH) as int,
                y == r / CHUNK_WIDTH as int,
                z == r % CHUNK_WIDTH as int,
        ;
        assert(grid[i] == band_block(y, heights[col_index(x, z)] as int));
    }
}

/// Elevation-band correctness: in a generated column of height `h`,
/// the two lowest voxels are bedrock, the voxel just below `h` is the
/// surface block, the voxels between are fill, and everything at or
/// above `h` is air.
pub proof fn lemma_elevation_bands(grid: Seq<u8>, heights: Seq<u32>, x: int, z: int)
    requires
        grid_matches(grid, heights),
        0 <= x < CHUNK_WIDTH,
        0 <= z < CHUNK_WIDTH,
    ensures
        forall|y: int|
            0 <= y < CHUNK_HEIGHT && y < 2 ==> #[trigger] grid[vox_index(x, y, z)] == 1,
        forall|y: int|
            0 <= y < CHUNK_HEIGHT && 2 <= y && y + 1 == heights[col_index(x, z)] as int
                ==> #[trigger] grid[vox_index(x, y, z)] == 3,
        forall|y: int|
            0 <= y < CHUNK_HEIGHT && 2 <= y && y + 1 < heights[col_index(x, z)] as int
                ==> #[trigger] grid[vox_index(x, y, z)] == 2,
        forall|y: int|
            0 <= y < CHUNK_HEIGHT && 2 <= y && y >= heights[col_index(x, z)] as int
                ==> #[trigger] grid[vox_index(x, y, z)] == 0,
{
}

/// Two grids generated from the same per-column heights are identical.
pub proof fn lemma_grid_matches_unique(g1: Seq<u8>, g2: Seq<u8>, heights: Seq<u32>)
    requires
        grid_matches(g1, heights),
        grid_matches(g2, heights),
    ensures
        g1 == g2,
{
    assert forall|i: int| 0 <= i < g1.len() implies g1[i] == g2[i] by {
        let x = i / (CHUNK_HEIGHT * CHUNK_WIDTH) as int;
        let r = i % (CHUNK_HEIGHT * CHUNK_WIDTH) as int;
        let y = r / CHUNK_WIDTH as int;
        let z = r % CHUNK_WIDTH as int;
        assert(i == vox_index(x, y, z) && in_bounds(x, y, z)) by (nonlinear_arith)
            requires
                0 <= i < grid_len(),
                x == i / (CHUNK_HEIGHT * CHUNK_WIDTH) as int,
                r == i % (CHUNK_HEIGHT * CHUNK_WIDTH) as int,
                y == r / CHUNK_WIDTH as int,
                z == r % CHUNK_WIDTH as int,
        ;
        assert(g1[i] == band_block(y, heights[col_index(x, z)] as int));
        assert(g2[i] == band_block(y, heights[col_index(x, z)] as int));
    }
    assert(g1 =~= g2);
}

/// A chunk of the terrain.
pub struct Chunk {
    /// Chunk-grid coordinate `(cx, cz)` of this column; immutable.
    pub coords: (i32, i32),
    /// Whether the chunk currently has a presented visual instance.
    pub active: bool,
    /// The presentation layer's opaque handle for that instance.
    pub handle: Option<u64>,
    /// Flat voxel grid, indexed by [`vox_index`].
    pub voxels: Vec<u8>,
    /// Triangle mesh built from the grid at creation.
    pub mesh: MeshData,
}

impl Chunk {
    /// Streaming state is consistent: a chunk is active exactly when it
    /// holds a presentation handle.
    pub open spec fn state_wf(&self) -> bool {
        self.active <==> self.handle is Some
    }

    /// Fills the voxel grid from the per-column terrain heights,
    /// replacing any previous contents. Everything else is untouched.
    pub fn populate_voxel_map(&mut self, heights: &Vec<u32>)
        requires
            heights@.len() == CHUNK_WIDTH * CHUNK_WIDTH,
        ensures
            grid_matches(final(self).voxels@, heights@),
            final(self).coords == old(self).coords,
            final(self).active == old(self).active,
            final(self).handle == old(self).handle,
            final(self).mesh == old(self).mesh,
    {
        let mut grid: Vec<u8> = Vec::new();
        let mut x: usize = 0;
        while x < CHUNK_WIDTH
            invariant
                heights@.len() == CHUNK_WIDTH * CHUNK_WIDTH,
                x <= CHUNK_WIDTH,
                grid@.len() == x * (CHUNK_HEIGHT * CHUNK_WIDTH),
                forall|a: int, b: int, c: int|
                    in_bounds(a, b, c) && a < x ==> #[trigger] grid@[vox_index(a, b, c)]
                        == band_block(b, heights@[col_index(a, c)] as int),
            decreases CHUNK_WIDTH - x,
        {
            proof {
                assert(CHUNK_HEIGHT * CHUNK_WIDTH == 75);
            }
            let mut y: usize = 0;
            while y < CHUNK_HEIGHT
                invariant
                    heights@.len() == CHUNK_WIDTH * CHUNK_WIDTH,
                    x < CHUNK_WIDTH,
                    y <= CHUNK_HEIGHT,
                    grid@.len() == x * (CHUNK_HEIGHT * CHUNK_WIDTH) + y * CHUNK_WIDTH,
                    forall|a: int, b: int, c: int|
                        in_bounds(a, b, c) && (a < x || (a == x && b < y))
                            ==> #[trigger] grid@[vox_index(a, b, c)] == band_block(
                            b,
                            heights@[col_index(a, c)] as int,
                        ),
                decreases CHUNK_HEIGHT - y,
            {
                let mut z: usize = 0;
                while z < CHUNK_WIDTH
                    invariant
                        heights@.len() == CHUNK_WIDTH * CHUNK_WIDTH,
                        x < CHUNK_WIDTH,
                        y < CHUNK_HEIGHT,
                        z <= CHUNK_WIDTH,
                        grid@.len() == x * (CHUNK_HEIGHT * CHUNK_WIDTH) + y * CHUNK_WIDTH + z,
                        forall|a: int, b: int, c: int|
                            in_bounds(a, b, c) && (a < x || (a == x && b < y) || (a == x && b == y
                                && c < z)) ==> #[trigger] grid@[vox_index(a, b, c)] == band_block(
                                b,
                                heights@[col_index(a, c)] as int,
                            ),
                    decreases CHUNK_WIDTH - z,
                {
                    let h: u64 = heights[x * CHUNK_WIDTH + z] as u64;
                    let yp: u64 = (y as u64) + 1;
                    let v: u8 = if y < 2 {
                        1
                    } else if yp == h {
                        3
                    } else if yp < h {
                        2
                    } else {
                        0
                    };
                    assert(v == band_block(y as int, heights@[col_index(x as int, z as int)] as int));
                    let ghost pre = grid@;
                    grid.push(v);
                    proof {
                        assert forall|a: int, b: int, c: int|
                            in_bounds(a, b, c) && (a < x || (a == x && b < y) || (a == x && b == y
                                && c < z + 1)) implies #[trigger] grid@[vox_index(a, b, c)]
                            == band_block(b, heights@[col_index(a, c)] as int) by {
                            if a == x && b == y && c == z {
                                assert(vox_index(a, b, c) == pre.len());
                            } else {
                                lemma_vox_index_lex(a, b, c, x as int, y as int, z as int);
                                assert(grid@[vox_index(a, b, c)] == pre[vox_index(a, b, c)]);
                            }
                        }
                    }
                    z += 1;
                }
                y += 1;
            }
            proof {
                assert((x + 1) * (CHUNK_HEIGHT * CHUNK_WIDTH) == x * (CHUNK_HEIGHT * CHUNK_WIDTH)
                    + CHUNK_HEIGHT * CHUNK_WIDTH) by (nonlinear_arith);
            }
            x += 1;
        }
        self.voxels = grid;
    }

    /// Whether `(x, y, z)` lies inside this chunk's grid. Out-of-range
    /// positions are legal queries: they stand for absent voxels.
    pub fn is_voxel_in_chunk(&self, x: i32, y: i32, z: i32) -> (r: bool)
        ensures
            r == in_bounds(x as int, y as int, z as int),
    {
        0 <= x && x < CHUNK_WIDTH as i32 && 0 <= y && y < CHUNK_HEIGHT as i32 && 0 <= z && z
            < CHUNK_WIDTH as i32
    }

    /// Whether the voxel at `(x, y, z)` is solid, treating positions
    /// outside the chunk as non-solid; agrees with a direct index into
    /// the voxel grid everywhere inside it.
    pub fn check_voxel(&self, x: i32, y: i32, z: i32, reg: &BlockRegistry) -> (r: bool)
        requires
            grid_wf(self.voxels@, *reg),
        ensures
            r == voxel_solid(self.voxels@, *reg, x as int, y as int, z as int),
    {
        if !self.is_voxel_in_chunk(x, y, z) {
            return false;
        }
        let idx = vox_index_at(x as usize, y as usize, z as usize);
        let block = self.voxels[idx];
        reg.blocks[block as usize].is_solid
    }

    /// Emits the quads of every visible face of the voxel at `(x, y, z)`
    /// into the mesh, in face-direction order. `index` is the running
    /// vertex counter; `faces` are the faces already emitted.
    fn add_voxel_to_chunk(
        &mut self,
        x: usize,
        y: usize,
        z: usize,
        index: &mut u32,
        reg: &BlockRegistry,
        Ghost(faces): Ghost<Seq<(int, int, int, int)>>,
    )
        requires
            grid_wf(old(self).voxels@, *reg),
            reg.wf(),
            in_bounds(x as int, y as int, z as int),
            mesh_matches(
                old(self).mesh,
                old(self).voxels@,
                *reg,
                old(self).coords.0 as int,
                old(self).coords.1 as int,
                faces,
            ),
            *old(index) as int == 4 * faces.len(),
            faces.len() <= 2244,
        ensures
            final(self).voxels == old(self).voxels,
            final(self).coords == old(self).coords,
            final(self).active == old(self).active,
            final(self).handle == old(self).handle,
            mesh_matches(
                final(self).mesh,
                old(self).voxels@,
                *reg,
                old(self).coords.0 as int,
                old(self).coords.1 as int,
                faces + cell_faces(old(self).voxels@, *reg, x as int, y as int, z as int, 6),
            ),
            *final(index) as int == 4 * (faces + cell_faces(
                old(self).voxels@,
                *reg,
                x as int,
                y as int,
                z as int,
                6,
            )).len(),
    {
        let ghost grid = self.voxels@;
        let ghost cx = self.coords.0 as int;
        let ghost cz = self.coords.1 as int;
        proof {
            assert((self.coords.0 as int) * (CHUNK_WIDTH as int) == (self.coords.0 as int) * 5);
            assert((self.coords.1 as int) * (CHUNK_WIDTH as int) == (self.coords.1 as int) * 5);
        }
        let wx: i64 = (self.coords.0 as i64) * (CHUNK_WIDTH as i64);
        let wz: i64 = (self.coords.1 as i64) * (CHUNK_WIDTH as i64);
        let mut p: usize = 0;
        while p < 6
            invariant
                grid_wf(grid, *reg),
                reg.wf(),
                in_bounds(x as int, y as int, z as int),
                p <= 6,
                faces.len() <= 2244,
                self.voxels@ == grid,
                self.voxels == old(self).voxels,
                self.coords == old(self).coords,
                self.active == old(self).active,
                self.handle == old(self).handle,
                cx == self.coords.0 as int,
                cz == self.coords.1 as int,
                wx as int == cx * CHUNK_WIDTH,
                wz as int == cz * CHUNK_WIDTH,
                mesh_matches(
                    self.mesh,
                    grid,
                    *reg,
                    cx,
                    cz,
                    faces + cell_faces(grid, *reg, x as int, y as int, z as int, p as int),
                ),
                *index as int == 4 * (faces + cell_faces(
                    grid,
                    *reg,
                    x as int,
                    y as int,
                    z as int,
                    p as int,
                )).len(),
            decreases 6 - p,
        {
            let ghost fs = faces + cell_faces(grid, *reg, x as int, y as int, z as int, p as int);
            proof {
                lemma_cell_faces_len(grid, *reg, x as int, y as int, z as int, p as int);
            }
            let d = face_dir_at(p);
            let solid = self.check_voxel(x as i32, y as i32, z as i32, reg);
            let nsolid = self.check_voxel(x as i32 + d.0, y as i32 + d.1, z as i32 + d.2, reg);
            if solid && !nsolid {
                proof {
                    assert(face_visible(grid, *reg, x as int, y as int, z as int, p as int));
                }
                let ghost m0 = self.mesh;
                let idx = vox_index_at(x, y, z);
                let block = self.voxels[idx];
                let tex = reg.blocks[block as usize].textures[p];
                let o = atlas_origin(tex);
                let c0 = corner_at(tri_vert_at(p, 0));
                let c1 = corner_at(tri_vert_at(p, 1));
                let c2 = corner_at(tri_vert_at(p, 2));
                let c3 = corner_at(tri_vert_at(p, 3));
                self.mesh.positions.push((wx + x as i64 + c0.0, y as i64 + c0.1, wz + z as i64 + c0.2));
                self.mesh.positions.push((wx + x as i64 + c1.0, y as i64 + c1.1, wz + z as i64 + c1.2));
                self.mesh.positions.push((wx + x as i64 + c2.0, y as i64 + c2.1, wz + z as i64 + c2.2));
                self.mesh.positions.push((wx + x as i64 + c3.0, y as i64 + c3.1, wz + z as i64 + c3.2));
                self.mesh.uvs.push((o.0 + 1, o.1 + 1));
                self.mesh.uvs.push((o.0 + 1, o.1));
                self.mesh.uvs.push((o.0, o.1 + 1));
                self.mesh.uvs.push((o.0, o.1));
                let n = face_normal_at(p);
                self.mesh.normals.push(n);
                self.mesh.normals.push(n);
                self.mesh.normals.push(n);
                self.mesh.normals.push(n);
                let base = *index;
                self.mesh.indices.push(base);
                self.mesh.indices.push(base + 1);
                self.mesh.indices.push(base + 2);
                self.mesh.indices.push(base + 2);
                self.mesh.indices.push(base + 1);
                self.mesh.indices.push(base + 3);
                *index = base + 4;
                proof {
                    let f = (x as int, y as int, z as int, p as int);
                    let fs2 = fs.push(f);
                    assert(cell_faces(grid, *reg, x as int, y as int, z as int, p as int + 1)
                        == push_face(
                        cell_faces(grid, *reg, x as int, y as int, z as int, p as int),
                        grid,
                        *reg,
                        x as int,
                        y as int,
                        z as int,
                        p as int,
                    ));
                    assert(faces + cell_faces(grid, *reg, x as int, y as int, z as int, p as int + 1)
                        =~= fs2);
                    assert(tex == tex_of(grid, *reg, x as int, y as int, z as int, p as int));
                    assert forall|k: int| 0 <= k < fs2.len() implies #[trigger] quad_ok(
                        self.mesh,
                        grid,
                        *reg,
                        cx,
                        cz,
                        k,
                        fs2[k],
                    ) by {
                        if k < fs.len() {
                            assert(quad_ok(m0, grid, *reg, cx, cz, k, fs[k]));
                            assert(fs2[k] == fs[k]);
                        } else {
                            assert(fs2[k] == f);
                            assert(4 * k == m0.positions@.len());
                            assert(6 * k == m0.indices@.len());
                        }
                    }
                    assert(mesh_matches(self.mesh, grid, *reg, cx, cz, fs2));
                }
            } else {
                proof {
                    assert(!face_visible(grid, *reg, x as int, y as int, z as int, p as int));
                    assert(cell_faces(grid, *reg, x as int, y as int, z as int, p as int + 1)
                        == cell_faces(grid, *reg, x as int, y as int, z as int, p as int));
                }
            }
            p += 1;
        }
    }

    /// Builds the chunk's mesh from its voxel grid by face-visibility
    /// culling, walking the grid bottom layer first, then x, then z, so
    /// that the vertex and index order is deterministic.
    pub fn create_mesh_data(&mut self, reg: &BlockRegistry)
        requires
            grid_wf(old(self).voxels@, *reg),
            reg.wf(),
            old(self).mesh.positions@.len() == 0,
            old(self).mesh.uvs@.len() == 0,
            old(self).mesh.normals@.len() == 0,
            old(self).mesh.indices@.len() == 0,
        ensures
            final(self).voxels == old(self).voxels,
            final(self).coords == old(self).coords,
            final(self).active == old(self).active,
            final(self).handle == old(self).handle,
            mesh_matches(
                final(self).mesh,
                old(self).voxels@,
                *reg,
                old(self).coords.0 as int,
                old(self).coords.1 as int,
                all_faces(old(self).voxels@, *reg),
            ),
    {
        let ghost grid = self.voxels@;
        let ghost cx = self.coords.0 as int;
        let ghost cz = self.coords.1 as int;
        let mut index: u32 = 0;
        let mut y: usize = 0;
        while y < CHUNK_HEIGHT
            invariant
                grid_wf(grid, *reg),
                reg.wf(),
                y <= CHUNK_HEIGHT,
                self.voxels@ == grid,
                self.voxels == old(self).voxels,
                self.coords == old(self).coords,
                self.active == old(self).active,
                self.handle == old(self).handle,
                cx == self.coords.0 as int,
                cz == self.coords.1 as int,
                mesh_matches(self.mesh, grid, *reg, cx, cz, stack_faces(grid, *reg, y as int)),
                index as int == 4 * stack_faces(grid, *reg, y as int).len(),
            decreases CHUNK_HEIGHT - y,
        {
            let mut x: usize = 0;
            while x < CHUNK_WIDTH
                invariant
                    grid_wf(grid, *reg),
                    reg.wf(),
                    y < CHUNK_HEIGHT,
                    x <= CHUNK_WIDTH,
                    self.voxels@ == grid,
                    self.voxels == old(self).voxels,
                    self.coords == old(self).coords,
                    self.active == old(self).active,
                    self.handle == old(self).handle,
                    cx == self.coords.0 as int,
                    cz == self.coords.1 as int,
                    mesh_matches(
                        self.mesh,
                        grid,
                        *reg,
                        cx,
                        cz,
                        stack_faces(grid, *reg, y as int) + layer_faces(
                            grid,
                            *reg,
                            y as int,
                            x as int,
                        ),
                    ),
                    index as int == 4 * (stack_faces(grid, *reg, y as int) + layer_faces(
                        grid,
                        *reg,
                        y as int,
                        x as int,
                    )).len(),
                decreases CHUNK_WIDTH - x,
            {
                let mut z: usize = 0;
                while z < CHUNK_WIDTH
                    invariant
                        grid_wf(grid, *reg),
                        reg.wf(),
                        y < CHUNK_HEIGHT,
                        x < CHUNK_WIDTH,
                        z <= CHUNK_WIDTH,
                        self.voxels@ == grid,
                        self.voxels == old(self).voxels,
                        self.coords == old(self).coords,
                        self.active == old(self).active,
                        self.handle == old(self).handle,
                        cx == self.coords.0 as int,
                        cz == self.coords.1 as int,
                        mesh_matches(
                            self.mesh,
                            grid,
                            *reg,
                            cx,
                            cz,
                            stack_faces(grid, *reg, y as int) + layer_faces(
                                grid,
                                *reg,
                                y as int,
                                x as int,
                            ) + zrow_faces(grid, *reg, y as int, x as int, z as int),
                        ),
                        index as int == 4 * (stack_faces(grid, *reg, y as int) + layer_faces(
                            grid,
                            *reg,
                            y as int,
                            x as int,
                        ) + zrow_faces(grid, *reg, y as int, x as int, z as int)).len(),
                    decreases CHUNK_WIDTH - z,
                {
                    let ghost acc = stack_faces(grid, *reg, y as int) + layer_faces(
                        grid,
                        *reg,
                        y as int,
                        x as int,
                    ) + zrow_faces(grid, *reg, y as int, x as int, z as int);
                    proof {
                        lemma_stack_faces_len(grid, *reg, y as int);
                        lemma_layer_faces_len(grid, *reg, y as int, x as int);
                        lemma_zrow_faces_len(grid, *reg, y as int, x as int, z as int);
                        assert(acc.len() <= 2244);
                    }
                    self.add_voxel_to_chunk(x, y, z, &mut index, reg, Ghost(acc));
                    proof {
                        assert(zrow_faces(grid, *reg, y as int, x as int, z as int + 1)
                            == zrow_faces(grid, *reg, y as int, x as int, z as int) + cell_faces(
                            grid,
                            *reg,
                            x as int,
                            y as int,
                            z as int,
                            6,
                        ));
                        assert(stack_faces(grid, *reg, y as int) + layer_faces(
                            grid,
                            *reg,
                            y as int,
                            x as int,
                        ) + zrow_faces(grid, *reg, y as int, x as int, z as int + 1) =~= acc
                            + cell_faces(grid, *reg, x as int, y as int, z as int, 6));
                    }
                    z += 1;
                }
                proof {
                    assert(layer_faces(grid, *reg, y as int, x as int + 1) == layer_faces(
                        grid,
                        *reg,
                        y as int,
                        x as int,
                    ) + zrow_faces(grid, *reg, y as int, x as int, CHUNK_WIDTH as int));
                    assert(stack_faces(grid, *reg, y as int) + layer_faces(
                        grid,
                        *reg,
                        y as int,
                        x as int + 1,
                    ) =~= stack_faces(grid, *reg, y as int) + layer_faces(
                        grid,
                        *reg,
                        y as int,
                        x as int,
                    ) + zrow_faces(grid, *reg, y as int, x as int, CHUNK_WIDTH as int));
                }
                x += 1;
            }
            proof {
                assert(stack_faces(grid, *reg, y as int + 1) == stack_faces(grid, *reg, y as int)
                    + layer_faces(grid, *reg, y as int, CHUNK_WIDTH as int));
            }
            y += 1;
        }
        proof {
            assert(mesh_matches(self.mesh, grid, *reg, cx, cz, all_faces(grid, *reg)));
        }
    }

    /// Creates the chunk at chunk-grid coordinate `(cx, cz)`: generates
    /// its voxel grid from the per-column terrain heights and builds its
    /// mesh, leaving it inactive and unpresented.
    pub fn new(cx: i32, cz: i32, heights: &Vec<u32>, reg: &BlockRegistry) -> (c: Chunk)
        requires
            heights@.len() == CHUNK_WIDTH * CHUNK_WIDTH,
            reg.wf(),
            reg.blocks@.len() >= 4,
        ensures
            c.coords == (cx, cz),
            !c.active,
            c.handle is None,
            c.state_wf(),
            grid_matches(c.voxels@, heights@),
            grid_wf(c.voxels@, *reg),
            mesh_matches(c.mesh, c.voxels@, *reg, cx as int, cz as int, all_faces(c.voxels@, *reg)),
    {
        let mut chunk = Chunk {
            coords: (cx, cz),
            active: false,
            handle: None,
            voxels: Vec::new(),
            mesh: MeshData::empty(),
        };
        chunk.populate_voxel_map(heights);
        proof {
            lemma_generated_grid_wf(chunk.voxels@, heights@, *reg);
        }
        chunk.create_mesh_data(reg);
        chunk
    }
}

/// The solidity query agrees with the generation rule: at any position
/// inside a generated chunk, the answer `check_voxel` gives is the
/// registry's solidity of the block the elevation-band rule assigns by
/// a direct index into the voxel grid.
pub proof fn lemma_check_voxel_matches_generation(
    grid: Seq<u8>,
    heights: Seq<u32>,
    reg: BlockRegistry,
    x: int,
    y: int,
    z: int,
)
    requires
        grid_matches(grid, heights),
        in_bounds(x, y, z),
    ensures
        voxel_solid(grid, reg, x, y, z) == reg.blocks@[band_block(
            y,
            heights[col_index(x, z)] as int,
        ) as int].is_solid,
{
}

/// Determinism: two chunks generated at the same coordinate from the
/// same per-column heights hold identical voxel grids and identical
/// mesh buffers.
pub proof fn lemma_generation_deterministic(
    a: Chunk,
    b: Chunk,
    heights: Seq<u32>,
    reg: BlockRegistry,
)
    requires
        a.coords == b.coords,
        grid_matches(a.voxels@, heights),
        grid_matches(b.voxels@, heights),
        mesh_matches(
            a.mesh,
            a.voxels@,
            reg,
            a.coords.0 as int,
            a.coords.1 as int,
            all_faces(a.voxels@, reg),
        ),
        mesh_matches(
            b.mesh,
            b.voxels@,
            reg,
            b.coords.0 as int,
            b.coords.1 as int,
            all_faces(b.voxels@, reg),
        ),
    ensures
        a.voxels@ == b.voxels@,
        a.mesh.positions@ == b.mesh.positions@,
        a.mesh.uvs@ == b.mesh.uvs@,
        a.mesh.normals@ == b.mesh.normals@,
        a.mesh.indices@ == b.mesh.indices@,
{
    lemma_grid_matches_unique(a.voxels@, b.voxels@, heights);
    let grid = a.voxels@;
    let faces = all_faces(grid, reg);
    let cx = a.coords.0 as int;
    let cz = a.coords.1 as int;
    assert forall|j: int|
        0 <= j < a.mesh.positions@.len() implies a.mesh.positions@[j] == b.mesh.positions@[j] by {
        let k = j / 4;
        let i = j % 4;
        assert(j == 4 * k + i && 0 <= k < faces.len());
        assert(quad_ok(a.mesh, grid, reg, cx, cz, k, faces[k]));
        assert(quad_ok(b.mesh, grid, reg, cx, cz, k, faces[k]));
    }
    assert(a.mesh.positions@ =~= b.mesh.positions@);
    assert forall|j: int| 0 <= j < a.mesh.uvs@.len() implies a.mesh.uvs@[j] == b.mesh.uvs@[j] by {
        let k = j / 4;
        let i = j % 4;
        assert(j == 4 * k + i && 0 <= k < faces.len());
        assert(quad_ok(a.mesh, grid, reg, cx, cz, k, faces[k]));
        assert(quad_ok(b.mesh, grid, reg, cx, cz, k, faces[k]));
    }
    assert(a.mesh.uvs@ =~= b.mesh.uvs@);
    assert forall|j: int|
        0 <= j < a.mesh.normals@.len() implies a.mesh.normals@[j] == b.mesh.normals@[j] by {
        let k = j / 4;
        let i = j % 4;
        assert(j == 4 * k + i && 0 <= k < faces.len());
        assert(quad_ok(a.mesh, grid, reg, cx, cz, k, faces[k]));
        assert(quad_ok(b.mesh, grid, reg, cx, cz, k, faces[k]));
    }
    assert(a.mesh.normals@ =~= b.mesh.normals@);
    assert forall|j: int|
        0 <= j < a.mesh.indices@.len() implies a.mesh.indices@[j] == b.mesh.indices@[j] by {
        let k = j / 6;
        let i = j % 6;
        assert(j == 6 * k + i && 0 <= k < faces.len());
        assert(quad_ok(a.mesh, grid, reg, cx, cz, k, faces[k]));
        assert(quad_ok(b.mesh, grid, reg, cx, cz, k, faces[k]));
    }
    assert(a.mesh.indices@ =~= b.mesh.indices@);
}

} // verus!
