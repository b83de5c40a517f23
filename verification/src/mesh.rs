//! The mesh a chunk presents: flat triangle-list buffers, one quad per
//! visible voxel face. Positions are world-space voxel corners, texture
//! coordinates are atlas-cell corners kept as integer numerators over
//! the atlas dimensions, and normals are the canonical face normals.

use vstd::prelude::*;

use crate::block::BlockRegistry;
use crate::chunk::{in_bounds, vox_index, voxel_solid};
use crate::data::{
    corner, face_dir, face_normal, tri_vert, uv_delta, CHUNK_HEIGHT, CHUNK_WIDTH,
    TEXTURE_ATLAS_WIDTH,
};

verus! {

/// Vertex and index buffers of one chunk's mesh. Each emitted quad
/// appends four vertices and six indices; buffers are never shared
/// between quads.
pub struct MeshData {
    /// World-space vertex positions.
    pub positions: Vec<(i64, i64, i64)>,
    /// Texture coordinates as `(u, v)` numerators: the sampled point is
    /// `(u / TEXTURE_ATLAS_WIDTH, v / TEXTURE_ATLAS_HEIGHT)`.
    pub uvs: Vec<(u32, u32)>,
    /// Per-vertex unit normals.
    pub normals: Vec<(i32, i32, i32)>,
    /// Triangle list: six indices per quad.
    pub indices: Vec<u32>,
}

impl MeshData {
    /// An empty mesh, before any face is emitted.
    pub fn empty() -> (m: MeshData)
        ensures
            m.positions@.len() == 0,
            m.uvs@.len() == 0,
            m.normals@.len() == 0,
            m.indices@.len() == 0,
    {
        MeshData { positions: Vec::new(), uvs: Vec::new(), normals: Vec::new(), indices: Vec::new() }
    }
}

/// A quad is emitted for face `p` of voxel `(x, y, z)` exactly when the
/// voxel itself is solid and the neighbour the face looks toward is not
/// (positions outside the chunk count as non-solid).
pub open spec fn face_visible(
    grid: Seq<u8>,
    reg: BlockRegistry,
    x: int,
    y: int,
    z: int,
    p: int,
) -> bool {
    let d = face_dir(p);
    voxel_solid(grid, reg, x, y, z) && !voxel_solid(grid, reg, x + d.0, y + d.1, z + d.2)
}

/// Appends face `p` of voxel `(x, y, z)` to the emission order when it
/// is visible.
pub open spec fn push_face(
    s: Seq<(int, int, int, int)>,
    grid: Seq<u8>,
    reg: BlockRegistry,
    x: int,
    y: int,
    z: int,
    p: int,
) -> Seq<(int, int, int, int)> {
    if face_visible(grid, reg, x, y, z, p) {
        s.push((x, y, z, p))
    } else {
        s
    }
}

/// The visible faces of voxel `(x, y, z)` among directions `0 .. p`, in
/// direction order.
pub open spec fn cell_faces(
    grid: Seq<u8>,
    reg: BlockRegistry,
    x: int,
    y: int,
    z: int,
    p: int,
) -> Seq<(int, int, int, int)>
    decreases p,
{
    if p <= 0 {
        Seq::empty()
    } else {
        push_face(cell_faces(grid, reg, x, y, z, p - 1), grid, reg, x, y, z, p - 1)
    }
}

/// The visible faces of voxels `(x, y, 0 .. z)`, in emission order.
pub open spec fn zrow_faces(
    grid: Seq<u8>,
    reg: BlockRegistry,
    y: int,
    x: int,
    z: int,
) -> Seq<(int, int, int, int)>
    decreases z,
{
    if z <= 0 {
        Seq::empty()
    } else {
        zrow_faces(grid, reg, y, x, z - 1) + cell_faces(grid, reg, x, y, z - 1, 6)
    }
}

/// The visible faces of the rows `(0 .. x, y, _)`, in emission order.
pub open spec fn layer_faces(
    grid: Seq<u8>,
    reg: BlockRegistry,
    y: int,
    x: int,
) -> Seq<(int, int, int, int)>
    decreases x,
{
    if x <= 0 {
        Seq::empty()
    } else {
        layer_faces(grid, reg, y, x - 1) + zrow_faces(grid, reg, y, x - 1, CHUNK_WIDTH as int)
    }
}

/// The visible faces of the layers `0 .. y`, in emission order.
pub open spec fn stack_faces(grid: Seq<u8>, reg: BlockRegistry, y: int) -> Seq<
    (int, int, int, int),
>
    decreases y,
{
    if y <= 0 {
        Seq::empty()
    } else {
        stack_faces(grid, reg, y - 1) + layer_faces(grid, reg, y - 1, CHUNK_WIDTH as int)
    }
}

/// Every visible face of the whole grid, in the canonical emission
/// order: layers bottom to top, then x, then z, then face direction.
pub open spec fn all_faces(grid: Seq<u8>, reg: BlockRegistry) -> Seq<(int, int, int, int)> {
    stack_faces(grid, reg, CHUNK_HEIGHT as int)
}

/// World-space position of vertex `i` of the quad for face `p` of voxel
/// `(x, y, z)` in the chunk at `(cx, cz)`.
pub open spec fn quad_pos(cx: int, cz: int, x: int, y: int, z: int, p: int, i: int) -> (
    int,
    int,
    int,
) {
    let v = corner(tri_vert(p, i));
    (cx * CHUNK_WIDTH + x + v.0, y + v.1, cz * CHUNK_WIDTH + z + v.2)
}

/// The atlas texture index of face `p` of the voxel at `(x, y, z)`.
pub open spec fn tex_of(grid: Seq<u8>, reg: BlockRegistry, x: int, y: int, z: int, p: int) -> u32 {
    reg.blocks@[grid[vox_index(x, y, z)] as int].textures@[p]
}

/// Texture-coordinate numerators of vertex `i` of that quad: the atlas
/// cell's origin plus the per-corner delta.
pub open spec fn quad_uv(grid: Seq<u8>, reg: BlockRegistry, x: int, y: int, z: int, p: int, i: int) -> (
    int,
    int,
) {
    let t = tex_of(grid, reg, x, y, z, p) as int;
    let row = t / TEXTURE_ATLAS_WIDTH as int;
    let col = t - row * TEXTURE_ATLAS_WIDTH as int;
    let d = uv_delta(i);
    (col + d.0, row + d.1)
}

pub open spec fn pos_eq(a: (i64, i64, i64), b: (int, int, int)) -> bool {
    a.0 as int == b.0 && a.1 as int == b.1 && a.2 as int == b.2
}

pub open spec fn uv_eq(a: (u32, u32), b: (int, int)) -> bool {
    a.0 as int == b.0 && a.1 as int == b.1
}

pub open spec fn norm_eq(a: (i32, i32, i32), b: (int, int, int)) -> bool {
    a.0 as int == b.0 && a.1 as int == b.1 && a.2 as int == b.2
}

/// Slot `k` of the mesh holds exactly the quad for face `f`: four
/// vertices with their positions, texture coordinates and the face
/// normal, and six indices referencing them in the fixed
/// `{0, 1, 2, 2, 1, 3}` pattern.
pub open spec fn quad_ok(
    m: MeshData,
    grid: Seq<u8>,
    reg: BlockRegistry,
    cx: int,
    cz: int,
    k: int,
    f: (int, int, int, int),
) -> bool {
    let x = f.0;
    let y = f.1;
    let z = f.2;
    let p = f.3;
    &&& pos_eq(m.positions@[4 * k], quad_pos(cx, cz, x, y, z, p, 0))
    &&& pos_eq(m.positions@[4 * k + 1], quad_pos(cx, cz, x, y, z, p, 1))
    &&& pos_eq(m.positions@[4 * k + 2], quad_pos(cx, cz, x, y, z, p, 2))
    &&& pos_eq(m.positions@[4 * k + 3], quad_pos(cx, cz, x, y, z, p, 3))
    &&& uv_eq(m.uvs@[4 * k], quad_uv(grid, reg, x, y, z, p, 0))
    &&& uv_eq(m.uvs@[4 * k + 1], quad_uv(grid, reg, x, y, z, p, 1))
    &&& uv_eq(m.uvs@[4 * k + 2], quad_uv(grid, reg, x, y, z, p, 2))
    &&& uv_eq(m.uvs@[4 * k + 3], quad_uv(grid, reg, x, y, z, p, 3))
    &&& norm_eq(m.normals@[4 * k], face_normal(p))
    &&& norm_eq(m.normals@[4 * k + 1], face_normal(p))
    &&& norm_eq(m.normals@[4 * k + 2], face_normal(p))
    &&& norm_eq(m.normals@[4 * k + 3], face_normal(p))
    &&& m.indices@[6 * k] as int == 4 * k
    &&& m.indices@[6 * k + 1] as int == 4 * k + 1
    &&& m.indices@[6 * k + 2] as int == 4 * k + 2
    &&& m.indices@[6 * k + 3] as int == 4 * k + 2
    &&& m.indices@[6 * k + 4] as int == 4 * k + 1
    &&& m.indices@[6 * k + 5] as int == 4 * k + 3
}

/// The mesh is exactly the quads of `faces`, in order: four vertices
/// and six indices per face and nothing else.
pub open spec fn mesh_matches(
    m: MeshData,
    grid: Seq<u8>,
    reg: BlockRegistry,
    cx: int,
    cz: int,
    faces: Seq<(int, int, int, int)>,
) -> bool {
    &&& m.positions@.len() == 4 * faces.len()
    &&& m.uvs@.len() == 4 * faces.len()
    &&& m.normals@.len() == 4 * faces.len()
    &&& m.indices@.len() == 6 * faces.len()
    &&& forall|k: int|
        0 <= k < faces.len() ==> #[trigger] quad_ok(m, grid, reg, cx, cz, k, faces[k])
}

/// A voxel has at most six visible faces.
pub proof fn lemma_cell_faces_len(grid: Seq<u8>, reg: BlockRegistry, x: int, y: int, z: int, p: int)
    requires
        0 <= p <= 6,
    ensures
        cell_faces(grid, reg, x, y, z, p).len() <= p,
    decreases p,
{
    if p > 0 {
        lemma_cell_faces_len(grid, reg, x, y, z, p - 1);
    }
}

/// A row of `z` voxels emits at most `6 z` faces.
pub proof fn lemma_zrow_faces_len(grid: Seq<u8>, reg: BlockRegistry, y: int, x: int, z: int)
    requires
        0 <= z,
    ensures
        zrow_faces(grid, reg, y, x, z).len() <= 6 * z,
    decreases z,
{
    if z > 0 {
        lemma_zrow_faces_len(grid, reg, y, x, z - 1);
        lemma_cell_faces_len(grid, reg, x, y, z - 1, 6);
    }
}

/// A layer of `x` rows emits at most `30 x` faces.
pub proof fn lemma_layer_faces_len(grid: Seq<u8>, reg: BlockRegistry, y: int, x: int)
    requires
        0 <= x,
    ensures
        layer_faces(grid, reg, y, x).len() <= 30 * x,
    decreases x,
{
    if x > 0 {
        lemma_layer_faces_len(grid, reg, y, x - 1);
        lemma_zrow_faces_len(grid, reg, y, x - 1, CHUNK_WIDTH as int);
    }
}

/// An element is in a concatenation exactly when it is in one of the
/// parts.
pub proof fn lemma_concat_contains<T>(a: Seq<T>, b: Seq<T>, x: T)
    ensures
        (a + b).contains(x) <==> a.contains(x) || b.contains(x),
{
    if (a + b).contains(x) {
        let i = choose|i: int| 0 <= i < (a + b).len() && (a + b)[i] == x;
        if i < a.len() {
            assert(a[i] == x);
        } else {
            assert(b[i - a.len()] == x);
        }
    }
    if a.contains(x) {
        let i = choose|i: int| 0 <= i < a.len() && a[i] == x;
        assert((a + b)[i] == x);
    }
    if b.contains(x) {
        let i = choose|i: int| 0 <= i < b.len() && b[i] == x;
        assert((a + b)[a.len() + i] == x);
    }
}

/// The faces emitted for one voxel are exactly its visible faces among
/// directions `0 .. p`.
pub proof fn lemma_cell_faces_contains(
    grid: Seq<u8>,
    reg: BlockRegistry,
    x: int,
    y: int,
    z: int,
    p: int,
    f: (int, int, int, int),
)
    requires
        0 <= p <= 6,
    ensures
        cell_faces(grid, reg, x, y, z, p).contains(f) <==> (f.0 == x && f.1 == y && f.2 == z && 0
            <= f.3 < p && face_visible(grid, reg, x, y, z, f.3)),
    decreases p,
{
    if p > 0 {
        lemma_cell_faces_contains(grid, reg, x, y, z, p - 1, f);
        let s = cell_faces(grid, reg, x, y, z, p - 1);
        let s2 = cell_faces(grid, reg, x, y, z, p);
        if face_visible(grid, reg, x, y, z, p - 1) {
            assert(s2 == s.push((x, y, z, p - 1)));
            if s2.contains(f) {
                let i = choose|i: int| 0 <= i < s2.len() && s2[i] == f;
                if i < s.len() {
                    assert(s.contains(f));
                } else {
                    assert(f == (x, y, z, p - 1));
                }
            }
            if s.contains(f) {
                let i = choose|i: int| 0 <= i < s.len() && s[i] == f;
                assert(s2[i] == f);
            }
            if f == (x, y, z, p - 1) {
                assert(s2[s2.len() - 1] == f);
            }
        }
    }
}

/// The faces emitted for a row of voxels are exactly the visible faces
/// of its voxels.
pub proof fn lemma_zrow_faces_contains(
    grid: Seq<u8>,
    reg: BlockRegistry,
    y: int,
    x: int,
    z: int,
    f: (int, int, int, int),
)
    requires
        0 <= z,
    ensures
        zrow_faces(grid, reg, y, x, z).contains(f) <==> (f.0 == x && f.1 == y && 0 <= f.2 < z && 0
            <= f.3 < 6 && face_visible(grid, reg, x, y, f.2, f.3)),
    decreases z,
{
    if z > 0 {
        lemma_zrow_faces_contains(grid, reg, y, x, z - 1, f);
        lemma_cell_faces_contains(grid, reg, x, y, z - 1, 6, f);
        lemma_concat_contains(
            zrow_faces(grid, reg, y, x, z - 1),
            cell_faces(grid, reg, x, y, z - 1, 6),
            f,
        );
    }
}

/// The faces emitted for a layer are exactly the visible faces of its
/// voxels.
pub proof fn lemma_layer_faces_contains(
    grid: Seq<u8>,
    reg: BlockRegistry,
    y: int,
    x: int,
    f: (int, int, int, int),
)
    requires
        0 <= x,
    ensures
        layer_faces(grid, reg, y, x).contains(f) <==> (0 <= f.0 < x && f.1 == y && 0 <= f.2
            < CHUNK_WIDTH && 0 <= f.3 < 6 && face_visible(grid, reg, f.0, y, f.2, f.3)),
    decreases x,
{
    if x > 0 {
        lemma_layer_faces_contains(grid, reg, y, x - 1, f);
        lemma_zrow_faces_contains(grid, reg, y, x - 1, CHUNK_WIDTH as int, f);
        lemma_concat_contains(
            layer_faces(grid, reg, y, x - 1),
            zrow_faces(grid, reg, y, x - 1, CHUNK_WIDTH as int),
            f,
        );
    }
}

/// The faces emitted for the lowest `y` layers are exactly the visible
/// faces of their voxels.
pub proof fn lemma_stack_faces_contains(
    grid: Seq<u8>,
    reg: BlockRegistry,
    y: int,
    f: (int, int, int, int),
)
    requires
        0 <= y,
    ensures
        stack_faces(grid, reg, y).contains(f) <==> (0 <= f.0 < CHUNK_WIDTH && 0 <= f.1 < y && 0
            <= f.2 < CHUNK_WIDTH && 0 <= f.3 < 6 && face_visible(grid, reg, f.0, f.1, f.2, f.3)),
    decreases y,
{
    if y > 0 {
        lemma_stack_faces_contains(grid, reg, y - 1, f);
        lemma_layer_faces_contains(grid, reg, y - 1, CHUNK_WIDTH as int, f);
        lemma_concat_contains(
            stack_faces(grid, reg, y - 1),
            layer_faces(grid, reg, y - 1, CHUNK_WIDTH as int),
            f,
        );
    }
}

/// The mesh holds a quad for face `p` of voxel `(x, y, z)` exactly when
/// the position is inside the grid and the face is visible there.
pub proof fn lemma_all_faces_contains(
    grid: Seq<u8>,
    reg: BlockRegistry,
    x: int,
    y: int,
    z: int,
    p: int,
)
    ensures
        all_faces(grid, reg).contains((x, y, z, p)) <==> (in_bounds(x, y, z) && 0 <= p < 6
            && face_visible(grid, reg, x, y, z, p)),
{
    lemma_stack_faces_contains(grid, reg, CHUNK_HEIGHT as int, (x, y, z, p));
}

/// A solid voxel whose six neighbours are all solid emits no face: no
/// quad of the mesh belongs to it.
pub proof fn lemma_surrounded_emits_no_faces(
    grid: Seq<u8>,
    reg: BlockRegistry,
    x: int,
    y: int,
    z: int,
)
    requires
        forall|p: int|
            0 <= p < 6 ==> voxel_solid(
                grid,
                reg,
                x + (#[trigger] face_dir(p)).0,
                y + face_dir(p).1,
                z + face_dir(p).2,
            ),
    ensures
        forall|p: int| 0 <= p < 6 ==> !face_visible(grid, reg, x, y, z, p),
        forall|p: int| !all_faces(grid, reg).contains((x, y, z, p)),
{
    assert forall|p: int| !all_faces(grid, reg).contains((x, y, z, p)) by {
        lemma_all_faces_contains(grid, reg, x, y, z, p);
    }
}

/// An isolated solid voxel, all six neighbours absent or non-solid,
/// emits exactly its six faces: the mesh holds a quad for each of its
/// six directions.
pub proof fn lemma_isolated_emits_all_faces(
    grid: Seq<u8>,
    reg: BlockRegistry,
    x: int,
    y: int,
    z: int,
)
    requires
        in_bounds(x, y, z),
        voxel_solid(grid, reg, x, y, z),
        forall|p: int|
            0 <= p < 6 ==> !voxel_solid(
                grid,
                reg,
                x + (#[trigger] face_dir(p)).0,
                y + face_dir(p).1,
                z + face_dir(p).2,
            ),
    ensures
        forall|p: int| 0 <= p < 6 ==> face_visible(grid, reg, x, y, z, p),
        forall|p: int| 0 <= p < 6 ==> all_faces(grid, reg).contains((x, y, z, p)),
{
    assert forall|p: int| 0 <= p < 6 implies all_faces(grid, reg).contains((x, y, z, p)) by {
        lemma_all_faces_contains(grid, reg, x, y, z, p);
    }
}

/// `y` layers emit at most `150 y` faces.
pub proof fn lemma_stack_faces_len(grid: Seq<u8>, reg: BlockRegistry, y: int)
    requires
        0 <= y,
    ensures
        stack_faces(grid, reg, y).len() <= 150 * y,
    decreases y,
{
    if y > 0 {
        lemma_stack_faces_len(grid, reg, y - 1);
        lemma_layer_faces_len(grid, reg, y - 1, CHUNK_WIDTH as int);
    }
}

} // verus!
