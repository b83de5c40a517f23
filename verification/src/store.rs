//! The chunk store and streaming manager: owns every chunk ever
//! generated, keyed by chunk-grid coordinate, and decides which chunks
//! are active around the viewpoint. Each update tick deactivates the
//! chunks that left the view window, then generates and activates the
//! coordinates inside it; chunks are never destroyed, so re-entering a
//! coordinate reuses its cached voxel grid and mesh.

use vstd::prelude::*;

use crate::block::BlockRegistry;
use crate::chunk::{grid_matches, grid_wf, Chunk};
use crate::data::CHUNK_WIDTH;
use crate::mesh::{all_faces, mesh_matches, MeshData};

verus! {

/// Whether chunk coordinate `(cx, cz)` lies in the square view window
/// of radius `r` around center `(ccx, ccz)`: the window spans
/// `[center - r, center + r)` on both axes.
pub open spec fn in_window(cx: int, cz: int, ccx: int, ccz: int, r: int) -> bool {
    &&& ccx - r <= cx < ccx + r
    &&& ccz - r <= cz < ccz + r
}

/// Whether chunk `c` sits at coordinate `(cx, cz)`.
pub open spec fn coord_is(c: Chunk, cx: int, cz: int) -> bool {
    c.coords.0 as int == cx && c.coords.1 as int == cz
}

/// The presentation handles that one update tick withdraws: those of
/// the chunks that are active but no longer inside the view window, in
/// store order.
pub open spec fn withdrawn(chunks: Seq<Chunk>, ccx: int, ccz: int, r: int) -> Seq<u64>
    decreases chunks.len(),
{
    if chunks.len() == 0 {
        Seq::empty()
    } else {
        let pre = withdrawn(chunks.drop_last(), ccx, ccz, r);
        let c = chunks.last();
        if c.active && !in_window(c.coords.0 as int, c.coords.1 as int, ccx, ccz, r) {
            match c.handle {
                Some(h) => pre.push(h),
                None => pre,
            }
        } else {
            pre
        }
    }
}

/// All chunks ever generated, and which of them are presented.
pub struct ChunkDatas {
    /// The generated chunks; at most one per coordinate.
    pub datas: Vec<Chunk>,
}

impl ChunkDatas {
    /// The store holds at most one chunk per coordinate, and every
    /// chunk's active flag agrees with its presentation handle.
    pub open spec fn wf(&self) -> bool {
        &&& forall|i: int, j: int|
            0 <= i < j < self.datas@.len() ==> (#[trigger] self.datas@[i]).coords != (
            #[trigger] self.datas@[j]).coords
        &&& forall|i: int| 0 <= i < self.datas@.len() ==> (#[trigger] self.datas@[i]).state_wf()
    }

    /// Whether a chunk has been generated for `(cx, cz)`.
    pub open spec fn has_chunk(&self, cx: int, cz: int) -> bool {
        exists|i: int| 0 <= i < self.datas@.len() && coord_is(#[trigger] self.datas@[i], cx, cz)
    }

    /// Store index of the chunk at `(cx, cz)`; meaningful when
    /// `has_chunk` holds, and then unique by well-formedness.
    pub open spec fn spec_index_of(&self, cx: int, cz: int) -> int {
        choose|i: int| 0 <= i < self.datas@.len() && coord_is(#[trigger] self.datas@[i], cx, cz)
    }

    /// The chunk stored at `(cx, cz)`.
    pub open spec fn chunk_at(&self, cx: int, cz: int) -> Chunk {
        self.datas@[self.spec_index_of(cx, cz)]
    }

    /// Whether the chunk at `(cx, cz)` exists and is presented.
    pub open spec fn active_at(&self, cx: int, cz: int) -> bool {
        self.has_chunk(cx, cz) && self.chunk_at(cx, cz).active
    }

    /// In a well-formed store, any index whose chunk sits at `(cx, cz)`
    /// is the index `spec_index_of` picks.
    pub proof fn lemma_index_unique(&self, i: int, cx: int, cz: int)
        requires
            self.wf(),
            0 <= i < self.datas@.len(),
            coord_is(self.datas@[i], cx, cz),
        ensures
            self.has_chunk(cx, cz),
            self.spec_index_of(cx, cz) == i,
            self.chunk_at(cx, cz) == self.datas@[i],
    {
        assert(self.has_chunk(cx, cz));
        let j = self.spec_index_of(cx, cz);
        if i != j {
            assert(self.datas@[i].coords == self.datas@[j].coords);
        }
    }

    /// An empty store: no chunk generated, none active.
    pub fn new() -> (s: ChunkDatas)
        ensures
            s.wf(),
            s.datas@.len() == 0,
            forall|cx: int, cz: int| !s.has_chunk(cx, cz),
    {
        ChunkDatas { datas: Vec::new() }
    }

    /// Number of chunks generated so far.
    pub fn chunk_count(&self) -> (n: usize)
        ensures
            n == self.datas@.len(),
    {
        self.datas.len()
    }

    /// Finds the store index of the chunk at `(cx, cz)`, if any.
    fn find(&self, cx: i32, cz: i32) -> (r: Option<usize>)
        ensures
            match r {
                Some(i) => i < self.datas@.len() && coord_is(
                    self.datas@[i as int],
                    cx as int,
                    cz as int,
                ),
                None => !self.has_chunk(cx as int, cz as int),
            },
    {
        let mut i: usize = 0;
        while i < self.datas.len()
            invariant
                i <= self.datas@.len(),
                forall|j: int| 0 <= j < i ==> !coord_is(#[trigger] self.datas@[j], cx as int, cz as int),
            decreases self.datas@.len() - i,
        {
            let c = &self.datas[i];
            if c.coords.0 == cx && c.coords.1 == cz {
                return Some(i);
            }
            i += 1;
        }
        None
    }

    /// Whether a chunk was already generated for `(cx, cz)`.
    pub fn contains(&self, cx: i32, cz: i32) -> (r: bool)
        ensures
            r == self.has_chunk(cx as int, cz as int),
    {
        match self.find(cx, cz) {
            Some(i) => {
                proof {
                    assert(self.has_chunk(cx as int, cz as int));
                }
                true
            },
            None => false,
        }
    }

    /// Whether the chunk at `(cx, cz)` exists and is presented.
    pub fn is_active(&self, cx: i32, cz: i32) -> (r: bool)
        requires
            self.wf(),
        ensures
            r == self.active_at(cx as int, cz as int),
    {
        match self.find(cx, cz) {
            Some(i) => {
                proof {
                    self.lemma_index_unique(i as int, cx as int, cz as int);
                }
                self.datas[i].active
            },
            None => false,
        }
    }

    /// The cached mesh of the chunk at `(cx, cz)`, for the presentation
    /// layer to turn into a drawable instance.
    pub fn mesh_of(&self, cx: i32, cz: i32) -> (m: &MeshData)
        requires
            self.wf(),
            self.has_chunk(cx as int, cz as int),
        ensures
            *m == self.chunk_at(cx as int, cz as int).mesh,
    {
        match self.find(cx, cz) {
            Some(i) => {
                proof {
                    self.lemma_index_unique(i as int, cx as int, cz as int);
                }
                &self.datas[i].mesh
            },
            None => {
                proof {
                    assert(false);
                }
                &self.datas[0].mesh
            },
        }
    }

    /// Generates the chunk for a coordinate that has none yet: builds
    /// its voxel grid from the given per-column heights and its mesh,
    /// and stores it inactive. Every other chunk is untouched.
    pub fn insert_new(&mut self, cx: i32, cz: i32, heights: &Vec<u32>, reg: &BlockRegistry)
        requires
            old(self).wf(),
            !old(self).has_chunk(cx as int, cz as int),
            heights@.len() == CHUNK_WIDTH * CHUNK_WIDTH,
            reg.wf(),
            reg.blocks@.len() >= 4,
        ensures
            final(self).wf(),
            final(self).datas@.len() == old(self).datas@.len() + 1,
            forall|i: int|
                0 <= i < old(self).datas@.len() ==> final(self).datas@[i] == old(self).datas@[i],
            ({
                let c = final(self).datas@[old(self).datas@.len() as int];
                &&& coord_is(c, cx as int, cz as int)
                &&& !c.active
                &&& c.handle is None
                &&& grid_matches(c.voxels@, heights@)
                &&& grid_wf(c.voxels@, *reg)
                &&& mesh_matches(c.mesh, c.voxels@, *reg, cx as int, cz as int, all_faces(c.voxels@, *reg))
            }),
            final(self).has_chunk(cx as int, cz as int),
    {
        let c = Chunk::new(cx, cz, heights, reg);
        self.datas.push(c);
        proof {
            let n = old(self).datas@.len() as int;
            assert(coord_is(self.datas@[n], cx as int, cz as int));
            assert(self.has_chunk(cx as int, cz as int));
            assert forall|i: int, j: int| 0 <= i < j < self.datas@.len() implies (
            #[trigger] self.datas@[i]).coords != (#[trigger] self.datas@[j]).coords by {
                if j == n {
                    if self.datas@[i].coords == self.datas@[j].coords {
                        assert(coord_is(old(self).datas@[i], cx as int, cz as int));
                    }
                }
            }
        }
    }

    /// Marks an existing, not yet presented chunk active and records the
    /// presentation layer's handle for it. Its voxel grid and cached
    /// mesh are reused, not regenerated, and every other chunk is
    /// untouched.
    pub fn activate(&mut self, cx: i32, cz: i32, handle: u64)
        requires
            old(self).wf(),
            old(self).has_chunk(cx as int, cz as int),
            !old(self).chunk_at(cx as int, cz as int).active,
        ensures
            final(self).wf(),
            final(self).datas@.len() == old(self).datas@.len(),
            forall|i: int|
                0 <= i < old(self).datas@.len() && i != old(self).spec_index_of(cx as int, cz as int)
                    ==> final(self).datas@[i] == old(self).datas@[i],
            ({
                let c0 = old(self).chunk_at(cx as int, cz as int);
                let c1 = final(self).chunk_at(cx as int, cz as int);
                &&& final(self).spec_index_of(cx as int, cz as int) == old(self).spec_index_of(
                    cx as int,
                    cz as int,
                )
                &&& c1.coords == c0.coords
                &&& c1.voxels == c0.voxels
                &&& c1.mesh == c0.mesh
                &&& c1.active
                &&& c1.handle == Some(handle)
            }),
            final(self).active_at(cx as int, cz as int),
    {
        let r = self.find(cx, cz);
        match r {
            Some(i) => {
                proof {
                    old(self).lemma_index_unique(i as int, cx as int, cz as int);
                }
                let c = &mut self.datas[i];
                c.active = true;
                c.handle = Some(handle);
                proof {
                    assert(self.datas@[i as int].coords == old(self).datas@[i as int].coords);
                    assert forall|a: int, b: int| 0 <= a < b < self.datas@.len() implies (
                    #[trigger] self.datas@[a]).coords != (#[trigger] self.datas@[b]).coords by {
                        assert(old(self).datas@[a].coords != old(self).datas@[b].coords);
                    }
                    self.lemma_index_unique(i as int, cx as int, cz as int);
                }
            },
            None => {
                proof {
                    assert(false);
                }
            },
        }
    }

    /// Deactivates every active chunk whose coordinate left the view
    /// window of radius `r` around `(ccx, ccz)`: clears its active flag
    /// and handle, and returns the withdrawn handles for the
    /// presentation layer, in store order. Coordinates, voxel grids and
    /// cached meshes are untouched, as are the chunks inside the window.
    pub fn deactivate_outside(&mut self, ccx: i32, ccz: i32, r: i32) -> (w: Vec<u64>)
        requires
            old(self).wf(),
            r >= 0,
            i32::MIN <= ccx as int - r as int,
            ccx as int + r as int <= i32::MAX,
            i32::MIN <= ccz as int - r as int,
            ccz as int + r as int <= i32::MAX,
        ensures
            final(self).wf(),
            final(self).datas@.len() == old(self).datas@.len(),
            forall|i: int|
                0 <= i < old(self).datas@.len() ==> {
                    let c0 = old(self).datas@[i];
                    let c1 = #[trigger] final(self).datas@[i];
                    &&& c1.coords == c0.coords
                    &&& c1.voxels == c0.voxels
                    &&& c1.mesh == c0.mesh
                    &&& (in_window(c0.coords.0 as int, c0.coords.1 as int, ccx as int, ccz as int, r as int)
                        ==> c1 == c0)
                    &&& (!in_window(c0.coords.0 as int, c0.coords.1 as int, ccx as int, ccz as int, r as int)
                        ==> !c1.active && c1.handle is None)
                },
            w@ == withdrawn(old(self).datas@, ccx as int, ccz as int, r as int),
    {
        let lox = ccx - r;
        let hix = ccx + r;
        let loz = ccz - r;
        let hiz = ccz + r;
        let mut w: Vec<u64> = Vec::new();
        let mut i: usize = 0;
        let n = self.datas.len();
        while i < n
            invariant
                old(self).wf(),
                n == old(self).datas@.len(),
                i <= n,
                self.datas@.len() == n,
                lox as int == ccx as int - r as int,
                hix as int == ccx as int + r as int,
                loz as int == ccz as int - r as int,
                hiz as int == ccz as int + r as int,
                forall|j: int| i <= j < n ==> #[trigger] self.datas@[j] == old(self).datas@[j],
                forall|j: int|
                    0 <= j < i ==> {
                        let c0 = old(self).datas@[j];
                        let c1 = #[trigger] self.datas@[j];
                        &&& c1.coords == c0.coords
                        &&& c1.voxels == c0.voxels
                        &&& c1.mesh == c0.mesh
                        &&& c1.state_wf()
                        &&& (in_window(c0.coords.0 as int, c0.coords.1 as int, ccx as int, ccz as int, r as int)
                            ==> c1 == c0)
                        &&& (!in_window(c0.coords.0 as int, c0.coords.1 as int, ccx as int, ccz as int, r as int)
                            ==> !c1.active && c1.handle is None)
                    },
                w@ == withdrawn(
                    old(self).datas@.take(i as int),
                    ccx as int,
                    ccz as int,
                    r as int,
                ),
            decreases n - i,
        {
            let ghost pre = self.datas@;
            let ghost wpre = w@;
            let inside = {
                let c = &self.datas[i];
                lox <= c.coords.0 && c.coords.0 < hix && loz <= c.coords.1 && c.coords.1 < hiz
            };
            if !inside {
                let c = &mut self.datas[i];
                if c.active {
                    match c.handle {
                        Some(h) => {
                            w.push(h);
                        },
                        None => {},
                    }
                    c.active = false;
                    c.handle = None;
                } else {
                    proof {
                        assert(old(self).datas@[i as int].state_wf());
                    }
                }
            }
            proof {
                let t = old(self).datas@.take(i as int + 1);
                assert(t.drop_last() =~= old(self).datas@.take(i as int));
                assert(t.last() == old(self).datas@[i as int]);
                assert(w@ == withdrawn(t, ccx as int, ccz as int, r as int));
            }
            i += 1;
        }
        proof {
            assert(old(self).datas@.take(n as int) =~= old(self).datas@);
        }
        w
    }

    /// The window coordinates for which no chunk exists yet, each once.
    /// One update tick generates exactly these before activating the
    /// window.
    pub fn missing_in_window(&self, ccx: i32, ccz: i32, r: i32) -> (w: Vec<(i32, i32)>)
        requires
            r >= 0,
            i32::MIN <= ccx as int - r as int,
            ccx as int + r as int <= i32::MAX,
            i32::MIN <= ccz as int - r as int,
            ccz as int + r as int <= i32::MAX,
        ensures
            forall|k: int|
                0 <= k < w@.len() ==> {
                    let c = #[trigger] w@[k];
                    &&& in_window(c.0 as int, c.1 as int, ccx as int, ccz as int, r as int)
                    &&& !self.has_chunk(c.0 as int, c.1 as int)
                },
            forall|a: int, b: int|
                in_window(a, b, ccx as int, ccz as int, r as int) && !self.has_chunk(a, b)
                    ==> exists|k: int| 0 <= k < w@.len() && pair_is(#[trigger] w@[k], a, b),
            forall|k1: int, k2: int| 0 <= k1 < k2 < w@.len() ==> w@[k1] != w@[k2],
    {
        let lox = ccx - r;
        let hix = ccx + r;
        let loz = ccz - r;
        let hiz = ccz + r;
        let mut w: Vec<(i32, i32)> = Vec::new();
        let mut cx = lox;
        while cx < hix
            invariant
                lox <= cx <= hix,
                lox as int == ccx as int - r as int,
                hix as int == ccx as int + r as int,
                loz as int == ccz as int - r as int,
                hiz as int == ccz as int + r as int,
                forall|k: int|
                    0 <= k < w@.len() ==> {
                        let c = #[trigger] w@[k];
                        &&& in_window(c.0 as int, c.1 as int, ccx as int, ccz as int, r as int)
                        &&& !self.has_chunk(c.0 as int, c.1 as int)
                        &&& (c.0 as int) < cx as int
                    },
                forall|a: int, b: int|
                    in_window(a, b, ccx as int, ccz as int, r as int) && !self.has_chunk(a, b) && a
                        < cx as int ==> exists|k: int|
                        0 <= k < w@.len() && pair_is(#[trigger] w@[k], a, b),
                forall|k1: int, k2: int| 0 <= k1 < k2 < w@.len() ==> w@[k1] != w@[k2],
            decreases hix as int - cx as int,
        {
            let mut cz = loz;
            while cz < hiz
                invariant
                    lox <= cx < hix,
                    loz <= cz <= hiz,
                    lox as int == ccx as int - r as int,
                    hix as int == ccx as int + r as int,
                    loz as int == ccz as int - r as int,
                    hiz as int == ccz as int + r as int,
                    forall|k: int|
                        0 <= k < w@.len() ==> {
                            let c = #[trigger] w@[k];
                            &&& in_window(c.0 as int, c.1 as int, ccx as int, ccz as int, r as int)
                            &&& !self.has_chunk(c.0 as int, c.1 as int)
                            &&& ((c.0 as int) < cx as int || (c.0 as int == cx as int && (
                            c.1 as int) < cz as int))
                        },
                    forall|a: int, b: int|
                        in_window(a, b, ccx as int, ccz as int, r as int) && !self.has_chunk(a, b)
                            && (a < cx as int || (a == cx as int && b < cz as int)) ==> exists|
                            k: int,
                        |
                            0 <= k < w@.len() && pair_is(#[trigger] w@[k], a, b),
                    forall|k1: int, k2: int| 0 <= k1 < k2 < w@.len() ==> w@[k1] != w@[k2],
                decreases hiz as int - cz as int,
            {
                let ghost wpre = w@;
                if !self.contains(cx, cz) {
                    w.push((cx, cz));
                }
                proof {
                    assert forall|a: int, b: int|
                        in_window(a, b, ccx as int, ccz as int, r as int) && !self.has_chunk(a, b)
                            && (a < cx as int || (a == cx as int && b < cz as int + 1)) implies exists|
                        k: int,
                    |
                        0 <= k < w@.len() && pair_is(#[trigger] w@[k], a, b) by {
                        if a == cx as int && b == cz as int {
                            assert(pair_is(w@[w@.len() - 1], a, b));
                        } else {
                            let k = choose|k: int|
                                0 <= k < wpre.len() && pair_is(#[trigger] wpre[k], a, b);
                            assert(w@[k] == wpre[k]);
                        }
                    }
                }
                cz += 1;
            }
            cx += 1;
        }
        w
    }

    /// The coordinates of every active chunk, each once.
    pub fn active_coords(&self) -> (w: Vec<(i32, i32)>)
        requires
            self.wf(),
        ensures
            forall|k: int|
                0 <= k < w@.len() ==> self.active_at((#[trigger] w@[k]).0 as int, w@[k].1 as int),
            forall|a: int, b: int| self.active_at(a, b) ==> seq_has_pair(w@, a, b),
            forall|k1: int, k2: int| 0 <= k1 < k2 < w@.len() ==> w@[k1] != w@[k2],
    {
        let mut w: Vec<(i32, i32)> = Vec::new();
        let mut i: usize = 0;
        while i < self.datas.len()
            invariant
                self.wf(),
                i <= self.datas@.len(),
                forall|k: int|
                    0 <= k < w@.len() ==> {
                        let c = #[trigger] w@[k];
                        &&& self.active_at(c.0 as int, c.1 as int)
                        &&& self.spec_index_of(c.0 as int, c.1 as int) < i
                    },
                forall|j: int|
                    0 <= j < i && (#[trigger] self.datas@[j]).active ==> seq_has_pair(
                        w@,
                        self.datas@[j].coords.0 as int,
                        self.datas@[j].coords.1 as int,
                    ),
                forall|k1: int, k2: int| 0 <= k1 < k2 < w@.len() ==> w@[k1] != w@[k2],
            decreases self.datas@.len() - i,
        {
            let ghost wpre = w@;
            let c = &self.datas[i];
            if c.active {
                proof {
                    self.lemma_index_unique(
                        i as int,
                        self.datas@[i as int].coords.0 as int,
                        self.datas@[i as int].coords.1 as int,
                    );
                }
                w.push((c.coords.0, c.coords.1));
                proof {
                    assert(forall|k: int| 0 <= k < wpre.len() ==> #[trigger] w@[k] == wpre[k]);
                    assert(w@[w@.len() - 1] == self.datas@[i as int].coords);
                    assert forall|j: int|
                        0 <= j < i + 1 && (#[trigger] self.datas@[j]).active implies seq_has_pair(
                        w@,
                        self.datas@[j].coords.0 as int,
                        self.datas@[j].coords.1 as int,
                    ) by {
                        if j < i {
                            lemma_seq_has_pair_push(
                                wpre,
                                self.datas@[i as int].coords,
                                self.datas@[j].coords.0 as int,
                                self.datas@[j].coords.1 as int,
                            );
                        } else {
                            assert(pair_is(
                                w@[w@.len() - 1],
                                self.datas@[j].coords.0 as int,
                                self.datas@[j].coords.1 as int,
                            ));
                        }
                    }
                    assert forall|k1: int, k2: int|
                        0 <= k1 < k2 < w@.len() implies w@[k1] != w@[k2] by {
                        if k2 == w@.len() - 1 {
                            if w@[k1] == w@[k2] {
                                assert(self.spec_index_of(wpre[k1].0 as int, wpre[k1].1 as int)
                                    < i);
                            }
                        }
                    }
                }
            }
            i += 1;
        }
        proof {
            assert forall|a: int, b: int| self.active_at(a, b) implies seq_has_pair(w@, a, b) by {
                let j = self.spec_index_of(a, b);
                assert(coord_is(self.datas@[j], a, b));
                assert(self.datas@[j].active);
            }
        }
        w
    }
}

/// Whether some element of `s` is the coordinate pair `(cx, cz)`.
pub open spec fn seq_has_pair(s: Seq<(i32, i32)>, cx: int, cz: int) -> bool {
    exists|k: int| 0 <= k < s.len() && pair_is(#[trigger] s[k], cx, cz)
}

/// Pushing an element keeps every coordinate pair the sequence had.
pub proof fn lemma_seq_has_pair_push(s: Seq<(i32, i32)>, e: (i32, i32), cx: int, cz: int)
    requires
        seq_has_pair(s, cx, cz),
    ensures
        seq_has_pair(s.push(e), cx, cz),
{
    let k = choose|k: int| 0 <= k < s.len() && pair_is(#[trigger] s[k], cx, cz);
    assert(s.push(e)[k] == s[k]);
}

/// The streaming invariant at the end of an update tick: once every
/// generated chunk inside the view window is active and every chunk
/// outside it is not, the active set is exactly the window intersected
/// with the coordinates generated so far.
pub proof fn lemma_active_set_is_window(s: &ChunkDatas, ccx: int, ccz: int, r: int)
    requires
        s.wf(),
        forall|a: int, b: int|
            in_window(a, b, ccx, ccz, r) && #[trigger] s.has_chunk(a, b) ==> s.active_at(a, b),
        forall|i: int|
            0 <= i < s.datas@.len() && !in_window(
                (#[trigger] s.datas@[i]).coords.0 as int,
                s.datas@[i].coords.1 as int,
                ccx,
                ccz,
                r,
            ) ==> !s.datas@[i].active,
    ensures
        forall|a: int, b: int|
            #[trigger] s.active_at(a, b) <==> (in_window(a, b, ccx, ccz, r) && s.has_chunk(a, b)),
{
    assert forall|a: int, b: int|
        #[trigger] s.active_at(a, b) <==> (in_window(a, b, ccx, ccz, r) && s.has_chunk(a, b)) by {
        if s.active_at(a, b) {
            let j = s.spec_index_of(a, b);
            assert(coord_is(s.datas@[j], a, b));
            assert(in_window(a, b, ccx, ccz, r));
        }
    }
}

/// Whether an `(i32, i32)` coordinate pair equals `(cx, cz)`.
pub open spec fn pair_is(a: (i32, i32), cx: int, cz: int) -> bool {
    a.0 as int == cx && a.1 as int == cz
}

/// Every coordinate of the view window of radius `r` around
/// `(ccx, ccz)`, each once: the square `[ccx - r, ccx + r) x
/// [ccz - r, ccz + r)`.
pub fn window_coords(ccx: i32, ccz: i32, r: i32) -> (w: Vec<(i32, i32)>)
    requires
        r >= 0,
        i32::MIN <= ccx as int - r as int,
        ccx as int + r as int <= i32::MAX,
        i32::MIN <= ccz as int - r as int,
        ccz as int + r as int <= i32::MAX,
    ensures
        forall|k: int|
            0 <= k < w@.len() ==> in_window(
                (#[trigger] w@[k]).0 as int,
                w@[k].1 as int,
                ccx as int,
                ccz as int,
                r as int,
            ),
        forall|a: int, b: int|
            in_window(a, b, ccx as int, ccz as int, r as int) ==> exists|k: int|
                0 <= k < w@.len() && pair_is(#[trigger] w@[k], a, b),
        forall|k1: int, k2: int| 0 <= k1 < k2 < w@.len() ==> w@[k1] != w@[k2],
{
    let lox = ccx - r;
    let hix = ccx + r;
    let loz = ccz - r;
    let hiz = ccz + r;
    let mut w: Vec<(i32, i32)> = Vec::new();
    let mut cx = lox;
    while cx < hix
        invariant
            lox <= cx <= hix,
            lox as int == ccx as int - r as int,
            hix as int == ccx as int + r as int,
            loz as int == ccz as int - r as int,
            hiz as int == ccz as int + r as int,
            forall|k: int|
                0 <= k < w@.len() ==> {
                    let c = #[trigger] w@[k];
                    &&& in_window(c.0 as int, c.1 as int, ccx as int, ccz as int, r as int)
                    &&& (c.0 as int) < cx as int
                },
            forall|a: int, b: int|
                in_window(a, b, ccx as int, ccz as int, r as int) && a < cx as int ==> exists|
                    k: int,
                |
                    0 <= k < w@.len() && pair_is(#[trigger] w@[k], a, b),
            forall|k1: int, k2: int| 0 <= k1 < k2 < w@.len() ==> w@[k1] != w@[k2],
        decreases hix as int - cx as int,
    {
        let mut cz = loz;
        while cz < hiz
            invariant
                lox <= cx < hix,
                loz <= cz <= hiz,
                lox as int == ccx as int - r as int,
                hix as int == ccx as int + r as int,
                loz as int == ccz as int - r as int,
                hiz as int == ccz as int + r as int,
                forall|k: int|
                    0 <= k < w@.len() ==> {
                        let c = #[trigger] w@[k];
                        &&& in_window(c.0 as int, c.1 as int, ccx as int, ccz as int, r as int)
                        &&& ((c.0 as int) < cx as int || (c.0 as int == cx as int && (c.1 as int)
                            < cz as int))
                    },
                forall|a: int, b: int|
                    in_window(a, b, ccx as int, ccz as int, r as int) && (a < cx as int || (a
                        == cx as int && b < cz as int)) ==> exists|k: int|
                        0 <= k < w@.len() && pair_is(#[trigger] w@[k], a, b),
                forall|k1: int, k2: int| 0 <= k1 < k2 < w@.len() ==> w@[k1] != w@[k2],
            decreases hiz as int - cz as int,
        {
            let ghost wpre = w@;
            w.push((cx, cz));
            proof {
                assert forall|a: int, b: int|
                    in_window(a, b, ccx as int, ccz as int, r as int) && (a < cx as int || (a
                        == cx as int && b < cz as int + 1)) implies exists|k: int|
                    0 <= k < w@.len() && pair_is(#[trigger] w@[k], a, b) by {
                    if a == cx as int && b == cz as int {
                        assert(pair_is(w@[w@.len() - 1], a, b));
                    } else {
                        let k = choose|k: int|
                            0 <= k < wpre.len() && pair_is(#[trigger] wpre[k], a, b);
                        assert(w@[k] == wpre[k]);
                    }
                }
            }
            cz += 1;
        }
        cx += 1;
    }
    w
}

/// Converts world block coordinates to the chunk-grid coordinate of the
/// chunk containing them, rounding toward negative infinity so the
/// window behaves symmetrically across the origin.
pub fn block_to_chunk(wx: i64, wz: i64) -> (r: (i32, i32))
    requires
        -10737418240 <= (wx as int) < 10737418240,
        -10737418240 <= (wz as int) < 10737418240,
    ensures
        r.0 as int == (wx as int) / (CHUNK_WIDTH as int),
        r.1 as int == (wz as int) / (CHUNK_WIDTH as int),
{
    (floor_div_width(wx), floor_div_width(wz))
}

/// Floor division of one world block coordinate by the chunk width.
/// The bound on `w` is `CHUNK_WIDTH * 2^31`, so that the quotient fits
/// a chunk coordinate.
fn floor_div_width(w: i64) -> (q: i32)
    requires
        -10737418240 <= (w as int) < 10737418240,
    ensures
        q as int == (w as int) / (CHUNK_WIDTH as int),
{
    proof {
        assert(CHUNK_WIDTH == 5);
        assert((w as int) / (CHUNK_WIDTH as int) == (w as int) / 5);
    }
    if w >= 0 {
        let q = (w as u64) / (CHUNK_WIDTH as u64);
        proof {
            assert((w as u64 as int) / (CHUNK_WIDTH as u64 as int) == (w as int) / 5);
        }
        q as i32
    } else {
        let a = (-w) as u64;
        let qc = (a + (CHUNK_WIDTH as u64) - 1) / (CHUNK_WIDTH as u64);
        proof {
            assert((a + (CHUNK_WIDTH as u64) - 1) as int / (CHUNK_WIDTH as u64 as int) == (a as int
                + 4) / 5);
            let m = (a as int + 4) % 5;
            assert(a as int + 4 == 5 * ((a as int + 4) / 5) + m);
            assert(w as int == 5 * (-((a as int + 4) / 5)) + (4 - m));
            assert((w as int) / 5 == -((a as int + 4) / 5));
        }
        (-(qc as i64)) as i32
    }
}

} // verus!
