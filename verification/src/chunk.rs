use vstd::prelude::*;
use crate::draw::Vert;
use crate::lattice::{
    EdgeCut, cut_edge, count_tris, entry_of_row, lattice_point, mask_of_cell, point_of_sample,
    row_entry, tri_count, in_cells,
    CELL_COUNT, CELL_PLANE, EDGE_SLOTS, INTERNAL_SIZE, ISO_COUNT, ISO_LEN, ISO_LEVEL, ISO_PLANE,
};
use crate::marching_table::TRIANGULATION;
use crate::chunk_laws::{lemma_step_keeps_completed, lemma_step_keeps_valid, steps_left};
use crate::mesh::{
    Mesh, cell_cuts, cell_number, cell_row, cell_tris, lemma_add_cells_grow,
    lemma_add_cells_split, lemma_cell_number_coords, lemma_distinct_below, lemma_emit_all_next,
};
use crate::query::{cell_list, tris_along_y, tris_along_z, tris_in_box, tris_near, window_end,
    window_start};
use crate::util::{Point, Tri, floor_div, CELL_UNITS};

verus! {

/// Lattice planes that one sampling step takes in.
pub const X_GENERATION_STEP_ISO: usize = 13;

/// Slabs of cells that one meshing step triangulates.
pub const X_GENERATION_STEP_MESH: usize = 4;

/// Marks a lattice edge that has no vertex yet.
const NO_VERT: u16 = 0xFFFF;

/// The phase of a chunk's build.
#[derive(Clone, Copy, Debug, PartialEq, Eq, Structural)]
pub enum BuildState {
    /// The build is over; the geometry, if any, is final.
    Done,
    /// Densities are being taken in, plane by plane.
    Iso,
    /// Cells are being triangulated, slab by slab.
    Mesh,
}

impl BuildState {
    /// The phase in which every build starts.
    pub fn new() -> (state: Self)
        ensures
            state == BuildState::Iso,
    {
        Self::Iso
    }
}

/// Why a build step was refused.
#[derive(Clone, Copy, Debug, PartialEq, Eq, Structural)]
pub enum BuildError {
    /// The densities handed in are not as many as the step takes.
    SampleCount,
    /// Densities were handed in although no build waits for any.
    NotSampling,
}

/// A chunk as contracts see it.
pub struct ChunkView {
    /// The chunk's coordinate in the grid of chunks.
    pub pos: (i32, i32, i32),
    pub state: BuildState,
    /// Planes sampled so far while in `Iso`, slabs triangulated so far while
    /// in `Mesh`.
    pub x: int,
    /// The density cache; empty once the build is over.
    pub isos: Seq<i32>,
    /// Every density that the build has taken in, in the order of the
    /// lattice; kept for contracts only.
    pub source: Seq<i32>,
    pub mesh: Mesh,
}

/// Every density lies strictly above the surface level, so that the surface
/// does not pass through the chunk.
pub open spec fn is_blank(isos: Seq<i32>) -> bool {
    forall|i: int| 0 <= i < isos.len() ==> #[trigger] isos[i] > ISO_LEVEL
}

impl ChunkView {
    /// A chunk on which no work has been done.
    pub open spec fn fresh(pos: (i32, i32, i32)) -> ChunkView {
        ChunkView {
            pos,
            state: BuildState::Iso,
            x: 0,
            isos: Seq::empty(),
            source: Seq::empty(),
            mesh: Mesh::empty(),
        }
    }

    /// The finished chunk with the given geometry, built from the given
    /// densities.
    pub open spec fn done(pos: (i32, i32, i32), source: Seq<i32>, mesh: Mesh) -> ChunkView {
        ChunkView { pos, state: BuildState::Done, x: 0, isos: Seq::empty(), source, mesh }
    }

    /// The finished chunk of a lattice of densities: without geometry if the
    /// lattice is blank, with the mesh of the lattice otherwise.
    pub open spec fn built(pos: (i32, i32, i32), source: Seq<i32>) -> ChunkView {
        if is_blank(source) {
            ChunkView::done(pos, source, Mesh::empty())
        } else {
            ChunkView::done(pos, source, Mesh::of_lattice(pos, source))
        }
    }

    /// What every chunk satisfies, phase by phase.
    ///
    /// While sampling, the cache holds the densities taken in so far and
    /// there is no geometry. While meshing, the lattice is complete and not
    /// blank, and the geometry is the mesh of its first slabs of cells. A
    /// finished chunk is the chunk of the lattice it has taken in.
    pub open spec fn valid(self) -> bool {
        &&& self.mesh.indexed()
        &&& self.mesh.inds.len() <= 15 * self.mesh.tris.len()
        &&& match self.state {
            BuildState::Iso => {
                &&& 0 <= self.x < ISO_LEN
                &&& self.isos.len() == self.x * ISO_PLANE
                &&& self.isos == self.source
                &&& self.mesh == Mesh::empty()
            },
            BuildState::Mesh => {
                &&& 0 <= self.x < INTERNAL_SIZE
                &&& self.isos.len() == ISO_COUNT
                &&& self.isos == self.source
                &&& !is_blank(self.source)
                &&& self.mesh == Mesh::empty().add_cells(
                    self.pos,
                    self.source,
                    0,
                    self.x * CELL_PLANE,
                )
                &&& self.mesh.tris.len() == self.x * CELL_PLANE
            },
            BuildState::Done => {
                &&& self.source.len() == ISO_COUNT
                &&& self == ChunkView::built(self.pos, self.source)
                &&& (self.mesh.tris.len() == 0 || self.mesh.tris.len() == CELL_COUNT)
            },
        }
    }

    /// Whether the chunk is finished and has geometry to draw.
    pub open spec fn not_blank(self) -> bool {
        self.state == BuildState::Done && self.mesh.inds.len() > 0
    }

    /// Lattice planes that the next step takes in: none outside `Iso`.
    pub open spec fn planes_wanted(self) -> int {
        if self.state != BuildState::Iso {
            0
        } else if ISO_LEN - self.x < X_GENERATION_STEP_ISO {
            ISO_LEN - self.x
        } else {
            X_GENERATION_STEP_ISO as int
        }
    }

    /// Densities that the next step takes in.
    pub open spec fn samples_wanted(self) -> int {
        ISO_PLANE * self.planes_wanted()
    }

    /// Densities that the build still needs before meshing can start.
    pub open spec fn samples_missing(self) -> int {
        if self.state == BuildState::Iso {
            ISO_COUNT - self.isos.len()
        } else {
            0
        }
    }

    /// The slab at which the next meshing step stops.
    pub open spec fn mesh_stop(self) -> int {
        if self.x + X_GENERATION_STEP_MESH < INTERNAL_SIZE {
            self.x + X_GENERATION_STEP_MESH
        } else {
            INTERNAL_SIZE as int
        }
    }

    /// The chunk once sampling is over: finished at once when blank, ready
    /// for meshing otherwise.
    pub open spec fn sampled(pos: (i32, i32, i32), isos: Seq<i32>) -> ChunkView {
        if is_blank(isos) {
            ChunkView::built(pos, isos)
        } else {
            ChunkView {
                pos,
                state: BuildState::Mesh,
                x: 0,
                isos,
                source: isos,
                mesh: Mesh::empty(),
            }
        }
    }

    /// One bounded build step. A sampling step appends `samples` to the
    /// density cache; a meshing step triangulates the next slabs; a finished
    /// chunk stays as it is.
    pub open spec fn step(self, samples: Seq<i32>) -> ChunkView {
        match self.state {
            BuildState::Done => self,
            BuildState::Iso => {
                if self.x + self.planes_wanted() == ISO_LEN {
                    ChunkView::sampled(self.pos, self.isos + samples)
                } else {
                    ChunkView {
                        x: self.x + self.planes_wanted(),
                        isos: self.isos + samples,
                        source: self.source + samples,
                        ..self
                    }
                }
            },
            BuildState::Mesh => {
                let stop = self.mesh_stop();
                let mesh = self.mesh.add_cells(
                    self.pos,
                    self.isos,
                    self.x * CELL_PLANE,
                    stop * CELL_PLANE,
                );
                if stop == INTERNAL_SIZE {
                    ChunkView::done(self.pos, self.source, mesh)
                } else {
                    ChunkView { x: stop, mesh, ..self }
                }
            },
        }
    }

    /// `n` build steps in a row, each sampling step taking the densities it
    /// wants from the front of `rest`.
    pub open spec fn run(self, rest: Seq<i32>, n: nat) -> ChunkView
        decreases n,
    {
        if n == 0 {
            self
        } else {
            let wanted = self.samples_wanted();
            self.step(rest.take(wanted)).run(rest.skip(wanted), (n - 1) as nat)
        }
    }

    /// The build run to its end in one go, `rest` being the densities that
    /// are still missing.
    pub open spec fn completed(self, rest: Seq<i32>) -> ChunkView {
        match self.state {
            BuildState::Done => self,
            BuildState::Iso => ChunkView::built(self.pos, self.isos + rest),
            BuildState::Mesh => ChunkView::done(
                self.pos,
                self.source,
                self.mesh.add_cells(self.pos, self.isos, self.x * CELL_PLANE, CELL_COUNT as int),
            ),
        }
    }
}

/// The triangle lists of a build as sequences.
pub open spec fn tris_view(tris: Seq<Vec<Tri>>) -> Seq<Seq<Tri>> {
    Seq::new(tris.len(), |i: int| tris[i]@)
}

/// The working state of one chunk's build.
struct Build {
    chunk_pos: (i32, i32, i32),
    verts: Vec<Vert>,
    /// The lattice edge of each vertex.
    vert_slots: Vec<usize>,
    /// For each lattice edge the index of its vertex, or `NO_VERT`; only
    /// allocated while meshing.
    edge_map: Vec<u16>,
    inds: Vec<u16>,
    num_inds: usize,
    tris: Vec<Vec<Tri>>,
    isos: Vec<i32>,
    /// Every density taken in so far.
    source: Ghost<Seq<i32>>,
    x: usize,
}

impl Build {
    /// The geometry built so far.
    closed spec fn mesh(&self) -> Mesh {
        Mesh {
            slots: self.vert_slots@,
            verts: self.verts@,
            inds: self.inds@,
            tris: tris_view(self.tris@),
        }
    }

    /// The density cache.
    closed spec fn densities(&self) -> Seq<i32> {
        self.isos@
    }

    /// Every density that the build has taken in.
    closed spec fn taken(&self) -> Seq<i32> {
        self.source@
    }

    /// The row cursor.
    closed spec fn cursor(&self) -> int {
        self.x as int
    }

    /// The coordinate of the chunk that is being built.
    closed spec fn pos(&self) -> (i32, i32, i32) {
        self.chunk_pos
    }

    /// The number of indices recorded when meshing last stopped.
    closed spec fn index_count(&self) -> int {
        self.num_inds as int
    }

    /// The edge map says of every lattice edge whether it has a vertex, and
    /// which.
    #[verifier::opaque]
    closed spec fn map_consistent(&self) -> bool {
        &&& self.edge_map@.len() == EDGE_SLOTS
        &&& forall|s: int|
            0 <= s < EDGE_SLOTS ==> {
                let v = #[trigger] self.edge_map@[s];
                if v == NO_VERT {
                    !self.vert_slots@.contains(s as usize)
                } else {
                    v < self.vert_slots@.len() && self.vert_slots@[v as int] == s
                }
            }
    }

    /// The edge map's consistency rests on the map and the edge list alone.
    proof fn lemma_map_frame(&self, other: &Build)
        requires
            self.map_consistent(),
            self.edge_map == other.edge_map,
            self.vert_slots == other.vert_slots,
        ensures
            other.map_consistent(),
    {
        reveal(Build::map_consistent);
    }

    /// No edge map is allocated.
    closed spec fn map_released(&self) -> bool {
        self.edge_map@.len() == 0
    }

    /// An empty build for the chunk at a coordinate.
    fn new(chunk_pos: (i32, i32, i32)) -> (build: Self)
        ensures
            build.pos() == chunk_pos,
            build.mesh() == Mesh::empty(),
            build.densities() == Seq::<i32>::empty(),
            build.taken() == Seq::<i32>::empty(),
            build.cursor() == 0,
            build.index_count() == 0,
            build.map_released(),
    {
        let build = Self {
            chunk_pos,
            verts: Vec::new(),
            vert_slots: Vec::new(),
            edge_map: Vec::new(),
            inds: Vec::new(),
            num_inds: 0,
            tris: Vec::new(),
            isos: Vec::with_capacity(ISO_COUNT),
            source: Ghost(Seq::empty()),
            x: 0,
        };
        assert(build.mesh().tris =~= Seq::<Seq<Tri>>::empty());
        assert(build.isos@ =~= Seq::<i32>::empty());
        build
    }

    /// Rewinds the cursor and allocates the edge map for meshing.
    fn start_mesh(&mut self)
        requires
            old(self).mesh() == Mesh::empty(),
        ensures
            final(self).cursor() == 0,
            final(self).map_consistent(),
            final(self).mesh() == Mesh::empty(),
            final(self).densities() == old(self).densities(),
            final(self).taken() == old(self).taken(),
            final(self).pos() == old(self).pos(),
            final(self).index_count() == old(self).index_count(),
    {
        self.x = 0;
        self.edge_map = vec![NO_VERT; EDGE_SLOTS];
        proof {
            reveal(Build::map_consistent);
        }
    }

    /// Drops what only the build needed: the density cache and the edge map.
    fn finish(&mut self)
        ensures
            final(self).cursor() == 0,
            final(self).map_released(),
            final(self).densities() == Seq::<i32>::empty(),
            final(self).taken() == old(self).taken(),
            final(self).mesh() == old(self).mesh(),
            final(self).pos() == old(self).pos(),
            final(self).index_count() == old(self).index_count(),
    {
        self.isos = Vec::new();
        self.edge_map = Vec::new();
        self.x = 0;
        assert(self.isos@ =~= Seq::<i32>::empty());
    }

    /// Records one cut: pushes the index of the edge's vertex, making the
    /// vertex first if the edge had none.
    fn emit(&mut self, cut: EdgeCut)
        requires
            old(self).mesh().indexed(),
            old(self).map_consistent(),
            cut.slot < EDGE_SLOTS,
            cut.point.in_range(),
        ensures
            final(self).mesh() == old(self).mesh().emit(cut),
            final(self).mesh().indexed(),
            final(self).map_consistent(),
            final(self).densities() == old(self).densities(),
            final(self).taken() == old(self).taken(),
            final(self).pos() == old(self).pos(),
            final(self).cursor() == old(self).cursor(),
            final(self).index_count() == old(self).index_count(),
            final(self).tris == old(self).tris,
    {
        proof {
            reveal(Build::map_consistent);
            lemma_distinct_below(self.vert_slots@, EDGE_SLOTS as nat);
        }
        let found = self.edge_map[cut.slot];
        if found != NO_VERT {
            assert(self.vert_slots@[found as int] == cut.slot);
            assert(self.vert_slots@.contains(cut.slot));
            assert(self.vert_slots@.index_of(cut.slot) == found as int);
            self.inds.push(found);
            assert forall|j: int| 0 <= j < self.inds@.len() implies #[trigger] self.inds@[j]
                < self.verts@.len() by {
                if j < old(self).inds@.len() {
                    assert(self.inds@[j] == old(self).mesh().inds[j]);
                }
            }
        } else {
            let ind = self.verts.len();
            proof {
                let grown = self.vert_slots@.push(cut.slot);
                assert(grown.no_duplicates());
                assert forall|i: int| 0 <= i < grown.len() implies #[trigger] grown[i]
                    < EDGE_SLOTS by {
                    if i < self.vert_slots@.len() {
                        assert(grown[i] == self.vert_slots@[i]);
                    }
                }
                lemma_distinct_below(grown, EDGE_SLOTS as nat);
            }
            self.vert_slots.push(cut.slot);
            self.verts.push(Vert::of_terrain(cut.point));
            self.edge_map[cut.slot] = ind as u16;
            self.inds.push(ind as u16);
            assert(self.verts@ == old(self).verts@.push(Vert::at(cut.point)));
            assert forall|j: int| 0 <= j < self.inds@.len() implies #[trigger] self.inds@[j]
                < self.verts@.len() by {
                if j < old(self).inds@.len() {
                    assert(self.inds@[j] == old(self).mesh().inds[j]);
                }
            }
            assert forall|s: int| 0 <= s < EDGE_SLOTS implies {
                let v = #[trigger] self.edge_map@[s];
                if v == NO_VERT {
                    !self.vert_slots@.contains(s as usize)
                } else {
                    v < self.vert_slots@.len() && self.vert_slots@[v as int] == s
                }
            } by {
                if s != cut.slot {
                    let v = old(self).edge_map@[s];
                    assert(self.edge_map@[s] == v);
                    if v == NO_VERT {
                        assert(!old(self).vert_slots@.contains(s as usize));
                        if self.vert_slots@.contains(s as usize) {
                            let j = self.vert_slots@.index_of(s as usize);
                            if j < old(self).vert_slots@.len() {
                                assert(old(self).vert_slots@[j] == s);
                            }
                        }
                    }
                }
            }
        }
    }

    /// Records the three cuts of triangle `t` of a row and returns the
    /// triangle over them.
    fn mesh_tri(&mut self, cell: [usize; 3], row: u64, t: usize) -> (tri: Tri)
        requires
            old(self).mesh().indexed(),
            old(self).map_consistent(),
            old(self).densities().len() == ISO_COUNT,
            in_cells(cell[0] as int, cell[1] as int, cell[2] as int),
            t < tri_count(row),
        ensures
            ({
                let x = cell[0] as int;
                let y = cell[1] as int;
                let z = cell[2] as int;
                let pos = old(self).pos();
                let isos = old(self).densities();
                let c0 = crate::lattice::edge_cut(pos, isos, x, y, z, row_entry(row, 3 * t));
                let c1 = crate::lattice::edge_cut(pos, isos, x, y, z, row_entry(row, 3 * t + 1));
                let c2 = crate::lattice::edge_cut(pos, isos, x, y, z, row_entry(row, 3 * t + 2));
                &&& final(self).mesh() == old(self).mesh().emit(c0).emit(c1).emit(c2)
                &&& tri == Tri::of(c0.point, c1.point, c2.point)
            }),
            final(self).mesh().indexed(),
            final(self).map_consistent(),
            final(self).densities() == old(self).densities(),
            final(self).taken() == old(self).taken(),
            final(self).pos() == old(self).pos(),
            final(self).cursor() == old(self).cursor(),
            final(self).index_count() == old(self).index_count(),
            final(self).tris == old(self).tris,
    {
        let c0 = cut_edge(self.chunk_pos, &self.isos, cell, entry_of_row(row, 3 * t));
        let c1 = cut_edge(self.chunk_pos, &self.isos, cell, entry_of_row(row, 3 * t + 1));
        let c2 = cut_edge(self.chunk_pos, &self.isos, cell, entry_of_row(row, 3 * t + 2));
        self.emit(c0);
        self.emit(c1);
        self.emit(c2);
        Tri::new([c0.point, c1.point, c2.point])
    }

    /// Triangulates one cell: records its cuts and appends its triangle list.
    fn mesh_cell(&mut self, cell: [usize; 3])
        requires
            old(self).mesh().indexed(),
            old(self).map_consistent(),
            old(self).densities().len() == ISO_COUNT,
            in_cells(cell[0] as int, cell[1] as int, cell[2] as int),
        ensures
            final(self).mesh() == old(self).mesh().add_cell(
                old(self).pos(),
                old(self).densities(),
                cell_number(cell[0] as int, cell[1] as int, cell[2] as int),
            ),
            final(self).mesh().indexed(),
            final(self).mesh().inds.len() <= old(self).mesh().inds.len() + 15,
            final(self).map_consistent(),
            final(self).densities() == old(self).densities(),
            final(self).taken() == old(self).taken(),
            final(self).pos() == old(self).pos(),
            final(self).cursor() == old(self).cursor(),
            final(self).index_count() == old(self).index_count(),
    {
        let ghost n = cell_number(cell[0] as int, cell[1] as int, cell[2] as int);
        let ghost cuts = cell_cuts(self.chunk_pos, self.isos@, n);
        let ghost want = cell_tris(self.chunk_pos, self.isos@, n);
        proof {
            lemma_cell_number_coords(cell[0] as int, cell[1] as int, cell[2] as int);
        }
        let mask = mask_of_cell(&self.isos, cell);
        let row = TRIANGULATION[mask];
        assert(row == cell_row(self.isos@, n));
        let count = count_tris(row);
        let mut list: Vec<Tri> = Vec::with_capacity(count);
        let mut t: usize = 0;
        while t < count
            invariant
                0 <= t <= count <= 5,
                count == tri_count(row),
                in_cells(cell[0] as int, cell[1] as int, cell[2] as int),
                cuts.len() == 3 * count,
                want.len() == count,
                forall|k: int|
                    0 <= k < 3 * count ==> #[trigger] cuts[k] == crate::lattice::edge_cut(
                        self.chunk_pos,
                        self.isos@,
                        cell[0] as int,
                        cell[1] as int,
                        cell[2] as int,
                        row_entry(row, k),
                    ),
                forall|s: int|
                    0 <= s < count ==> #[trigger] want[s] == Tri::of(
                        cuts[3 * s].point,
                        cuts[3 * s + 1].point,
                        cuts[3 * s + 2].point,
                    ),
                self.isos@.len() == ISO_COUNT,
                self.isos@ == old(self).isos@,
                self.source@ == old(self).source@,
                self.chunk_pos == old(self).chunk_pos,
                self.x == old(self).x,
                self.num_inds == old(self).num_inds,
                self.tris == old(self).tris,
                self.mesh().indexed(),
                self.map_consistent(),
                self.mesh() == old(self).mesh().emit_all(cuts.take(3 * t)),
                self.inds@.len() == old(self).inds@.len() + 3 * t,
                list@ == want.take(t as int),
            decreases count - t,
        {
            proof {
                lemma_emit_all_next(old(self).mesh(), cuts, 3 * t);
                lemma_emit_all_next(old(self).mesh(), cuts, 3 * t + 1);
                lemma_emit_all_next(old(self).mesh(), cuts, 3 * t + 2);
                assert(cuts[3 * t] == cuts[3 * t]);
                assert(cuts[3 * t + 1] == cuts[3 * t + 1]);
                assert(cuts[3 * t + 2] == cuts[3 * t + 2]);
            }
            let ghost before = self.inds@.len();
            let tri = self.mesh_tri(cell, row, t);
            assert(self.inds@.len() == before + 3);
            list.push(tri);
            assert(tri == want[t as int]);
            assert(list@ =~= want.take(t + 1));
            t += 1;
        }
        let ghost emitted = self.mesh();
        proof {
            reveal(Build::map_consistent);
            assert(cuts.take(3 * t) =~= cuts);
            assert(list@ =~= want);
            assert(tris_view(self.tris@.push(list)) =~= tris_view(self.tris@).push(list@));
        }
        self.tris.push(list);
        proof {
            assert(self.mesh().slots == emitted.slots);
            assert(self.mesh().verts == emitted.verts);
            assert(self.mesh().inds == emitted.inds);
            assert forall|i: int| 0 <= i < self.mesh().slots.len() implies #[trigger] self.mesh().slots[i]
                < 6591 by {
                assert(emitted.slots[i] < 6591);
            }
            assert forall|j: int| 0 <= j < self.mesh().inds.len() implies #[trigger] self.mesh().inds[j]
                < self.mesh().verts.len() by {
                assert(emitted.inds[j] < emitted.verts.len());
            }
        }
    }

    /// Triangulates the slab of cells at the cursor, cell by cell.
    fn mesh_slab(&mut self)
        requires
            old(self).mesh().indexed(),
            old(self).map_consistent(),
            old(self).densities().len() == ISO_COUNT,
            0 <= old(self).cursor() < 12,
        ensures
            final(self).mesh() == old(self).mesh().add_cells(
                old(self).pos(),
                old(self).densities(),
                old(self).cursor() * 144,
                (old(self).cursor() + 1) * 144,
            ),
            final(self).mesh().indexed(),
            final(self).mesh().inds.len() <= old(self).mesh().inds.len() + 15 * 144,
            final(self).map_consistent(),
            final(self).densities() == old(self).densities(),
            final(self).taken() == old(self).taken(),
            final(self).pos() == old(self).pos(),
            final(self).cursor() == old(self).cursor(),
            final(self).index_count() == old(self).index_count(),
    {
        let x = self.x;
        let mut k: usize = 0;
        while k < CELL_PLANE
            invariant
                0 <= k <= CELL_PLANE,
                0 <= x < 12,
                self.x == x,
                x == old(self).x,
                self.isos@ == old(self).isos@,
                self.source@ == old(self).source@,
                self.isos@.len() == ISO_COUNT,
                self.chunk_pos == old(self).chunk_pos,
                self.num_inds == old(self).num_inds,
                self.mesh().indexed(),
                self.map_consistent(),
                self.mesh() == old(self).mesh().add_cells(
                    self.chunk_pos,
                    self.isos@,
                    x * 144,
                    x * 144 + k,
                ),
                self.mesh().inds.len() <= old(self).mesh().inds.len() + 15 * k,
            decreases CELL_PLANE - k,
        {
            let y = k / INTERNAL_SIZE;
            let z = k % INTERNAL_SIZE;
            assert(cell_number(x as int, y as int, z as int) == x * 144 + k);
            self.mesh_cell([x, y, z]);
            k += 1;
        }
    }
}

/// One cube of the world: its build in progress or its finished geometry.
pub struct Chunk {
    build: Build,
    build_state: BuildState,
}

impl View for Chunk {
    type V = ChunkView;

    closed spec fn view(&self) -> ChunkView {
        ChunkView {
            pos: self.build.chunk_pos,
            state: self.build_state,
            x: self.build.x as int,
            isos: self.build.isos@,
            source: self.build.source@,
            mesh: self.build.mesh(),
        }
    }
}

impl Chunk {
    /// The chunk is in a state that `new` and the build steps can reach.
    pub closed spec fn wf(&self) -> bool {
        &&& self@.valid()
        &&& self.build.num_inds == self.build.inds@.len()
        &&& self.build_state == BuildState::Mesh ==> self.build.map_consistent()
        &&& self.build_state != BuildState::Mesh ==> self.build.map_released()
    }

    /// A well-formed chunk has a valid view.
    pub proof fn lemma_wf_valid(&self)
        requires
            self.wf(),
        ensures
            self@.valid(),
    {
    }

    /// A chunk at a coordinate, with all of its build ahead of it.
    pub fn new(pos: (i32, i32, i32)) -> (chunk: Self)
        ensures
            chunk.wf(),
            chunk@ == ChunkView::fresh(pos),
    {
        Self { build: Build::new(pos), build_state: BuildState::new() }
    }

    /// Takes in the densities of the next lattice planes and says whether the
    /// lattice is complete.
    fn build_iso(&mut self, samples: &Vec<i32>) -> (finished: bool)
        requires
            old(self).wf(),
            old(self)@.state == BuildState::Iso,
            samples@.len() == old(self)@.samples_wanted(),
        ensures
            final(self)@ == (ChunkView {
                x: old(self)@.x + old(self)@.planes_wanted(),
                isos: old(self)@.isos + samples@,
                source: old(self)@.source + samples@,
                ..old(self)@
            }),
            finished == (final(self)@.x == 13),
            final(self)@.isos.len() == final(self)@.x * 169,
            final(self).build.num_inds == 0,
            final(self).build.map_released(),
    {
        let left = ISO_LEN - self.build.x;
        let planes = if left < X_GENERATION_STEP_ISO {
            left
        } else {
            X_GENERATION_STEP_ISO
        };
        let mut i: usize = 0;
        while i < samples.len()
            invariant
                0 <= i <= samples@.len(),
                self.build.isos@ == old(self).build.isos@ + samples@.take(i as int),
                self.build.source@ == old(self).build.source@,
                self.build.chunk_pos == old(self).build.chunk_pos,
                self.build.x == old(self).build.x,
                self.build.num_inds == old(self).build.num_inds,
                self.build.mesh() == old(self).build.mesh(),
                self.build.edge_map == old(self).build.edge_map,
                self.build_state == old(self).build_state,
            decreases samples@.len() - i,
        {
            self.build.isos.push(samples[i]);
            assert(self.build.isos@ =~= old(self).build.isos@ + samples@.take(i + 1));
            i += 1;
        }
        assert(samples@.take(i as int) =~= samples@);
        self.build.source = Ghost(self.build.source@ + samples@);
        self.build.x += planes;
        self.build.x == ISO_LEN
    }

    /// Whether the surface misses the chunk: every cached density lies
    /// strictly above the surface level.
    fn early_blank_check(&self) -> (blank: bool)
        ensures
            blank == is_blank(self@.isos),
    {
        let mut i: usize = 0;
        while i < self.build.isos.len()
            invariant
                0 <= i <= self.build.isos@.len(),
                forall|j: int| 0 <= j < i ==> #[trigger] self.build.isos@[j] > ISO_LEVEL,
            decreases self.build.isos@.len() - i,
        {
            if self.build.isos[i] <= ISO_LEVEL {
                return false;
            }
            i += 1;
        }
        true
    }
}

impl Chunk {
    /// Triangulates the next slabs of cells and says whether the last slab
    /// has been reached.
    fn build_mesh(&mut self) -> (finished: bool)
        requires
            old(self).wf(),
            old(self)@.state == BuildState::Mesh,
        ensures
            final(self)@ == (ChunkView {
                x: old(self)@.mesh_stop(),
                mesh: old(self)@.mesh.add_cells(
                    old(self)@.pos,
                    old(self)@.isos,
                    old(self)@.x * 144,
                    old(self)@.mesh_stop() * 144,
                ),
                ..old(self)@
            }),
            finished == (final(self)@.x == 12),
            final(self)@.mesh.indexed(),
            final(self)@.mesh.inds.len() <= 15 * final(self)@.mesh.tris.len(),
            final(self)@.mesh.tris.len() == final(self)@.x * 144,
            final(self).build.num_inds == final(self)@.mesh.inds.len(),
            final(self).build.map_consistent(),
    {
        let start = self.build.x;
        let stop = if start + X_GENERATION_STEP_MESH < INTERNAL_SIZE {
            start + X_GENERATION_STEP_MESH
        } else {
            INTERNAL_SIZE
        };
        while self.build.x < stop
            invariant
                start <= self.build.x <= stop <= 12,
                start == old(self).build.x,
                self.build_state == old(self).build_state,
                self.build.isos@ == old(self).build.isos@,
                self.build.source@ == old(self).build.source@,
                self.build.isos@.len() == ISO_COUNT,
                self.build.chunk_pos == old(self).build.chunk_pos,
                self.build.mesh().indexed(),
                self.build.map_consistent(),
                self.build.mesh() == old(self).build.mesh().add_cells(
                    self.build.chunk_pos,
                    self.build.isos@,
                    start * 144,
                    self.build.x * 144,
                ),
                self.build.mesh().tris.len() == self.build.x * 144,
                self.build.mesh().inds.len() <= 15 * self.build.mesh().tris.len(),
            decreases stop - self.build.x,
        {
            proof {
                lemma_add_cells_split(
                    old(self).build.mesh(),
                    self.build.chunk_pos,
                    self.build.isos@,
                    start * 144,
                    self.build.x * 144,
                    (self.build.x + 1) * 144,
                );
                lemma_add_cells_grow(
                    self.build.mesh(),
                    self.build.chunk_pos,
                    self.build.isos@,
                    self.build.x * 144,
                    (self.build.x + 1) * 144,
                );
            }
            self.build.mesh_slab();
            let ghost meshed = self.build;
            self.build.x += 1;
            proof {
                meshed.lemma_map_frame(&self.build);
            }
        }
        let ghost meshed = self.build;
        self.build.num_inds = self.build.inds.len();
        proof {
            meshed.lemma_map_frame(&self.build);
        }
        self.build.x == INTERNAL_SIZE
    }
}

impl Chunk {
    /// The number of densities that the next build step takes in: those of
    /// the lattice planes it samples, none once sampling is over.
    pub fn samples_wanted(&self) -> (n: usize)
        requires
            self.wf(),
        ensures
            n == self@.samples_wanted(),
    {
        match self.build_state {
            BuildState::Iso => {
                let left = ISO_LEN - self.build.x;
                if left < X_GENERATION_STEP_ISO {
                    ISO_PLANE * left
                } else {
                    ISO_PLANE * X_GENERATION_STEP_ISO
                }
            },
            _ => 0,
        }
    }

    /// Advances the build by one bounded step and says whether the chunk is
    /// finished.
    ///
    /// While sampling, `samples` holds the densities of the lattice planes
    /// that the step takes in, in cache order; it is refused if it has
    /// another length. After sampling `samples` is not read.
    pub fn build_partial(&mut self, samples: &Vec<i32>) -> (r: Result<bool, BuildError>)
        requires
            old(self).wf(),
        ensures
            final(self).wf(),
            r is Err <==> old(self)@.state == BuildState::Iso && samples@.len() != old(self)@.samples_wanted(),
            r is Err ==> r == Err::<bool, BuildError>(BuildError::SampleCount) && final(self)@
                == old(self)@,
            r matches Ok(done) ==> final(self)@ == old(self)@.step(samples@) && done == (final(self)@.state == BuildState::Done),
    {
        proof {
            if self@.state != BuildState::Iso || samples@.len() == self@.samples_wanted() {
                lemma_step_keeps_valid(self@, samples@);
            }
        }
        match self.build_state {
            BuildState::Done => Ok(true),
            BuildState::Iso => {
                if samples.len() != self.samples_wanted() {
                    return Err(BuildError::SampleCount);
                }
                let finished = self.build_iso(samples);
                if finished {
                    let blank_check = self.early_blank_check();
                    if blank_check {
                        self.build_state = BuildState::Done;
                        self.build.finish();
                        return Ok(true);
                    } else {
                        self.build_state = BuildState::Mesh;
                        self.build.start_mesh();
                    }
                }
                Ok(false)
            },
            BuildState::Mesh => {
                let finished = self.build_mesh();
                if finished {
                    self.build_state = BuildState::Done;
                    self.build.finish();
                }
                Ok(finished)
            },
        }
    }

    /// Runs the build to its end. `lattice` holds the densities that the
    /// build still lacks, in cache order; it is refused if the build is still
    /// sampling and it has another length.
    pub fn build_full(&mut self, lattice: &Vec<i32>) -> (r: Result<(), BuildError>)
        requires
            old(self).wf(),
        ensures
            final(self).wf(),
            r is Err <==> old(self)@.state == BuildState::Iso && lattice@.len() != old(self)@.samples_missing(),
            r is Err ==> r == Err::<(), BuildError>(BuildError::SampleCount) && final(self)@
                == old(self)@,
            r is Ok ==> final(self)@ == old(self)@.completed(lattice@),
    {
        if self.samples_wanted() != 0 && lattice.len() != self.samples_wanted() {
            return Err(BuildError::SampleCount);
        }
        if self.samples_wanted() == 0 {
            assert(self@.state != BuildState::Iso);
        }
        loop
            invariant
                self.wf(),
                self@.completed(lattice@) == old(self)@.completed(lattice@),
                self@.state == BuildState::Iso ==> lattice@.len() == self@.samples_wanted(),
                self@.state == BuildState::Iso ==> old(self)@.state == BuildState::Iso,
                old(self)@.state == BuildState::Iso ==> lattice@.len() == old(self)@.samples_missing(),
            ensures
                self.wf(),
                self@.state == BuildState::Done,
                self@ == old(self)@.completed(lattice@),
                old(self)@.state == BuildState::Iso ==> lattice@.len() == old(self)@.samples_missing(),
            decreases steps_left(self@),
        {
            proof {
                lemma_step_keeps_completed(self@, lattice@);
            }
            match self.build_partial(lattice) {
                Ok(true) => {
                    break ;
                },
                _ => {},
            }
        }
        Ok(())
    }
}

/// Whether `bytes` holds the indices two bytes each, the low byte first if
/// `little` and the high byte first otherwise.
pub open spec fn in_byte_order(inds: Seq<u16>, bytes: Seq<u8>, little: bool) -> bool {
    forall|i: int|
        0 <= i < inds.len() ==> #[trigger] inds[i] == (if little {
            bytes[2 * i] + 256 * bytes[2 * i + 1]
        } else {
            256 * bytes[2 * i] + bytes[2 * i + 1]
        })
}

/// Calls `bytemuck::cast_slice` to view the indices as bytes, and copies the
/// bytes out.
///
/// The cast from two-byte to one-byte elements cannot fail: the target needs
/// no alignment and every length divides. It yields the indices' own memory,
/// so each index is found as two bytes in the byte order of the machine, the
/// same order for all of them.
#[verifier::external_body]
fn bytes_of_indices(inds: &Vec<u16>) -> (bytes: Vec<u8>)
    ensures
        bytes@.len() == 2 * inds@.len(),
        in_byte_order(inds@, bytes@, true) || in_byte_order(inds@, bytes@, false),
{
    bytemuck::cast_slice::<u16, u8>(inds.as_slice()).to_vec()
}

/// The two ends of a query window along one axis.
fn window(c: i64, range: i32) -> (w: (usize, usize))
    ensures
        w.0 == window_start(c as int, range as int),
        w.1 == window_end(c as int, range as int),
        w.0 <= 12,
        w.1 <= 12,
{
    let middle = floor_div(c, CELL_UNITS);
    let first: i64 = middle - range as i64;
    let end: i64 = middle + range as i64 + 1;
    let start: usize = if first < 0 {
        0
    } else if first > 12 {
        12
    } else {
        first as usize
    };
    let stop: usize = if end < 0 {
        0
    } else if end > 12 {
        12
    } else {
        end as usize
    };
    (start, stop)
}

impl Chunk {
    /// Appends the triangles of the cells `(x, y, z0..z1)` to `out`.
    fn collect_z(&self, x: usize, y: usize, z0: usize, z1: usize, out: &mut Vec<Tri>)
        requires
            x < 12,
            y < 12,
            z1 <= 12,
        ensures
            final(out)@ == old(out)@ + tris_along_z(
                self@.mesh.tris,
                x as int,
                y as int,
                z0 as int,
                z1 as int,
            ),
    {
        let mut z = z0;
        assert(old(out)@ + Seq::<Tri>::empty() =~= old(out)@);
        while z < z1
            invariant
                x < 12,
                y < 12,
                z1 <= 12,
                z0 <= z,
                z <= z1 || z1 <= z0,
                z1 <= z0 ==> z == z0,
                out@ == old(out)@ + tris_along_z(
                    self@.mesh.tris,
                    x as int,
                    y as int,
                    z0 as int,
                    z as int,
                ),
            decreases z1 - z,
        {
            let n = x * CELL_PLANE + y * INTERNAL_SIZE + z;
            let ghost before = out@;
            let ghost list = cell_list(self@.mesh.tris, n as int);
            if n < self.build.tris.len() {
                let cell = &self.build.tris[n];
                let mut i: usize = 0;
                while i < cell.len()
                    invariant
                        0 <= i <= cell@.len(),
                        cell@ == list,
                        out@ == before + list.take(i as int),
                    decreases cell@.len() - i,
                {
                    out.push(cell[i]);
                    assert(out@ =~= before + list.take(i + 1));
                    i += 1;
                }
                assert(list.take(i as int) =~= list);
            } else {
                assert(before + list =~= before);
            }
            assert(out@ == before + list);
            assert(out@ =~= old(out)@ + (tris_along_z(
                self@.mesh.tris,
                x as int,
                y as int,
                z0 as int,
                z as int,
            ) + list));
            z += 1;
        }
    }

    /// Appends the triangles of the cells `(x, y0..y1, z0..z1)` to `out`.
    fn collect_y(&self, x: usize, y0: usize, y1: usize, z0: usize, z1: usize, out: &mut Vec<Tri>)
        requires
            x < 12,
            y1 <= 12,
            z1 <= 12,
        ensures
            final(out)@ == old(out)@ + tris_along_y(
                self@.mesh.tris,
                x as int,
                y0 as int,
                y1 as int,
                z0 as int,
                z1 as int,
            ),
    {
        let mut y = y0;
        assert(old(out)@ + Seq::<Tri>::empty() =~= old(out)@);
        while y < y1
            invariant
                x < 12,
                y1 <= 12,
                z1 <= 12,
                y0 <= y,
                y <= y1 || y1 <= y0,
                y1 <= y0 ==> y == y0,
                out@ == old(out)@ + tris_along_y(
                    self@.mesh.tris,
                    x as int,
                    y0 as int,
                    y as int,
                    z0 as int,
                    z1 as int,
                ),
            decreases y1 - y,
        {
            let ghost before = out@;
            self.collect_z(x, y, z0, z1, out);
            assert(out@ =~= old(out)@ + (tris_along_y(
                self@.mesh.tris,
                x as int,
                y0 as int,
                y as int,
                z0 as int,
                z1 as int,
            ) + tris_along_z(self@.mesh.tris, x as int, y as int, z0 as int, z1 as int)));
            y += 1;
        }
    }

    /// The triangles near a position: those of every cell within `range`
    /// cells of the cell that holds `local_pos`, a position relative to the
    /// chunk's origin. Cells outside the chunk contribute nothing.
    pub fn tris_around(&self, local_pos: Point, range: i32) -> (tris: Vec<Tri>)
        ensures
            tris@ == tris_near(self@.mesh.tris, local_pos, range as int),
    {
        let wx = window(local_pos.x, range);
        let wy = window(local_pos.y, range);
        let wz = window(local_pos.z, range);
        let mut tris: Vec<Tri> = Vec::new();
        let mut x = wx.0;
        assert(tris@ =~= Seq::<Tri>::empty());
        while x < wx.1
            invariant
                wx.1 <= 12,
                wy.1 <= 12,
                wz.1 <= 12,
                wx.0 <= x,
                x <= wx.1 || wx.1 <= wx.0,
                wx.1 <= wx.0 ==> x == wx.0,
                tris@ == tris_in_box(
                    self@.mesh.tris,
                    wx.0 as int,
                    x as int,
                    wy.0 as int,
                    wy.1 as int,
                    wz.0 as int,
                    wz.1 as int,
                ),
            decreases wx.1 - x,
        {
            self.collect_y(x, wy.0, wy.1, wz.0, wz.1, &mut tris);
            x += 1;
        }
        tris
    }

    /// Whether the finished chunk has geometry to draw.
    pub fn not_blank(&self) -> (b: bool)
        requires
            self.wf(),
        ensures
            b == self@.not_blank(),
    {
        match self.build_state {
            BuildState::Done => self.build.num_inds > 0,
            _ => false,
        }
    }

    /// The number of vertex indices of the mesh.
    pub fn num_inds(&self) -> (n: usize)
        requires
            self.wf(),
        ensures
            n == self@.mesh.inds.len(),
    {
        self.build.inds.len()
    }

    /// The vertices of the mesh.
    pub fn verts(&self) -> (verts: &Vec<Vert>)
        ensures
            verts@ == self@.mesh.verts,
    {
        &self.build.verts
    }

    /// The vertex indices of the mesh, three per triangle.
    pub fn inds(&self) -> (inds: &Vec<u16>)
        ensures
            inds@ == self@.mesh.inds,
    {
        &self.build.inds
    }

    /// The vertex indices as the bytes that hold them in memory, two for
    /// each index, ready to be handed to a graphics device.
    pub fn index_bytes(&self) -> (bytes: Vec<u8>)
        ensures
            bytes@.len() == 2 * self@.mesh.inds.len(),
            in_byte_order(self@.mesh.inds, bytes@, true) || in_byte_order(
                self@.mesh.inds,
                bytes@,
                false,
            ),
    {
        bytes_of_indices(&self.build.inds)
    }

    /// The lattice points whose densities the next build step takes in, in
    /// the order in which it takes them, each counted in cells from the
    /// world's origin. The density of a point is to be taken at one twelfth
    /// of its coordinates, in chunk edges.
    pub fn sample_points(&self) -> (points: Vec<(i64, i64, i64)>)
        requires
            self.wf(),
        ensures
            points@.len() == self@.samples_wanted(),
            forall|k: int|
                0 <= k < points@.len() ==> {
                    let p = #[trigger] points@[k];
                    (p.0 as int, p.1 as int, p.2 as int) == lattice_point(
                        self@.pos,
                        self@.isos.len() + k,
                    )
                },
    {
        let wanted = self.samples_wanted();
        let first = self.build.isos.len();
        let mut points: Vec<(i64, i64, i64)> = Vec::new();
        let mut k: usize = 0;
        while k < wanted
            invariant
                self.wf(),
                0 <= k <= wanted,
                wanted == self@.samples_wanted(),
                first == self@.isos.len(),
                first + wanted <= ISO_COUNT,
                points@.len() == k,
                forall|j: int|
                    0 <= j < k ==> {
                        let p = #[trigger] points@[j];
                        (p.0 as int, p.1 as int, p.2 as int) == lattice_point(
                            self@.pos,
                            first + j,
                        )
                    },
            decreases wanted - k,
        {
            points.push(point_of_sample(self.build.chunk_pos, first + k));
            k += 1;
        }
        points
    }

    /// The chunk's coordinate in the grid of chunks.
    pub fn pos(&self) -> (pos: (i32, i32, i32))
        ensures
            pos == self@.pos,
    {
        self.build.chunk_pos
    }

    /// The phase of the build.
    pub fn state(&self) -> (state: BuildState)
        ensures
            state == self@.state,
    {
        self.build_state
    }
}

} // verus!
