use vstd::prelude::*;
use crate::draw::Vert;
use crate::lattice::{
    EdgeCut, CELL_COUNT, CELL_PLANE, EDGE_SLOTS, INTERNAL_SIZE, cell_mask, edge_cut, lemma_cube_edge_is_unit, row_entry, tri_count, triple_ok,
};
use crate::marching_table::TRIANGULATION;
use crate::util::Tri;

verus! {

/// The geometry that meshing produces, as mathematical sequences.
pub struct Mesh {
    /// The lattice edge on which each vertex lies; no edge occurs twice.
    pub slots: Seq<usize>,
    /// The vertices, in the order in which their edges were first cut.
    pub verts: Seq<Vert>,
    /// One vertex index for each cut that a cell listed, three per triangle.
    pub inds: Seq<u16>,
    /// The triangles of each cell, by cell number.
    pub tris: Seq<Seq<Tri>>,
}

/// The `x` coordinate of cell number `n`.
pub open spec fn cell_x(n: int) -> int {
    n / (CELL_PLANE as int)
}

/// The `y` coordinate of cell number `n`.
pub open spec fn cell_y(n: int) -> int {
    (n / (INTERNAL_SIZE as int)) % (INTERNAL_SIZE as int)
}

/// The `z` coordinate of cell number `n`.
pub open spec fn cell_z(n: int) -> int {
    n % (INTERNAL_SIZE as int)
}

/// The number of the cell at `(x, y, z)`: cells are counted along `z` first,
/// then `y`, then `x`.
pub open spec fn cell_number(x: int, y: int, z: int) -> int {
    x * CELL_PLANE + y * INTERNAL_SIZE + z
}

/// The triangulation row of cell number `n`.
pub open spec fn cell_row(isos: Seq<i32>, n: int) -> u64 {
    TRIANGULATION[cell_mask(isos, cell_x(n), cell_y(n), cell_z(n))]
}

/// The edge cuts that cell number `n` lists, three per triangle.
pub open spec fn cell_cuts(pos: (i32, i32, i32), isos: Seq<i32>, n: int) -> Seq<EdgeCut> {
    let row = cell_row(isos, n);
    Seq::new(
        (3 * tri_count(row)) as nat,
        |k: int| edge_cut(pos, isos, cell_x(n), cell_y(n), cell_z(n), row_entry(row, k)),
    )
}

/// The triangles of cell number `n`: one over every three cuts in a row.
pub open spec fn cell_tris(pos: (i32, i32, i32), isos: Seq<i32>, n: int) -> Seq<Tri> {
    let cuts = cell_cuts(pos, isos, n);
    Seq::new(
        tri_count(cell_row(isos, n)) as nat,
        |t: int| Tri::of(cuts[3 * t].point, cuts[3 * t + 1].point, cuts[3 * t + 2].point),
    )
}

impl Mesh {
    /// No geometry.
    pub open spec fn empty() -> Mesh {
        Mesh { slots: Seq::empty(), verts: Seq::empty(), inds: Seq::empty(), tris: Seq::empty() }
    }

    /// The vertex lists agree in length, every edge occurs once, every edge
    /// number is one of the chunk's, and every index names a vertex.
    pub open spec fn indexed(self) -> bool {
        &&& self.slots.len() == self.verts.len()
        &&& self.slots.no_duplicates()
        &&& forall|i: int| 0 <= i < self.slots.len() ==> #[trigger] self.slots[i] < EDGE_SLOTS
        &&& forall|j: int| 0 <= j < self.inds.len() ==> #[trigger] self.inds[j] < self.verts.len()
    }

    /// Records one cut: the vertex of an edge that was cut before is used
    /// again, a new edge gets a new vertex.
    pub open spec fn emit(self, cut: EdgeCut) -> Mesh {
        if self.slots.contains(cut.slot) {
            Mesh { inds: self.inds.push(self.slots.index_of(cut.slot) as u16), ..self }
        } else {
            Mesh {
                slots: self.slots.push(cut.slot),
                verts: self.verts.push(Vert::at(cut.point)),
                inds: self.inds.push(self.slots.len() as u16),
                tris: self.tris,
            }
        }
    }

    /// Records a sequence of cuts in order.
    pub open spec fn emit_all(self, cuts: Seq<EdgeCut>) -> Mesh
        decreases cuts.len(),
    {
        if cuts.len() == 0 {
            self
        } else {
            self.emit_all(cuts.drop_last()).emit(cuts.last())
        }
    }

    /// The mesh after cell number `n` has been triangulated.
    pub open spec fn add_cell(self, pos: (i32, i32, i32), isos: Seq<i32>, n: int) -> Mesh {
        let m = self.emit_all(cell_cuts(pos, isos, n));
        Mesh { tris: m.tris.push(cell_tris(pos, isos, n)), ..m }
    }

    /// The mesh after the cells numbered `from..to` have been triangulated
    /// in order.
    pub open spec fn add_cells(self, pos: (i32, i32, i32), isos: Seq<i32>, from: int, to: int)
        -> Mesh
        decreases to - from,
    {
        if to <= from {
            self
        } else {
            self.add_cells(pos, isos, from, to - 1).add_cell(pos, isos, to - 1)
        }
    }

    /// The whole mesh of a chunk: every cell triangulated in one pass.
    pub open spec fn of_lattice(pos: (i32, i32, i32), isos: Seq<i32>) -> Mesh {
        Mesh::empty().add_cells(pos, isos, 0, CELL_COUNT as int)
    }
}

/// Distinct numbers below a bound are at most as many as the bound.
pub proof fn lemma_distinct_below(s: Seq<usize>, bound: nat)
    requires
        s.no_duplicates(),
        forall|i: int| 0 <= i < s.len() ==> #[trigger] s[i] < bound,
    ensures
        s.len() <= bound,
    decreases bound,
{
    if s.len() == 0 {
    } else if bound == 0 {
        assert(s[0] < bound);
    } else {
        let top = (bound - 1) as usize;
        if s.contains(top) {
            let at = s.index_of(top);
            let rest = s.remove(at);
            assert forall|i: int| 0 <= i < rest.len() implies #[trigger] rest[i] < bound - 1 by {
                if i < at {
                    assert(rest[i] == s[i]);
                } else {
                    assert(rest[i] == s[i + 1]);
                }
            }
            assert(rest.no_duplicates());
            lemma_distinct_below(rest, (bound - 1) as nat);
        } else {
            assert forall|i: int| 0 <= i < s.len() implies #[trigger] s[i] < bound - 1 by {
                assert(s.contains(s[i]));
            }
            lemma_distinct_below(s, (bound - 1) as nat);
        }
    }
}

/// Recording one cut more than the first `k` of a sequence.
pub proof fn lemma_emit_all_next(m: Mesh, cuts: Seq<EdgeCut>, k: int)
    requires
        0 <= k < cuts.len(),
    ensures
        m.emit_all(cuts.take(k + 1)) == m.emit_all(cuts.take(k)).emit(cuts[k]),
{
    assert(cuts.take(k + 1).drop_last() =~= cuts.take(k));
    assert(cuts.take(k + 1).last() == cuts[k]);
}

/// A cell's number gives back the cell's coordinates.
pub proof fn lemma_cell_number_coords(x: int, y: int, z: int)
    requires
        0 <= x,
        0 <= y < 12,
        0 <= z < 12,
    ensures
        cell_x(cell_number(x, y, z)) == x,
        cell_y(cell_number(x, y, z)) == y,
        cell_z(cell_number(x, y, z)) == z,
{
    let n = x * 144 + y * 12 + z;
    assert(cell_number(x, y, z) == n);
    assert(n / 144 == x && (n / 12) % 12 == y && n % 12 == z);
    assert(cell_x(n) == n / 144);
    assert(cell_y(n) == (n / 12) % 12);
    assert(cell_z(n) == n % 12);
}

/// Splitting a run of cells in two and triangulating one part after the
/// other gives the mesh of the whole run.
pub proof fn lemma_add_cells_split(
    m: Mesh,
    pos: (i32, i32, i32),
    isos: Seq<i32>,
    from: int,
    mid: int,
    to: int,
)
    requires
        from <= mid <= to,
    ensures
        m.add_cells(pos, isos, from, mid).add_cells(pos, isos, mid, to) == m.add_cells(
            pos,
            isos,
            from,
            to,
        ),
    decreases to - mid,
{
    if to > mid {
        lemma_add_cells_split(m, pos, isos, from, mid, to - 1);
    }
}

/// Triangulating the cells `from..to` appends one triangle list per cell and
/// leaves the lists before them alone.
pub proof fn lemma_add_cells_grow(
    m: Mesh,
    pos: (i32, i32, i32),
    isos: Seq<i32>,
    from: int,
    to: int,
)
    requires
        from <= to,
    ensures
        m.add_cells(pos, isos, from, to).tris.len() == m.tris.len() + (to - from),
        m.add_cells(pos, isos, from, to).tris.take(m.tris.len() as int) == m.tris,
        forall|n: int|
            from <= n < to ==> #[trigger] m.add_cells(pos, isos, from, to).tris[m.tris.len() + n
                - from] == cell_tris(pos, isos, n),
    decreases to - from,
{
    if to > from {
        lemma_add_cells_grow(m, pos, isos, from, to - 1);
        let before = m.add_cells(pos, isos, from, to - 1);
        let after = m.add_cells(pos, isos, from, to);
        lemma_emit_all_keeps_tris(before, cell_cuts(pos, isos, to - 1));
        assert(after.tris == before.tris.push(cell_tris(pos, isos, to - 1)));
        assert(after.tris.take(m.tris.len() as int) =~= before.tris.take(m.tris.len() as int));
        assert forall|n: int| from <= n < to implies #[trigger] after.tris[m.tris.len() + n - from]
            == cell_tris(pos, isos, n) by {
            if n < to - 1 {
                assert(before.tris[m.tris.len() + n - from] == cell_tris(pos, isos, n));
            }
        }
    } else {
        assert(m.tris.take(m.tris.len() as int) =~= m.tris);
    }
}

/// Recording cuts does not touch the triangle lists.
pub proof fn lemma_emit_all_keeps_tris(m: Mesh, cuts: Seq<EdgeCut>)
    ensures
        m.emit_all(cuts).tris == m.tris,
    decreases cuts.len(),
{
    if cuts.len() > 0 {
        lemma_emit_all_keeps_tris(m, cuts.drop_last());
    }
}

/// Triangulating cells keeps a mesh indexed and adds at most fifteen indices
/// for each cell.
pub proof fn lemma_add_cells_indexed(
    m: Mesh,
    pos: (i32, i32, i32),
    isos: Seq<i32>,
    from: int,
    to: int,
)
    requires
        m.indexed(),
        isos.len() == 2197,
        0 <= from <= to <= 1728,
    ensures
        m.add_cells(pos, isos, from, to).indexed(),
        m.add_cells(pos, isos, from, to).tris.len() == m.tris.len() + (to - from),
        m.add_cells(pos, isos, from, to).inds.len() <= m.inds.len() + 15 * (to - from),
    decreases to - from,
{
    if to > from {
        lemma_add_cells_indexed(m, pos, isos, from, to - 1);
        let before = m.add_cells(pos, isos, from, to - 1);
        let cuts = cell_cuts(pos, isos, to - 1);
        assert forall|k: int| 0 <= k < cuts.len() implies (#[trigger] cuts[k]).slot < 6591 by {
            lemma_cut_slot_bound(pos, isos, to - 1, k);
        }
        lemma_emit_all_indexed(before, cuts);
        lemma_emit_all_keeps_tris(before, cuts);
    }
}

/// The coordinates of a cell's number are those of a cell.
pub proof fn lemma_cell_coords_in_range(n: int)
    requires
        0 <= n < 1728,
    ensures
        0 <= cell_x(n) < 12,
        0 <= cell_y(n) < 12,
        0 <= cell_z(n) < 12,
{
    assert(cell_x(n) == n / 144);
    assert(cell_y(n) == (n / 12) % 12);
    assert(cell_z(n) == n % 12);
}

/// Every digit of a row that belongs to one of its triangles names a cube
/// edge.
pub proof fn lemma_row_entry_is_edge(row: u64, k: int)
    requires
        0 <= k < 3 * tri_count(row),
    ensures
        0 <= row_entry(row, k) < 12,
{
    let t = k / 3;
    assert(triple_ok(row, t));
    assert(k == 3 * t || k == 3 * t + 1 || k == 3 * t + 2);
    let shift = (60 - 4 * k) as u64;
    assert((row >> shift) & 0xF >= 0) by (bit_vector);
}

/// The cut of a cube edge of a cell lies on one of the chunk's lattice
/// edges.
pub proof fn lemma_edge_slot_in_range(
    pos: (i32, i32, i32),
    isos: Seq<i32>,
    x: int,
    y: int,
    z: int,
    e: int,
)
    requires
        0 <= x < 12,
        0 <= y < 12,
        0 <= z < 12,
        0 <= e < 12,
    ensures
        edge_cut(pos, isos, x, y, z, e).slot < 6591,
{
    lemma_cube_edge_is_unit(x, y, z, e);
    let lo = crate::lattice::edge_lo(x, y, z, e);
    assert(crate::lattice::iso_index(lo.0, lo.1, lo.2) == lo.0 * 169 + lo.1 * 13 + lo.2);
}

/// Every cut that a cell lists lies on one of the chunk's lattice edges.
pub proof fn lemma_cut_slot_bound(pos: (i32, i32, i32), isos: Seq<i32>, n: int, k: int)
    requires
        0 <= n < 1728,
        0 <= k < cell_cuts(pos, isos, n).len(),
    ensures
        cell_cuts(pos, isos, n)[k].slot < 6591,
{
    let row = cell_row(isos, n);
    lemma_row_entry_is_edge(row, k);
    lemma_cell_coords_in_range(n);
    lemma_edge_slot_in_range(pos, isos, cell_x(n), cell_y(n), cell_z(n), row_entry(row, k));
}

/// Recording cuts on lattice edges keeps a mesh indexed and adds one index
/// for each cut.
pub proof fn lemma_emit_all_indexed(m: Mesh, cuts: Seq<EdgeCut>)
    requires
        m.indexed(),
        forall|k: int| 0 <= k < cuts.len() ==> (#[trigger] cuts[k]).slot < 6591,
    ensures
        m.emit_all(cuts).indexed(),
        m.emit_all(cuts).inds.len() == m.inds.len() + cuts.len(),
    decreases cuts.len(),
{
    if cuts.len() > 0 {
        let front = cuts.drop_last();
        assert forall|k: int| 0 <= k < front.len() implies (#[trigger] front[k]).slot < 6591 by {
            assert(front[k] == cuts[k]);
        }
        lemma_emit_all_indexed(m, front);
        lemma_emit_indexed(m.emit_all(front), cuts.last());
    }
}

/// Recording one cut on a lattice edge keeps a mesh indexed.
pub proof fn lemma_emit_indexed(m: Mesh, cut: EdgeCut)
    requires
        m.indexed(),
        cut.slot < 6591,
    ensures
        m.emit(cut).indexed(),
        m.emit(cut).inds.len() == m.inds.len() + 1,
{
    let after = m.emit(cut);
    lemma_distinct_below(m.slots, 6591);
    if m.slots.contains(cut.slot) {
        let at = m.slots.index_of(cut.slot);
        assert forall|j: int| 0 <= j < after.inds.len() implies #[trigger] after.inds[j]
            < after.verts.len() by {
            if j < m.inds.len() {
                assert(after.inds[j] == m.inds[j]);
            }
        }
    } else {
        let grown = m.slots.push(cut.slot);
        assert forall|i: int| 0 <= i < grown.len() implies #[trigger] grown[i] < 6591 by {
            if i < m.slots.len() {
                assert(grown[i] == m.slots[i]);
            }
        }
        assert(grown.no_duplicates());
        lemma_distinct_below(grown, 6591);
        assert forall|j: int| 0 <= j < after.inds.len() implies #[trigger] after.inds[j]
            < after.verts.len() by {
            if j < m.inds.len() {
                assert(after.inds[j] == m.inds[j]);
            }
        }
    }
}

} // verus!
