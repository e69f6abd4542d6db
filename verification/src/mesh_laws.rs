use vstd::prelude::*;
use crate::draw::Vert;
use crate::lattice::{
    EdgeCut, crossing_point, edge_axis, edge_cut, edge_hi, edge_lo, edge_slot, iso_index,
    lattice_of, lemma_cube_edge_is_unit, lemma_scaled_ratio_bound, lemma_shared_edge_same_point,
    on_lattice, row_entry, crossing_offset, CELL_COUNT,
};
use crate::mesh::{
    Mesh, cell_cuts, cell_row, cell_tris, cell_x, cell_y, cell_z, lemma_cell_coords_in_range,
    lemma_distinct_below, lemma_row_entry_is_edge,
};
use crate::table_laws::{lemma_listed_cut_is_a_crossing, sides_differ};
use crate::ray::{diff, within, RAY_DIR_LIMIT};
use crate::util::{Point, Tri, lemma_product_bound, CELL_UNITS};

verus! {

/// The first end of the lattice edge with a given number.
pub open spec fn slot_lo(slot: int) -> (int, int, int) {
    let idx = slot / 3;
    (idx / 169, (idx / 13) % 13, idx % 13)
}

/// The second end of the lattice edge with a given number: one cell from the
/// first along the edge's axis.
pub open spec fn slot_hi(slot: int) -> (int, int, int) {
    let lo = slot_lo(slot);
    let axis = slot % 3;
    (
        lo.0 + if axis == 0 { 1int } else { 0 },
        lo.1 + if axis == 1 { 1int } else { 0 },
        lo.2 + if axis == 2 { 1int } else { 0 },
    )
}

/// The point where the surface cuts the lattice edge with a given number.
pub open spec fn slot_point(pos: (i32, i32, i32), isos: Seq<i32>, slot: int) -> Point {
    crossing_point(pos, isos, slot_lo(slot), slot_hi(slot))
}

/// Both ends of the lattice edge with a given number are points of the
/// chunk's lattice.
pub open spec fn slot_on_lattice(slot: int) -> bool {
    let lo = slot_lo(slot);
    let hi = slot_hi(slot);
    on_lattice(lo.0, lo.1, lo.2) && on_lattice(hi.0, hi.1, hi.2)
}

/// Whether the surface crosses the lattice edge with a given number: the
/// densities at its two ends lie on different sides of the surface level.
pub open spec fn slot_crossed(isos: Seq<i32>, slot: int) -> bool {
    let lo = slot_lo(slot);
    let hi = slot_hi(slot);
    sides_differ(
        isos[iso_index(lo.0, lo.1, lo.2)] as int,
        isos[iso_index(hi.0, hi.1, hi.2)] as int,
    )
}

impl Mesh {
    /// Every vertex lies where the surface cuts its lattice edge, an edge
    /// between two points of the chunk's lattice that the surface crosses,
    /// and has the colour of the terrain there.
    pub open spec fn placed(self, pos: (i32, i32, i32), isos: Seq<i32>) -> bool {
        forall|i: int|
            0 <= i < self.verts.len() ==> {
                &&& #[trigger] self.verts[i] == Vert::at(
                    slot_point(pos, isos, self.slots[i] as int),
                )
                &&& slot_on_lattice(self.slots[i] as int)
                &&& slot_crossed(isos, self.slots[i] as int)
            }
    }

    /// The triangle that indices `3k`, `3k + 1` and `3k + 2` draw.
    pub open spec fn tri_at(self, k: int) -> Tri {
        Tri::of(
            self.verts[self.inds[3 * k] as int].pos,
            self.verts[self.inds[3 * k + 1] as int].pos,
            self.verts[self.inds[3 * k + 2] as int].pos,
        )
    }

    /// The triangles that the indices draw, in order.
    pub open spec fn drawn(self) -> Seq<Tri> {
        Seq::new((self.inds.len() / 3) as nat, |k: int| self.tri_at(k))
    }

    /// What ties the parts of a mesh together: it is indexed, its vertices
    /// lie on their edges, and its indices draw the triangles that its cells
    /// list, cell after cell.
    pub open spec fn coherent(self, pos: (i32, i32, i32), isos: Seq<i32>) -> bool {
        &&& self.indexed()
        &&& self.placed(pos, isos)
        &&& self.inds.len() % 3 == 0
        &&& self.tris.flatten() == self.drawn()
    }
}

/// What one cell cuts lies where the surface cuts the lattice edge of that
/// number: every cell around an edge finds the same point for it.
pub proof fn lemma_cut_lies_on_its_slot(
    pos: (i32, i32, i32),
    isos: Seq<i32>,
    x: int,
    y: int,
    z: int,
    e: int,
)
    requires
        0 <= x < 12,
        0 <= y < 12,
        0 <= z < 12,
        0 <= e < 12,
    ensures
        edge_cut(pos, isos, x, y, z, e).point == slot_point(
            pos,
            isos,
            edge_cut(pos, isos, x, y, z, e).slot as int,
        ),
        edge_cut(pos, isos, x, y, z, e).slot < 6591,
        slot_on_lattice(edge_cut(pos, isos, x, y, z, e).slot as int),
        slot_lo(edge_cut(pos, isos, x, y, z, e).slot as int) == edge_lo(x, y, z, e),
        slot_hi(edge_cut(pos, isos, x, y, z, e).slot as int) == edge_hi(x, y, z, e),
{
    lemma_cube_edge_is_unit(x, y, z, e);
    lemma_unit_edge_point(pos, isos, edge_lo(x, y, z, e), edge_hi(x, y, z, e));
}

/// The number of a lattice edge that runs one cell along an axis leads back
/// to the edge's ends.
pub proof fn lemma_unit_edge_point(
    pos: (i32, i32, i32),
    isos: Seq<i32>,
    lo: (int, int, int),
    hi: (int, int, int),
)
    requires
        0 <= lo.0 <= 12,
        0 <= lo.1 <= 12,
        0 <= lo.2 <= 12,
        hi.0 == lo.0 + (if edge_axis(lo, hi) == 0 { 1int } else { 0 }),
        hi.1 == lo.1 + (if edge_axis(lo, hi) == 1 { 1int } else { 0 }),
        hi.2 == lo.2 + (if edge_axis(lo, hi) == 2 { 1int } else { 0 }),
    ensures
        0 <= edge_slot(lo, hi) < 6591,
        slot_lo(edge_slot(lo, hi)) == lo,
        slot_hi(edge_slot(lo, hi)) == hi,
        crossing_point(pos, isos, lo, hi) == slot_point(pos, isos, edge_slot(lo, hi)),
{
    let axis = edge_axis(lo, hi);
    let idx = lo.0 * 169 + lo.1 * 13 + lo.2;
    let slot = 3 * idx + axis;
    assert(iso_index(lo.0, lo.1, lo.2) == idx);
    assert(edge_slot(lo, hi) == slot);
    assert(0 <= idx < 2197);
    assert(0 <= axis < 3);
    assert(slot / 3 == idx);
    assert(slot % 3 == axis);
    assert(idx / 169 == lo.0);
    assert((idx / 13) % 13 == lo.1);
    assert(idx % 13 == lo.2);
}

/// Recording one cut that lies on its lattice edge keeps a mesh indexed and
/// its vertices in place, leaves the vertices and indices before it alone,
/// and adds an index that names a vertex at the cut.
pub proof fn lemma_emit_coherent(m: Mesh, pos: (i32, i32, i32), isos: Seq<i32>, cut: EdgeCut)
    requires
        m.indexed(),
        m.placed(pos, isos),
        cut.slot < 6591,
        cut.point == slot_point(pos, isos, cut.slot as int),
        slot_on_lattice(cut.slot as int),
        slot_crossed(isos, cut.slot as int),
    ensures
        m.emit(cut).indexed(),
        m.emit(cut).placed(pos, isos),
        m.emit(cut).tris == m.tris,
        m.emit(cut).verts.len() >= m.verts.len(),
        m.emit(cut).verts.take(m.verts.len() as int) == m.verts,
        m.emit(cut).inds.len() == m.inds.len() + 1,
        m.emit(cut).inds.take(m.inds.len() as int) == m.inds,
        m.emit(cut).verts[m.emit(cut).inds[m.inds.len() as int] as int].pos == cut.point,
{
    let after = m.emit(cut);
    crate::mesh::lemma_emit_indexed(m, cut);
    lemma_distinct_below(m.slots, 6591);
    if m.slots.contains(cut.slot) {
        let at = m.slots.index_of(cut.slot);
        assert(m.verts[at] == Vert::at(slot_point(pos, isos, m.slots[at] as int)));
        assert(after.verts.take(m.verts.len() as int) =~= m.verts);
        assert(after.inds.take(m.inds.len() as int) =~= m.inds);
    } else {
        lemma_distinct_below(m.slots.push(cut.slot), 6591);
        assert(after.verts.take(m.verts.len() as int) =~= m.verts);
        assert(after.inds.take(m.inds.len() as int) =~= m.inds);
        assert forall|i: int| 0 <= i < after.verts.len() implies #[trigger] after.verts[i]
            == Vert::at(slot_point(pos, isos, after.slots[i] as int)) && slot_on_lattice(
            after.slots[i] as int,
        ) && slot_crossed(isos, after.slots[i] as int) by {
            if i < m.verts.len() {
                assert(after.verts[i] == m.verts[i]);
                assert(after.slots[i] == m.slots[i]);
            }
        }
    }
}

/// Recording cuts that lie on their lattice edges keeps a mesh indexed and
/// its vertices in place, leaves the vertices and indices before them
/// alone, and adds for each cut an index that names a vertex at the cut.
pub proof fn lemma_emit_all_coherent(
    m: Mesh,
    pos: (i32, i32, i32),
    isos: Seq<i32>,
    cuts: Seq<EdgeCut>,
)
    requires
        m.indexed(),
        m.placed(pos, isos),
        forall|j: int|
            0 <= j < cuts.len() ==> (#[trigger] cuts[j]).slot < 6591 && cuts[j].point == slot_point(
                pos,
                isos,
                cuts[j].slot as int,
            ) && slot_on_lattice(cuts[j].slot as int) && slot_crossed(isos, cuts[j].slot as int),
    ensures
        m.emit_all(cuts).indexed(),
        m.emit_all(cuts).placed(pos, isos),
        m.emit_all(cuts).tris == m.tris,
        m.emit_all(cuts).verts.len() >= m.verts.len(),
        m.emit_all(cuts).verts.take(m.verts.len() as int) == m.verts,
        m.emit_all(cuts).inds.len() == m.inds.len() + cuts.len(),
        m.emit_all(cuts).inds.take(m.inds.len() as int) == m.inds,
        forall|j: int|
            0 <= j < cuts.len() ==> m.emit_all(cuts).verts[m.emit_all(cuts).inds[m.inds.len()
                + j] as int].pos == (#[trigger] cuts[j]).point,
    decreases cuts.len(),
{
    let after = m.emit_all(cuts);
    if cuts.len() == 0 {
        assert(after.verts.take(m.verts.len() as int) =~= m.verts);
        assert(after.inds.take(m.inds.len() as int) =~= m.inds);
    } else {
        let front = cuts.drop_last();
        let last = cuts.last();
        assert forall|j: int| 0 <= j < front.len() implies (#[trigger] front[j]).slot < 6591
            && front[j].point == slot_point(pos, isos, front[j].slot as int) && slot_on_lattice(
            front[j].slot as int,
        ) && slot_crossed(isos, front[j].slot as int) by {
            assert(front[j] == cuts[j]);
        }
        lemma_emit_all_coherent(m, pos, isos, front);
        let mid = m.emit_all(front);
        assert(last == cuts[cuts.len() - 1]);
        lemma_emit_coherent(mid, pos, isos, last);
        assert(after == mid.emit(last));
        assert(after.verts.take(m.verts.len() as int) =~= mid.verts.take(m.verts.len() as int));
        assert(after.inds.take(m.inds.len() as int) =~= mid.inds.take(m.inds.len() as int));
        assert forall|j: int| 0 <= j < cuts.len() implies after.verts[after.inds[m.inds.len()
            + j] as int].pos == (#[trigger] cuts[j]).point by {
            if j < front.len() {
                let at = m.inds.len() + j;
                assert(front[j] == cuts[j]);
                assert(after.inds.take(mid.inds.len() as int)[at] == mid.inds[at]);
                assert(after.inds[at] == mid.inds[at]);
                assert(mid.inds[at] < mid.verts.len());
                assert(after.verts.take(mid.verts.len() as int)[mid.inds[at] as int]
                    == mid.verts[mid.inds[at] as int]);
            } else {
                assert(m.inds.len() + j == mid.inds.len());
            }
        }
    }
}

/// Every cut that a cell lists lies on a lattice edge of the chunk, at the
/// point where the surface cuts that edge.
pub proof fn lemma_cell_cuts_on_slots(pos: (i32, i32, i32), isos: Seq<i32>, n: int)
    requires
        0 <= n < 1728,
    ensures
        forall|j: int|
            0 <= j < cell_cuts(pos, isos, n).len() ==> {
                let cut = #[trigger] cell_cuts(pos, isos, n)[j];
                &&& cut.slot < 6591
                &&& cut.point == slot_point(pos, isos, cut.slot as int)
                &&& slot_on_lattice(cut.slot as int)
                &&& slot_crossed(isos, cut.slot as int)
            },
{
    let cuts = cell_cuts(pos, isos, n);
    let row = cell_row(isos, n);
    lemma_cell_coords_in_range(n);
    assert forall|j: int| 0 <= j < cuts.len() implies {
        let cut = #[trigger] cuts[j];
        &&& cut.slot < 6591
        &&& cut.point == slot_point(pos, isos, cut.slot as int)
        &&& slot_on_lattice(cut.slot as int)
        &&& slot_crossed(isos, cut.slot as int)
    } by {
        lemma_row_entry_is_edge(row, j);
        lemma_cut_lies_on_its_slot(
            pos,
            isos,
            cell_x(n),
            cell_y(n),
            cell_z(n),
            row_entry(row, j),
        );
        lemma_listed_cut_is_a_crossing(isos, cell_x(n), cell_y(n), cell_z(n), j);
    }
}

/// When a mesh grows by the indices of some cuts, three for each triangle of
/// a list over those cuts, the triangles that it draws grow by that list.
pub proof fn lemma_drawn_grows(m: Mesh, grown: Mesh, cuts: Seq<EdgeCut>, list: Seq<Tri>)
    requires
        m.indexed(),
        m.inds.len() % 3 == 0,
        cuts.len() == 3 * list.len(),
        grown.verts.len() >= m.verts.len(),
        grown.verts.take(m.verts.len() as int) == m.verts,
        grown.inds.len() == m.inds.len() + cuts.len(),
        grown.inds.take(m.inds.len() as int) == m.inds,
        forall|j: int|
            0 <= j < cuts.len() ==> grown.verts[grown.inds[m.inds.len() + j] as int].pos == (
            #[trigger] cuts[j]).point,
        forall|t: int|
            0 <= t < list.len() ==> #[trigger] list[t] == Tri::of(
                cuts[3 * t].point,
                cuts[3 * t + 1].point,
                cuts[3 * t + 2].point,
            ),
    ensures
        grown.inds.len() % 3 == 0,
        grown.drawn() == m.drawn() + list,
{
    let base = m.inds.len() as int;
    assert(grown.drawn().len() == m.drawn().len() + list.len());
    assert forall|k: int| 0 <= k < grown.drawn().len() implies #[trigger] grown.drawn()[k] == (
    m.drawn() + list)[k] by {
        if k < m.drawn().len() {
            lemma_same_triangle(m, grown, k);
        } else {
            let t = k - m.drawn().len();
            assert(3 * k == base + 3 * t);
            assert(grown.verts[grown.inds[base + 3 * t] as int].pos == cuts[3 * t].point);
            assert(grown.verts[grown.inds[base + (3 * t + 1)] as int].pos == cuts[3 * t
                + 1].point);
            assert(grown.verts[grown.inds[base + (3 * t + 2)] as int].pos == cuts[3 * t
                + 2].point);
        }
    }
    assert(grown.drawn() =~= m.drawn() + list);
}

/// Triangulating a cell keeps a mesh coherent.
pub proof fn lemma_add_cell_coherent(m: Mesh, pos: (i32, i32, i32), isos: Seq<i32>, n: int)
    requires
        m.coherent(pos, isos),
        0 <= n < 1728,
    ensures
        m.add_cell(pos, isos, n).coherent(pos, isos),
{
    let cuts = cell_cuts(pos, isos, n);
    let list = cell_tris(pos, isos, n);
    lemma_cell_cuts_on_slots(pos, isos, n);
    lemma_emit_all_coherent(m, pos, isos, cuts);
    let mid = m.emit_all(cuts);
    let after = m.add_cell(pos, isos, n);
    lemma_drawn_grows(m, mid, cuts, list);
    assert(after.drawn() == mid.drawn());
    m.tris.lemma_flatten_push(list);
}

/// A mesh that has grown keeps the triangles that its first indices drew.
pub proof fn lemma_same_triangle(m: Mesh, grown: Mesh, k: int)
    requires
        m.indexed(),
        grown.verts.len() >= m.verts.len(),
        grown.verts.take(m.verts.len() as int) == m.verts,
        grown.inds.len() >= m.inds.len(),
        grown.inds.take(m.inds.len() as int) == m.inds,
        0 <= k,
        3 * k + 2 < m.inds.len(),
    ensures
        grown.tri_at(k) == m.tri_at(k),
{
    lemma_same_vertex(m, grown, 3 * k);
    lemma_same_vertex(m, grown, 3 * k + 1);
    lemma_same_vertex(m, grown, 3 * k + 2);
}

/// A mesh that has grown keeps the vertices that its first indices named.
pub proof fn lemma_same_vertex(m: Mesh, grown: Mesh, j: int)
    requires
        m.indexed(),
        grown.verts.len() >= m.verts.len(),
        grown.verts.take(m.verts.len() as int) == m.verts,
        grown.inds.len() >= m.inds.len(),
        grown.inds.take(m.inds.len() as int) == m.inds,
        0 <= j < m.inds.len(),
    ensures
        grown.inds[j] == m.inds[j],
        grown.verts[grown.inds[j] as int] == m.verts[m.inds[j] as int],
{
    assert(grown.inds.take(m.inds.len() as int)[j] == grown.inds[j]);
    let i = m.inds[j] as int;
    assert(i < m.verts.len());
    assert(grown.verts.take(m.verts.len() as int)[i] == grown.verts[i]);
}

/// Triangulating cells keeps a mesh coherent.
pub proof fn lemma_add_cells_coherent(
    m: Mesh,
    pos: (i32, i32, i32),
    isos: Seq<i32>,
    from: int,
    to: int,
)
    requires
        m.coherent(pos, isos),
        0 <= from <= to <= 1728,
    ensures
        m.add_cells(pos, isos, from, to).coherent(pos, isos),
    decreases to - from,
{
    if to > from {
        lemma_add_cells_coherent(m, pos, isos, from, to - 1);
        lemma_add_cell_coherent(m.add_cells(pos, isos, from, to - 1), pos, isos, to - 1);
    }
}

/// In the mesh of a chunk every vertex lies where the surface cuts its
/// lattice edge and has the colour of the terrain there, no lattice edge has
/// two vertices, and the indices, three
/// by three, draw exactly the triangles that the cells list, in the order
/// of the cells: what is handed to the graphics device and what is searched
/// for collisions is the same surface.
pub proof fn lemma_mesh_is_coherent(pos: (i32, i32, i32), isos: Seq<i32>)
    ensures
        Mesh::of_lattice(pos, isos).coherent(pos, isos),
        Mesh::of_lattice(pos, isos).tris.len() == CELL_COUNT,
{
    let empty = Mesh::empty();
    assert(empty.tris.flatten() =~= empty.drawn());
    lemma_add_cells_coherent(empty, pos, isos, 0, 1728);
    crate::mesh::lemma_add_cells_grow(empty, pos, isos, 0, 1728);
}

/// Where the meshes of two chunks that sample one density field both have a
/// vertex on a lattice edge that the chunks share, the two vertices are the
/// same, in place and in colour: along the face between neighbours the
/// surface has no gap between vertices.
pub proof fn lemma_meshes_meet(
    field: spec_fn((int, int, int)) -> i32,
    p: (i32, i32, i32),
    q: (i32, i32, i32),
    i: int,
    j: int,
)
    requires
        0 <= i < Mesh::of_lattice(p, lattice_of(field, p)).verts.len(),
        0 <= j < Mesh::of_lattice(q, lattice_of(field, q)).verts.len(),
        ({
            let a = Mesh::of_lattice(p, lattice_of(field, p)).slots[i] as int;
            let b = Mesh::of_lattice(q, lattice_of(field, q)).slots[j] as int;
            &&& a % 3 == b % 3
            &&& 12 * p.0 + slot_lo(a).0 == 12 * q.0 + slot_lo(b).0
            &&& 12 * p.1 + slot_lo(a).1 == 12 * q.1 + slot_lo(b).1
            &&& 12 * p.2 + slot_lo(a).2 == 12 * q.2 + slot_lo(b).2
        }),
    ensures
        Mesh::of_lattice(p, lattice_of(field, p)).verts[i] == Mesh::of_lattice(
            q,
            lattice_of(field, q),
        ).verts[j],
{
    let mp = Mesh::of_lattice(p, lattice_of(field, p));
    let mq = Mesh::of_lattice(q, lattice_of(field, q));
    lemma_mesh_is_coherent(p, lattice_of(field, p));
    lemma_mesh_is_coherent(q, lattice_of(field, q));
    let a = mp.slots[i] as int;
    let b = mq.slots[j] as int;
    assert(mp.verts[i] == Vert::at(slot_point(p, lattice_of(field, p), a)));
    assert(mq.verts[j] == Vert::at(slot_point(q, lattice_of(field, q), b)));
    lemma_shared_edge_same_point(field, p, q, slot_lo(a), slot_hi(a), slot_lo(b), slot_hi(b));
}

/// A crossing lies on its edge, whatever the densities at the ends.
pub proof fn lemma_crossing_lies_on_the_edge(da: int, db: int)
    ensures
        0 <= crossing_offset(da, db) <= CELL_UNITS,
{
    if da != db {
        let num = if db > da {
            crate::lattice::ISO_LEVEL - da
        } else {
            da - crate::lattice::ISO_LEVEL
        };
        let den = if db > da {
            db - da
        } else {
            da - db
        };
        if 0 < num < den {
            lemma_scaled_ratio_bound(CELL_UNITS as int, num, den);
        }
    }
}

/// Whether a coordinate of a point lies in the cell that begins at lattice
/// coordinate `x` of the chunk at coordinate `chunk` along one axis.
pub open spec fn in_cell_along(c: i64, chunk: i32, x: int) -> bool {
    (12 * chunk + x) * CELL_UNITS <= c <= (12 * chunk + x + 1) * CELL_UNITS
}

/// The cut of a cube edge of a cell lies in the cell.
pub proof fn lemma_cut_lies_in_its_cell(
    pos: (i32, i32, i32),
    isos: Seq<i32>,
    x: int,
    y: int,
    z: int,
    e: int,
)
    requires
        0 <= x < 12,
        0 <= y < 12,
        0 <= z < 12,
        0 <= e < 12,
    ensures
        in_cell_along(edge_cut(pos, isos, x, y, z, e).point.x, pos.0, x),
        in_cell_along(edge_cut(pos, isos, x, y, z, e).point.y, pos.1, y),
        in_cell_along(edge_cut(pos, isos, x, y, z, e).point.z, pos.2, z),
{
    lemma_cube_edge_is_unit(x, y, z, e);
    let lo = edge_lo(x, y, z, e);
    let hi = edge_hi(x, y, z, e);
    let off = crossing_offset(
        isos[iso_index(lo.0, lo.1, lo.2)] as int,
        isos[iso_index(hi.0, hi.1, hi.2)] as int,
    );
    lemma_crossing_lies_on_the_edge(
        isos[iso_index(lo.0, lo.1, lo.2)] as int,
        isos[iso_index(hi.0, hi.1, hi.2)] as int,
    );
    assert((hi.0 - lo.0) * off == (if hi.0 == lo.0 { 0 } else { off })) by (nonlinear_arith)
        requires
            hi.0 == lo.0 || hi.0 == lo.0 + 1,
    ;
    assert((hi.1 - lo.1) * off == (if hi.1 == lo.1 { 0 } else { off })) by (nonlinear_arith)
        requires
            hi.1 == lo.1 || hi.1 == lo.1 + 1,
    ;
    assert((hi.2 - lo.2) * off == (if hi.2 == lo.2 { 0 } else { off })) by (nonlinear_arith)
        requires
            hi.2 == lo.2 || hi.2 == lo.2 + 1,
    ;
}

/// Whether a point lies in the chunk at a coordinate or no more than four
/// cells outside it along any axis.
pub open spec fn near_chunk(from: Point, pos: (i32, i32, i32)) -> bool {
    &&& (12 * pos.0 - 4) * CELL_UNITS <= from.x <= (12 * pos.0 + 16) * CELL_UNITS
    &&& (12 * pos.1 - 4) * CELL_UNITS <= from.y <= (12 * pos.1 + 16) * CELL_UNITS
    &&& (12 * pos.2 - 4) * CELL_UNITS <= from.z <= (12 * pos.2 + 16) * CELL_UNITS
}

/// Every triangle of a chunk's mesh lies in one cell, so a ray can be cast at
/// it from anywhere in the chunk and from up to four cells outside it, in
/// any direction that is given with components of at most 1024.
pub proof fn lemma_mesh_triangle_is_castable(
    pos: (i32, i32, i32),
    isos: Seq<i32>,
    n: int,
    t: int,
    from: Point,
    dir: Point,
)
    requires
        0 <= n < 1728,
        0 <= t < cell_tris(pos, isos, n).len(),
        near_chunk(from, pos),
        within(diff(dir, Point { x: 0, y: 0, z: 0 }), RAY_DIR_LIMIT as int),
    ensures
        cell_tris(pos, isos, n)[t].castable(from, dir),
        Mesh::of_lattice(pos, isos).tris[n] == cell_tris(pos, isos, n),
{
    let row = cell_row(isos, n);
    let cuts = cell_cuts(pos, isos, n);
    let (x, y, z) = (cell_x(n), cell_y(n), cell_z(n));
    lemma_cell_coords_in_range(n);
    lemma_row_entry_is_edge(row, 3 * t);
    lemma_row_entry_is_edge(row, 3 * t + 1);
    lemma_row_entry_is_edge(row, 3 * t + 2);
    lemma_cut_lies_in_its_cell(pos, isos, x, y, z, row_entry(row, 3 * t));
    lemma_cut_lies_in_its_cell(pos, isos, x, y, z, row_entry(row, 3 * t + 1));
    lemma_cut_lies_in_its_cell(pos, isos, x, y, z, row_entry(row, 3 * t + 2));
    let a = cuts[3 * t].point;
    let b = cuts[3 * t + 1].point;
    let c = cuts[3 * t + 2].point;
    let tri = cell_tris(pos, isos, n)[t];
    assert(tri == Tri::of(a, b, c));
    assert(tri.verts[0] == a && tri.verts[1] == b && tri.verts[2] == c);
    let cell: int = CELL_UNITS as int;
    lemma_product_bound(b.y - a.y, c.z - a.z, cell, cell);
    lemma_product_bound(b.z - a.z, c.y - a.y, cell, cell);
    lemma_product_bound(b.z - a.z, c.x - a.x, cell, cell);
    lemma_product_bound(b.x - a.x, c.z - a.z, cell, cell);
    lemma_product_bound(b.x - a.x, c.y - a.y, cell, cell);
    lemma_product_bound(b.y - a.y, c.x - a.x, cell, cell);
    assert(cell * cell == 0x1_0000_0000) by (nonlinear_arith)
        requires
            cell == 0x1_0000,
    ;
    crate::mesh::lemma_add_cells_grow(Mesh::empty(), pos, isos, 0, 1728);
    assert(Mesh::of_lattice(pos, isos).tris[0 + n - 0] == cell_tris(pos, isos, n));
}

} // verus!
