use vstd::prelude::*;
use crate::lattice::{
    EdgeCut, edge_axis, edge_cut, edge_hi, edge_lo, edge_slot, iso_index, lattice_of,
    lemma_lattice_point_of_index, on_lattice, row_entry, tri_count,
};
use crate::mesh::{
    Mesh, cell_cuts, cell_number, cell_row, cell_tris, lemma_add_cells_grow,
    lemma_cell_number_coords,
};
use crate::mesh_laws::{
    lemma_mesh_is_coherent, lemma_meshes_meet, lemma_unit_edge_point, slot_crossed, slot_hi,
    slot_lo, slot_on_lattice,
};
use crate::chunk::{BuildState, ChunkView, is_blank};
use crate::table_laws::{edge_crossed, lemma_cell_lists_the_crossed_edges};

verus! {

/// Whether one of the cuts has the given edge number.
pub open spec fn cuts_hold(cuts: Seq<EdgeCut>, slot: usize) -> bool {
    exists|j: int| 0 <= j < cuts.len() && (#[trigger] cuts[j]).slot == slot
}

/// Whether one of the cells numbered `from..to` lists a cut with the given
/// edge number.
pub open spec fn cells_hold(
    pos: (i32, i32, i32),
    isos: Seq<i32>,
    from: int,
    to: int,
    slot: usize,
) -> bool {
    exists|n: int| from <= n < to && #[trigger] cuts_hold(cell_cuts(pos, isos, n), slot)
}

/// After cuts have been recorded, a lattice edge has a vertex if it had one
/// before or is the edge of one of the cuts.
pub proof fn lemma_emitted_slots(m: Mesh, cuts: Seq<EdgeCut>, slot: usize)
    ensures
        m.emit_all(cuts).slots.contains(slot) <==> m.slots.contains(slot) || cuts_hold(cuts, slot),
    decreases cuts.len(),
{
    if cuts.len() > 0 {
        let front = cuts.drop_last();
        let last = cuts.last();
        lemma_emitted_slots(m, front, slot);
        let mid = m.emit_all(front);
        let after = mid.emit(last);
        assert(after.slots.contains(slot) <==> mid.slots.contains(slot) || last.slot == slot) by {
            if mid.slots.contains(last.slot) {
            } else {
                let grown = mid.slots.push(last.slot);
                assert(grown[grown.len() - 1] == last.slot);
                if mid.slots.contains(slot) {
                    let i = mid.slots.index_of(slot);
                    assert(grown[i] == slot);
                }
                if grown.contains(slot) {
                    let i = grown.index_of(slot);
                    if i < mid.slots.len() {
                        assert(mid.slots[i] == slot);
                    }
                }
            }
        }
        if cuts_hold(front, slot) {
            let j = choose|j: int| 0 <= j < front.len() && (#[trigger] front[j]).slot == slot;
            assert(cuts[j].slot == slot);
        }
        if last.slot == slot {
            assert(cuts[cuts.len() - 1].slot == slot);
        }
        if cuts_hold(cuts, slot) {
            let j = choose|j: int| 0 <= j < cuts.len() && (#[trigger] cuts[j]).slot == slot;
            if j < front.len() {
                assert(front[j].slot == slot);
            }
        }
    }
}

/// After cells have been triangulated, a lattice edge has a vertex if it had
/// one before or one of the cells lists a cut of it.
pub proof fn lemma_meshed_slots(
    m: Mesh,
    pos: (i32, i32, i32),
    isos: Seq<i32>,
    from: int,
    to: int,
    slot: usize,
)
    requires
        from <= to,
    ensures
        m.add_cells(pos, isos, from, to).slots.contains(slot) <==> m.slots.contains(slot)
            || cells_hold(pos, isos, from, to, slot),
    decreases to - from,
{
    if to > from {
        lemma_meshed_slots(m, pos, isos, from, to - 1, slot);
        let before = m.add_cells(pos, isos, from, to - 1);
        lemma_emitted_slots(before, cell_cuts(pos, isos, to - 1), slot);
        if cells_hold(pos, isos, from, to - 1, slot) {
            let n = choose|n: int|
                from <= n < to - 1 && #[trigger] cuts_hold(cell_cuts(pos, isos, n), slot);
            assert(cuts_hold(cell_cuts(pos, isos, n), slot));
        }
        if cells_hold(pos, isos, from, to, slot) {
            let n = choose|n: int|
                from <= n < to && #[trigger] cuts_hold(cell_cuts(pos, isos, n), slot);
            if n < to - 1 {
                assert(cuts_hold(cell_cuts(pos, isos, n), slot));
            }
        }
    }
}

/// Every lattice edge of a chunk is a cube edge of one of its cells: the
/// cell and the number of the edge in it.
pub open spec fn cell_of_edge(lo: (int, int, int), axis: int) -> (int, int, int, int) {
    let x = if lo.0 < 12 || axis == 0 {
        lo.0
    } else {
        11
    };
    let y = if lo.1 < 12 || axis == 1 {
        lo.1
    } else {
        11
    };
    let z = if lo.2 < 12 || axis == 2 {
        lo.2
    } else {
        11
    };
    let dx = lo.0 - x;
    let dy = lo.1 - y;
    let dz = lo.2 - z;
    let e = if axis == 0 {
        if dy == 0 && dz == 0 {
            0int
        } else if dy == 0 {
            2
        } else if dz == 0 {
            4
        } else {
            6
        }
    } else if axis == 1 {
        if dx == 0 && dz == 0 {
            8int
        } else if dz == 0 {
            9
        } else if dx == 0 {
            11
        } else {
            10
        }
    } else {
        if dx == 0 && dy == 0 {
            3int
        } else if dy == 0 {
            1
        } else if dx == 0 {
            7
        } else {
            5
        }
    };
    (x, y, z, e)
}

/// The cell that `cell_of_edge` names has the lattice edge as the cube edge
/// that it names.
pub proof fn lemma_cell_of_edge(slot: int)
    requires
        0 <= slot,
        slot_on_lattice(slot),
    ensures
        ({
            let (x, y, z, e) = cell_of_edge(slot_lo(slot), slot % 3);
            &&& 0 <= x < 12 && 0 <= y < 12 && 0 <= z < 12
            &&& 0 <= e < 12
            &&& edge_lo(x, y, z, e) == slot_lo(slot)
            &&& edge_hi(x, y, z, e) == slot_hi(slot)
            &&& edge_slot(slot_lo(slot), slot_hi(slot)) == slot
        }),
{
    let lo = slot_lo(slot);
    let hi = slot_hi(slot);
    let axis = slot % 3;
    let idx = slot / 3;
    assert(lo.0 == idx / 169 && lo.1 == (idx / 13) % 13 && lo.2 == idx % 13);
    assert(idx == lo.0 * 169 + lo.1 * 13 + lo.2);
    assert(iso_index(lo.0, lo.1, lo.2) == idx);
    assert(edge_axis(lo, hi) == axis);
    let (x, y, z, e) = cell_of_edge(lo, axis);
    crate::lattice::lemma_cube_edge_is_unit(x, y, z, e);
    assert(edge_lo(x, y, z, e) == lo);
    assert(edge_hi(x, y, z, e) == hi);
}

/// A cube edge of a cell that the surface crosses is among the cuts that the
/// cell lists.
pub proof fn lemma_crossed_edge_is_listed(
    pos: (i32, i32, i32),
    isos: Seq<i32>,
    x: int,
    y: int,
    z: int,
    e: int,
)
    requires
        0 <= x < 12,
        0 <= y < 12,
        0 <= z < 12,
        0 <= e < 12,
        edge_crossed(isos, x, y, z, e),
    ensures
        cuts_hold(cell_cuts(pos, isos, cell_number(x, y, z)), edge_cut(pos, isos, x, y, z, e).slot),
{
    let n = cell_number(x, y, z);
    lemma_cell_number_coords(x, y, z);
    lemma_cell_lists_the_crossed_edges(isos, x, y, z);
    let row = cell_row(isos, n);
    let k = choose|k: int| 0 <= k < 3 * tri_count(row) && row_entry(row, k) == e;
    let cuts = cell_cuts(pos, isos, n);
    assert(cuts[k] == edge_cut(pos, isos, x, y, z, e));
}

/// A lattice edge of a chunk that the surface crosses is cut by one of the
/// chunk's cells.
pub proof fn lemma_crossed_slot_is_listed(pos: (i32, i32, i32), isos: Seq<i32>, slot: usize)
    requires
        slot_on_lattice(slot as int),
        slot_crossed(isos, slot as int),
    ensures
        cells_hold(pos, isos, 0, 1728, slot),
{
    lemma_cell_of_edge(slot as int);
    let (x, y, z, e) = cell_of_edge(slot_lo(slot as int), slot as int % 3);
    lemma_edge_ends_are_corners(x, y, z, e);
    lemma_crossed_edge_is_listed(pos, isos, x, y, z, e);
    let n = cell_number(x, y, z);
    assert(0 <= n < 1728);
    assert(edge_cut(pos, isos, x, y, z, e).slot == slot);
    assert(cuts_hold(cell_cuts(pos, isos, n), slot));
}

/// A vertex of the mesh of a chunk lies on a lattice edge that the surface
/// crosses.
pub proof fn lemma_vertex_is_on_a_crossing(pos: (i32, i32, i32), isos: Seq<i32>, slot: usize)
    requires
        Mesh::of_lattice(pos, isos).slots.contains(slot),
    ensures
        slot_crossed(isos, slot as int),
        slot_on_lattice(slot as int),
{
    let mesh = Mesh::of_lattice(pos, isos);
    lemma_mesh_is_coherent(pos, isos);
    assert(mesh.indexed());
    assert(mesh.placed(pos, isos));
    let i = mesh.slots.index_of(slot);
    assert(0 <= i < mesh.verts.len());
    assert(mesh.slots[i] == slot);
    let v = mesh.verts[i];
    assert(slot_crossed(isos, mesh.slots[i] as int));
}

/// The mesh of a chunk has a vertex on a lattice edge of the chunk exactly
/// if the surface crosses the edge.
pub proof fn lemma_vertex_where_the_surface_crosses(
    pos: (i32, i32, i32),
    isos: Seq<i32>,
    slot: usize,
)
    requires
        slot_on_lattice(slot as int),
    ensures
        Mesh::of_lattice(pos, isos).slots.contains(slot) <==> slot_crossed(isos, slot as int),
{
    lemma_meshed_slots(Mesh::empty(), pos, isos, 0, 1728, slot);
    if Mesh::of_lattice(pos, isos).slots.contains(slot) {
        lemma_vertex_is_on_a_crossing(pos, isos, slot);
    }
    if slot_crossed(isos, slot as int) {
        lemma_crossed_slot_is_listed(pos, isos, slot);
    }
}

/// The two ends of a cube edge of a cell are the two corners of the cell
/// that the edge table names, in one order or the other.
pub proof fn lemma_edge_ends_are_corners(x: int, y: int, z: int, e: int)
    requires
        0 <= e < 12,
    ensures
        ({
            let a = crate::lattice::cell_corner(
                x,
                y,
                z,
                crate::marching_table::EDGE_VERTEX_INDICES[e][0] as int,
            );
            let b = crate::lattice::cell_corner(
                x,
                y,
                z,
                crate::marching_table::EDGE_VERTEX_INDICES[e][1] as int,
            );
            let lo = edge_lo(x, y, z, e);
            let hi = edge_hi(x, y, z, e);
            (lo == a && hi == b) || (lo == b && hi == a)
        }),
{
}

/// Two chunks that sample one density field agree on every lattice edge
/// that they share: either both meshes have a vertex on it, the same vertex
/// in place and colour, or neither has. Along the face between neighbours
/// the surfaces meet vertex for vertex.
pub proof fn lemma_neighbours_are_watertight(
    field: spec_fn((int, int, int)) -> i32,
    p: (i32, i32, i32),
    q: (i32, i32, i32),
    a: usize,
    b: usize,
)
    requires
        slot_on_lattice(a as int),
        slot_on_lattice(b as int),
        a % 3 == b % 3,
        12 * p.0 + slot_lo(a as int).0 == 12 * q.0 + slot_lo(b as int).0,
        12 * p.1 + slot_lo(a as int).1 == 12 * q.1 + slot_lo(b as int).1,
        12 * p.2 + slot_lo(a as int).2 == 12 * q.2 + slot_lo(b as int).2,
    ensures
        ({
            let mp = Mesh::of_lattice(p, lattice_of(field, p));
            let mq = Mesh::of_lattice(q, lattice_of(field, q));
            &&& mp.slots.contains(a) <==> mq.slots.contains(b)
            &&& mp.slots.contains(a) ==> mp.verts[mp.slots.index_of(a)] == mq.verts[mq.slots.index_of(
                b,
            )]
        }),
{
    let ip = lattice_of(field, p);
    let iq = lattice_of(field, q);
    let mp = Mesh::of_lattice(p, ip);
    let mq = Mesh::of_lattice(q, iq);
    lemma_vertex_where_the_surface_crosses(p, ip, a);
    lemma_vertex_where_the_surface_crosses(q, iq, b);
    let lo_p = slot_lo(a as int);
    let hi_p = slot_hi(a as int);
    let lo_q = slot_lo(b as int);
    let hi_q = slot_hi(b as int);
    lemma_lattice_point_of_index(p, lo_p.0, lo_p.1, lo_p.2);
    lemma_lattice_point_of_index(p, hi_p.0, hi_p.1, hi_p.2);
    lemma_lattice_point_of_index(q, lo_q.0, lo_q.1, lo_q.2);
    lemma_lattice_point_of_index(q, hi_q.0, hi_q.1, hi_q.2);
    assert(slot_crossed(ip, a as int) == slot_crossed(iq, b as int));
    if mp.slots.contains(a) {
        lemma_mesh_is_coherent(p, ip);
        lemma_mesh_is_coherent(q, iq);
        let i = mp.slots.index_of(a);
        let j = mq.slots.index_of(b);
        lemma_meshes_meet(field, p, q, i, j);
    }
}

/// Every vertex that the mesh of one chunk has on a lattice edge which also
/// belongs to the lattice of another chunk is a vertex of the mesh of that
/// chunk too, if both sample one density field. Between neighbours these are
/// the edges that lie in the face they share: whatever vertex one of them
/// has there, the other has as well.
pub proof fn lemma_shared_vertices_have_partners(
    field: spec_fn((int, int, int)) -> i32,
    p: (i32, i32, i32),
    q: (i32, i32, i32),
    i: int,
)
    requires
        0 <= i < Mesh::of_lattice(p, lattice_of(field, p)).verts.len(),
        ({
            let a = Mesh::of_lattice(p, lattice_of(field, p)).slots[i] as int;
            let lo = slot_lo(a);
            let hi = slot_hi(a);
            &&& on_lattice(lo.0 + 12 * (p.0 - q.0), lo.1 + 12 * (p.1 - q.1), lo.2 + 12 * (p.2 - q.2))
            &&& on_lattice(hi.0 + 12 * (p.0 - q.0), hi.1 + 12 * (p.1 - q.1), hi.2 + 12 * (p.2 - q.2))
        }),
    ensures
        exists|j: int|
            0 <= j < Mesh::of_lattice(q, lattice_of(field, q)).verts.len() && #[trigger] Mesh::of_lattice(
                q,
                lattice_of(field, q),
            ).verts[j] == Mesh::of_lattice(p, lattice_of(field, p)).verts[i],
{
    let mp = Mesh::of_lattice(p, lattice_of(field, p));
    let mq = Mesh::of_lattice(q, lattice_of(field, q));
    lemma_mesh_is_coherent(p, lattice_of(field, p));
    lemma_mesh_is_coherent(q, lattice_of(field, q));
    assert(mp.indexed() && mp.placed(p, lattice_of(field, p)));
    assert(mq.indexed());
    let a = mp.slots[i];
    let v = mp.verts[i];
    assert(slot_on_lattice(a as int));
    let lo = slot_lo(a as int);
    let hi = slot_hi(a as int);
    let lo_q = (lo.0 + 12 * (p.0 - q.0), lo.1 + 12 * (p.1 - q.1), lo.2 + 12 * (p.2 - q.2));
    let hi_q = (hi.0 + 12 * (p.0 - q.0), hi.1 + 12 * (p.1 - q.1), hi.2 + 12 * (p.2 - q.2));
    assert(edge_axis(lo_q, hi_q) == a as int % 3);
    lemma_unit_edge_point(q, lattice_of(field, q), lo_q, hi_q);
    let b = edge_slot(lo_q, hi_q) as usize;
    assert(b as int % 3 == a as int % 3);
    lemma_neighbours_are_watertight(field, p, q, a, b);
    assert(mp.slots.contains(a));
    assert(mp.slots.index_of(a) == i);
    let j = mq.slots.index_of(b);
    assert(0 <= j < mq.verts.len());
    assert(mq.verts[j] == mp.verts[i]);
}

/// Two finished chunks that took their densities from one field leave no
/// gap between them: every vertex that one of them has on a lattice edge
/// which belongs to the lattices of both is a vertex of the other as well,
/// the same in place and colour.
pub proof fn lemma_finished_neighbours_meet(
    field: spec_fn((int, int, int)) -> i32,
    a: ChunkView,
    b: ChunkView,
    i: int,
)
    requires
        a.valid(),
        b.valid(),
        a.state == BuildState::Done,
        b.state == BuildState::Done,
        a.source == lattice_of(field, a.pos),
        b.source == lattice_of(field, b.pos),
        0 <= i < a.mesh.verts.len(),
        ({
            let lo = slot_lo(a.mesh.slots[i] as int);
            let hi = slot_hi(a.mesh.slots[i] as int);
            let dx = 12 * (a.pos.0 - b.pos.0);
            let dy = 12 * (a.pos.1 - b.pos.1);
            let dz = 12 * (a.pos.2 - b.pos.2);
            &&& on_lattice(lo.0 + dx, lo.1 + dy, lo.2 + dz)
            &&& on_lattice(hi.0 + dx, hi.1 + dy, hi.2 + dz)
        }),
    ensures
        exists|j: int| 0 <= j < b.mesh.verts.len() && #[trigger] b.mesh.verts[j] == a.mesh.verts[i],
{
    let mp = Mesh::of_lattice(a.pos, a.source);
    let mq = Mesh::of_lattice(b.pos, b.source);
    assert(a == ChunkView::built(a.pos, a.source));
    assert(b == ChunkView::built(b.pos, b.source));
    assert(a.mesh == mp);
    lemma_shared_vertices_have_partners(field, a.pos, b.pos, i);
    let j = choose|j: int| 0 <= j < mq.verts.len() && #[trigger] mq.verts[j] == mp.verts[i];
    lemma_mesh_is_coherent(b.pos, b.source);
    assert(mq.indexed() && mq.placed(b.pos, b.source));
    let v = mq.verts[j];
    let s = mq.slots[j] as int;
    assert(slot_on_lattice(s) && slot_crossed(b.source, s));
    let lo = slot_lo(s);
    let hi = slot_hi(s);
    let at_lo = iso_index(lo.0, lo.1, lo.2);
    let at_hi = iso_index(hi.0, hi.1, hi.2);
    assert(0 <= at_lo < 2197 && 0 <= at_hi < 2197);
    assert(b.source[at_lo] < crate::lattice::ISO_LEVEL || b.source[at_hi]
        < crate::lattice::ISO_LEVEL);
    assert(!is_blank(b.source));
    assert(b.mesh == mq);
}

/// A lattice that the surface does not pass through gives no geometry:
/// whether every density lies below the surface level or none does, the
/// mesh has no vertex, no index and no triangle, and the finished chunk is
/// not drawn.
pub proof fn lemma_uncrossed_lattice_has_no_geometry(pos: (i32, i32, i32), isos: Seq<i32>)
    requires
        isos.len() == 2197,
        (forall|i: int| 0 <= i < isos.len() ==> #[trigger] isos[i] < crate::lattice::ISO_LEVEL) || (
        forall|i: int| 0 <= i < isos.len() ==> #[trigger] isos[i] >= crate::lattice::ISO_LEVEL),
    ensures
        Mesh::of_lattice(pos, isos).verts.len() == 0,
        Mesh::of_lattice(pos, isos).inds.len() == 0,
        forall|n: int|
            0 <= n < Mesh::of_lattice(pos, isos).tris.len() ==> (#[trigger] Mesh::of_lattice(
                pos,
                isos,
            ).tris[n]).len() == 0,
        !ChunkView::built(pos, isos).not_blank(),
{
    let mesh = Mesh::of_lattice(pos, isos);
    lemma_mesh_is_coherent(pos, isos);
    assert(mesh.indexed());
    assert forall|slot: usize| !mesh.slots.contains(slot) by {
        if mesh.slots.contains(slot) {
            lemma_vertex_is_on_a_crossing(pos, isos, slot);
            let lo = slot_lo(slot as int);
            let hi = slot_hi(slot as int);
            let at_lo = iso_index(lo.0, lo.1, lo.2);
            let at_hi = iso_index(hi.0, hi.1, hi.2);
            assert(0 <= at_lo < 2197 && 0 <= at_hi < 2197);
            assert(isos[at_lo] == isos[at_lo] && isos[at_hi] == isos[at_hi]);
        }
    }
    if mesh.slots.len() > 0 {
        assert(mesh.slots.contains(mesh.slots[0]));
    }
    if mesh.inds.len() > 0 {
        assert(mesh.inds[0] < mesh.verts.len());
    }
    lemma_add_cells_grow(Mesh::empty(), pos, isos, 0, 1728);
    assert forall|n: int| 0 <= n < mesh.tris.len() implies (#[trigger] mesh.tris[n]).len() == 0 by {
        assert(mesh.tris[0 + n - 0] == cell_tris(pos, isos, n));
        let cuts = cell_cuts(pos, isos, n);
        if cuts.len() > 0 {
            assert(cuts_hold(cuts, cuts[0].slot));
            assert(cells_hold(pos, isos, 0, 1728, cuts[0].slot));
            lemma_meshed_slots(Mesh::empty(), pos, isos, 0, 1728, cuts[0].slot);
        }
    }
}

} // verus!
