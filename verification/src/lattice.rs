use vstd::prelude::*;
use crate::marching_table::EDGE_VERTEX_INDICES;
use crate::util::{Point, CELL_UNITS};

verus! {

/// Edge length of a chunk in world units.
pub const CHUNK_SIZE: usize = 16;

/// Cells along one edge of a chunk.
pub const INTERNAL_SIZE: usize = 12;

/// Lattice points along one edge of a chunk.
pub const ISO_LEN: usize = 13;

/// Lattice points in one plane of constant `x`.
pub const ISO_PLANE: usize = 169;

/// Lattice points of a whole chunk.
pub const ISO_COUNT: usize = 2197;

/// Cells in one slab of constant `x`.
pub const CELL_PLANE: usize = 144;

/// Cells of a whole chunk.
pub const CELL_COUNT: usize = 1728;

/// Lattice edges of a chunk, three leaving each lattice point.
pub const EDGE_SLOTS: usize = 6591;

/// Density units per unit of density.
pub const DENSITY_SCALE: i32 = 1_000_000;

/// The density at which the surface lies.
pub const ISO_LEVEL: i32 = -100_000;

/// Offsets of the eight corners of a cell from the cell's own coordinate.
pub const CUBE_CORNERS: [[usize; 3]; 8] = [
    [0, 0, 0],
    [1, 0, 0],
    [1, 0, 1],
    [0, 0, 1],
    [0, 1, 0],
    [1, 1, 0],
    [1, 1, 1],
    [0, 1, 1],
];

/// Position of a lattice point in the density cache.
pub open spec fn iso_index(x: int, y: int, z: int) -> int {
    x * ISO_PLANE + y * ISO_LEN + z
}

/// A lattice coordinate of a chunk: each component in `0..=12`.
pub open spec fn on_lattice(x: int, y: int, z: int) -> bool {
    0 <= x < ISO_LEN && 0 <= y < ISO_LEN && 0 <= z < ISO_LEN
}

/// A cell coordinate of a chunk: each component in `0..12`.
pub open spec fn in_cells(x: int, y: int, z: int) -> bool {
    0 <= x < INTERNAL_SIZE && 0 <= y < INTERNAL_SIZE && 0 <= z < INTERNAL_SIZE
}

/// Computes the position of a lattice point in the density cache.
pub fn corner_to_iso_idx(corner: [usize; 3]) -> (idx: usize)
    requires
        on_lattice(corner[0] as int, corner[1] as int, corner[2] as int),
    ensures
        idx == iso_index(corner[0] as int, corner[1] as int, corner[2] as int),
        idx < ISO_COUNT,
{
    corner[0] * ISO_LEN * ISO_LEN + corner[1] * ISO_LEN + corner[2]
}

/// Corner `i` of the cell at `(x, y, z)`.
pub open spec fn cell_corner(x: int, y: int, z: int, i: int) -> (int, int, int) {
    (x + CUBE_CORNERS[i][0], y + CUBE_CORNERS[i][1], z + CUBE_CORNERS[i][2])
}

/// One when the density at corner `i` of the cell lies below the surface
/// level, zero otherwise.
pub open spec fn corner_below(isos: Seq<i32>, x: int, y: int, z: int, i: int) -> int {
    let c = cell_corner(x, y, z, i);
    if isos[iso_index(c.0, c.1, c.2)] < ISO_LEVEL {
        1
    } else {
        0
    }
}

/// The corner sign mask of a cell: bit `i` is set when corner `i` lies below
/// the surface level.
pub open spec fn cell_mask(isos: Seq<i32>, x: int, y: int, z: int) -> int {
    corner_below(isos, x, y, z, 0) + 2 * corner_below(isos, x, y, z, 1) + 4 * corner_below(
        isos,
        x,
        y,
        z,
        2,
    ) + 8 * corner_below(isos, x, y, z, 3) + 16 * corner_below(isos, x, y, z, 4) + 32
        * corner_below(isos, x, y, z, 5) + 64 * corner_below(isos, x, y, z, 6) + 128
        * corner_below(isos, x, y, z, 7)
}

/// Reads whether corner `i` of a cell lies below the surface level.
fn corner_bit(isos: &Vec<i32>, cell: [usize; 3], i: usize) -> (bit: usize)
    requires
        isos@.len() == ISO_COUNT,
        in_cells(cell[0] as int, cell[1] as int, cell[2] as int),
        i < 8,
    ensures
        bit == corner_below(isos@, cell[0] as int, cell[1] as int, cell[2] as int, i as int),
{
    let d = CUBE_CORNERS[i];
    let idx = corner_to_iso_idx([cell[0] + d[0], cell[1] + d[1], cell[2] + d[2]]);
    if isos[idx] < ISO_LEVEL {
        1
    } else {
        0
    }
}

/// Computes the corner sign mask of a cell from the cached densities.
pub fn mask_of_cell(isos: &Vec<i32>, cell: [usize; 3]) -> (mask: usize)
    requires
        isos@.len() == ISO_COUNT,
        in_cells(cell[0] as int, cell[1] as int, cell[2] as int),
    ensures
        mask == cell_mask(isos@, cell[0] as int, cell[1] as int, cell[2] as int),
        mask < 256,
{
    corner_bit(isos, cell, 0) + 2 * corner_bit(isos, cell, 1) + 4 * corner_bit(isos, cell, 2) + 8
        * corner_bit(isos, cell, 3) + 16 * corner_bit(isos, cell, 4) + 32 * corner_bit(
        isos,
        cell,
        5,
    ) + 64 * corner_bit(isos, cell, 6) + 128 * corner_bit(isos, cell, 7)
}

/// Digit `k` of a packed triangulation row, counted from the left.
pub open spec fn row_entry(row: u64, k: int) -> int {
    ((row >> ((60 - 4 * k) as u64)) & 0xF) as int
}

/// Reads digit `k` of a packed triangulation row.
pub fn entry_of_row(row: u64, k: usize) -> (e: usize)
    requires
        k < 16,
    ensures
        e == row_entry(row, k as int),
        e < 16,
{
    let shift: u64 = (60 - 4 * k) as u64;
    assert((row >> shift) & 0xF < 16) by (bit_vector);
    ((row >> shift) & 0xF) as usize
}

/// Digits `3t`, `3t + 1` and `3t + 2` of the row all name cube edges.
pub open spec fn triple_ok(row: u64, t: int) -> bool {
    row_entry(row, 3 * t) < 12 && row_entry(row, 3 * t + 1) < 12 && row_entry(row, 3 * t + 2)
        < 12
}

/// Number of triangles that a row lists: its leading triples of cube edges,
/// at most five.
pub open spec fn tri_count(row: u64) -> int {
    if !triple_ok(row, 0) {
        0
    } else if !triple_ok(row, 1) {
        1
    } else if !triple_ok(row, 2) {
        2
    } else if !triple_ok(row, 3) {
        3
    } else if !triple_ok(row, 4) {
        4
    } else {
        5
    }
}

/// Counts the triangles that a row lists.
pub fn count_tris(row: u64) -> (n: usize)
    ensures
        n == tri_count(row),
        n <= 5,
{
    let mut t: usize = 0;
    while t < 5
        invariant
            t <= 5,
            forall|s: int| 0 <= s < t ==> triple_ok(row, s),
        ensures
            t <= 5,
            forall|s: int| 0 <= s < t ==> triple_ok(row, s),
            t < 5 ==> !triple_ok(row, t as int),
        decreases 5 - t,
    {
        let ok = entry_of_row(row, 3 * t) < 12 && entry_of_row(row, 3 * t + 1) < 12
            && entry_of_row(row, 3 * t + 2) < 12;
        if !ok {
            break ;
        }
        t += 1;
    }
    t
}

/// Where the surface crosses a lattice edge, measured from the first end in
/// position units, given the densities at both ends.
///
/// This is `CELL_UNITS * (level - da) / (db - da)`, rounded down and kept
/// within the edge; an edge with equal densities is cut at its midpoint.
pub open spec fn crossing_offset(da: int, db: int) -> int {
    if da == db {
        CELL_UNITS / 2
    } else {
        let num = if db > da {
            ISO_LEVEL - da
        } else {
            da - ISO_LEVEL
        };
        let den = if db > da {
            db - da
        } else {
            da - db
        };
        if num <= 0 {
            0
        } else if num >= den {
            CELL_UNITS as int
        } else {
            CELL_UNITS * num / den
        }
    }
}

/// Computes where the surface crosses a lattice edge.
pub fn offset_of_crossing(da: i32, db: i32) -> (off: i64)
    ensures
        off == crossing_offset(da as int, db as int),
        0 <= off <= CELL_UNITS,
{
    if da == db {
        return CELL_UNITS / 2;
    }
    let a: i64 = da as i64;
    let b: i64 = db as i64;
    let level: i64 = ISO_LEVEL as i64;
    let num: i64 = if b > a {
        level - a
    } else {
        a - level
    };
    let den: i64 = if b > a {
        b - a
    } else {
        a - b
    };
    if num <= 0 {
        0
    } else if num >= den {
        CELL_UNITS
    } else {
        proof {
            lemma_scaled_ratio_bound(CELL_UNITS as int, num as int, den as int);
        }
        CELL_UNITS * num / den
    }
}

/// A fraction `num / den` below one, scaled by `scale` and rounded down, stays
/// within `0..=scale`.
pub proof fn lemma_scaled_ratio_bound(scale: int, num: int, den: int)
    requires
        0 <= scale,
        0 < num < den,
    ensures
        0 <= scale * num / den <= scale,
        scale * num <= scale * den,
{
    assert(0 <= scale * num <= scale * den) by (nonlinear_arith)
        requires
            0 <= scale,
            0 < num < den,
    ;
    vstd::arithmetic::div_mod::lemma_div_is_ordered(scale * num, scale * den, den);
    vstd::arithmetic::div_mod::lemma_div_multiples_vanish(scale, den);
    vstd::arithmetic::div_mod::lemma_div_pos_is_pos(scale * num, den);
    assert(scale * den == den * scale) by (nonlinear_arith);
}

/// Where the surface cuts one lattice edge.
#[derive(Clone, Copy, Debug, PartialEq, Eq, Structural)]
pub struct EdgeCut {
    /// The edge's number among the lattice edges of its chunk: the same for
    /// every cell that touches the edge.
    pub slot: usize,
    /// The cut in world space.
    pub point: Point,
}

/// The end of cube edge `e` of the cell at `(x, y, z)` that comes first in
/// the density cache.
pub open spec fn edge_lo(x: int, y: int, z: int, e: int) -> (int, int, int) {
    let a = cell_corner(x, y, z, EDGE_VERTEX_INDICES[e][0] as int);
    let b = cell_corner(x, y, z, EDGE_VERTEX_INDICES[e][1] as int);
    if iso_index(a.0, a.1, a.2) <= iso_index(b.0, b.1, b.2) {
        a
    } else {
        b
    }
}

/// The other end of cube edge `e` of the cell at `(x, y, z)`.
pub open spec fn edge_hi(x: int, y: int, z: int, e: int) -> (int, int, int) {
    let a = cell_corner(x, y, z, EDGE_VERTEX_INDICES[e][0] as int);
    let b = cell_corner(x, y, z, EDGE_VERTEX_INDICES[e][1] as int);
    if iso_index(a.0, a.1, a.2) <= iso_index(b.0, b.1, b.2) {
        b
    } else {
        a
    }
}

/// The axis along which two lattice points first differ: 0, 1 or 2.
pub open spec fn edge_axis(lo: (int, int, int), hi: (int, int, int)) -> int {
    if lo.0 != hi.0 {
        0
    } else if lo.1 != hi.1 {
        1
    } else {
        2
    }
}

/// The number of the lattice edge from `lo` to `hi`.
pub open spec fn edge_slot(lo: (int, int, int), hi: (int, int, int)) -> int {
    3 * iso_index(lo.0, lo.1, lo.2) + edge_axis(lo, hi)
}

/// The point on the lattice edge from `lo` to `hi` of the chunk at `pos`
/// where linear interpolation between the two densities meets the surface
/// level.
pub open spec fn crossing_point(
    pos: (i32, i32, i32),
    isos: Seq<i32>,
    lo: (int, int, int),
    hi: (int, int, int),
) -> Point {
    let off = crossing_offset(
        isos[iso_index(lo.0, lo.1, lo.2)] as int,
        isos[iso_index(hi.0, hi.1, hi.2)] as int,
    );
    Point {
        x: ((INTERNAL_SIZE * pos.0 + lo.0) * CELL_UNITS + (hi.0 - lo.0) * off) as i64,
        y: ((INTERNAL_SIZE * pos.1 + lo.1) * CELL_UNITS + (hi.1 - lo.1) * off) as i64,
        z: ((INTERNAL_SIZE * pos.2 + lo.2) * CELL_UNITS + (hi.2 - lo.2) * off) as i64,
    }
}

/// The cut of cube edge `e` of the cell at `(x, y, z)`.
pub open spec fn edge_cut(pos: (i32, i32, i32), isos: Seq<i32>, x: int, y: int, z: int, e: int)
    -> EdgeCut {
    let lo = edge_lo(x, y, z, e);
    let hi = edge_hi(x, y, z, e);
    EdgeCut { slot: edge_slot(lo, hi) as usize, point: crossing_point(pos, isos, lo, hi) }
}

/// Cube edge `e` of any cell runs one cell along a single axis, from its
/// first end to its second.
pub proof fn lemma_cube_edge_is_unit(x: int, y: int, z: int, e: int)
    requires
        0 <= e < 12,
    ensures
        ({
            let lo = edge_lo(x, y, z, e);
            let hi = edge_hi(x, y, z, e);
            let axis = edge_axis(lo, hi);
            &&& hi.0 == lo.0 + (if axis == 0 { 1int } else { 0 })
            &&& hi.1 == lo.1 + (if axis == 1 { 1int } else { 0 })
            &&& hi.2 == lo.2 + (if axis == 2 { 1int } else { 0 })
            &&& x <= lo.0 <= x + 1
            &&& y <= lo.1 <= y + 1
            &&& z <= lo.2 <= z + 1
            &&& hi.0 <= x + 1
            &&& hi.1 <= y + 1
            &&& hi.2 <= z + 1
        }),
{
}

/// One coordinate of a crossing point: the lattice coordinate `lo` of the
/// chunk `chunk` in position units, moved by `off` along `delta`.
fn scaled_coord(chunk: i32, lo: usize, delta: i64, off: i64) -> (c: i64)
    requires
        lo <= 12,
        -1 <= delta <= 1,
        0 <= off <= CELL_UNITS,
    ensures
        c == (12 * chunk + lo) * CELL_UNITS + delta * off,
        -crate::util::POS_LIMIT <= c <= crate::util::POS_LIMIT,
{
    let base: i64 = (12 * (chunk as i64) + lo as i64) * CELL_UNITS;
    let step: i64 = if delta == 1 {
        off
    } else if delta == 0 {
        0
    } else {
        -off
    };
    assert(delta * off == step) by (nonlinear_arith)
        requires
            (delta == 1 && step == off) || (delta == 0 && step == 0) || (delta == -1 && step
                == -off),
    ;
    base + step
}

/// Cuts cube edge `e` of a cell: finds the edge's number and the point where
/// the surface crosses it.
pub fn cut_edge(pos: (i32, i32, i32), isos: &Vec<i32>, cell: [usize; 3], e: usize) -> (cut:
    EdgeCut)
    requires
        isos@.len() == ISO_COUNT,
        in_cells(cell[0] as int, cell[1] as int, cell[2] as int),
        e < 12,
    ensures
        cut == edge_cut(pos, isos@, cell[0] as int, cell[1] as int, cell[2] as int, e as int),
        cut.slot < EDGE_SLOTS,
        cut.point.in_range(),
{
    let ends = EDGE_VERTEX_INDICES[e];
    let da = CUBE_CORNERS[ends[0]];
    let db = CUBE_CORNERS[ends[1]];
    let a: [usize; 3] = [cell[0] + da[0], cell[1] + da[1], cell[2] + da[2]];
    let b: [usize; 3] = [cell[0] + db[0], cell[1] + db[1], cell[2] + db[2]];
    let ia = corner_to_iso_idx(a);
    let ib = corner_to_iso_idx(b);
    let (lo, hi, ilo, ihi) = if ia <= ib {
        (a, b, ia, ib)
    } else {
        (b, a, ib, ia)
    };
    let axis: usize = if lo[0] != hi[0] {
        0
    } else if lo[1] != hi[1] {
        1
    } else {
        2
    };
    let off = offset_of_crossing(isos[ilo], isos[ihi]);
    let point = Point {
        x: scaled_coord(pos.0, lo[0], hi[0] as i64 - lo[0] as i64, off),
        y: scaled_coord(pos.1, lo[1], hi[1] as i64 - lo[1] as i64, off),
        z: scaled_coord(pos.2, lo[2], hi[2] as i64 - lo[2] as i64, off),
    };
    EdgeCut { slot: 3 * ilo + axis, point }
}

/// The lattice point at cache position `idx` of the chunk at `pos`, counted
/// in cells from the world's origin. Neighbouring chunks share the points on
/// their common face.
pub open spec fn lattice_point(pos: (i32, i32, i32), idx: int) -> (int, int, int) {
    (
        INTERNAL_SIZE * pos.0 + idx / (ISO_PLANE as int),
        INTERNAL_SIZE * pos.1 + (idx / (ISO_LEN as int)) % (ISO_LEN as int),
        INTERNAL_SIZE * pos.2 + idx % (ISO_LEN as int),
    )
}

/// Computes the lattice point at a cache position.
pub fn point_of_sample(pos: (i32, i32, i32), idx: usize) -> (p: (i64, i64, i64))
    requires
        idx < ISO_COUNT,
    ensures
        (p.0 as int, p.1 as int, p.2 as int) == lattice_point(pos, idx as int),
{
    let x = (idx / ISO_PLANE) as i64;
    let y = ((idx / ISO_LEN) % ISO_LEN) as i64;
    let z = (idx % ISO_LEN) as i64;
    (12 * (pos.0 as i64) + x, 12 * (pos.1 as i64) + y, 12 * (pos.2 as i64) + z)
}

/// The density cache of the chunk at `pos` when every density is read off
/// one field over the world's lattice.
pub open spec fn lattice_of(field: spec_fn((int, int, int)) -> i32, pos: (i32, i32, i32)) -> Seq<
    i32,
> {
    Seq::new(ISO_COUNT as nat, |idx: int| field(lattice_point(pos, idx)))
}

/// Two chunks that sample one density field cut a lattice edge which both
/// hold at the same point: along a shared face their meshes meet without a
/// gap between vertices.
pub proof fn lemma_shared_edge_same_point(
    field: spec_fn((int, int, int)) -> i32,
    p: (i32, i32, i32),
    q: (i32, i32, i32),
    lo_p: (int, int, int),
    hi_p: (int, int, int),
    lo_q: (int, int, int),
    hi_q: (int, int, int),
)
    requires
        on_lattice(lo_p.0, lo_p.1, lo_p.2),
        on_lattice(hi_p.0, hi_p.1, hi_p.2),
        on_lattice(lo_q.0, lo_q.1, lo_q.2),
        on_lattice(hi_q.0, hi_q.1, hi_q.2),
        12 * p.0 + lo_p.0 == 12 * q.0 + lo_q.0,
        12 * p.1 + lo_p.1 == 12 * q.1 + lo_q.1,
        12 * p.2 + lo_p.2 == 12 * q.2 + lo_q.2,
        12 * p.0 + hi_p.0 == 12 * q.0 + hi_q.0,
        12 * p.1 + hi_p.1 == 12 * q.1 + hi_q.1,
        12 * p.2 + hi_p.2 == 12 * q.2 + hi_q.2,
    ensures
        crossing_point(p, lattice_of(field, p), lo_p, hi_p) == crossing_point(
            q,
            lattice_of(field, q),
            lo_q,
            hi_q,
        ),
{
    lemma_lattice_point_of_index(p, lo_p.0, lo_p.1, lo_p.2);
    lemma_lattice_point_of_index(p, hi_p.0, hi_p.1, hi_p.2);
    lemma_lattice_point_of_index(q, lo_q.0, lo_q.1, lo_q.2);
    lemma_lattice_point_of_index(q, hi_q.0, hi_q.1, hi_q.2);
}

/// The cache position of a lattice coordinate leads back to that
/// coordinate.
pub proof fn lemma_lattice_point_of_index(pos: (i32, i32, i32), x: int, y: int, z: int)
    requires
        on_lattice(x, y, z),
    ensures
        0 <= iso_index(x, y, z) < 2197,
        lattice_point(pos, iso_index(x, y, z)) == (12 * pos.0 + x, 12 * pos.1 + y, 12 * pos.2 + z),
{
}

/// Neighbouring chunks take their densities on the shared face at the same
/// points of the world's lattice: the last plane of lattice points of a
/// chunk along an axis is the first plane of the next chunk along that
/// axis. Whatever density field is sampled there, both chunks cache the
/// same value.
pub proof fn lemma_neighbours_sample_the_same_points(p: (i32, i32, i32), j: int, k: int)
    requires
        0 <= j <= 12,
        0 <= k <= 12,
        p.0 < i32::MAX,
        p.1 < i32::MAX,
        p.2 < i32::MAX,
    ensures
        lattice_point(p, iso_index(12, j, k)) == lattice_point(
            ((p.0 + 1) as i32, p.1, p.2),
            iso_index(0, j, k),
        ),
        lattice_point(p, iso_index(j, 12, k)) == lattice_point(
            (p.0, (p.1 + 1) as i32, p.2),
            iso_index(j, 0, k),
        ),
        lattice_point(p, iso_index(j, k, 12)) == lattice_point(
            (p.0, p.1, (p.2 + 1) as i32),
            iso_index(j, k, 0),
        ),
        forall|field: spec_fn((int, int, int)) -> i32|
            lattice_of(field, p)[iso_index(12, j, k)] == #[trigger] lattice_of(
                field,
                ((p.0 + 1) as i32, p.1, p.2),
            )[iso_index(0, j, k)],
{
    lemma_lattice_point_of_index(p, 12, j, k);
    lemma_lattice_point_of_index(p, j, 12, k);
    lemma_lattice_point_of_index(p, j, k, 12);
    lemma_lattice_point_of_index(((p.0 + 1) as i32, p.1, p.2), 0, j, k);
    lemma_lattice_point_of_index((p.0, (p.1 + 1) as i32, p.2), j, 0, k);
    lemma_lattice_point_of_index((p.0, p.1, (p.2 + 1) as i32), j, k, 0);
}

} // verus!
