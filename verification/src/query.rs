use vstd::prelude::*;
use crate::mesh::cell_number;
use crate::util::{Point, Tri, CELL_UNITS};

verus! {

/// The triangles of cell number `n`; none for a cell without a list.
pub open spec fn cell_list(tris: Seq<Seq<Tri>>, n: int) -> Seq<Tri> {
    if 0 <= n < tris.len() {
        tris[n]
    } else {
        Seq::empty()
    }
}

/// The first cell of a query window along one axis: `range` cells before
/// the cell that holds the local coordinate `c`, kept within the chunk.
pub open spec fn window_start(c: int, range: int) -> int {
    let first = c / (CELL_UNITS as int) - range;
    if first < 0 {
        0
    } else if first > 12 {
        12
    } else {
        first
    }
}

/// One past the last cell of a query window along one axis: `range` cells
/// after the cell that holds the local coordinate `c`, kept within the
/// chunk.
pub open spec fn window_end(c: int, range: int) -> int {
    let end = c / (CELL_UNITS as int) + range + 1;
    if end < 0 {
        0
    } else if end > 12 {
        12
    } else {
        end
    }
}

/// The triangle lists of the cells `(x, y, z0..z1)`, one after the other.
pub open spec fn tris_along_z(tris: Seq<Seq<Tri>>, x: int, y: int, z0: int, z1: int) -> Seq<Tri>
    decreases z1 - z0,
{
    if z1 <= z0 {
        Seq::empty()
    } else {
        tris_along_z(tris, x, y, z0, z1 - 1) + cell_list(tris, cell_number(x, y, z1 - 1))
    }
}

/// The triangle lists of the cells `(x, y0..y1, z0..z1)`, `z` running
/// fastest.
pub open spec fn tris_along_y(tris: Seq<Seq<Tri>>, x: int, y0: int, y1: int, z0: int, z1: int)
    -> Seq<Tri>
    decreases y1 - y0,
{
    if y1 <= y0 {
        Seq::empty()
    } else {
        tris_along_y(tris, x, y0, y1 - 1, z0, z1) + tris_along_z(tris, x, y1 - 1, z0, z1)
    }
}

/// The triangle lists of the cells `(x0..x1, y0..y1, z0..z1)`, `z` running
/// fastest and `x` slowest.
pub open spec fn tris_in_box(
    tris: Seq<Seq<Tri>>,
    x0: int,
    x1: int,
    y0: int,
    y1: int,
    z0: int,
    z1: int,
) -> Seq<Tri>
    decreases x1 - x0,
{
    if x1 <= x0 {
        Seq::empty()
    } else {
        tris_in_box(tris, x0, x1 - 1, y0, y1, z0, z1) + tris_along_y(tris, x1 - 1, y0, y1, z0, z1)
    }
}

/// The triangles within `range` cells of a position given relative to the
/// chunk's origin.
pub open spec fn tris_near(tris: Seq<Seq<Tri>>, local_pos: Point, range: int) -> Seq<Tri> {
    tris_in_box(
        tris,
        window_start(local_pos.x as int, range),
        window_end(local_pos.x as int, range),
        window_start(local_pos.y as int, range),
        window_end(local_pos.y as int, range),
        window_start(local_pos.z as int, range),
        window_end(local_pos.z as int, range),
    )
}

} // verus!
