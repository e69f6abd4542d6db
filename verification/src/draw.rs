use vstd::prelude::*;
use crate::color::{terrain_color, terrain_color_spec};
use crate::util::Point;

verus! {

/// A mesh vertex: where it lies and what colour it has.
///
/// The colour is given as red, green and blue before any gamma curve, each
/// in millionths of one step of 255.
#[derive(Clone, Copy, Debug, PartialEq, Eq)]
pub struct Vert {
    pub pos: Point,
    pub color: [i64; 3],
}

impl Vert {
    /// The vertex of the terrain at a position: it has the colour of the
    /// terrain there.
    pub open spec fn at(pos: Point) -> Vert {
        Vert { pos, color: terrain_color_spec(pos) }
    }

    /// A vertex at a position with a colour.
    pub fn new(pos: Point, color: [i64; 3]) -> (v: Vert)
        ensures
            v == (Vert { pos, color }),
    {
        Vert { pos, color }
    }

    /// Makes the vertex of the terrain at a position.
    pub fn of_terrain(pos: Point) -> (v: Vert)
        requires
            pos.in_range(),
        ensures
            v == Vert::at(pos),
    {
        Vert { pos, color: terrain_color(pos) }
    }
}

} // verus!
