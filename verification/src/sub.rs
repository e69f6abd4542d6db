use vstd::prelude::*;
use crate::util::{Point, floor_div, lemma_product_bound, lemma_square_bound, CHUNK_UNITS};

verus! {

/// Largest magnitude of an observer coordinate: far enough from the ends of
/// the chunk grid that every chunk near the observer has a coordinate.
pub const SUB_POS_LIMIT: i64 = 0x4_0000_0000_0000;

/// Largest magnitude of a component of the observer's bearing.
pub const BEARING_LIMIT: i64 = 0x10_0000;

/// Largest magnitude of the coordinate of a chunk that holds an observer.
pub const SUB_CHUNK_LIMIT: i32 = 1431655766;

/// The square of the distance the observer must move before the
/// neighbourhood is looked at again: four world units.
pub const RECHECK_NEARBY_DIST_SQ: i128 = 38_654_705_664;

/// The squared cosine of the angle the observer must turn before the
/// neighbourhood is looked at again, 0.33 radians, in billionths.
pub const RECHECK_NEARBY_COS_SQ: i128 = 894_996_116;

/// One billion: the scale of `RECHECK_NEARBY_COS_SQ`.
pub const BILLION: i128 = 1_000_000_000;

/// The squared distance between two points.
pub open spec fn dist_sq_between(a: Point, b: Point) -> int {
    (a.x - b.x) * (a.x - b.x) + (a.y - b.y) * (a.y - b.y) + (a.z - b.z) * (a.z - b.z)
}

/// The dot product of two vectors.
pub open spec fn dot(a: Point, b: Point) -> int {
    a.x * b.x + a.y * b.y + a.z * b.z
}

/// Whether two points lie more than the recheck distance apart.
pub open spec fn moved_far(a: Point, b: Point) -> bool {
    dist_sq_between(a, b) > RECHECK_NEARBY_DIST_SQ
}

/// Whether two headings differ by more than the recheck angle: neither is
/// zero, and the cosine of the angle between them lies below the cosine of
/// the recheck angle. The cosines are compared by their squares, a negative
/// cosine being below at once.
pub open spec fn turned_far(a: Point, b: Point) -> bool {
    &&& dot(a, a) * dot(b, b) > 0
    &&& (dot(a, b) < 0 || BILLION * (dot(a, b) * dot(a, b)) < RECHECK_NEARBY_COS_SQ * (dot(a, a)
        * dot(b, b)))
}

/// What the world reads of the observer: where it is and where it heads.
#[derive(Clone, Copy, Debug, PartialEq, Eq, Structural)]
pub struct Sub {
    /// Position in position units.
    pub pos: Point,
    /// Heading, a vector of any length.
    pub forward: Point,
}

/// The chunk coordinate along one axis of a position coordinate: the
/// position divided by the chunk size, rounded down.
pub open spec fn chunk_coord(c: i64) -> i32 {
    ((c as int) / (CHUNK_UNITS as int)) as i32
}

impl Sub {
    /// Position and bearing lie within their limits.
    pub open spec fn valid(self) -> bool {
        &&& -SUB_POS_LIMIT <= self.pos.x <= SUB_POS_LIMIT
        &&& -SUB_POS_LIMIT <= self.pos.y <= SUB_POS_LIMIT
        &&& -SUB_POS_LIMIT <= self.pos.z <= SUB_POS_LIMIT
        &&& -BEARING_LIMIT <= self.forward.x <= BEARING_LIMIT
        &&& -BEARING_LIMIT <= self.forward.y <= BEARING_LIMIT
        &&& -BEARING_LIMIT <= self.forward.z <= BEARING_LIMIT
    }

    /// The coordinate of the chunk that holds the observer.
    pub open spec fn chunk_spec(self) -> (i32, i32, i32) {
        (chunk_coord(self.pos.x), chunk_coord(self.pos.y), chunk_coord(self.pos.z))
    }

    /// An observer at a position with a heading.
    pub fn new(pos: Point, forward: Point) -> (sub: Sub)
        ensures
            sub.pos == pos,
            sub.forward == forward,
    {
        Sub { pos, forward }
    }

    /// Checks the limits on position and bearing.
    pub fn is_valid(&self) -> (ok: bool)
        ensures
            ok == self.valid(),
    {
        -SUB_POS_LIMIT <= self.pos.x && self.pos.x <= SUB_POS_LIMIT && -SUB_POS_LIMIT
            <= self.pos.y && self.pos.y <= SUB_POS_LIMIT && -SUB_POS_LIMIT <= self.pos.z
            && self.pos.z <= SUB_POS_LIMIT && -BEARING_LIMIT <= self.forward.x && self.forward.x
            <= BEARING_LIMIT && -BEARING_LIMIT <= self.forward.y && self.forward.y
            <= BEARING_LIMIT && -BEARING_LIMIT <= self.forward.z && self.forward.z
            <= BEARING_LIMIT
    }

    /// Computes the coordinate of the chunk that holds the observer.
    pub fn chunk(&self) -> (c: (i32, i32, i32))
        requires
            self.valid(),
        ensures
            c == self.chunk_spec(),
            -SUB_CHUNK_LIMIT <= c.0 <= SUB_CHUNK_LIMIT,
            -SUB_CHUNK_LIMIT <= c.1 <= SUB_CHUNK_LIMIT,
            -SUB_CHUNK_LIMIT <= c.2 <= SUB_CHUNK_LIMIT,
    {
        let x = floor_div(self.pos.x, CHUNK_UNITS);
        let y = floor_div(self.pos.y, CHUNK_UNITS);
        let z = floor_div(self.pos.z, CHUNK_UNITS);
        (x as i32, y as i32, z as i32)
    }

    /// Whether the observer has moved or turned so far from where it was
    /// that the neighbourhood must be looked at again.
    pub open spec fn strayed(self, last: Sub) -> bool {
        moved_far(self.pos, last.pos) || turned_far(self.forward, last.forward)
    }

    /// Checks whether the observer has strayed from where it was.
    pub fn has_strayed(&self, last: &Sub) -> (b: bool)
        requires
            self.valid(),
            last.valid(),
        ensures
            b == self.strayed(*last),
    {
        let dx: i128 = self.pos.x as i128 - last.pos.x as i128;
        let dy: i128 = self.pos.y as i128 - last.pos.y as i128;
        let dz: i128 = self.pos.z as i128 - last.pos.z as i128;
        proof {
            lemma_square_bound(dx as int, 0x8_0000_0000_0000);
            lemma_square_bound(dy as int, 0x8_0000_0000_0000);
            lemma_square_bound(dz as int, 0x8_0000_0000_0000);
            assert(0x8_0000_0000_0000 * 0x8_0000_0000_0000
                == 0x40_0000_0000_0000_0000_0000_0000int) by (nonlinear_arith);
        }
        if dx * dx + dy * dy + dz * dz > RECHECK_NEARBY_DIST_SQ {
            return true;
        }
        let ab = dot_of(self.forward, last.forward);
        let aa = dot_of(self.forward, self.forward);
        let bb = dot_of(last.forward, last.forward);
        proof {
            let d: int = 0x300_0000_0000;
            lemma_product_bound(aa as int, bb as int, d, d);
            lemma_square_bound(ab as int, d);
            assert(d * d == 0x9_0000_0000_0000_0000_0000int) by (nonlinear_arith)
                requires
                    d == 0x300_0000_0000,
            ;
            lemma_product_bound(
                BILLION as int,
                ab * ab,
                BILLION as int,
                0x9_0000_0000_0000_0000_0000,
            );
            lemma_product_bound(
                RECHECK_NEARBY_COS_SQ as int,
                aa * bb,
                BILLION as int,
                0x9_0000_0000_0000_0000_0000,
            );
            assert(BILLION * 0x9_0000_0000_0000_0000_0000
                < 0x1000_0000_0000_0000_0000_0000_0000_0000int) by (nonlinear_arith)
                requires
                    BILLION == 1_000_000_000,
            ;
        }
        let norms: i128 = aa * bb;
        norms > 0 && (ab < 0 || BILLION * (ab * ab) < RECHECK_NEARBY_COS_SQ * norms)
    }

    /// The observer's position.
    pub fn pos(&self) -> (p: Point)
        ensures
            p == self.pos,
    {
        self.pos
    }

    /// The observer's heading.
    pub fn bearing(&self) -> (b: Point)
        ensures
            b == self.forward,
    {
        self.forward
    }
}

/// Computes the dot product of two vectors with bounded components.
fn dot_of(a: Point, b: Point) -> (d: i128)
    requires
        -BEARING_LIMIT <= a.x <= BEARING_LIMIT,
        -BEARING_LIMIT <= a.y <= BEARING_LIMIT,
        -BEARING_LIMIT <= a.z <= BEARING_LIMIT,
        -BEARING_LIMIT <= b.x <= BEARING_LIMIT,
        -BEARING_LIMIT <= b.y <= BEARING_LIMIT,
        -BEARING_LIMIT <= b.z <= BEARING_LIMIT,
    ensures
        d == dot(a, b),
        -0x300_0000_0000 <= d <= 0x300_0000_0000,
{
    proof {
        lemma_product_bound(a.x as int, b.x as int, BEARING_LIMIT as int, BEARING_LIMIT as int);
        lemma_product_bound(a.y as int, b.y as int, BEARING_LIMIT as int, BEARING_LIMIT as int);
        lemma_product_bound(a.z as int, b.z as int, BEARING_LIMIT as int, BEARING_LIMIT as int);
        assert(BEARING_LIMIT * BEARING_LIMIT == 0x100_0000_0000) by (nonlinear_arith)
            requires
                BEARING_LIMIT == 0x10_0000,
        ;
    }
    a.x as i128 * b.x as i128 + a.y as i128 * b.y as i128 + a.z as i128 * b.z as i128
}

} // verus!
