use vstd::prelude::*;

verus! {

/// Position units per world unit.
pub const POS_SCALE: i64 = 49152;

/// Position units per lattice cell: a chunk edge of sixteen world units holds
/// twelve cells.
pub const CELL_UNITS: i64 = 65536;

/// Position units per chunk edge.
pub const CHUNK_UNITS: i64 = 786432;

/// Largest magnitude of a position coordinate that the arithmetic of this
/// crate is proved for.
pub const POS_LIMIT: i64 = 0x10_0000_0000_0000;

/// A point or a vector in world space, in position units.
#[derive(Clone, Copy, Debug, PartialEq, Eq, Structural)]
pub struct Point {
    pub x: i64,
    pub y: i64,
    pub z: i64,
}

impl Point {
    /// Every coordinate lies within `POS_LIMIT` of zero.
    pub open spec fn in_range(self) -> bool {
        &&& -POS_LIMIT <= self.x <= POS_LIMIT
        &&& -POS_LIMIT <= self.y <= POS_LIMIT
        &&& -POS_LIMIT <= self.z <= POS_LIMIT
    }

    /// Checks whether every coordinate lies within `POS_LIMIT` of zero.
    pub fn is_in_range(&self) -> (ok: bool)
        ensures
            ok == self.in_range(),
    {
        -POS_LIMIT <= self.x && self.x <= POS_LIMIT && -POS_LIMIT <= self.y && self.y <= POS_LIMIT
            && -POS_LIMIT <= self.z && self.z <= POS_LIMIT
    }

    /// The point with the given coordinates.
    pub fn new(x: i64, y: i64, z: i64) -> (p: Point)
        ensures
            p == (Point { x, y, z }),
    {
        Point { x, y, z }
    }
}

/// A vector with wide components, as the cross product of two differences of
/// points needs.
#[derive(Clone, Copy, Debug, PartialEq, Eq, Structural)]
pub struct WideVec {
    pub x: i128,
    pub y: i128,
    pub z: i128,
}

/// The cross product of `b - a` and `c - a`.
pub open spec fn cross_spec(a: Point, b: Point, c: Point) -> WideVec {
    WideVec {
        x: ((b.y - a.y) * (c.z - a.z) - (b.z - a.z) * (c.y - a.y)) as i128,
        y: ((b.z - a.z) * (c.x - a.x) - (b.x - a.x) * (c.z - a.z)) as i128,
        z: ((b.x - a.x) * (c.y - a.y) - (b.y - a.y) * (c.x - a.x)) as i128,
    }
}

/// A triangle with the normal that its winding gives it.
///
/// The normal is the cross product of the edges `verts[1] - verts[0]` and
/// `verts[2] - verts[0]`, kept at full length so that it is exact.
#[derive(Clone, Copy, Debug)]
pub struct Tri {
    pub verts: [Point; 3],
    pub normal: WideVec,
}

impl Tri {
    /// The triangle over three corners.
    pub open spec fn of(a: Point, b: Point, c: Point) -> Tri {
        Tri { verts: [a, b, c], normal: cross_spec(a, b, c) }
    }

    /// The triangle over three corners, with its normal.
    pub fn new(verts: [Point; 3]) -> (tri: Tri)
        requires
            verts[0].in_range(),
            verts[1].in_range(),
            verts[2].in_range(),
        ensures
            tri == Tri::of(verts[0], verts[1], verts[2]),
            tri.verts == verts,
    {
        let a = verts[0];
        let b = verts[1];
        let c = verts[2];
        let ux: i128 = b.x as i128 - a.x as i128;
        let uy: i128 = b.y as i128 - a.y as i128;
        let uz: i128 = b.z as i128 - a.z as i128;
        let vx: i128 = c.x as i128 - a.x as i128;
        let vy: i128 = c.y as i128 - a.y as i128;
        let vz: i128 = c.z as i128 - a.z as i128;
        proof {
            let d: int = 2 * POS_LIMIT;
            lemma_product_bound(uy as int, vz as int, d, d);
            lemma_product_bound(uz as int, vy as int, d, d);
            lemma_product_bound(uz as int, vx as int, d, d);
            lemma_product_bound(ux as int, vz as int, d, d);
            lemma_product_bound(ux as int, vy as int, d, d);
            lemma_product_bound(uy as int, vx as int, d, d);
            assert(d * d == 0x400_0000_0000_0000_0000_0000_0000) by (nonlinear_arith)
                requires
                    d == 0x20_0000_0000_0000,
            ;
        }
        let normal = WideVec { x: uy * vz - uz * vy, y: uz * vx - ux * vz, z: ux * vy - uy * vx };
        let tri = Tri { verts, normal };
        assert(tri.verts =~= [a, b, c]);
        tri
    }
}

/// Squared Euclidean distance between two grid coordinates.
pub open spec fn dist_sq_spec(pos1: (i32, i32, i32), pos2: (i32, i32, i32)) -> int {
    (pos1.0 - pos2.0) * (pos1.0 - pos2.0) + (pos1.1 - pos2.1) * (pos1.1 - pos2.1) + (pos1.2
        - pos2.2) * (pos1.2 - pos2.2)
}

/// Squared distance between two grid coordinates, for coordinates whose
/// squared distance fits the result type.
pub fn dist_sq(pos1: (i32, i32, i32), pos2: (i32, i32, i32)) -> (d: i32)
    requires
        dist_sq_spec(pos1, pos2) <= i32::MAX,
    ensures
        d == dist_sq_spec(pos1, pos2),
{
    let dx: i64 = pos1.0 as i64 - pos2.0 as i64;
    let dy: i64 = pos1.1 as i64 - pos2.1 as i64;
    let dz: i64 = pos1.2 as i64 - pos2.2 as i64;
    proof {
        assert(dx * dx >= 0 && dy * dy >= 0 && dz * dz >= 0) by (nonlinear_arith);
    }
    let sum: i64 = dx * dx + dy * dy + dz * dz;
    sum as i32
}

/// Squared distance between two grid coordinates, without a bound on them.
pub fn dist_sq_wide(pos1: (i32, i32, i32), pos2: (i32, i32, i32)) -> (d: i128)
    ensures
        d == dist_sq_spec(pos1, pos2),
{
    let dx: i128 = pos1.0 as i128 - pos2.0 as i128;
    let dy: i128 = pos1.1 as i128 - pos2.1 as i128;
    let dz: i128 = pos1.2 as i128 - pos2.2 as i128;
    proof {
        lemma_square_bound(dx as int, 0x1_0000_0000);
        lemma_square_bound(dy as int, 0x1_0000_0000);
        lemma_square_bound(dz as int, 0x1_0000_0000);
    }
    dx * dx + dy * dy + dz * dz
}

/// Divides by a positive number, rounding down.
pub fn floor_div(a: i64, d: i64) -> (q: i64)
    requires
        d > 0,
    ensures
        q == (a as int) / (d as int),
{
    if a >= 0 {
        a / d
    } else {
        let below: i64 = -(a + 1);
        let q: i64 = below / d;
        proof {
            vstd::arithmetic::div_mod::lemma_fundamental_div_mod(below as int, d as int);
            vstd::arithmetic::div_mod::lemma_mod_bound(below as int, d as int);
            assert(a == d * (-q - 1) + (d - 1 - (below % d))) by (nonlinear_arith)
                requires
                    below == d * q + below % d,
                    a == -below - 1,
            ;
            vstd::arithmetic::div_mod::lemma_fundamental_div_mod_converse(
                a as int,
                d as int,
                -q - 1,
                d - 1 - (below % d),
            );
        }
        -q - 1
    }
}

/// Largest magnitude of a matrix entry that the frustum test is proved for.
pub const MATRIX_LIMIT: i64 = 0x8000_0000;

/// A view-projection matrix, row by row, in any common fixed-point scale.
///
/// It takes a point `(x, y, z)` in position units, extended by `POS_SCALE`
/// as its fourth coordinate, to clip space.
#[derive(Clone, Copy, Debug)]
pub struct Frustum {
    pub rows: [[i64; 4]; 4],
}

impl Frustum {
    /// Every entry lies within `MATRIX_LIMIT` of zero.
    pub open spec fn valid(self) -> bool {
        forall|i: int, j: int|
            0 <= i < 4 && 0 <= j < 4 ==> -MATRIX_LIMIT <= #[trigger] self.rows[i][j]
                <= MATRIX_LIMIT
    }

    /// Clip coordinate `i` of a point.
    pub open spec fn clip(self, pt: Point, i: int) -> int {
        self.rows[i][0] * pt.x + self.rows[i][1] * pt.y + self.rows[i][2] * pt.z + self.rows[i][3]
            * POS_SCALE
    }

    /// Checks the bound on the entries.
    pub fn is_valid(&self) -> (ok: bool)
        ensures
            ok == self.valid(),
    {
        let mut i: usize = 0;
        while i < 4
            invariant
                0 <= i <= 4,
                forall|a: int, b: int|
                    0 <= a < i && 0 <= b < 4 ==> -MATRIX_LIMIT <= #[trigger] self.rows[a][b]
                        <= MATRIX_LIMIT,
            decreases 4 - i,
        {
            let mut j: usize = 0;
            while j < 4
                invariant
                    0 <= i < 4,
                    0 <= j <= 4,
                    forall|a: int, b: int|
                        0 <= a < i && 0 <= b < 4 ==> -MATRIX_LIMIT <= #[trigger] self.rows[a][b]
                            <= MATRIX_LIMIT,
                    forall|b: int|
                        0 <= b < j ==> -MATRIX_LIMIT <= #[trigger] self.rows[i as int][b]
                            <= MATRIX_LIMIT,
                decreases 4 - j,
            {
                let e = self.rows[i][j];
                if e < -MATRIX_LIMIT || e > MATRIX_LIMIT {
                    return false;
                }
                j += 1;
            }
            i += 1;
        }
        true
    }

    /// Computes clip coordinate `i` of a point.
    fn clip_coord(&self, pt: Point, i: usize) -> (c: i128)
        requires
            self.valid(),
            pt.in_range(),
            i < 4,
        ensures
            c == self.clip(pt, i as int),
            -0x20_0000_0000_0000_0000_0000 <= c <= 0x20_0000_0000_0000_0000_0000,
    {
        let row = self.rows[i];
        proof {
            assert(-MATRIX_LIMIT <= self.rows[i as int][0] <= MATRIX_LIMIT);
            assert(-MATRIX_LIMIT <= self.rows[i as int][1] <= MATRIX_LIMIT);
            assert(-MATRIX_LIMIT <= self.rows[i as int][2] <= MATRIX_LIMIT);
            assert(-MATRIX_LIMIT <= self.rows[i as int][3] <= MATRIX_LIMIT);
            lemma_product_bound(row[0] as int, pt.x as int, MATRIX_LIMIT as int, POS_LIMIT as int);
            lemma_product_bound(row[1] as int, pt.y as int, MATRIX_LIMIT as int, POS_LIMIT as int);
            lemma_product_bound(row[2] as int, pt.z as int, MATRIX_LIMIT as int, POS_LIMIT as int);
            assert(MATRIX_LIMIT * POS_LIMIT == 0x8_0000_0000_0000_0000_0000) by (nonlinear_arith)
                requires
                    MATRIX_LIMIT == 0x8000_0000,
                    POS_LIMIT == 0x10_0000_0000_0000,
            ;
            assert(-0x8_0000_0000_0000_0000_0000 <= row[3] * POS_SCALE
                <= 0x8_0000_0000_0000_0000_0000) by (nonlinear_arith)
                requires
                    -0x8000_0000 <= row[3] <= 0x8000_0000,
                    POS_SCALE == 49152,
            ;
        }
        row[0] as i128 * pt.x as i128 + row[1] as i128 * pt.y as i128 + row[2] as i128
            * pt.z as i128 + row[3] as i128 * POS_SCALE as i128
    }
}

/// Whether a point lies in the view volume of a view-projection matrix:
/// after the perspective divide its `x` and `y` lie in `-1..=1` and its `z`
/// in `0..=1`. The divide is not carried out; the test compares against the
/// fourth clip coordinate, which must not be zero.
pub open spec fn in_frustum_spec(pt: Point, view_proj: Frustum) -> bool {
    let x = view_proj.clip(pt, 0);
    let y = view_proj.clip(pt, 1);
    let z = view_proj.clip(pt, 2);
    let w = view_proj.clip(pt, 3);
    if w > 0 {
        -w <= x <= w && -w <= y <= w && 0 <= z <= w
    } else if w < 0 {
        w <= x <= -w && w <= y <= -w && w <= z <= 0
    } else {
        false
    }
}

/// Tests whether a point lies in the view volume of a matrix.
pub fn in_frustum(pt: Point, view_proj: &Frustum) -> (inside: bool)
    requires
        pt.in_range(),
        view_proj.valid(),
    ensures
        inside == in_frustum_spec(pt, *view_proj),
{
    let x = view_proj.clip_coord(pt, 0);
    let y = view_proj.clip_coord(pt, 1);
    let z = view_proj.clip_coord(pt, 2);
    let w = view_proj.clip_coord(pt, 3);
    if w > 0 {
        -w <= x && x <= w && -w <= y && y <= w && 0 <= z && z <= w
    } else if w < 0 {
        w <= x && x <= -w && w <= y && y <= -w && w <= z && z <= 0
    } else {
        false
    }
}

/// The square of a number no larger than `b` in magnitude lies in `0..=b*b`.
pub proof fn lemma_square_bound(a: int, b: int)
    requires
        -b <= a <= b,
    ensures
        0 <= a * a <= b * b,
{
    assert(0 <= a * a <= b * b) by (nonlinear_arith)
        requires
            -b <= a <= b,
    ;
}

/// The product of two numbers bounded in magnitude by `b` and `c`.
pub proof fn lemma_product_bound(x: int, y: int, b: int, c: int)
    requires
        -b <= x <= b,
        -c <= y <= c,
    ensures
        -(b * c) <= x * y <= b * c,
{
    assert(-(b * c) <= x * y <= b * c) by (nonlinear_arith)
        requires
            -b <= x <= b,
            -c <= y <= c,
    ;
}

} // verus!
