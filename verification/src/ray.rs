use vstd::prelude::*;
use crate::util::{Point, Tri, WideVec, lemma_product_bound};

verus! {

/// A hit at `pos + dir * t` is reported as `t * RAY_SCALE`, rounded down.
pub const RAY_SCALE: i128 = 65536;

/// A ray counts as parallel to a triangle when the sine of the angle between
/// them lies below one part in this many.
pub const RAY_GRAZE: i128 = 100_000;

/// Largest magnitude of a component of a triangle's edge that ray casting is
/// proved for: the edge of a cell.
pub const RAY_EDGE_LIMIT: i128 = 0x1_0000;

/// Largest magnitude of a component of a triangle's normal that ray casting
/// is proved for.
pub const RAY_NORMAL_LIMIT: i128 = 0x2_0000_0000;

/// Largest distance along an axis between a ray's origin and a triangle's
/// corner that ray casting is proved for: sixteen cells.
pub const RAY_REACH_LIMIT: i128 = 0x10_0000;

/// Largest magnitude of a component of a ray's direction.
pub const RAY_DIR_LIMIT: i128 = 0x400;

/// The difference of two points.
pub open spec fn diff(a: Point, b: Point) -> (int, int, int) {
    (a.x - b.x, a.y - b.y, a.z - b.z)
}

/// A vector with wide components as a triple.
pub open spec fn wide(v: WideVec) -> (int, int, int) {
    (v.x as int, v.y as int, v.z as int)
}

/// The dot product of two vectors.
pub open spec fn vdot(a: (int, int, int), b: (int, int, int)) -> int {
    a.0 * b.0 + a.1 * b.1 + a.2 * b.2
}

/// The cross product of two vectors.
pub open spec fn vcross(a: (int, int, int), b: (int, int, int)) -> (int, int, int) {
    (a.1 * b.2 - a.2 * b.1, a.2 * b.0 - a.0 * b.2, a.0 * b.1 - a.1 * b.0)
}

/// The vector `a * s + b * t`.
pub open spec fn vmix(a: (int, int, int), s: int, b: (int, int, int), t: int) -> (int, int, int) {
    (a.0 * s + b.0 * t, a.1 * s + b.1 * t, a.2 * s + b.2 * t)
}

/// Every component of the vector lies within `limit` of zero.
pub open spec fn within(v: (int, int, int), limit: int) -> bool {
    -limit <= v.0 <= limit && -limit <= v.1 <= limit && -limit <= v.2 <= limit
}

impl Tri {
    /// The domain of ray casting: the triangle and the ray are of a size
    /// for which every product of the computation fits 128 bits.
    ///
    /// The triangle's edges are no longer than a cell along any axis and its
    /// normal is no longer than the cross product of two such edges; the
    /// ray starts within sixteen cells of each corner along every axis; and
    /// its direction has components of at most 1024. Every triangle of a
    /// chunk's mesh lies in one cell, and a chunk measures twelve cells, so
    /// the domain holds every ray that starts in the triangle's own chunk or
    /// up to four cells outside it.
    pub open spec fn castable(self, pos: Point, dir: Point) -> bool {
        &&& within(diff(self.verts[1], self.verts[0]), RAY_EDGE_LIMIT as int)
        &&& within(diff(self.verts[2], self.verts[1]), RAY_EDGE_LIMIT as int)
        &&& within(diff(self.verts[0], self.verts[2]), RAY_EDGE_LIMIT as int)
        &&& within(wide(self.normal), RAY_NORMAL_LIMIT as int)
        &&& within(diff(pos, self.verts[0]), RAY_REACH_LIMIT as int)
        &&& within(diff(pos, self.verts[1]), RAY_REACH_LIMIT as int)
        &&& within(diff(pos, self.verts[2]), RAY_REACH_LIMIT as int)
        &&& within(diff(dir, Point { x: 0, y: 0, z: 0 }), RAY_DIR_LIMIT as int)
    }

    /// The rate at which a ray along `dir` nears the triangle's plane.
    pub open spec fn ray_den(self, dir: Point) -> int {
        vdot(wide(self.normal), diff(dir, Point { x: 0, y: 0, z: 0 }))
    }

    /// How far the plane lies from `pos`, on the scale of `ray_den`: the ray
    /// meets the plane at `pos + dir * ray_num / ray_den`.
    pub open spec fn ray_num(self, pos: Point) -> int {
        vdot(wide(self.normal), diff(self.verts[0], pos))
    }

    /// Whether the ray runs so nearly along the triangle's plane that it
    /// counts as parallel.
    pub open spec fn grazes(self, dir: Point) -> bool {
        let d = diff(dir, Point { x: 0, y: 0, z: 0 });
        self.ray_den(dir) * self.ray_den(dir) * (RAY_GRAZE * RAY_GRAZE) < vdot(
            wide(self.normal),
            wide(self.normal),
        ) * vdot(d, d)
    }

    /// `ray_den` times the vector from corner `i` to the point where the ray
    /// meets the plane.
    pub open spec fn to_hit(self, pos: Point, dir: Point, i: int) -> (int, int, int) {
        vmix(
            diff(pos, self.verts[i]),
            self.ray_den(dir),
            diff(dir, Point { x: 0, y: 0, z: 0 }),
            self.ray_num(pos),
        )
    }

    /// On which side of the edge that leaves corner `i` the ray meets the
    /// plane: not negative on the inner side when `ray_den` is positive, not
    /// positive on the inner side when it is negative.
    pub open spec fn side(self, pos: Point, dir: Point, i: int) -> int {
        vdot(
            vcross(diff(self.verts[(i + 1) % 3], self.verts[i]), self.to_hit(pos, dir, i)),
            wide(self.normal),
        )
    }

    /// Where the ray from `pos` along `dir` hits the triangle, as the
    /// multiple of `dir` in units of one `RAY_SCALE`th, rounded down; nothing
    /// if the ray is parallel to the triangle, if it meets the plane behind
    /// `pos` or beyond `range`, or if it meets the plane outside the
    /// triangle.
    pub open spec fn ray_hit(self, pos: Point, dir: Point, range: int) -> Option<int> {
        let den = self.ray_den(dir);
        let num = self.ray_num(pos);
        if self.grazes(dir) || den == 0 {
            None
        } else if den > 0 {
            if num < 0 || num * RAY_SCALE > range * den {
                None
            } else if self.side(pos, dir, 0) >= 0 && self.side(pos, dir, 1) >= 0 && self.side(
                pos,
                dir,
                2,
            ) >= 0 {
                Some(num * RAY_SCALE / den)
            } else {
                None
            }
        } else {
            if num > 0 || num * RAY_SCALE < range * den {
                None
            } else if self.side(pos, dir, 0) <= 0 && self.side(pos, dir, 1) <= 0 && self.side(
                pos,
                dir,
                2,
            ) <= 0 {
                Some((-num) * RAY_SCALE / (-den))
            } else {
                None
            }
        }
    }

    /// Checks whether the triangle and the ray lie in the domain of ray
    /// casting.
    pub fn is_castable(&self, pos: Point, dir: Point) -> (ok: bool)
        requires
            self.verts[0].in_range(),
            self.verts[1].in_range(),
            self.verts[2].in_range(),
            pos.in_range(),
        ensures
            ok == self.castable(pos, dir),
    {
        let a = self.verts[0];
        let b = self.verts[1];
        let c = self.verts[2];
        let origin = Point { x: 0, y: 0, z: 0 };
        fits(between(b, a), RAY_EDGE_LIMIT) && fits(between(c, b), RAY_EDGE_LIMIT) && fits(
            between(a, c),
            RAY_EDGE_LIMIT,
        ) && fits(self.normal, RAY_NORMAL_LIMIT) && fits(between(pos, a), RAY_REACH_LIMIT) && fits(
            between(pos, b),
            RAY_REACH_LIMIT,
        ) && fits(between(pos, c), RAY_REACH_LIMIT) && fits(between(dir, origin), RAY_DIR_LIMIT)
    }

    /// Casts a ray at the triangle. The triangle and the ray must lie in the
    /// domain that `castable` describes, which `is_castable` tests.
    pub fn intersects(&self, pos_other: Point, dir: Point, range: i64) -> (hit: Option<i64>)
        requires
            self.castable(pos_other, dir),
        ensures
            match hit {
                Some(t) => self.ray_hit(pos_other, dir, range as int) == Some(t as int),
                None => self.ray_hit(pos_other, dir, range as int) is None,
            },
    {
        let n = self.normal;
        let d = WideVec { x: dir.x as i128, y: dir.y as i128, z: dir.z as i128 };
        let den = dot_of(n, d, Ghost(RAY_NORMAL_LIMIT as int), Ghost(RAY_DIR_LIMIT as int));
        let to_plane = between(self.verts[0], pos_other);
        let num = dot_of(n, to_plane, Ghost(RAY_NORMAL_LIMIT as int), Ghost(RAY_REACH_LIMIT as int));
        let nn = dot_of(n, n, Ghost(RAY_NORMAL_LIMIT as int), Ghost(RAY_NORMAL_LIMIT as int));
        let dd = dot_of(d, d, Ghost(RAY_DIR_LIMIT as int), Ghost(RAY_DIR_LIMIT as int));
        proof {
            lemma_product_bound(den as int, den as int, 0x1800_0000_0000, 0x1800_0000_0000);
            lemma_product_bound(
                den * den,
                RAY_GRAZE * RAY_GRAZE,
                0x240_0000_0000_0000_0000_0000,
                10_000_000_000,
            );
            lemma_product_bound(nn as int, dd as int, 0xC_0000_0000_0000_0000, 0x30_0000);
            assert(0x240_0000_0000_0000_0000_0000 * 10_000_000_000
                < 0x1000_0000_0000_0000_0000_0000_0000_0000int) by (nonlinear_arith);
            assert(0xC_0000_0000_0000_0000 * 0x30_0000 < 0x1000_0000_0000_0000_0000_0000int)
                by (nonlinear_arith);
            assert(0x1800_0000_0000 * 0x1800_0000_0000 == 0x240_0000_0000_0000_0000_0000int)
                by (nonlinear_arith);
            assert(RAY_GRAZE * RAY_GRAZE == 10_000_000_000) by (nonlinear_arith)
                requires
                    RAY_GRAZE == 100_000,
            ;
            assert(den * den * (RAY_GRAZE * RAY_GRAZE) == (den * den) * (RAY_GRAZE * RAY_GRAZE));
        }
        let graze: i128 = RAY_GRAZE * RAY_GRAZE;
        if den * den * graze < nn * dd || den == 0 {
            return None;
        }
        proof {
            lemma_product_bound(num as int, RAY_SCALE as int, 0x60_0000_0000_0000, 65536);
            lemma_product_bound(
                range as int,
                den as int,
                0x8000_0000_0000_0000,
                0x1800_0000_0000,
            );
            assert(0x60_0000_0000_0000 * 65536 < 0x1000_0000_0000_0000_0000_0000int)
                by (nonlinear_arith);
            assert(0x8000_0000_0000_0000 * 0x1800_0000_0000
                < 0x1000_0000_0000_0000_0000_0000_0000_0000int) by (nonlinear_arith);
        }
        if den > 0 {
            if num < 0 || num * RAY_SCALE > range as i128 * den {
                return None;
            }
        } else {
            if num > 0 || num * RAY_SCALE < range as i128 * den {
                return None;
            }
        }
        let s0 = self.side_of(pos_other, d, den, num, 0);
        let s1 = self.side_of(pos_other, d, den, num, 1);
        let s2 = self.side_of(pos_other, d, den, num, 2);
        if den > 0 {
            if s0 >= 0 && s1 >= 0 && s2 >= 0 {
                let t: i128 = num * RAY_SCALE / den;
                proof {
                    lemma_quotient_within(num * RAY_SCALE, den as int, range as int);
                }
                Some(t as i64)
            } else {
                None
            }
        } else {
            if s0 <= 0 && s1 <= 0 && s2 <= 0 {
                proof {
                    assert((-num) * RAY_SCALE == -(num * RAY_SCALE)) by (nonlinear_arith);
                    assert(range * (-den) == -(range * den)) by (nonlinear_arith);
                    lemma_quotient_within((-num) * RAY_SCALE, -den, range as int);
                }
                let t: i128 = (-num) * RAY_SCALE / (-den);
                Some(t as i64)
            } else {
                None
            }
        }
    }

    /// Computes `side` for corner `i`.
    fn side_of(&self, pos: Point, d: WideVec, den: i128, num: i128, i: usize) -> (s: i128)
        requires
            i < 3,
            within(diff(self.verts[(i as int + 1) % 3], self.verts[i as int]), RAY_EDGE_LIMIT as int),
            within(wide(self.normal), RAY_NORMAL_LIMIT as int),
            within(diff(pos, self.verts[i as int]), RAY_REACH_LIMIT as int),
            within(wide(d), RAY_DIR_LIMIT as int),
            -0x1800_0000_0000 <= den <= 0x1800_0000_0000,
            -0x60_0000_0000_0000 <= num <= 0x60_0000_0000_0000,
        ensures
            s == vdot(
                vcross(
                    diff(self.verts[(i as int + 1) % 3], self.verts[i as int]),
                    vmix(diff(pos, self.verts[i as int]), den as int, wide(d), num as int),
                ),
                wide(self.normal),
            ),
    {
        let next: usize = if i == 2 {
            0
        } else {
            i + 1
        };
        let edge = between(self.verts[next], self.verts[i]);
        let from = between(pos, self.verts[i]);
        proof {
            lemma_product_bound(from.x as int, den as int, 0x10_0000, 0x1800_0000_0000);
            lemma_product_bound(from.y as int, den as int, 0x10_0000, 0x1800_0000_0000);
            lemma_product_bound(from.z as int, den as int, 0x10_0000, 0x1800_0000_0000);
            lemma_product_bound(d.x as int, num as int, 0x400, 0x60_0000_0000_0000);
            lemma_product_bound(d.y as int, num as int, 0x400, 0x60_0000_0000_0000);
            lemma_product_bound(d.z as int, num as int, 0x400, 0x60_0000_0000_0000);
            assert(0x10_0000 * 0x1800_0000_0000 == 0x1_8000_0000_0000_0000int) by (nonlinear_arith);
            assert(0x400 * 0x60_0000_0000_0000 == 0x1_8000_0000_0000_0000int) by (nonlinear_arith);
        }
        let to_hit = WideVec {
            x: from.x * den + d.x * num,
            y: from.y * den + d.y * num,
            z: from.z * den + d.z * num,
        };
        let across = cross_of(
            edge,
            to_hit,
            Ghost(RAY_EDGE_LIMIT as int),
            Ghost(0x3_0000_0000_0000_0000),
        );
        proof {
            assert(RAY_EDGE_LIMIT * 0x3_0000_0000_0000_0000 == 0x3_0000_0000_0000_0000_0000int)
                by (nonlinear_arith)
                requires
                    RAY_EDGE_LIMIT == 0x1_0000,
            ;
            assert(0x6_0000_0000_0000_0000_0000 * RAY_NORMAL_LIMIT
                == 0xC_0000_0000_0000_0000_0000_0000_0000int) by (nonlinear_arith)
                requires
                    RAY_NORMAL_LIMIT == 0x2_0000_0000,
            ;
        }
        dot_of(across, self.normal, Ghost(0x6_0000_0000_0000_0000_0000), Ghost(RAY_NORMAL_LIMIT as int))
    }
}

/// Checks whether every component of a vector lies within `limit` of zero.
fn fits(v: WideVec, limit: i128) -> (ok: bool)
    requires
        0 <= limit <= 0x1_0000_0000_0000,
    ensures
        ok == within(wide(v), limit as int),
{
    -limit <= v.x && v.x <= limit && -limit <= v.y && v.y <= limit && -limit <= v.z && v.z
        <= limit
}

/// The difference of two points as a wide vector.
fn between(a: Point, b: Point) -> (v: WideVec)
    ensures
        wide(v) == diff(a, b),
{
    WideVec { x: a.x as i128 - b.x as i128, y: a.y as i128 - b.y as i128, z: a.z as i128
        - b.z as i128 }
}

/// Computes the dot product of two vectors whose components lie within
/// `la` and `lb` of zero.
fn dot_of(a: WideVec, b: WideVec, Ghost(la): Ghost<int>, Ghost(lb): Ghost<int>) -> (d: i128)
    requires
        within(wide(a), la),
        within(wide(b), lb),
        0 <= la,
        0 <= lb,
        3 * (la * lb) < 0x4000_0000_0000_0000_0000_0000_0000_0000,
    ensures
        d == vdot(wide(a), wide(b)),
        d <= 3 * (la * lb),
        d >= -(3 * (la * lb)),
{
    proof {
        lemma_product_bound(a.x as int, b.x as int, la, lb);
        lemma_product_bound(a.y as int, b.y as int, la, lb);
        lemma_product_bound(a.z as int, b.z as int, la, lb);
        let p = la * lb;
        let px = (a.x as int) * (b.x as int);
        let py = (a.y as int) * (b.y as int);
        let pz = (a.z as int) * (b.z as int);
        assert(-p <= px <= p);
        assert(-p <= py <= p);
        assert(-p <= pz <= p);
        assert(vdot(wide(a), wide(b)) == px + py + pz);
        assert(3 * (la * lb) == p + p + p);
    }
    a.x * b.x + a.y * b.y + a.z * b.z
}

/// Computes the cross product of two vectors whose components lie within
/// `la` and `lb` of zero.
fn cross_of(a: WideVec, b: WideVec, Ghost(la): Ghost<int>, Ghost(lb): Ghost<int>) -> (c: WideVec)
    requires
        within(wide(a), la),
        within(wide(b), lb),
        0 <= la,
        0 <= lb,
        2 * (la * lb) < 0x4000_0000_0000_0000_0000_0000_0000_0000,
    ensures
        wide(c) == vcross(wide(a), wide(b)),
        within(wide(c), 2 * (la * lb)),
{
    proof {
        lemma_product_bound(a.y as int, b.z as int, la, lb);
        lemma_product_bound(a.z as int, b.y as int, la, lb);
        lemma_product_bound(a.z as int, b.x as int, la, lb);
        lemma_product_bound(a.x as int, b.z as int, la, lb);
        lemma_product_bound(a.x as int, b.y as int, la, lb);
        lemma_product_bound(a.y as int, b.x as int, la, lb);
    }
    WideVec { x: a.y * b.z - a.z * b.y, y: a.z * b.x - a.x * b.z, z: a.x * b.y - a.y * b.x }
}

/// A quotient of a dividend that is neither negative nor above `bound`
/// times the positive divisor lies in `0..=bound`.
pub proof fn lemma_quotient_within(a: int, d: int, bound: int)
    requires
        d > 0,
        0 <= a <= bound * d,
    ensures
        0 <= a / d <= bound,
{
    vstd::arithmetic::div_mod::lemma_div_pos_is_pos(a, d);
    vstd::arithmetic::div_mod::lemma_div_is_ordered(a, bound * d, d);
    vstd::arithmetic::div_mod::lemma_div_multiples_vanish(bound, d);
    assert(bound * d == d * bound) by (nonlinear_arith);
}

/// Multiplying out `n * (f * s + d * t)`.
proof fn lemma_scaled_sum(n: int, f: int, s: int, d: int, t: int)
    ensures
        n * (f * s + d * t) == (n * f) * s + (n * d) * t,
{
    assert(n * (f * s + d * t) == (n * f) * s + (n * d) * t) by (nonlinear_arith);
}

/// The point where a ray is found to meet a triangle's plane lies in that
/// plane: seen from the triangle's first corner it is at right angles to the
/// normal.
pub proof fn lemma_hit_lies_in_plane(tri: Tri, pos: Point, dir: Point)
    ensures
        vdot(wide(tri.normal), tri.to_hit(pos, dir, 0)) == 0,
{
    let n = wide(tri.normal);
    let d = diff(dir, Point { x: 0, y: 0, z: 0 });
    let from = diff(pos, tri.verts[0]);
    let to = diff(tri.verts[0], pos);
    let den = tri.ray_den(dir);
    let num = tri.ray_num(pos);
    assert(vdot(n, from) == -num) by (nonlinear_arith)
        requires
            num == n.0 * to.0 + n.1 * to.1 + n.2 * to.2,
            vdot(n, from) == n.0 * from.0 + n.1 * from.1 + n.2 * from.2,
            from.0 == -to.0,
            from.1 == -to.1,
            from.2 == -to.2,
    ;
    let h = tri.to_hit(pos, dir, 0);
    lemma_scaled_sum(n.0, from.0, den, d.0, num);
    lemma_scaled_sum(n.1, from.1, den, d.1, num);
    lemma_scaled_sum(n.2, from.2, den, d.2, num);
    let a = vdot(n, from);
    let b = vdot(n, d);
    assert(a * den == (n.0 * from.0) * den + (n.1 * from.1) * den + (n.2 * from.2) * den)
        by (nonlinear_arith)
        requires
            a == n.0 * from.0 + n.1 * from.1 + n.2 * from.2,
    ;
    assert(b * num == (n.0 * d.0) * num + (n.1 * d.1) * num + (n.2 * d.2) * num)
        by (nonlinear_arith)
        requires
            b == n.0 * d.0 + n.1 * d.1 + n.2 * d.2,
    ;
    assert(vdot(n, h) == a * den + b * num);
    assert((-num) * den + den * num == 0) by (nonlinear_arith);
}

} // verus!
