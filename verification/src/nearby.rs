use vstd::prelude::*;
use crate::gen_prio::{GenPrio, PRIO_DIST_LIMIT};
use crate::sub::{Sub, SUB_CHUNK_LIMIT};
use crate::util::{Frustum, Point, in_frustum, in_frustum_spec, lemma_square_bound, CHUNK_UNITS};

verus! {

/// What a look at the neighbourhood goes by: the observer and the two
/// frustums, the tight one for what is in view and the wide one for what is
/// worth generating early.
#[derive(Clone, Copy, Debug)]
pub struct Scan {
    pub sub: Sub,
    pub view: Frustum,
    pub gen: Frustum,
}

impl Scan {
    /// The observer and both matrices are within their limits.
    pub open spec fn valid(self) -> bool {
        self.sub.valid() && self.view.valid() && self.gen.valid()
    }
}

/// A coordinate near enough to an observer's chunk to be looked at.
pub open spec fn scannable(pos: (i32, i32, i32)) -> bool {
    &&& -SUB_CHUNK_LIMIT - 8 <= pos.0 <= SUB_CHUNK_LIMIT + 8
    &&& -SUB_CHUNK_LIMIT - 8 <= pos.1 <= SUB_CHUNK_LIMIT + 8
    &&& -SUB_CHUNK_LIMIT - 8 <= pos.2 <= SUB_CHUNK_LIMIT + 8
}

/// The centre of a chunk.
pub open spec fn chunk_center(pos: (i32, i32, i32)) -> Point {
    Point {
        x: (pos.0 * CHUNK_UNITS + CHUNK_UNITS / 2) as i64,
        y: (pos.1 * CHUNK_UNITS + CHUNK_UNITS / 2) as i64,
        z: (pos.2 * CHUNK_UNITS + CHUNK_UNITS / 2) as i64,
    }
}

/// Corner `i` of a chunk, `i` in `0..8`: bit 0 of `i` steps along `x`, bit 1
/// along `y`, bit 2 along `z`.
pub open spec fn chunk_corner(pos: (i32, i32, i32), i: int) -> Point {
    Point {
        x: ((pos.0 + i % 2) * CHUNK_UNITS) as i64,
        y: ((pos.1 + (i / 2) % 2) * CHUNK_UNITS) as i64,
        z: ((pos.2 + i / 4) * CHUNK_UNITS) as i64,
    }
}

/// The squared distance between two points.
pub open spec fn point_dist_sq(a: Point, b: Point) -> int {
    (a.x - b.x) * (a.x - b.x) + (a.y - b.y) * (a.y - b.y) + (a.z - b.z) * (a.z - b.z)
}

/// One of the first `n` corners of a chunk lies in the generation frustum.
pub open spec fn corners_in_gen(pos: (i32, i32, i32), scan: Scan, n: int) -> bool
    decreases n,
{
    if n <= 0 {
        false
    } else {
        corners_in_gen(pos, scan, n - 1) || in_frustum_spec(chunk_corner(pos, n - 1), scan.gen)
    }
}

/// One of the first `n` corners of a chunk lies in the view frustum.
pub open spec fn corners_in_view(pos: (i32, i32, i32), scan: Scan, n: int) -> bool
    decreases n,
{
    if n <= 0 {
        false
    } else {
        corners_in_view(pos, scan, n - 1) || in_frustum_spec(chunk_corner(pos, n - 1), scan.view)
    }
}

/// The squared distance from the observer to a chunk's centre.
pub open spec fn center_dist_sq(scan: Scan, pos: (i32, i32, i32)) -> int {
    point_dist_sq(scan.sub.pos, chunk_center(pos))
}

/// The priority with which an absent chunk is queued.
pub open spec fn prio_of(scan: Scan, pos: (i32, i32, i32)) -> GenPrio {
    GenPrio {
        dist_sq: center_dist_sq(scan, pos) as i128,
        z: pos.2,
        in_view: corners_in_view(pos, scan, 8),
        in_gen: corners_in_gen(pos, scan, 8),
    }
}

/// The coordinate alone if the rule keeps it, nothing otherwise.
pub open spec fn pick_one(keep: spec_fn((i32, i32, i32)) -> bool, pos: (i32, i32, i32)) -> Seq<
    (i32, i32, i32),
> {
    if keep(pos) {
        seq![pos]
    } else {
        Seq::empty()
    }
}

/// The coordinates `(x, y, z0..z1)` that the rule keeps, in order.
pub open spec fn pick_column(
    keep: spec_fn((i32, i32, i32)) -> bool,
    x: int,
    y: int,
    z0: int,
    z1: int,
) -> Seq<(i32, i32, i32)>
    decreases z1 - z0,
{
    if z1 <= z0 {
        Seq::empty()
    } else {
        pick_column(keep, x, y, z0, z1 - 1) + pick_one(keep, (x as i32, y as i32, (z1 - 1) as i32))
    }
}

/// The coordinates `(x, y0..y1, z0..z1)` that the rule keeps, `z` running
/// fastest.
pub open spec fn pick_slab(
    keep: spec_fn((i32, i32, i32)) -> bool,
    x: int,
    y0: int,
    y1: int,
    z0: int,
    z1: int,
) -> Seq<(i32, i32, i32)>
    decreases y1 - y0,
{
    if y1 <= y0 {
        Seq::empty()
    } else {
        pick_slab(keep, x, y0, y1 - 1, z0, z1) + pick_column(keep, x, y1 - 1, z0, z1)
    }
}

/// The coordinates `(x0..x1, y0..y1, z0..z1)` that the rule keeps, `z`
/// running fastest and `x` slowest.
pub open spec fn pick_cube(
    keep: spec_fn((i32, i32, i32)) -> bool,
    x0: int,
    x1: int,
    y0: int,
    y1: int,
    z0: int,
    z1: int,
) -> Seq<(i32, i32, i32)>
    decreases x1 - x0,
{
    if x1 <= x0 {
        Seq::empty()
    } else {
        pick_cube(keep, x0, x1 - 1, y0, y1, z0, z1) + pick_slab(keep, x1 - 1, y0, y1, z0, z1)
    }
}

/// A list of coordinates, each with the priority it is queued with.
pub open spec fn with_prio(list: Seq<(i32, i32, i32)>, scan: Scan) -> Seq<
    ((i32, i32, i32), GenPrio),
> {
    Seq::new(list.len(), |i: int| (list[i], prio_of(scan, list[i])))
}

/// Pairing with priorities goes through concatenation.
pub proof fn lemma_with_prio_concat(a: Seq<(i32, i32, i32)>, b: Seq<(i32, i32, i32)>, scan: Scan)
    ensures
        with_prio(a + b, scan) == with_prio(a, scan) + with_prio(b, scan),
{
    assert(with_prio(a + b, scan) =~= with_prio(a, scan) + with_prio(b, scan));
}

/// Whether the coordinate lies in the box `x0..x1`, `y0..y1`, `z0..z1`.
pub open spec fn in_box(
    pos: (i32, i32, i32),
    x0: int,
    x1: int,
    y0: int,
    y1: int,
    z0: int,
    z1: int,
) -> bool {
    x0 <= pos.0 < x1 && y0 <= pos.1 < y1 && z0 <= pos.2 < z1
}

/// The chunk layers that are looked at around a chunk at height `z`, as a
/// range `first..end`: those within five layers that are ever generated.
pub open spec fn layers_first(z: int) -> int {
    if z - 5 < -2 {
        -2
    } else {
        z - 5
    }
}

/// One past the last chunk layer that is looked at around height `z`.
pub open spec fn layers_end(z: int) -> int {
    if z + 5 > 2 {
        3
    } else {
        z + 5 + 1
    }
}

/// The coordinates around the observer's chunk `c` that the rule keeps:
/// along `x` and `y` the eleven columns from five before `c` to five after
/// it, and the layers within five of `c` that are ever generated. No chunk
/// outside them has its centre within the generation distance of an
/// observer in `c`.
pub open spec fn pick_around(keep: spec_fn((i32, i32, i32)) -> bool, c: (i32, i32, i32)) -> Seq<
    (i32, i32, i32),
> {
    pick_cube(
        keep,
        c.0 - 5,
        c.0 + 6,
        c.1 - 5,
        c.1 + 6,
        layers_first(c.2 as int),
        layers_end(c.2 as int),
    )
}

/// Whether a coordinate is looked at around the observer's chunk `c`.
pub open spec fn around(pos: (i32, i32, i32), c: (i32, i32, i32)) -> bool {
    in_box(
        pos,
        c.0 - 5,
        c.0 + 6,
        c.1 - 5,
        c.1 + 6,
        layers_first(c.2 as int),
        layers_end(c.2 as int),
    )
}

/// A column lists exactly the coordinates of its range that the rule keeps,
/// each once.
pub proof fn lemma_pick_column(
    keep: spec_fn((i32, i32, i32)) -> bool,
    x: int,
    y: int,
    z0: int,
    z1: int,
)
    requires
        i32::MIN <= x <= i32::MAX,
        i32::MIN <= y <= i32::MAX,
        i32::MIN <= z0,
        z1 <= i32::MAX,
    ensures
        pick_column(keep, x, y, z0, z1).no_duplicates(),
        forall|pos: (i32, i32, i32)|
            #[trigger] pick_column(keep, x, y, z0, z1).contains(pos) <==> (in_box(
                pos,
                x,
                x + 1,
                y,
                y + 1,
                z0,
                z1,
            ) && keep(pos)),
    decreases z1 - z0,
{
    let list = pick_column(keep, x, y, z0, z1);
    if z1 > z0 {
        lemma_pick_column(keep, x, y, z0, z1 - 1);
        let rest = pick_column(keep, x, y, z0, z1 - 1);
        let last = (x as i32, y as i32, (z1 - 1) as i32);
        let one = pick_one(keep, last);
        lemma_concat(rest, one);
        assert forall|pos: (i32, i32, i32)| #[trigger] one.contains(pos) <==> (pos == last && keep(
            pos,
        )) by {
            if keep(last) {
                assert(one[0] == last);
            }
        }
        assert(one.no_duplicates());
    }
}

/// What a concatenation holds, and when it names nothing twice.
pub proof fn lemma_concat<A>(a: Seq<A>, b: Seq<A>)
    ensures
        forall|e: A| #[trigger] (a + b).contains(e) <==> (a.contains(e) || b.contains(e)),
        (a.no_duplicates() && b.no_duplicates() && (forall|e: A|
            !(a.contains(e) && b.contains(e)))) ==> (a + b).no_duplicates(),
{
    let c = a + b;
    assert forall|e: A| #[trigger] c.contains(e) <==> (a.contains(e) || b.contains(e)) by {
        if c.contains(e) {
            let i = c.index_of(e);
            if i < a.len() {
                assert(a[i] == e);
            } else {
                assert(b[i - a.len()] == e);
            }
        }
        if a.contains(e) {
            let i = a.index_of(e);
            assert(c[i] == e);
        }
        if b.contains(e) {
            let i = b.index_of(e);
            assert(c[a.len() + i] == e);
        }
    }
    if a.no_duplicates() && b.no_duplicates() && (forall|e: A| !(a.contains(e) && b.contains(e))) {
        assert forall|i: int, j: int| 0 <= i < c.len() && 0 <= j < c.len() && i != j implies c[i]
            != c[j] by {
            if i < a.len() && j >= a.len() {
                assert(a.contains(a[i]));
                assert(b.contains(b[j - a.len()]));
            }
            if j < a.len() && i >= a.len() {
                assert(a.contains(a[j]));
                assert(b.contains(b[i - a.len()]));
            }
        }
    }
}

/// A slab lists exactly the coordinates of its range that the rule keeps,
/// each once.
pub proof fn lemma_pick_slab(
    keep: spec_fn((i32, i32, i32)) -> bool,
    x: int,
    y0: int,
    y1: int,
    z0: int,
    z1: int,
)
    requires
        i32::MIN <= x <= i32::MAX,
        i32::MIN <= y0,
        y1 <= i32::MAX,
        i32::MIN <= z0,
        z1 <= i32::MAX,
    ensures
        pick_slab(keep, x, y0, y1, z0, z1).no_duplicates(),
        forall|pos: (i32, i32, i32)|
            #[trigger] pick_slab(keep, x, y0, y1, z0, z1).contains(pos) <==> (in_box(
                pos,
                x,
                x + 1,
                y0,
                y1,
                z0,
                z1,
            ) && keep(pos)),
    decreases y1 - y0,
{
    if y1 > y0 {
        lemma_pick_slab(keep, x, y0, y1 - 1, z0, z1);
        lemma_pick_column(keep, x, y1 - 1, z0, z1);
        lemma_concat(
            pick_slab(keep, x, y0, y1 - 1, z0, z1),
            pick_column(keep, x, y1 - 1, z0, z1),
        );
    }
}

/// A cube lists exactly the coordinates of its range that the rule keeps,
/// each once.
pub proof fn lemma_pick_cube(
    keep: spec_fn((i32, i32, i32)) -> bool,
    x0: int,
    x1: int,
    y0: int,
    y1: int,
    z0: int,
    z1: int,
)
    requires
        i32::MIN <= x0,
        x1 <= i32::MAX,
        i32::MIN <= y0,
        y1 <= i32::MAX,
        i32::MIN <= z0,
        z1 <= i32::MAX,
    ensures
        pick_cube(keep, x0, x1, y0, y1, z0, z1).no_duplicates(),
        forall|pos: (i32, i32, i32)|
            #[trigger] pick_cube(keep, x0, x1, y0, y1, z0, z1).contains(pos) <==> (in_box(
                pos,
                x0,
                x1,
                y0,
                y1,
                z0,
                z1,
            ) && keep(pos)),
    decreases x1 - x0,
{
    if x1 > x0 {
        lemma_pick_cube(keep, x0, x1 - 1, y0, y1, z0, z1);
        lemma_pick_slab(keep, x1 - 1, y0, y1, z0, z1);
        lemma_concat(
            pick_cube(keep, x0, x1 - 1, y0, y1, z0, z1),
            pick_slab(keep, x1 - 1, y0, y1, z0, z1),
        );
    }
}

/// Once a corner has been found in the generation frustum, looking at more
/// corners does not lose it.
pub proof fn lemma_corners_in_gen_grow(pos: (i32, i32, i32), scan: Scan, n: int, m: int)
    requires
        n <= m,
        corners_in_gen(pos, scan, n),
    ensures
        corners_in_gen(pos, scan, m),
    decreases m - n,
{
    if n < m {
        lemma_corners_in_gen_grow(pos, scan, n, m - 1);
    }
}

/// Once a corner has been found in view, looking at more corners does not
/// lose it.
pub proof fn lemma_corners_in_view_grow(pos: (i32, i32, i32), scan: Scan, n: int, m: int)
    requires
        n <= m,
        corners_in_view(pos, scan, n),
    ensures
        corners_in_view(pos, scan, m),
    decreases m - n,
{
    if n < m {
        lemma_corners_in_view_grow(pos, scan, n, m - 1);
    }
}

/// A squared distance is not negative.
pub proof fn lemma_dist_sq_nonnegative(a: Point, b: Point)
    ensures
        point_dist_sq(a, b) >= 0,
{
    assert((a.x - b.x) * (a.x - b.x) >= 0) by (nonlinear_arith);
    assert((a.y - b.y) * (a.y - b.y) >= 0) by (nonlinear_arith);
    assert((a.z - b.z) * (a.z - b.z) >= 0) by (nonlinear_arith);
}

/// Measures the squared distance from the observer to a chunk's centre.
pub fn dist_sq_to_center(scan: &Scan, pos: (i32, i32, i32)) -> (d: i128)
    requires
        scan.sub.valid(),
        scannable(pos),
    ensures
        d == center_dist_sq(*scan, pos),
        0 <= d <= PRIO_DIST_LIMIT,
{
    let half: i64 = CHUNK_UNITS / 2;
    let cx: i64 = pos.0 as i64 * CHUNK_UNITS + half;
    let cy: i64 = pos.1 as i64 * CHUNK_UNITS + half;
    let cz: i64 = pos.2 as i64 * CHUNK_UNITS + half;
    let dx: i128 = scan.sub.pos.x as i128 - cx as i128;
    let dy: i128 = scan.sub.pos.y as i128 - cy as i128;
    let dz: i128 = scan.sub.pos.z as i128 - cz as i128;
    proof {
        lemma_square_bound(dx as int, 0x10_0000_0000_0000);
        lemma_square_bound(dy as int, 0x10_0000_0000_0000);
        lemma_square_bound(dz as int, 0x10_0000_0000_0000);
        assert(0x10_0000_0000_0000 * 0x10_0000_0000_0000 == 0x100_0000_0000_0000_0000_0000_0000int)
            by (nonlinear_arith);
    }
    dx * dx + dy * dy + dz * dz
}

/// Tests the corners of a chunk against both frustums. The first flag says
/// whether a corner lies in the view frustum, the second whether a corner
/// lies in the generation frustum; each frustum is tested by itself. The
/// search ends once both flags are set.
pub fn frustum_flags(scan: &Scan, pos: (i32, i32, i32)) -> (flags: (bool, bool))
    requires
        scan.valid(),
        scannable(pos),
    ensures
        flags.0 == corners_in_view(pos, *scan, 8),
        flags.1 == corners_in_gen(pos, *scan, 8),
{
    let mut in_view = false;
    let mut in_gen = false;
    let mut i: usize = 0;
    while i < 8
        invariant_except_break
            in_view == corners_in_view(pos, *scan, i as int),
            in_gen == corners_in_gen(pos, *scan, i as int),
        invariant
            0 <= i <= 8,
            scan.valid(),
            scannable(pos),
        ensures
            in_view == corners_in_view(pos, *scan, 8),
            in_gen == corners_in_gen(pos, *scan, 8),
        decreases 8 - i,
    {
        let corner = Point {
            x: (pos.0 as i64 + (i % 2) as i64) * CHUNK_UNITS,
            y: (pos.1 as i64 + ((i / 2) % 2) as i64) * CHUNK_UNITS,
            z: (pos.2 as i64 + (i / 4) as i64) * CHUNK_UNITS,
        };
        assert(corner == chunk_corner(pos, i as int));
        if !in_gen && in_frustum(corner, &scan.gen) {
            in_gen = true;
        }
        if !in_view && in_frustum(corner, &scan.view) {
            in_view = true;
        }
        if in_view && in_gen {
            proof {
                lemma_corners_in_view_grow(pos, *scan, i + 1, 8);
                lemma_corners_in_gen_grow(pos, *scan, i + 1, 8);
            }
            break ;
        }
        i += 1;
    }
    (in_view, in_gen)
}

} // verus!
