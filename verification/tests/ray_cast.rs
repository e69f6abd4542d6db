use underwater_world::chunk::Chunk;
use underwater_world::lattice::{point_of_sample, ISO_COUNT};
use underwater_world::util::{Point, Tri, CELL_UNITS, CHUNK_UNITS};

fn floor_tri() -> Tri {
    Tri::new([Point::new(0, 0, 0), Point::new(1000, 0, 0), Point::new(0, 1000, 0)])
}

#[test]
fn ray_hits_from_above() {
    let tri = floor_tri();
    // Fifty steps of ten units down to the plane.
    let hit = tri.intersects(Point::new(100, 100, 500), Point::new(0, 0, -10), 50 * 65536);
    assert_eq!(hit, Some(50 * 65536));
    let hit = tri.intersects(Point::new(100, 100, 500), Point::new(0, 0, -10), i64::MAX);
    assert_eq!(hit, Some(50 * 65536));
    let hit = tri.intersects(Point::new(100, 100, 500), Point::new(0, 0, -3), i64::MAX);
    assert_eq!(hit, Some(10922666));
}

#[test]
fn ray_hits_from_below() {
    let tri = floor_tri();
    let hit = tri.intersects(Point::new(100, 100, -500), Point::new(0, 0, 10), i64::MAX);
    assert_eq!(hit, Some(50 * 65536));
    let hit = tri.intersects(Point::new(300, 300, -7), Point::new(1, 2, 7), i64::MAX);
    assert_eq!(hit, Some(65536));
}

#[test]
fn ray_that_starts_on_the_plane_hits_at_once() {
    let tri = floor_tri();
    assert_eq!(tri.intersects(Point::new(10, 10, 0), Point::new(0, 0, -1), 0), Some(0));
    assert_eq!(tri.intersects(Point::new(10, 10, 0), Point::new(0, 0, 1), 0), Some(0));
}

#[test]
fn ray_beyond_its_range_misses() {
    let tri = floor_tri();
    let from = Point::new(100, 100, 500);
    let down = Point::new(0, 0, -10);
    assert_eq!(tri.intersects(from, down, 50 * 65536 - 1), None);
    assert_eq!(tri.intersects(from, down, 0), None);
    assert_eq!(tri.intersects(from, down, -1), None);
    assert_eq!(tri.intersects(from, down, i64::MIN), None);
}

#[test]
fn ray_pointing_away_misses() {
    let tri = floor_tri();
    assert_eq!(tri.intersects(Point::new(100, 100, 500), Point::new(0, 0, 10), i64::MAX), None);
    assert_eq!(tri.intersects(Point::new(100, 100, -500), Point::new(0, 0, -10), i64::MAX), None);
}

#[test]
fn ray_outside_the_triangle_misses() {
    let tri = floor_tri();
    let down = Point::new(0, 0, -10);
    assert_eq!(tri.intersects(Point::new(900, 900, 500), down, i64::MAX), None);
    assert_eq!(tri.intersects(Point::new(-1, 100, 500), down, i64::MAX), None);
    assert_eq!(tri.intersects(Point::new(100, -1, 500), down, i64::MAX), None);
    assert_eq!(tri.intersects(Point::new(501, 500, 500), down, i64::MAX), None);
    // The border belongs to the triangle.
    assert_eq!(tri.intersects(Point::new(500, 500, 500), down, i64::MAX), Some(50 * 65536));
    assert_eq!(tri.intersects(Point::new(0, 0, 500), down, i64::MAX), Some(50 * 65536));
    assert_eq!(tri.intersects(Point::new(1000, 0, 500), down, i64::MAX), Some(50 * 65536));
}

#[test]
fn ray_along_the_plane_misses() {
    let tri = floor_tri();
    assert_eq!(tri.intersects(Point::new(-100, 100, 0), Point::new(10, 0, 0), i64::MAX), None);
    assert_eq!(tri.intersects(Point::new(-100, 100, 5), Point::new(10, 0, 0), i64::MAX), None);
    assert_eq!(tri.intersects(Point::new(100, 100, 5), Point::new(0, 0, 0), i64::MAX), None);
}

#[test]
fn ray_that_grazes_the_plane_misses() {
    // The plane 1000 x + y = 0.
    let tri = Tri::new([Point::new(0, 0, 0), Point::new(0, 0, 100), Point::new(1, -1000, 0)]);
    assert_eq!(tri.normal.x, 100_000);
    assert_eq!(tri.normal.y, 100);
    assert_eq!(tri.normal.z, 0);
    // Both rays reach the corner (1, -1000, 0) after one step; the first
    // meets the plane at a sine of about one in ten thousand, the second at
    // about one in a million.
    let steep = tri.intersects(Point::new(2, -1900, 0), Point::new(-1, 900, 0), i64::MAX);
    assert_eq!(steep, Some(65536));
    let grazing = tri.intersects(Point::new(2, -1999, 0), Point::new(-1, 999, 0), i64::MAX);
    assert_eq!(grazing, None);
}

#[test]
fn degenerate_triangle_is_never_hit() {
    let line = Tri::new([Point::new(0, 0, 0), Point::new(10, 0, 0), Point::new(20, 0, 0)]);
    assert_eq!(line.intersects(Point::new(5, 0, 5), Point::new(0, 0, -1), i64::MAX), None);
}

#[test]
fn tilted_triangle_is_hit_where_the_ray_meets_its_plane() {
    // The plane x + y + z = 300.
    let tri = Tri::new([Point::new(300, 0, 0), Point::new(0, 300, 0), Point::new(0, 0, 300)]);
    let hit = tri.intersects(Point::new(0, 0, 0), Point::new(1, 1, 1), i64::MAX);
    assert_eq!(hit, Some(100 * 65536));
    let hit = tri.intersects(Point::new(0, 0, 0), Point::new(7, 7, 7), i64::MAX);
    assert_eq!(hit, Some(936228));
    assert_eq!(tri.intersects(Point::new(0, 0, 0), Point::new(1, 0, 0), i64::MAX), Some(300 * 65536));
    assert_eq!(tri.intersects(Point::new(0, 0, 0), Point::new(10, -1, 0), i64::MAX), None);
}

#[test]
fn castable_checks_the_sizes() {
    let tri = floor_tri();
    let up = Point::new(0, 0, 1);
    assert!(tri.is_castable(Point::new(0, 0, 0), up));
    assert!(tri.is_castable(Point::new(0x10_0000, -0x10_0000 + 1000, 0x10_0000), up));
    assert!(!tri.is_castable(Point::new(0x10_0001, 0, 0), up));
    assert!(!tri.is_castable(Point::new(0, -0x10_0000 + 999, 0), up));
    assert!(tri.is_castable(Point::new(0, 0, 0), Point::new(1024, -1024, 1024)));
    assert!(!tri.is_castable(Point::new(0, 0, 0), Point::new(1025, 0, 0)));
    assert!(!tri.is_castable(Point::new(0, 0, 0), Point::new(0, 0, -1025)));
    let cell = Tri::new([Point::new(0, 0, 0), Point::new(65536, 0, 0), Point::new(0, 65536, 0)]);
    assert!(cell.is_castable(Point::new(0, 0, 0), up));
    let wide = Tri::new([Point::new(0, 0, 0), Point::new(65537, 0, 0), Point::new(0, 65536, 0)]);
    assert!(!wide.is_castable(Point::new(0, 0, 0), up));
    let mut bent = cell;
    bent.normal.z = 0x2_0000_0001;
    assert!(!bent.is_castable(Point::new(0, 0, 0), up));
    bent.normal.z = -0x2_0000_0000;
    assert!(bent.is_castable(Point::new(0, 0, 0), up));
}

#[test]
fn points_in_range() {
    let limit = 0x10_0000_0000_0000;
    assert!(Point::new(limit, -limit, 0).is_in_range());
    assert!(!Point::new(limit + 1, 0, 0).is_in_range());
    assert!(!Point::new(0, -limit - 1, 0).is_in_range());
    assert!(!Point::new(0, 0, i64::MIN).is_in_range());
}

#[test]
fn mesh_triangles_can_be_cast_at_from_their_chunk() {
    let pos = (-3, 2, 1);
    let isos: Vec<i32> = (0..ISO_COUNT)
        .map(|idx| {
            let p = point_of_sample(pos, idx);
            let bump = ((p.0 * 7 + p.1 * 13).rem_euclid(5) - 2) * 30_000;
            ((p.2 - 12) * 90_000 - (p.0 + 36) * 40_000 + (p.1 - 24) * 25_000 + bump - 300_000) as i32
        })
        .collect();
    let mut chunk = Chunk::new(pos);
    assert_eq!(chunk.build_full(&isos), Ok(()));
    let base = Point::new(pos.0 as i64 * CHUNK_UNITS, pos.1 as i64 * CHUNK_UNITS, pos.2 as i64 * CHUNK_UNITS);
    let tris = chunk.tris_around(Point::new(0, 0, 0), 12);
    assert!(tris.len() > 100);
    let far = 16 * CELL_UNITS;
    let near = -4 * CELL_UNITS;
    for tri in &tris {
        for (dx, dy, dz) in [(near, near, near), (far, far, far), (near, far, 0), (0, near, far)] {
            let from = Point::new(base.x + dx, base.y + dy, base.z + dz);
            assert!(tri.is_castable(from, Point::new(1024, -1024, 1024)));
            assert!(tri.is_castable(from, Point::new(0, 0, 0)));
        }
    }
    // Straight down onto the first triangle from above its middle.
    let tri = tris[0];
    let mid = Point::new(
        (tri.verts[0].x + tri.verts[1].x + tri.verts[2].x) / 3,
        (tri.verts[0].y + tri.verts[1].y + tri.verts[2].y) / 3,
        (tri.verts[0].z + tri.verts[1].z + tri.verts[2].z) / 3,
    );
    if tri.normal.z != 0 {
        let from = Point::new(mid.x, mid.y, mid.z + 1000 * 100);
        let hit = tri.intersects(from, Point::new(0, 0, -1000), i64::MAX).unwrap();
        assert!((hit - 100 * 65536).abs() <= 65536);
    }
}
