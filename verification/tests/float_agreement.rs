use underwater_world::color::{hsv_to_rgb, terrain_color, COLOR_ONE};
use underwater_world::lattice::{offset_of_crossing, ISO_LEVEL};
use underwater_world::sub::Sub;
use underwater_world::util::{in_frustum, Frustum, Point, Tri, CELL_UNITS, POS_SCALE};

/// A small generator of reproducible numbers.
struct Numbers(u64);

impl Numbers {
    fn next(&mut self) -> u64 {
        self.0 = self.0.wrapping_mul(6364136223846793005).wrapping_add(1442695040888963407);
        self.0 >> 33
    }

    /// A number in `lo..hi`.
    fn between(&mut self, lo: i64, hi: i64) -> i64 {
        lo + (self.next() % (hi - lo) as u64) as i64
    }
}

#[test]
fn crossing_agrees_with_the_ratio_of_densities() {
    let mut numbers = Numbers(1);
    for _ in 0..2000 {
        let below = numbers.between(-3_000_000, ISO_LEVEL as i64) as i32;
        let above = numbers.between(ISO_LEVEL as i64, 3_000_000) as i32;
        for (da, db) in [(below, above), (above, below)] {
            let t = (ISO_LEVEL as f64 - da as f64) / (db as f64 - da as f64);
            let off = offset_of_crossing(da, db) as f64 / CELL_UNITS as f64;
            assert!((off - t).abs() <= 1.0 / CELL_UNITS as f64);
            assert!(off <= t);
        }
    }
}

fn float_hsv(hue: f32, saturation: f32, value: f32) -> [f32; 3] {
    let hue = hue.rem_euclid(360.0);
    let c = value * saturation;
    let h = hue / 60.0;
    let x = c * (1.0 - ((h % 2.0) - 1.0).abs());
    let m = value - c;
    let (r, g, b) = if h < 1.0 {
        (c, x, 0.0)
    } else if h < 2.0 {
        (x, c, 0.0)
    } else if h < 3.0 {
        (0.0, c, x)
    } else if h < 4.0 {
        (0.0, x, c)
    } else if h < 5.0 {
        (x, 0.0, c)
    } else {
        (c, 0.0, x)
    };
    [(r + m) * 255.0, (g + m) * 255.0, (b + m) * 255.0]
}

#[test]
fn colour_agrees_with_floating_point() {
    let mut numbers = Numbers(2);
    for _ in 0..2000 {
        let hue = numbers.between(-720_000_000, 720_000_000);
        let s = numbers.between(0, COLOR_ONE + 1);
        let v = numbers.between(0, COLOR_ONE + 1);
        let exact = hsv_to_rgb(hue, s, v);
        let float = float_hsv(hue as f32 / 1e6, s as f32 / 1e6, v as f32 / 1e6);
        for i in 0..3 {
            assert!((exact[i] as f32 / 1e6 - float[i]).abs() < 0.01);
        }
    }
}

#[test]
fn terrain_colour_agrees_with_floating_point() {
    let mut numbers = Numbers(3);
    for _ in 0..2000 {
        let x = numbers.between(-200 * POS_SCALE, 200 * POS_SCALE);
        let y = numbers.between(-200 * POS_SCALE, 200 * POS_SCALE);
        let z = numbers.between(-40 * POS_SCALE, 40 * POS_SCALE);
        let exact = terrain_color(Point::new(x, y, z));
        let (fx, fy, fz) =
            (x as f32 / POS_SCALE as f32, y as f32 / POS_SCALE as f32, z as f32 / POS_SCALE as f32);
        let mix_ratio = (fz / 16.0 + 2.0) / 4.0;
        let hue = -150.0 + 210.0 * mix_ratio;
        let float = float_hsv(hue, 0.6 + (fy % 4.0) / 12.0, 0.4 + (fx % 4.0) / 12.0);
        for i in 0..3 {
            assert!((exact[i] as f32 / 1e6 - float[i]).abs() < 0.05);
        }
    }
}

#[test]
fn frustum_test_agrees_with_the_perspective_divide() {
    // A view along +x with a near plane at 2 and a far plane at 80, as rows
    // of a matrix whose entries are scaled by 1000.
    let rows = [
        [0, 1000, 0, 0],
        [0, 0, 1000, 0],
        [1026, 0, 0, -2051],
        [1000, 0, 0, 0],
    ];
    let frustum = Frustum { rows };
    assert!(frustum.is_valid());
    let mut numbers = Numbers(4);
    let mut inside = 0;
    for _ in 0..4000 {
        let p = [numbers.between(-100, 100), numbers.between(-100, 100), numbers.between(-100, 100)];
        let clip: Vec<f64> = rows
            .iter()
            .map(|r| (r[0] * p[0] + r[1] * p[1] + r[2] * p[2] + r[3]) as f64)
            .collect();
        let (x, y, z) = (clip[0] / clip[3], clip[1] / clip[3], clip[2] / clip[3]);
        let float = x.abs() <= 1.0 && y.abs() <= 1.0 && z >= 0.0 && z <= 1.0;
        let exact =
            in_frustum(Point::new(p[0] * POS_SCALE, p[1] * POS_SCALE, p[2] * POS_SCALE), &frustum);
        assert_eq!(exact, float);
        if exact {
            inside += 1;
        }
    }
    assert!(inside > 100);
}

#[test]
fn straying_agrees_with_distance_and_angle() {
    let mut numbers = Numbers(5);
    let mut strayed = 0;
    for _ in 0..4000 {
        let a = [numbers.between(-1000, 1000), numbers.between(-1000, 1000), numbers.between(-1000, 1000)];
        let b = [
            a[0] + numbers.between(-400, 400),
            a[1] + numbers.between(-400, 400),
            a[2] + numbers.between(-400, 400),
        ];
        let moved = [numbers.between(-3, 4), numbers.between(-3, 4), numbers.between(-3, 4)];
        let last = Sub::new(Point::new(0, 0, 0), Point::new(a[0], a[1], a[2]));
        let now = Sub::new(
            Point::new(moved[0] * POS_SCALE, moved[1] * POS_SCALE, moved[2] * POS_SCALE),
            Point::new(b[0], b[1], b[2]),
        );
        let dist = ((moved[0] * moved[0] + moved[1] * moved[1] + moved[2] * moved[2]) as f64).sqrt();
        let dot = (a[0] * b[0] + a[1] * b[1] + a[2] * b[2]) as f64;
        let cross = [
            (a[1] * b[2] - a[2] * b[1]) as f64,
            (a[2] * b[0] - a[0] * b[2]) as f64,
            (a[0] * b[1] - a[1] * b[0]) as f64,
        ];
        let angle =
            (cross[0] * cross[0] + cross[1] * cross[1] + cross[2] * cross[2]).sqrt().atan2(dot);
        if (angle - 0.33).abs() < 1e-6 {
            continue;
        }
        let float = dist > 4.0 || angle > 0.33;
        assert_eq!(now.has_strayed(&last), float);
        if float {
            strayed += 1;
        }
    }
    assert!(strayed > 100 && strayed < 3900);
}

#[test]
fn ray_hit_agrees_with_floating_point() {
    let mut numbers = Numbers(6);
    let mut hits = 0;
    for _ in 0..4000 {
        let corner = |n: &mut Numbers| Point::new(n.between(0, 30000), n.between(0, 30000), n.between(0, 30000));
        let tri = Tri::new([corner(&mut numbers), corner(&mut numbers), corner(&mut numbers)]);
        let pos = Point::new(
            numbers.between(-100_000, 100_000),
            numbers.between(-100_000, 100_000),
            numbers.between(-100_000, 100_000),
        );
        // Aim at a point of the triangle, or a little beside it.
        let w = [numbers.between(0, 8), numbers.between(0, 8), numbers.between(1, 8)];
        let sum = w[0] + w[1] + w[2];
        let aim = |c: fn(&Point) -> i64| {
            (w[0] * c(&tri.verts[0]) + w[1] * c(&tri.verts[1]) + w[2] * c(&tri.verts[2])) / sum
        };
        let dir = Point::new(
            (aim(|p| p.x) - pos.x) / 128 + numbers.between(-20, 21),
            (aim(|p| p.y) - pos.y) / 128 + numbers.between(-20, 21),
            (aim(|p| p.z) - pos.z) / 128 + numbers.between(-20, 21),
        );
        assert!(dir.x.abs() <= 1024 && dir.y.abs() <= 1024 && dir.z.abs() <= 1024);
        let hit = tri.intersects(pos, dir, i64::MAX);
        if let Some(t) = hit {
            hits += 1;
            let t = t as f64 / 65536.0;
            let p = [
                pos.x as f64 + dir.x as f64 * t,
                pos.y as f64 + dir.y as f64 * t,
                pos.z as f64 + dir.z as f64 * t,
            ];
            let n = [tri.normal.x as f64, tri.normal.y as f64, tri.normal.z as f64];
            let length = (n[0] * n[0] + n[1] * n[1] + n[2] * n[2]).sqrt();
            let v = tri.verts[0];
            let off = ((p[0] - v.x as f64) * n[0] + (p[1] - v.y as f64) * n[1]
                + (p[2] - v.z as f64) * n[2])
                / length;
            // The hit lies in the plane but for the rounding of its distance.
            assert!(off.abs() < 0.1);
            assert!(t >= 0.0);
        }
    }
    assert!(hits > 500);
}
