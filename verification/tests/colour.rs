use underwater_world::chunk::Chunk;
use underwater_world::color::{
    create_mix_ratio, hsv_to_rgb, terrain_color, COLOR_ONE, MAX_HUE, MIN_HUE, SATURATION, VALUE,
};
use underwater_world::draw::Vert;
use underwater_world::lattice::{point_of_sample, ISO_COUNT};
use underwater_world::util::{Point, CHUNK_UNITS, POS_SCALE};

const FULL: i64 = 255 * COLOR_ONE;

#[test]
fn primary_colours() {
    assert_eq!(hsv_to_rgb(0, COLOR_ONE, COLOR_ONE), [FULL, 0, 0]);
    assert_eq!(hsv_to_rgb(60_000_000, COLOR_ONE, COLOR_ONE), [FULL, FULL, 0]);
    assert_eq!(hsv_to_rgb(120_000_000, COLOR_ONE, COLOR_ONE), [0, FULL, 0]);
    assert_eq!(hsv_to_rgb(180_000_000, COLOR_ONE, COLOR_ONE), [0, FULL, FULL]);
    assert_eq!(hsv_to_rgb(240_000_000, COLOR_ONE, COLOR_ONE), [0, 0, FULL]);
    assert_eq!(hsv_to_rgb(300_000_000, COLOR_ONE, COLOR_ONE), [FULL, 0, FULL]);
    assert_eq!(hsv_to_rgb(359_999_999, COLOR_ONE, COLOR_ONE), [FULL, 0, 0]);
    assert_eq!(hsv_to_rgb(359_000_000, COLOR_ONE, COLOR_ONE), [FULL, 0, 4_249_830]);
}

#[test]
fn hue_goes_around_the_circle() {
    let orange = hsv_to_rgb(30_000_000, COLOR_ONE, COLOR_ONE);
    assert_eq!(orange, [FULL, FULL / 2, 0]);
    assert_eq!(hsv_to_rgb(390_000_000, COLOR_ONE, COLOR_ONE), orange);
    assert_eq!(hsv_to_rgb(-330_000_000, COLOR_ONE, COLOR_ONE), orange);
    assert_eq!(hsv_to_rgb(30_000_000 - 360_000_000 * 1000, COLOR_ONE, COLOR_ONE), orange);
    assert_eq!(hsv_to_rgb(-1, COLOR_ONE, COLOR_ONE), hsv_to_rgb(359_999_999, COLOR_ONE, COLOR_ONE));
    assert_eq!(hsv_to_rgb(i64::MIN, COLOR_ONE, COLOR_ONE), [FULL, 0, 232_797_150]);
    assert_eq!(hsv_to_rgb(i64::MAX, COLOR_ONE, COLOR_ONE), [FULL, 232_797_150, 0]);
}

#[test]
fn grey_has_no_hue() {
    for hue in [0, 77_000_000, -150_000_000, 300_000_000] {
        assert_eq!(hsv_to_rgb(hue, 0, 400_000), [102_000_000; 3]);
        assert_eq!(hsv_to_rgb(hue, COLOR_ONE, 0), [0; 3]);
        assert_eq!(hsv_to_rgb(hue, 0, 0), [0; 3]);
        assert_eq!(hsv_to_rgb(hue, 0, COLOR_ONE), [FULL; 3]);
    }
}

#[test]
fn colour_at_the_lowest_hue() {
    // 210 degrees: between cyan and blue, a quarter of the way.
    let rgb = hsv_to_rgb(MIN_HUE, SATURATION, VALUE);
    assert_eq!(rgb, [40_800_000, 71_400_000, 102_000_000]);
    let rgb = hsv_to_rgb(MAX_HUE, SATURATION, VALUE);
    assert_eq!(rgb, [102_000_000, 102_000_000, 40_800_000]);
}

#[test]
fn channels_stay_below_the_value() {
    let mut hue = -400_000_000;
    while hue < 800_000_000 {
        for s in [0, 1, 266_667, 600_000, 999_999, COLOR_ONE] {
            for v in [0, 1, 66_667, 400_000, 733_333, COLOR_ONE] {
                let rgb = hsv_to_rgb(hue, s, v);
                for c in rgb {
                    assert!(0 <= c && c <= 255 * v);
                }
                assert!(rgb.contains(&(255 * v)));
            }
        }
        hue += 7_654_321;
    }
}

#[test]
fn mix_ratio_rounds_toward_zero() {
    let lo = -2 * CHUNK_UNITS;
    let hi = 2 * CHUNK_UNITS;
    assert_eq!(create_mix_ratio(lo, hi, lo), 0);
    assert_eq!(create_mix_ratio(lo, hi, hi), COLOR_ONE as i128);
    assert_eq!(create_mix_ratio(lo, hi, 0), 500_000);
    assert_eq!(create_mix_ratio(lo, hi, CHUNK_UNITS), 750_000);
    assert_eq!(create_mix_ratio(lo, hi, -3 * CHUNK_UNITS), -250_000);
    assert_eq!(create_mix_ratio(lo, hi, lo + 1), 0);
    assert_eq!(create_mix_ratio(lo, hi, lo - 1), 0);
    assert_eq!(create_mix_ratio(lo, hi, lo + 4), 1);
    assert_eq!(create_mix_ratio(lo, hi, lo - 4), -1);
    assert_eq!(create_mix_ratio(0, 0x10_0000, 0x20_0000_0000_0000), 8_589_934_592_000_000);
    // Any span and any number are taken.
    assert_eq!(create_mix_ratio(0, 1, 3), 3_000_000);
    assert_eq!(create_mix_ratio(-1, 0, -3), -2_000_000);
    assert_eq!(create_mix_ratio(i64::MIN, i64::MAX, i64::MAX), 1_000_000);
    assert_eq!(create_mix_ratio(i64::MIN, i64::MAX, 0), 500_000);
    assert_eq!(create_mix_ratio(i64::MIN, i64::MAX, i64::MIN), 0);
    assert_eq!(
        create_mix_ratio(i64::MAX - 1, i64::MAX, i64::MIN),
        -18_446_744_073_709_551_614_000_000
    );
    assert_eq!(
        create_mix_ratio(i64::MIN, i64::MIN + 1, i64::MAX),
        18_446_744_073_709_551_615_000_000
    );
    assert_eq!(
        create_mix_ratio(-0x20_0000_0000_0000, -0x20_0000_0000_0000 + 0x10_0000, 0x20_0000_0000_0000),
        17_179_869_184_000_000
    );
    assert_eq!(
        create_mix_ratio(0x20_0000_0000_0000 - 0x10_0000, 0x20_0000_0000_0000, -0x20_0000_0000_0000),
        -17_179_869_183_000_000
    );
}

#[test]
fn terrain_colour_follows_the_position() {
    // Half way up the band of layers the hue is -45 degrees.
    assert_eq!(terrain_color(Point::new(0, 0, 0)), [102_000_000, 40_800_000, 86_700_000]);
    assert_eq!(terrain_color(Point::new(0, 0, 0)), hsv_to_rgb(-45_000_000, SATURATION, VALUE));
    // One world unit along y adds a twelfth to the saturation, one along x a
    // twelfth to the value.
    assert_eq!(
        terrain_color(Point::new(0, POS_SCALE, 0)),
        hsv_to_rgb(-45_000_000, SATURATION + 83_333, VALUE)
    );
    assert_eq!(
        terrain_color(Point::new(POS_SCALE, 0, 0)),
        hsv_to_rgb(-45_000_000, SATURATION, VALUE + 83_333)
    );
    assert_eq!(
        terrain_color(Point::new(-POS_SCALE, -3 * POS_SCALE, 0)),
        hsv_to_rgb(-45_000_000, SATURATION - 250_000, VALUE - 83_333)
    );
    // After four world units the variation starts again.
    assert_eq!(terrain_color(Point::new(4 * POS_SCALE, 8 * POS_SCALE, 0)), terrain_color(Point::new(0, 0, 0)));
    assert_eq!(
        terrain_color(Point::new(4 * POS_SCALE - 1, 0, 0)),
        hsv_to_rgb(-45_000_000, SATURATION, VALUE + 333_331)
    );
    // The hue runs from -150 degrees at the bottom of the lowest layer to 60
    // degrees at the bottom of the highest, and on beyond.
    assert_eq!(terrain_color(Point::new(0, 0, -2 * CHUNK_UNITS)), hsv_to_rgb(MIN_HUE, SATURATION, VALUE));
    assert_eq!(terrain_color(Point::new(0, 0, 2 * CHUNK_UNITS)), hsv_to_rgb(MAX_HUE, SATURATION, VALUE));
    assert_eq!(
        terrain_color(Point::new(0, 0, 6 * CHUNK_UNITS)),
        hsv_to_rgb(270_000_000, SATURATION, VALUE)
    );
    let far = 0x10_0000_0000_0000;
    for c in terrain_color(Point::new(far, -far, far)) {
        assert!(0 <= c && c <= FULL);
    }
    for c in terrain_color(Point::new(-far, far, -far)) {
        assert!(0 <= c && c <= FULL);
    }
}

#[test]
fn mesh_vertices_have_the_colour_of_their_place() {
    let pos = (1, -1, 0);
    let isos: Vec<i32> = (0..ISO_COUNT)
        .map(|idx| {
            let p = point_of_sample(pos, idx);
            (p.2 * 90_000 - p.0 * 40_000 + p.1 * 25_000 - 300_000) as i32
        })
        .collect();
    let mut chunk = Chunk::new(pos);
    assert_eq!(chunk.build_full(&isos), Ok(()));
    assert!(chunk.not_blank());
    for v in chunk.verts() {
        assert_eq!(v.color, terrain_color(v.pos));
        assert_eq!(*v, Vert::of_terrain(v.pos));
        assert_eq!(*v, Vert::new(v.pos, v.color));
    }
    let colours: Vec<[i64; 3]> = chunk.verts().iter().map(|v| v.color).collect();
    assert!(colours.iter().any(|c| *c != colours[0]));
}
