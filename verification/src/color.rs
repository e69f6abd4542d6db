use vstd::prelude::*;
use crate::util::{Point, lemma_product_bound, CHUNK_UNITS};

verus! {

/// One, on the scale on which ratios, saturation and value are counted; hues
/// are counted in this many parts of a degree, colour channels in this many
/// parts of one step of 255.
pub const COLOR_ONE: i64 = 1_000_000;

/// The hue at the bottom of the terrain, in millionths of a degree.
pub const MIN_HUE: i64 = -150_000_000;

/// The hue at the top of the terrain, in millionths of a degree.
pub const MAX_HUE: i64 = 60_000_000;

/// The saturation of the terrain before it is varied, in millionths.
pub const SATURATION: i64 = 600_000;

/// The value of the terrain before it is varied, in millionths.
pub const VALUE: i64 = 400_000;

/// A sixth of the colour circle, in millionths of a degree.
pub const HUE_SIXTH: i64 = 60_000_000;

/// The length over which saturation and value vary once: four world units.
pub const COLOR_PERIOD: i64 = 196608;

/// The quotient of a number by a positive number, rounded toward zero.
pub open spec fn trunc_div(a: int, b: int) -> int {
    if a >= 0 {
        a / b
    } else {
        -((-a) / b)
    }
}

/// The remainder that goes with `trunc_div`: it has the sign of `a`.
pub open spec fn trunc_rem(a: int, b: int) -> int {
    if a >= 0 {
        a % b
    } else {
        -((-a) % b)
    }
}

/// Where `x` lies between `min` and `max`, in millionths: zero at `min` and
/// a million at `max`, rounded toward zero.
pub open spec fn mix_ratio(min: int, max: int, x: int) -> int {
    trunc_div((x - min) * COLOR_ONE, max - min)
}

/// Computes where `x` lies between `min` and `max`, for any `x` and any
/// `min` below `max`.
pub fn create_mix_ratio(min: i64, max: i64, x: i64) -> (ratio: i128)
    requires
        min < max,
    ensures
        ratio == mix_ratio(min as int, max as int, x as int),
{
    let span: i128 = max as i128 - min as i128;
    proof {
        lemma_product_bound(
            x - min,
            COLOR_ONE as int,
            0x1_0000_0000_0000_0000,
            1_000_000,
        );
    }
    let scaled: i128 = (x as i128 - min as i128) * COLOR_ONE as i128;
    scaled / span
}

/// A number that is not negative and at most `bound` times `least`, divided
/// by a number that is at least `least`, gives at most `bound`.
proof fn lemma_quotient_at_most(a: int, d: int, least: int, bound: int)
    requires
        0 <= a <= bound * least,
        d >= least > 0,
    ensures
        0 <= a / d <= bound,
{
    vstd::arithmetic::div_mod::lemma_div_pos_is_pos(a, d);
    vstd::arithmetic::div_mod::lemma_div_is_ordered_by_denominator(a, least, d);
    vstd::arithmetic::div_mod::lemma_div_is_ordered(a, bound * least, least);
    vstd::arithmetic::div_mod::lemma_div_multiples_vanish(bound, least);
    assert(bound * least == least * bound) by (nonlinear_arith);
}

/// `a * b / c` for factors that are not negative, when `b` is at most `c`:
/// the result lies between zero and `a`.
pub open spec fn scale_down(a: int, b: int, c: int) -> int {
    a * b / c
}

/// Computes `a * b / c`, which is at most `a` when `b` is at most `c`.
fn scaled(a: i64, b: i64, c: i64) -> (r: i64)
    requires
        0 <= a <= 0x1_0000_0000,
        0 <= b <= c,
        0 < c <= 0x1_0000_0000,
    ensures
        r == scale_down(a as int, b as int, c as int),
        0 <= r <= a,
{
    proof {
        lemma_product_bound(a as int, b as int, 0x1_0000_0000, 0x1_0000_0000);
        assert(a * b <= a * c) by (nonlinear_arith)
            requires
                0 <= a,
                0 <= b <= c,
        ;
        assert(0 <= a * b) by (nonlinear_arith)
            requires
                0 <= a,
                0 <= b,
        ;
        vstd::arithmetic::div_mod::lemma_div_pos_is_pos(a * b, c as int);
        vstd::arithmetic::div_mod::lemma_div_is_ordered(a * b, a * c, c as int);
        vstd::arithmetic::div_mod::lemma_div_multiples_vanish(a as int, c as int);
        assert(a * c == c * a) by (nonlinear_arith);
    }
    let product: i128 = a as i128 * b as i128;
    (product / c as i128) as i64
}

/// The part of the colour that depends on the hue, rising and falling once
/// over every third of the colour circle: `chroma` times one minus the
/// distance of the hue, counted in sixths of the circle, from the nearest odd
/// number.
pub open spec fn hue_ramp(hue: int, chroma: int) -> int {
    let within = (hue % (6 * HUE_SIXTH)) % (2 * HUE_SIXTH);
    let rise = if within <= HUE_SIXTH {
        within
    } else {
        2 * HUE_SIXTH - within
    };
    scale_down(chroma, rise, HUE_SIXTH as int)
}

/// The colour of a hue, a saturation and a value as red, green and blue.
///
/// Saturation and value are fractions, given in millionths from nothing to
/// one million; the hue is given in millionths of a degree, and any hue is
/// taken around the circle. Each channel comes out in
/// millionths of one step of 255, so that full white is 255 million on every
/// channel.
pub open spec fn hsv_to_rgb_spec(hue: int, saturation: int, value: int) -> [i64; 3] {
    let c = scale_down(value, saturation, COLOR_ONE as int);
    let x = hue_ramp(hue, c);
    let m = value - c;
    let sector = (hue % (6 * HUE_SIXTH)) / (HUE_SIXTH as int);
    let high = ((c + m) * 255) as i64;
    let mid = ((x + m) * 255) as i64;
    let low = (m * 255) as i64;
    if sector == 0 {
        [high, mid, low]
    } else if sector == 1 {
        [mid, high, low]
    } else if sector == 2 {
        [low, high, mid]
    } else if sector == 3 {
        [low, mid, high]
    } else if sector == 4 {
        [mid, low, high]
    } else {
        [high, low, mid]
    }
}

/// Turns a hue, a saturation and a value into red, green and blue. Its
/// domain is every hue together with the saturations and values that are
/// fractions: from nothing to one million millionths.
pub fn hsv_to_rgb(hue: i64, saturation: i64, value: i64) -> (rgb: [i64; 3])
    requires
        0 <= saturation <= COLOR_ONE,
        0 <= value <= COLOR_ONE,
    ensures
        rgb == hsv_to_rgb_spec(hue as int, saturation as int, value as int),
        forall|i: int| 0 <= i < 3 ==> 0 <= #[trigger] rgb[i] <= 255 * value,
{
    let turn: i64 = 6 * HUE_SIXTH;
    let around: i64 = if hue >= 0 {
        hue % turn
    } else {
        let back: i64 = (-(hue + 1)) % turn;
        turn - 1 - back
    };
    proof {
        if hue < 0 {
            let below = -(hue + 1);
            vstd::arithmetic::div_mod::lemma_fundamental_div_mod(below as int, turn as int);
            let q = below / (turn as int);
            vstd::arithmetic::div_mod::lemma_fundamental_div_mod_converse(
                hue as int,
                turn as int,
                -q - 1,
                turn - 1 - (below % (turn as int)),
            );
        }
    }
    assert(around == (hue as int) % (6 * HUE_SIXTH));
    let c = scaled(value, saturation, COLOR_ONE);
    let within: i64 = around % (2 * HUE_SIXTH);
    let rise: i64 = if within <= HUE_SIXTH {
        within
    } else {
        2 * HUE_SIXTH - within
    };
    let x = scaled(c, rise, HUE_SIXTH);
    let m: i64 = value - c;
    let sector: i64 = around / HUE_SIXTH;
    let high: i64 = (c + m) * 255;
    let mid: i64 = (x + m) * 255;
    let low: i64 = m * 255;
    let rgb = if sector == 0 {
        [high, mid, low]
    } else if sector == 1 {
        [mid, high, low]
    } else if sector == 2 {
        [low, high, mid]
    } else if sector == 3 {
        [low, mid, high]
    } else if sector == 4 {
        [mid, low, high]
    } else {
        [high, low, mid]
    };
    assert(rgb =~= hsv_to_rgb_spec(hue as int, saturation as int, value as int));
    rgb
}

/// The hue of the terrain at a height: `MIN_HUE` at the bottom of the lowest
/// layer of chunks, `MAX_HUE` at the bottom of the highest, and on along the
/// same line beyond them.
pub open spec fn terrain_hue(z: int) -> int {
    MIN_HUE + 210 * mix_ratio(-2 * CHUNK_UNITS, 2 * CHUNK_UNITS, z)
}

/// What the position along one axis adds to saturation or value: it runs
/// from zero to a third over every four world units, below zero where the
/// position is negative.
pub open spec fn color_wobble(c: int) -> int {
    trunc_div(trunc_rem(c, COLOR_PERIOD as int) * COLOR_ONE, 3 * COLOR_PERIOD)
}

/// The colour of the terrain at a position: the hue follows the height, the
/// saturation varies with `y` and the value with `x`.
pub open spec fn terrain_color_spec(pos: Point) -> [i64; 3] {
    hsv_to_rgb_spec(
        terrain_hue(pos.z as int),
        SATURATION + color_wobble(pos.y as int),
        VALUE + color_wobble(pos.x as int),
    )
}

/// Computes what a coordinate adds to saturation or value.
fn wobble(c: i64) -> (w: i64)
    ensures
        w == color_wobble(c as int),
        -333_334 <= w <= 333_334,
{
    let rem: i64 = c % COLOR_PERIOD;
    let w: i64 = rem * COLOR_ONE / (3 * COLOR_PERIOD);
    proof {
        if c >= 0 {
            assert(rem == (c as int) % (COLOR_PERIOD as int));
        } else {
            assert(rem == -((-(c as int)) % (COLOR_PERIOD as int)));
        }
        assert(rem == trunc_rem(c as int, COLOR_PERIOD as int));
    }
    w
}

/// Computes the colour of the terrain at a position.
pub fn terrain_color(pos: Point) -> (rgb: [i64; 3])
    requires
        pos.in_range(),
    ensures
        rgb == terrain_color_spec(pos),
        forall|i: int| 0 <= i < 3 ==> 0 <= #[trigger] rgb[i] <= 255 * COLOR_ONE,
{
    let ratio = create_mix_ratio(-2 * CHUNK_UNITS, 2 * CHUNK_UNITS, pos.z);
    proof {
        let scaled = (pos.z + 2 * CHUNK_UNITS) * COLOR_ONE;
        lemma_product_bound(
            pos.z + 2 * CHUNK_UNITS,
            COLOR_ONE as int,
            0x20_0000_0000_0000,
            1_000_000,
        );
        assert(0x20_0000_0000_0000 * 1_000_000 == 8_589_934_592_000_000 * 0x10_0000int)
            by (nonlinear_arith);
        if scaled >= 0 {
            lemma_quotient_at_most(scaled, 4 * CHUNK_UNITS, 0x10_0000, 8_589_934_592_000_000);
        } else {
            lemma_quotient_at_most(-scaled, 4 * CHUNK_UNITS, 0x10_0000, 8_589_934_592_000_000);
        }
    }
    let hue: i64 = (MIN_HUE as i128 + 210 * ratio) as i64;
    let saturation: i64 = SATURATION + wobble(pos.y);
    let value: i64 = VALUE + wobble(pos.x);
    hsv_to_rgb(hue, saturation, value)
}

} // verus!
