use std::cmp::Ordering;
use underwater_world::chunk::BuildError;
use underwater_world::gen_prio::{GenPrio, Z_WEIGHT};
use underwater_world::lattice::{point_of_sample, ISO_COUNT, ISO_LEVEL};
use underwater_world::nearby::{dist_sq_to_center, frustum_flags, Scan};
use underwater_world::queue::sort_for_pop;
use underwater_world::sub::Sub;
use underwater_world::util::{
    dist_sq, dist_sq_wide, floor_div, in_frustum, Frustum, Point, CHUNK_UNITS, POS_SCALE,
};
use underwater_world::world::{RemoveState, World};

/// A matrix that maps every point into the view volume.
fn sees_all() -> Frustum {
    Frustum { rows: [[0, 0, 0, 0], [0, 0, 0, 0], [0, 0, 0, 0], [0, 0, 0, 1]] }
}

/// A matrix that maps no point into the view volume.
fn sees_nothing() -> Frustum {
    Frustum { rows: [[0, 0, 0, 0], [0, 0, 0, 0], [0, 0, 0, 0], [0, 0, 0, 0]] }
}

/// Looks along +x from the origin: a point is inside when it lies at least
/// one world unit ahead and no farther to the side or up than ahead.
fn looks_along_x() -> Frustum {
    Frustum { rows: [[0, 1, 0, 0], [0, 0, 1, 0], [1, 0, 0, -1], [1, 0, 0, 0]] }
}

fn world_point(x: i64, y: i64, z: i64) -> Point {
    Point::new(x * POS_SCALE, y * POS_SCALE, z * POS_SCALE)
}

fn scan_at(pos: Point, view: Frustum, gen: Frustum) -> Scan {
    Scan { sub: Sub::new(pos, Point::new(1000, 0, 0)), view, gen }
}

fn floor_field(_x: i64, _y: i64, z: i64) -> i32 {
    (z * 100_000 - 450_000) as i32
}

fn lattice_of(pos: (i32, i32, i32)) -> Vec<i32> {
    (0..ISO_COUNT)
        .map(|idx| {
            let p = point_of_sample(pos, idx);
            floor_field(p.0, p.1, p.2)
        })
        .collect()
}

/// The number of chunk coordinates in the layers -2 to 2 whose centre lies
/// within the generation distance of an observer at `pos` (in world units).
fn candidates_near(pos: (i64, i64, i64)) -> usize {
    let c = (pos.0.div_euclid(16), pos.1.div_euclid(16), pos.2.div_euclid(16));
    let mut n = 0;
    for x in c.0 - 8..=c.0 + 8 {
        for y in c.1 - 8..=c.1 + 8 {
            for z in -2..=2 {
                let d = (2 * pos.0 - (2 * x + 1) * 16, 2 * pos.1 - (2 * y + 1) * 16, 2 * pos.2
                    - (2 * z + 1) * 16);
                if d.0 * d.0 + d.1 * d.1 + d.2 * d.2 <= 4 * 80 * 80 {
                    n += 1;
                }
            }
        }
    }
    n
}

/// Runs one tick and hands in the densities it asks for.
fn tick(world: &mut World, scan: &Scan, reset: bool) -> underwater_world::world::Tick {
    let t = world.update(scan, reset);
    if let Some(pos) = t.wanted {
        let r = world.supply(scan.sub.chunk(), &lattice_of(pos));
        assert!(r.is_ok());
    }
    t
}

#[test]
fn dist_sq_of_grid_points() {
    assert_eq!(dist_sq((0, 0, 0), (1, 2, 3)), 14);
    assert_eq!(dist_sq((-3, 4, 0), (0, 0, 0)), 25);
    assert_eq!(dist_sq((5, 5, 5), (5, 5, 5)), 0);
    assert_eq!(dist_sq((26754, 0, 0), (0, -26754, 26754)), 2147329548);
    assert_eq!(dist_sq_wide((i32::MAX, i32::MIN, 0), (i32::MIN, i32::MAX, 0)), 2 * 4294967295i128
        * 4294967295i128);
}

#[test]
fn floor_div_rounds_down() {
    assert_eq!(floor_div(7, 2), 3);
    assert_eq!(floor_div(-7, 2), -4);
    assert_eq!(floor_div(-8, 2), -4);
    assert_eq!(floor_div(-1, CHUNK_UNITS), -1);
    assert_eq!(floor_div(0, CHUNK_UNITS), 0);
    assert_eq!(floor_div(i64::MIN, 1), i64::MIN);
    assert_eq!(floor_div(i64::MIN, i64::MAX), -2);
    assert_eq!(floor_div(i64::MAX, i64::MAX), 1);
}

#[test]
fn observer_chunk_is_the_position_rounded_down() {
    let at = |x, y, z| Sub::new(Point::new(x, y, z), Point::new(1, 0, 0)).chunk();
    assert_eq!(at(0, 0, 0), (0, 0, 0));
    assert_eq!(at(CHUNK_UNITS - 1, CHUNK_UNITS, -1), (0, 1, -1));
    assert_eq!(at(-CHUNK_UNITS, -CHUNK_UNITS - 1, 5 * CHUNK_UNITS / 2), (-1, -2, 2));
    assert_eq!(at(0x4_0000_0000_0000, -0x4_0000_0000_0000, 0), (1431655765, -1431655766, 0));
    assert!(Sub::new(Point::new(0x4_0000_0000_0000, 0, 0), Point::new(0x10_0000, 0, 0)).is_valid());
    assert!(!Sub::new(Point::new(0x4_0000_0000_0001, 0, 0), Point::new(1, 0, 0)).is_valid());
    assert!(!Sub::new(Point::new(0, 0, 0), Point::new(0, -0x10_0001, 0)).is_valid());
}

#[test]
fn observer_strays_by_distance() {
    let last = Sub::new(world_point(0, 0, 0), Point::new(1000, 0, 0));
    let moved = |x, y, z| Sub::new(Point::new(x, y, z), Point::new(1000, 0, 0)).has_strayed(&last);
    assert!(!moved(0, 0, 0));
    assert!(!moved(4 * POS_SCALE, 0, 0));
    assert!(moved(4 * POS_SCALE + 1, 0, 0));
    assert!(moved(0, -4 * POS_SCALE - 1, 0));
    assert!(!moved(2 * POS_SCALE, 2 * POS_SCALE, 2 * POS_SCALE));
    assert!(moved(3 * POS_SCALE, 2 * POS_SCALE, 2 * POS_SCALE));
}

#[test]
fn observer_strays_by_angle() {
    let last = Sub::new(world_point(0, 0, 0), Point::new(100_000, 0, 0));
    let turned = |x, y, z| Sub::new(world_point(0, 0, 0), Point::new(x, y, z)).has_strayed(&last);
    assert!(!turned(100_000, 0, 0));
    assert!(!turned(5, 0, 0));
    // tan(0.33) = 0.34252...
    assert!(!turned(100_000, 34_252, 0));
    assert!(turned(100_000, 34_253, 0));
    assert!(turned(100_000, 0, -34_253));
    assert!(turned(0, 100_000, 0));
    assert!(turned(-100_000, 0, 0));
    assert!(turned(-100_000, 1, 0));
    assert!(!turned(0, 0, 0));
    let still = Sub::new(world_point(0, 0, 0), Point::new(0, 0, 0));
    assert!(!Sub::new(world_point(0, 0, 0), Point::new(0, 1, 0)).has_strayed(&still));
}

#[test]
fn frustum_test_compares_with_the_fourth_coordinate() {
    let f = looks_along_x();
    assert!(f.is_valid());
    assert!(in_frustum(world_point(10, 0, 0), &f));
    assert!(in_frustum(world_point(10, 10, -10), &f));
    assert!(!in_frustum(world_point(10, 11, 0), &f));
    assert!(!in_frustum(world_point(10, 0, -11), &f));
    assert!(!in_frustum(world_point(0, 0, 0), &f));
    assert!(in_frustum(world_point(1, 1, -1), &f));
    assert!(!in_frustum(Point::new(POS_SCALE - 1, 0, 0), &f));
    assert!(!in_frustum(world_point(-10, 5, 5), &f));
    assert!(!in_frustum(world_point(-10, 0, 0), &f));
    assert!(in_frustum(world_point(5, 3, 3), &sees_all()));
    assert!(!in_frustum(world_point(5, 3, 3), &sees_nothing()));
    let depth = Frustum { rows: [[0, 0, 0, 0], [0, 0, 0, 0], [1, 0, 0, 0], [0, 0, 0, 100]] };
    assert!(in_frustum(world_point(100, 0, 0), &depth));
    assert!(!in_frustum(world_point(101, 0, 0), &depth));
    assert!(in_frustum(world_point(0, 0, 0), &depth));
    assert!(!in_frustum(Point::new(-1, 0, 0), &depth));
    let behind = Frustum { rows: [[0, 0, 0, 0], [0, 0, 0, 0], [1, 0, 0, 0], [0, 0, 0, -100]] };
    assert!(in_frustum(world_point(-100, 0, 0), &behind));
    assert!(!in_frustum(world_point(-101, 0, 0), &behind));
    assert!(!in_frustum(Point::new(1, 0, 0), &behind));
    let too_big = Frustum { rows: [[0, 0, 0, 0], [0, 0, 0, 0], [0, 0, 0x8000_0001, 0], [0, 0, 0, 1]] };
    assert!(!too_big.is_valid());
    let just_fits = Frustum { rows: [[0, 0, 0, 0], [0, 0, 0, 0], [0, 0, -0x8000_0000, 0], [0, 0, 0, 1]] };
    assert!(just_fits.is_valid());
}

#[test]
fn frustum_flags_look_at_all_corners() {
    let scan = scan_at(world_point(0, 0, 0), looks_along_x(), sees_all());
    assert_eq!(frustum_flags(&scan, (1, 0, 0)), (true, true));
    assert_eq!(frustum_flags(&scan, (0, 3, 0)), (false, true));
    // Of the chunk at (0, -2, -1) only the corners with x = 16 and y = -16
    // are in view.
    assert_eq!(frustum_flags(&scan, (0, -2, -1)), (true, true));
    assert_eq!(frustum_flags(&scan, (-1, 0, 0)), (false, true));
    let blind = scan_at(world_point(0, 0, 0), sees_all(), sees_nothing());
    assert_eq!(frustum_flags(&blind, (1, 0, 0)), (true, false));
    let neither = scan_at(world_point(0, 0, 0), sees_nothing(), sees_nothing());
    assert_eq!(frustum_flags(&neither, (1, 0, 0)), (false, false));
    let view_only = scan_at(world_point(0, 0, 0), looks_along_x(), sees_nothing());
    assert_eq!(frustum_flags(&view_only, (1, 0, 0)), (true, false));
    assert_eq!(frustum_flags(&view_only, (0, 3, 0)), (false, false));
    let gen_only = scan_at(world_point(0, 0, 0), sees_nothing(), looks_along_x());
    assert_eq!(frustum_flags(&gen_only, (1, 0, 0)), (false, true));
    assert_eq!(frustum_flags(&gen_only, (0, 3, 0)), (false, false));
}

#[test]
fn distance_is_measured_to_the_chunk_centre() {
    let scan = scan_at(world_point(0, 0, 0), sees_all(), sees_all());
    let half = (POS_SCALE * 8) as i128;
    assert_eq!(dist_sq_to_center(&scan, (0, 0, 0)), 3 * half * half);
    assert_eq!(dist_sq_to_center(&scan, (-1, -1, -1)), 3 * half * half);
    assert_eq!(dist_sq_to_center(&scan, (1, 0, -2)), (9 + 1 + 9) * half * half);
    let off = scan_at(world_point(8, 8, 8), sees_all(), sees_all());
    assert_eq!(dist_sq_to_center(&off, (0, 0, 0)), 0);
}

fn prio(dist_sq: i128, z: i32, in_view: bool, in_gen: bool) -> GenPrio {
    GenPrio { dist_sq, z, in_view, in_gen }
}

#[test]
fn priorities_compare_by_view_then_generation_then_key() {
    let seen = prio(900, 0, true, true);
    let gen = prio(100, 0, false, true);
    let none = prio(1, 0, false, false);
    assert_eq!(seen.compare(&gen), Ordering::Less);
    assert_eq!(gen.compare(&seen), Ordering::Greater);
    assert_eq!(gen.compare(&none), Ordering::Less);
    assert_eq!(none.compare(&gen), Ordering::Greater);
    assert_eq!(seen.compare(&none), Ordering::Less);
    assert_eq!(prio(5, 0, true, false).compare(&prio(500, 0, false, true)), Ordering::Less);
    assert_eq!(prio(5, 0, true, false).compare(&prio(1, 0, true, true)), Ordering::Greater);
    assert_eq!(prio(5, 0, true, true).compare(&prio(6, 0, true, true)), Ordering::Less);
    assert_eq!(prio(6, 0, false, false).compare(&prio(5, 0, false, false)), Ordering::Greater);
    assert_eq!(prio(5, 1, true, true).compare(&prio(5, 1, true, true)), Ordering::Equal);
    assert!(seen.goes_before(&gen));
    assert!(!gen.goes_before(&seen));
    assert!(!seen.goes_before(&seen));
}

#[test]
fn sort_key_adds_height_to_squared_distance() {
    assert_eq!(Z_WEIGHT, 16 * (POS_SCALE as i128) * (POS_SCALE as i128));
    assert_eq!(prio(1000, 0, true, true).key(), 1000);
    assert_eq!(prio(1000, 2, true, true).key(), 1000 + 2 * Z_WEIGHT);
    assert_eq!(prio(1000, -2, true, true).key(), 1000 - 2 * Z_WEIGHT);
    // One layer lower outweighs being sixteen squared world units farther.
    let low_far = prio(Z_WEIGHT - 1, -1, false, true);
    let high_near = prio(0, 0, false, true);
    assert_eq!(low_far.compare(&high_near), Ordering::Less);
    assert_eq!(prio(Z_WEIGHT, -1, false, true).compare(&high_near), Ordering::Equal);
    assert_eq!(prio(Z_WEIGHT + 1, -1, false, true).compare(&high_near), Ordering::Greater);
}

fn class(p: &GenPrio) -> u8 {
    if p.in_view {
        0
    } else if p.in_gen {
        1
    } else {
        2
    }
}

fn permutations(items: Vec<((i32, i32, i32), GenPrio)>) -> Vec<Vec<((i32, i32, i32), GenPrio)>> {
    if items.len() <= 1 {
        return vec![items];
    }
    let mut all = Vec::new();
    for i in 0..items.len() {
        let mut rest = items.clone();
        let first = rest.remove(i);
        for mut p in permutations(rest) {
            p.insert(0, first);
            all.push(p);
        }
    }
    all
}

#[test]
fn queue_pops_by_class_for_every_input_order() {
    let entries = vec![
        ((0, 0, 0), prio(50, 0, false, false)),
        ((1, 0, 0), prio(900, 0, true, true)),
        ((2, 0, 0), prio(10, 1, false, true)),
        ((3, 0, 0), prio(700, 0, false, true)),
        ((4, 0, 0), prio(1, 0, false, false)),
        ((5, 0, 0), prio(20, 0, true, true)),
    ];
    for mut queue in permutations(entries.clone()) {
        sort_for_pop(&mut queue);
        let mut popped = Vec::new();
        while let Some(e) = queue.pop() {
            popped.push(e);
        }
        let coords: Vec<i32> = popped.iter().map(|e| (e.0).0).collect();
        assert_eq!(coords, vec![5, 1, 3, 2, 4, 0]);
        let classes: Vec<u8> = popped.iter().map(|e| class(&e.1)).collect();
        assert_eq!(classes, vec![0, 0, 1, 1, 2, 2]);
    }
}

#[test]
fn sorting_keeps_ties_and_small_queues() {
    let mut empty: Vec<((i32, i32, i32), GenPrio)> = Vec::new();
    sort_for_pop(&mut empty);
    assert!(empty.is_empty());
    let mut one = vec![((7, 7, 7), prio(3, 0, false, false))];
    sort_for_pop(&mut one);
    assert_eq!(one, vec![((7, 7, 7), prio(3, 0, false, false))]);
    let mut ties = vec![
        ((0, 0, 0), prio(3, 0, false, true)),
        ((1, 0, 0), prio(3, 0, false, true)),
        ((2, 0, 0), prio(2, 0, false, true)),
    ];
    sort_for_pop(&mut ties);
    assert_eq!(ties.len(), 3);
    assert_eq!(ties[2].0, (2, 0, 0));
    assert!(ties.iter().any(|e| e.0 == (0, 0, 0)));
    assert!(ties.iter().any(|e| e.0 == (1, 0, 0)));
}

#[test]
fn new_world_is_empty() {
    let world = World::new();
    assert_eq!(world.total_count(), 0);
    assert_eq!(world.generate_count(), 0);
    assert_eq!(world.render_count(), 0);
    assert!(world.chunks_to_render().is_empty());
    assert!(world.get_chunk((0, 0, 0)).is_none());
    assert!(RemoveState::new().keys_left.is_empty());
}

#[test]
fn densities_nobody_asked_for_are_refused() {
    let mut world = World::new();
    assert_eq!(world.supply((0, 0, 0), &lattice_of((0, 0, 0))), Err(BuildError::NotSampling));
    let scan = scan_at(world_point(0, 8, 12), sees_all(), sees_all());
    let t = world.update(&scan, false);
    let pos = t.wanted.unwrap();
    assert_eq!(world.supply(scan.sub.chunk(), &vec![0; 3]), Err(BuildError::SampleCount));
    assert_eq!(world.total_count(), 0);
    assert_eq!(world.supply(scan.sub.chunk(), &lattice_of(pos)), Ok(Some(pos)));
    assert_eq!(world.total_count(), 1);
    assert_eq!(world.supply(scan.sub.chunk(), &lattice_of(pos)), Err(BuildError::NotSampling));
}

#[test]
fn first_tick_looks_around_and_builds_the_most_urgent_chunk() {
    let mut world = World::new();
    let scan = scan_at(world_point(0, 8, 12), sees_all(), sees_all());
    let t = world.update(&scan, false);
    assert!(t.recomputed);
    assert_eq!(t.dropped, None);
    assert_eq!(t.finished, None);
    let n = candidates_near((0, 8, 12));
    assert_eq!(n, 360);
    assert_eq!(world.generate_count(), n - 1);
    assert_eq!(world.render_count(), 0);
    // Everything is in view, so the chunk whose centre is nearest comes
    // first: the observer sits on the face between two chunks.
    let pos = t.wanted.unwrap();
    assert!(pos == (0, 0, 0) || pos == (-1, 0, 0));
    assert_eq!(world.supply(scan.sub.chunk(), &lattice_of(pos)), Ok(Some(pos)));
    assert_eq!(world.total_count(), 1);
    assert!(world.get_chunk(pos).is_some());
    // The floor runs through layer 0, so there is something to draw.
    assert_eq!(world.render_count(), 1);
    assert_eq!(world.chunks_to_render(), &vec![pos]);
    assert!(world.get_chunk(pos).unwrap().not_blank());
}

#[test]
fn look_reaches_five_columns_ahead() {
    // At the far end of chunk 0 along x, the centre of the chunk five
    // columns ahead is 72 world units away, within the generation distance
    // of 80.
    let mut world = World::new();
    let pos = Point::new(16 * POS_SCALE - 1, 8 * POS_SCALE, 8 * POS_SCALE);
    let scan = scan_at(pos, sees_all(), sees_all());
    assert_eq!(scan.sub.chunk(), (0, 0, 0));
    assert!(dist_sq_to_center(&scan, (5, 0, 0)) <= (80 * POS_SCALE as i128) * (80 * POS_SCALE as i128));
    assert!(dist_sq_to_center(&scan, (0, 5, 0)) > (80 * POS_SCALE as i128) * (80 * POS_SCALE as i128));
    let t = world.update(&scan, false);
    assert_eq!(candidates_near((16, 8, 8)), 350);
    assert_eq!(world.generate_count(), 350 - 1);
    // Build every chunk, each from densities above the level, until the
    // queue is used up.
    let blank = vec![ISO_LEVEL + 1; ISO_COUNT];
    let mut wanted = t.wanted;
    for _ in 0..2000 {
        if wanted.is_some() {
            world.supply(scan.sub.chunk(), &blank).unwrap();
        }
        wanted = world.update(&scan, false).wanted;
    }
    assert_eq!(world.generate_count(), 0);
    assert_eq!(world.total_count(), 350);
    assert!(world.get_chunk((5, 0, 0)).is_some());
    assert!(world.get_chunk((5, 1, -1)).is_some());
    assert!(world.get_chunk((-5, 0, 0)).is_none());
    assert!(world.get_chunk((6, 0, 0)).is_none());
    // Centred in its chunk the observer reaches five columns both ways
    // along y at the ends of the column it is in.
    let mut world = World::new();
    let scan = scan_at(Point::new(8 * POS_SCALE, 1, 8 * POS_SCALE), sees_all(), sees_all());
    let t = world.update(&scan, false);
    let mut wanted = t.wanted;
    for _ in 0..2000 {
        if wanted.is_some() {
            world.supply(scan.sub.chunk(), &blank).unwrap();
        }
        wanted = world.update(&scan, false).wanted;
    }
    assert!(world.get_chunk((0, -5, 0)).is_some());
    assert!(world.get_chunk((0, 4, 0)).is_some());
    assert!(world.get_chunk((0, 5, 0)).is_none());
    assert!(world.get_chunk((0, -6, 0)).is_none());
}

#[test]
fn moving_past_the_threshold_looks_around_once() {
    let mut world = World::new();
    let start = scan_at(world_point(0, 0, 0), sees_all(), sees_all());
    assert!(tick(&mut world, &start, false).recomputed);
    for _ in 0..5 {
        assert!(!tick(&mut world, &start, false).recomputed);
    }
    assert_eq!(world.total_count(), 6);
    let before = world.generate_count();
    assert_eq!(candidates_near((0, 0, 0)), 372);
    assert_eq!(before, 372 - 6);
    let near = scan_at(world_point(4, 0, 0), sees_all(), sees_all());
    assert!(!tick(&mut world, &near, false).recomputed);
    let moved = scan_at(world_point(5, 0, 0), sees_all(), sees_all());
    let t = world.update(&moved, false);
    assert!(t.recomputed);
    // The queue is made anew: every candidate that is not resident, less the
    // one that this tick took off for building.
    let resident = world.total_count();
    assert_eq!(candidates_near((5, 0, 0)), 358);
    assert_eq!(world.generate_count(), 358 - resident - 1);
    world.supply(moved.sub.chunk(), &lattice_of(t.wanted.unwrap())).unwrap();
    for _ in 0..5 {
        assert!(!tick(&mut world, &moved, false).recomputed);
    }
    assert!(tick(&mut world, &moved, true).recomputed);
}

#[test]
fn turning_past_the_threshold_looks_around() {
    let mut world = World::new();
    let mut scan = scan_at(world_point(0, 0, 0), sees_all(), sees_all());
    assert!(tick(&mut world, &scan, false).recomputed);
    scan.sub.forward = Point::new(1000, 300, 0);
    assert!(!tick(&mut world, &scan, false).recomputed);
    scan.sub.forward = Point::new(1000, 400, 0);
    assert!(tick(&mut world, &scan, false).recomputed);
    assert!(!tick(&mut world, &scan, false).recomputed);
}

#[test]
fn chunks_in_view_are_built_first() {
    let mut world = World::new();
    let scan = scan_at(world_point(8, 8, 8), looks_along_x(), sees_all());
    let mut order = Vec::new();
    for _ in 0..60 {
        let t = tick(&mut world, &scan, false);
        if let Some(pos) = t.wanted {
            order.push(frustum_flags(&scan, pos).0);
        }
    }
    assert_eq!(order.len(), 60);
    let first_unseen = order.iter().position(|seen| !seen).unwrap_or(order.len());
    assert!(first_unseen > 0);
    assert!(order[first_unseen..].iter().all(|seen| !seen));
}

#[test]
fn finished_chunks_with_geometry_are_drawn() {
    let mut world = World::new();
    let scan = scan_at(world_point(8, 8, 8), sees_all(), sees_all());
    let mut built = Vec::new();
    for _ in 0..125 {
        let t = world.update(&scan, false);
        let pos = t.wanted.unwrap();
        assert_eq!(world.supply(scan.sub.chunk(), &lattice_of(pos)), Ok(Some(pos)));
        built.push(pos);
    }
    assert_eq!(world.total_count(), 125);
    // The floor runs through layer 0 only.
    let with_floor: Vec<(i32, i32, i32)> = built.iter().copied().filter(|p| p.2 == 0).collect();
    assert!(!with_floor.is_empty());
    assert_eq!(world.render_count(), with_floor.len());
    for pos in world.chunks_to_render() {
        assert_eq!(pos.2, 0);
        let chunk = world.get_chunk(*pos).unwrap();
        assert!(chunk.not_blank());
        assert_eq!(chunk.num_inds(), 864);
    }
    for pos in &built {
        assert_eq!(world.get_chunk(*pos).unwrap().not_blank(), pos.2 == 0);
    }
    // A fresh look lists only what lies nearer than the view distance.
    world.update_nearby(&scan);
    for pos in world.chunks_to_render() {
        assert!(dist_sq_to_center(&scan, *pos) < (64 * POS_SCALE as i128) * (64 * POS_SCALE as i128));
    }
    assert!(world.render_count() <= with_floor.len());
    assert!(world.render_count() > 0);
}

#[test]
fn triangles_are_found_from_a_place_in_the_world() {
    let mut world = World::new();
    let scan = scan_at(world_point(8, 8, 8), sees_all(), sees_all());
    let first = tick(&mut world, &scan, false).wanted.unwrap();
    assert_eq!(first, (0, 0, 0));
    // The floor lies three and a half cells up; a cell is four thirds of a
    // world unit.
    let on_floor = Point::new(5 * POS_SCALE, 5 * POS_SCALE, 14 * POS_SCALE / 3);
    assert_eq!(world.tris_near((0, 0, 0), on_floor, 0).len(), 2);
    assert_eq!(world.tris_near((0, 0, 0), on_floor, 1).len(), 18);
    assert_eq!(world.tris_near((1, 0, 0), on_floor, 1).len(), 0);
    let chunk = world.get_chunk((0, 0, 0)).unwrap();
    let direct = chunk.tris_around(on_floor, 1);
    let found = world.tris_near((0, 0, 0), on_floor, 1);
    for (a, b) in direct.iter().zip(found.iter()) {
        assert_eq!(a.verts, b.verts);
    }
    // Seen from the next chunk along x the place lies one chunk farther on.
    tick(&mut world, &scan, false);
    let beside = Point::new(CHUNK_UNITS + 5 * POS_SCALE, 5 * POS_SCALE, 14 * POS_SCALE / 3);
    assert_eq!(world.tris_near((0, 0, 0), beside, 0).len(), 0);
    let near_border = Point::new(CHUNK_UNITS + 1, 5 * POS_SCALE, 14 * POS_SCALE / 3);
    assert_eq!(world.tris_near((0, 0, 0), near_border, 1).len(), 6);
}

#[test]
fn steady_state_builds_in_steps() {
    let mut world = World::new();
    let scan = scan_at(world_point(8, 8, 8), sees_all(), sees_all());
    for _ in 0..125 {
        tick(&mut world, &scan, false);
    }
    assert_eq!(world.total_count(), 125);
    let queued = world.generate_count();
    // Takes the next chunk off the queue; nothing is asked for yet.
    let t = world.update(&scan, false);
    assert_eq!((t.wanted, t.finished), (None, None));
    assert_eq!(world.generate_count(), queued - 1);
    assert_eq!(world.total_count(), 125);
    // The build waits for its densities until they are handed in.
    let t = world.update(&scan, false);
    let pos = t.wanted.unwrap();
    assert_eq!(world.update(&scan, false).wanted, Some(pos));
    assert_eq!(world.generate_count(), queued - 1);
    let isos = if pos.2 == 0 { lattice_of(pos) } else { vec![ISO_LEVEL - 5; ISO_COUNT] };
    assert_eq!(world.supply(scan.sub.chunk(), &isos), Ok(None));
    assert_eq!(world.total_count(), 125);
    // Three meshing steps of four slabs each.
    assert_eq!(world.update(&scan, false).finished, None);
    assert_eq!(world.update(&scan, false).finished, None);
    let t = world.update(&scan, false);
    assert_eq!(t.finished, Some(pos));
    assert_eq!(t.wanted, None);
    assert_eq!(world.total_count(), 126);
    assert!(world.get_chunk(pos).is_some());
}

#[test]
fn blank_chunk_becomes_resident_when_sampled() {
    let mut world = World::new();
    let scan = scan_at(world_point(8, 8, 8), sees_all(), sees_all());
    for _ in 0..125 {
        tick(&mut world, &scan, false);
    }
    world.update(&scan, false);
    let pos = world.update(&scan, false).wanted.unwrap();
    let shown = world.render_count();
    assert_eq!(world.supply(scan.sub.chunk(), &vec![ISO_LEVEL + 9; ISO_COUNT]), Ok(Some(pos)));
    assert_eq!(world.total_count(), 126);
    assert_eq!(world.render_count(), shown);
    assert!(!world.get_chunk(pos).unwrap().not_blank());
}

#[test]
fn empty_queue_ends_whole_builds() {
    let mut world = World::new();
    // From high above no chunk centre lies within the generation distance.
    let scan = scan_at(world_point(0, 0, 200), sees_all(), sees_all());
    let t = world.update(&scan, false);
    assert!(t.recomputed);
    assert_eq!(t.wanted, None);
    assert_eq!(world.generate_count(), 0);
    // Steady state from now on: a chunk is taken off the queue first and
    // asked for only on the next tick.
    let down = scan_at(world_point(8, 8, 8), sees_all(), sees_all());
    let t = world.update(&down, false);
    assert!(t.recomputed);
    assert_eq!(t.wanted, None);
    assert!(world.update(&down, false).wanted.is_some());
}

#[test]
fn layers_outside_the_band_are_never_generated() {
    let mut world = World::new();
    // Three chunks up, one layer above the band of layers -2 to 2.
    let scan = scan_at(world_point(8, 8, 56), sees_all(), sees_all());
    assert_eq!(scan.sub.chunk(), (0, 0, 3));
    let t = world.update(&scan, false);
    let n = candidates_near((8, 8, 56));
    assert_eq!(n, 217);
    assert_eq!(world.generate_count(), n - 1);
    let mut wanted = t.wanted;
    let mut built = 0;
    while let Some(pos) = wanted {
        assert!(-2 <= pos.2 && pos.2 <= 2);
        assert_eq!(world.supply(scan.sub.chunk(), &lattice_of(pos)), Ok(Some(pos)));
        built += 1;
        wanted = world.update(&scan, false).wanted;
    }
    assert_eq!(built, 125);
    assert_eq!(world.total_count(), 125);
    let mut found = 0;
    for x in -6..6 {
        for y in -6..6 {
            for z in -8..9 {
                if world.get_chunk((x, y, z)).is_some() {
                    assert!(-2 <= z && z <= 2);
                    found += 1;
                }
            }
        }
    }
    assert_eq!(found, 125);
}

#[test]
fn far_chunks_are_dropped_round_robin() {
    let mut world = World::new();
    let scan = scan_at(world_point(8, 8, 8), sees_all(), sees_all());
    for _ in 0..10 {
        tick(&mut world, &scan, false);
    }
    assert_eq!(world.total_count(), 10);
    let old: Vec<(i32, i32, i32)> = (-6..=6)
        .flat_map(|x| (-6..=6).flat_map(move |y| (-2..=2).map(move |z| (x, y, z))))
        .filter(|p| world.get_chunk(*p).is_some())
        .collect();
    assert_eq!(old.len(), 10);
    assert!(old.iter().all(|p| p.0.abs() <= 1));
    // Eight chunks away along x every old chunk is farther than six chunks.
    let away = scan_at(world_point(8 * 16 + 8, 8, 8), sees_all(), sees_all());
    let home = away.sub.chunk();
    assert_eq!(home, (8, 0, 0));
    let mut dropped = Vec::new();
    let mut ticks = 0;
    while dropped.len() < old.len() {
        let t = tick(&mut world, &away, false);
        if let Some(pos) = t.dropped {
            assert!(dist_sq(pos, home) > 36);
            assert!(world.get_chunk(pos).is_none());
            assert!(!world.chunks_to_render().contains(&pos));
            dropped.push(pos);
        }
        ticks += 1;
        assert!(ticks <= 216);
    }
    dropped.sort();
    let mut expected = old.clone();
    expected.sort();
    assert_eq!(dropped, expected);
    for _ in 0..216 {
        let t = tick(&mut world, &away, false);
        assert_eq!(t.dropped, None);
    }
    for x in -6..20 {
        for y in -12..12 {
            for z in -2..=2 {
                if world.get_chunk((x, y, z)).is_some() {
                    assert!(dist_sq((x, y, z), home) <= 36);
                }
            }
        }
    }
}

#[test]
fn chunk_at_the_keep_distance_stays() {
    let mut world = World::new();
    let scan = scan_at(world_point(8, 8, 8), sees_all(), sees_all());
    let first = tick(&mut world, &scan, false).wanted.unwrap();
    assert_eq!(world.total_count(), 1);
    // A new round begins with the one resident chunk.
    assert_eq!(world.remove_far_way((0, 0, 0)), None);
    let kept_from = (first.0 + 6, first.1, first.2);
    assert_eq!(dist_sq(first, kept_from), 36);
    assert_eq!(world.remove_far_way(kept_from), None);
    assert!(world.get_chunk(first).is_some());
    assert_eq!(world.remove_far_way((0, 0, 0)), None);
    let dropped_from = (first.0 + 6, first.1 + 1, first.2);
    assert_eq!(world.remove_far_way(dropped_from), Some(first));
    assert!(world.get_chunk(first).is_none());
    assert_eq!(world.total_count(), 0);
}

#[test]
fn observer_at_origin_scenario() {
    let mut world = World::new();
    let origin = scan_at(world_point(0, 0, 0), sees_all(), sees_all());
    let mut looks = 0;
    for _ in 0..30 {
        if tick(&mut world, &origin, false).recomputed {
            looks += 1;
        }
    }
    assert_eq!(looks, 1);
    assert_eq!(world.total_count(), 30);
    assert_eq!(world.generate_count(), candidates_near((0, 0, 0)) - 30);
    // Move by more than the recheck distance of four world units, far enough
    // that every resident chunk lies beyond six chunks of the new one.
    let moved = scan_at(world_point(12 * 16, 0, 0), sees_all(), sees_all());
    let home = moved.sub.chunk();
    let mut looks = 0;
    for n in 0..216 {
        let t = world.update(&moved, false);
        if t.recomputed {
            looks += 1;
            assert_eq!(n, 0);
            let resident_near = (7..17)
                .flat_map(|x| (-6..=6).flat_map(move |y| (-2..=2).map(move |z| (x, y, z))))
                .filter(|p| world.get_chunk(*p).is_some())
                .count();
            assert_eq!(resident_near, 0);
            assert_eq!(world.generate_count(), candidates_near((12 * 16, 0, 0)) - 1);
        }
        if let Some(pos) = t.wanted {
            world.supply(home, &lattice_of(pos)).unwrap();
        }
    }
    assert_eq!(looks, 1);
    for x in -6..6 {
        for y in -6..6 {
            for z in -2..=2 {
                assert!(world.get_chunk((x, y, z)).is_none());
            }
        }
    }
    for x in 0..24 {
        for y in -12..12 {
            for z in -2..=2 {
                if world.get_chunk((x, y, z)).is_some() {
                    assert!(dist_sq((x, y, z), home) <= 36);
                    assert!(dist_sq_wide((x, y, z), home) <= 36);
                }
            }
        }
    }
    assert!(world.total_count() > 100);
}
