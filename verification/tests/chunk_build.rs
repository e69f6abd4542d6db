use underwater_world::chunk::{BuildError, BuildState, Chunk};
use underwater_world::lattice::{
    corner_to_iso_idx, count_tris, cut_edge, entry_of_row, mask_of_cell, offset_of_crossing,
    point_of_sample, CUBE_CORNERS, ISO_COUNT, ISO_LEVEL,
};
use underwater_world::marching_table::{EDGE_VERTEX_INDICES, TRIANGULATION};
use underwater_world::util::{Point, Tri, WideVec, CELL_UNITS, CHUNK_UNITS};

/// Densities of a chunk's lattice, read off a field over the world's lattice.
fn lattice_of(pos: (i32, i32, i32), field: fn(i64, i64, i64) -> i32) -> Vec<i32> {
    let mut isos = Vec::with_capacity(ISO_COUNT);
    for idx in 0..ISO_COUNT {
        let p = point_of_sample(pos, idx);
        isos.push(field(p.0, p.1, p.2));
    }
    isos
}

/// Solid below the plane half way between lattice layers 3 and 4.
fn floor_field(_x: i64, _y: i64, z: i64) -> i32 {
    (z * 100_000 - 450_000) as i32
}

/// A slanted and bumpy ground that crosses chunk borders.
fn hill_field(x: i64, y: i64, z: i64) -> i32 {
    let bump = ((x * 7 + y * 13).rem_euclid(5) - 2) * 30_000;
    (z * 90_000 - x * 40_000 + y * 25_000 + bump - 300_000) as i32
}

fn built(pos: (i32, i32, i32), field: fn(i64, i64, i64) -> i32) -> Chunk {
    let mut chunk = Chunk::new(pos);
    assert_eq!(chunk.build_full(&lattice_of(pos, field)), Ok(()));
    chunk
}

#[test]
fn blank_chunk_finishes_after_sampling() {
    let mut chunk = Chunk::new((0, 0, 0));
    assert_eq!(chunk.state(), BuildState::Iso);
    assert_eq!(chunk.samples_wanted(), ISO_COUNT);
    let done = chunk.build_partial(&vec![ISO_LEVEL + 1; ISO_COUNT]);
    assert_eq!(done, Ok(true));
    assert_eq!(chunk.state(), BuildState::Done);
    assert!(!chunk.not_blank());
    assert_eq!(chunk.num_inds(), 0);
    assert!(chunk.verts().is_empty());
    assert!(chunk.inds().is_empty());
    assert!(chunk.tris_around(Point::new(0, 0, 0), 12).is_empty());
    assert_eq!(chunk.samples_wanted(), 0);
}

#[test]
fn density_at_the_level_is_not_blank() {
    let mut chunk = Chunk::new((0, 0, 0));
    let mut isos = vec![ISO_LEVEL + 1; ISO_COUNT];
    isos[1000] = ISO_LEVEL;
    assert_eq!(chunk.build_partial(&isos), Ok(false));
    assert_eq!(chunk.state(), BuildState::Mesh);
}

#[test]
fn solid_chunk_is_meshed_to_nothing() {
    let mut chunk = Chunk::new((0, 0, 0));
    let isos = vec![ISO_LEVEL - 1; ISO_COUNT];
    assert_eq!(chunk.build_partial(&isos), Ok(false));
    assert_eq!(chunk.build_partial(&Vec::new()), Ok(false));
    assert_eq!(chunk.build_partial(&Vec::new()), Ok(false));
    assert_eq!(chunk.build_partial(&Vec::new()), Ok(true));
    assert_eq!(chunk.state(), BuildState::Done);
    assert!(!chunk.not_blank());
    assert_eq!(chunk.num_inds(), 0);
}

#[test]
fn wrong_sample_count_is_refused() {
    let mut chunk = Chunk::new((1, 2, 3));
    assert_eq!(chunk.build_partial(&vec![0; 5]), Err(BuildError::SampleCount));
    assert_eq!(chunk.state(), BuildState::Iso);
    assert_eq!(chunk.samples_wanted(), ISO_COUNT);
    assert_eq!(chunk.build_full(&vec![0; 5]), Err(BuildError::SampleCount));
    assert_eq!(chunk.build_full(&Vec::new()), Err(BuildError::SampleCount));
    assert_eq!(chunk.state(), BuildState::Iso);
}

#[test]
fn finished_chunk_ignores_further_steps() {
    let mut chunk = built((0, 0, 0), floor_field);
    let verts = chunk.verts().clone();
    assert_eq!(chunk.build_partial(&vec![1, 2, 3]), Ok(true));
    assert_eq!(chunk.build_full(&vec![1, 2, 3]), Ok(()));
    assert_eq!(chunk.verts(), &verts);
}

#[test]
fn flat_floor_has_one_vertex_per_upright_edge() {
    let chunk = built((0, 0, 0), floor_field);
    assert_eq!(chunk.state(), BuildState::Done);
    assert!(chunk.not_blank());
    assert_eq!(chunk.verts().len(), 169);
    assert_eq!(chunk.num_inds(), 864);
    assert_eq!(chunk.inds().len(), 864);
    for v in chunk.verts() {
        assert_eq!(v.pos.z, 3 * CELL_UNITS + CELL_UNITS / 2);
        assert_eq!(v.pos.x % CELL_UNITS, 0);
        assert_eq!(v.pos.y % CELL_UNITS, 0);
        assert!(0 <= v.pos.x && v.pos.x <= CHUNK_UNITS);
        assert!(0 <= v.pos.y && v.pos.y <= CHUNK_UNITS);
    }
    for i in chunk.inds() {
        assert!((*i as usize) < chunk.verts().len());
    }
}

#[test]
fn vertices_are_shared_between_triangles() {
    let chunk = built((0, 0, 0), floor_field);
    let mut seen = Vec::new();
    for v in chunk.verts() {
        assert!(!seen.contains(&v.pos));
        seen.push(v.pos);
    }
}

#[test]
fn chunk_offset_moves_the_mesh() {
    let here = built((0, 0, 0), floor_field);
    let there = built((2, -3, 0), floor_field);
    assert_eq!(here.verts().len(), there.verts().len());
    assert_eq!(here.inds(), there.inds());
    for (a, b) in here.verts().iter().zip(there.verts().iter()) {
        assert_eq!(b.pos.x, a.pos.x + 2 * CHUNK_UNITS);
        assert_eq!(b.pos.y, a.pos.y - 3 * CHUNK_UNITS);
        assert_eq!(b.pos.z, a.pos.z);
    }
}

#[test]
fn repeated_builds_are_identical() {
    let a = built((1, 0, 0), hill_field);
    let b = built((1, 0, 0), hill_field);
    assert!(a.not_blank());
    assert_eq!(a.verts(), b.verts());
    assert_eq!(a.inds(), b.inds());
    let ta = a.tris_around(Point::new(CHUNK_UNITS / 2, CHUNK_UNITS / 2, CHUNK_UNITS / 2), 12);
    let tb = b.tris_around(Point::new(CHUNK_UNITS / 2, CHUNK_UNITS / 2, CHUNK_UNITS / 2), 12);
    assert_eq!(ta.len(), tb.len());
    assert_eq!(ta.len() * 3, a.num_inds());
    for (x, y) in ta.iter().zip(tb.iter()) {
        assert_eq!(x.verts, y.verts);
        assert_eq!(x.normal, y.normal);
    }
}

#[test]
fn indices_draw_the_triangles_of_the_cells() {
    for chunk in [built((0, 0, 0), hill_field), built((-2, 1, 0), floor_field)] {
        // A window over the whole chunk lists the cells in their order.
        let tris = chunk.tris_around(Point::new(0, 0, 0), 12);
        assert!(!tris.is_empty());
        assert_eq!(3 * tris.len(), chunk.inds().len());
        for (k, tri) in tris.iter().enumerate() {
            for j in 0..3 {
                let vert = chunk.verts()[chunk.inds()[3 * k + j] as usize];
                assert_eq!(tri.verts[j], vert.pos);
            }
            let again = Tri::new(tri.verts);
            assert_eq!(tri.normal, again.normal);
        }
    }
}

#[test]
fn stepped_build_equals_full_build() {
    let pos = (0, 1, 0);
    let isos = lattice_of(pos, hill_field);
    let whole = built(pos, hill_field);
    let mut stepped = Chunk::new(pos);
    assert_eq!(stepped.build_partial(&isos), Ok(false));
    assert_eq!(stepped.state(), BuildState::Mesh);
    assert_eq!(stepped.samples_wanted(), 0);
    assert_eq!(stepped.build_partial(&Vec::new()), Ok(false));
    assert_eq!(stepped.build_partial(&Vec::new()), Ok(false));
    assert_eq!(stepped.build_partial(&Vec::new()), Ok(true));
    assert_eq!(stepped.state(), BuildState::Done);
    assert_eq!(stepped.verts(), whole.verts());
    assert_eq!(stepped.inds(), whole.inds());
    let centre = Point::new(CHUNK_UNITS / 2, CHUNK_UNITS / 2, CHUNK_UNITS / 2);
    let a = stepped.tris_around(centre, 12);
    let b = whole.tris_around(centre, 12);
    assert_eq!(a.len(), b.len());
    for (x, y) in a.iter().zip(b.iter()) {
        assert_eq!(x.verts, y.verts);
    }
}

#[test]
fn full_build_finishes_a_build_under_way() {
    let pos = (0, 0, 0);
    let isos = lattice_of(pos, hill_field);
    let whole = built(pos, hill_field);
    let mut chunk = Chunk::new(pos);
    assert_eq!(chunk.build_partial(&isos), Ok(false));
    assert_eq!(chunk.build_partial(&Vec::new()), Ok(false));
    assert_eq!(chunk.build_full(&Vec::new()), Ok(()));
    assert_eq!(chunk.verts(), whole.verts());
    assert_eq!(chunk.inds(), whole.inds());
}

#[test]
fn neighbours_agree_on_their_shared_face() {
    for (a, b, axis) in [
        ((0, 0, 0), (1, 0, 0), 0),
        ((0, 0, 0), (0, 1, 0), 1),
        ((0, 0, 0), (0, 0, 1), 2),
        ((-1, -1, 0), (0, -1, 0), 0),
    ] {
        let first = built(a, hill_field);
        let second = built(b, hill_field);
        let face = match axis {
            0 => b.0 as i64 * CHUNK_UNITS,
            1 => b.1 as i64 * CHUNK_UNITS,
            _ => b.2 as i64 * CHUNK_UNITS,
        };
        let on_face = |p: &Point| match axis {
            0 => p.x == face,
            1 => p.y == face,
            _ => p.z == face,
        };
        let mut from_first: Vec<Point> =
            first.verts().iter().map(|v| v.pos).filter(|p| on_face(p)).collect();
        let mut from_second: Vec<Point> =
            second.verts().iter().map(|v| v.pos).filter(|p| on_face(p)).collect();
        from_first.sort_by_key(|p| (p.x, p.y, p.z));
        from_second.sort_by_key(|p| (p.x, p.y, p.z));
        assert_eq!(from_first, from_second);
        if axis != 2 {
            assert!(!from_first.is_empty());
        }
    }
}

#[test]
fn block_of_eight_chunks_has_no_cracks_between_vertices() {
    let mut chunks = Vec::new();
    for x in 0..2 {
        for y in 0..2 {
            for z in 0..2 {
                chunks.push(((x, y, z), built((x, y, z), hill_field)));
            }
        }
    }
    for (pa, a) in &chunks {
        for (pb, b) in &chunks {
            if pa == pb {
                continue;
            }
            let lo = (
                pa.0.max(pb.0) as i64 * CHUNK_UNITS,
                pa.1.max(pb.1) as i64 * CHUNK_UNITS,
                pa.2.max(pb.2) as i64 * CHUNK_UNITS,
            );
            let hi = (
                (pa.0.min(pb.0) + 1) as i64 * CHUNK_UNITS,
                (pa.1.min(pb.1) + 1) as i64 * CHUNK_UNITS,
                (pa.2.min(pb.2) + 1) as i64 * CHUNK_UNITS,
            );
            let shared = |p: &Point| {
                lo.0 <= p.x && p.x <= hi.0 && lo.1 <= p.y && p.y <= hi.1 && lo.2 <= p.z
                    && p.z <= hi.2
            };
            for v in a.verts().iter().filter(|v| shared(&v.pos)) {
                assert!(b.verts().iter().any(|w| w.pos == v.pos));
            }
        }
    }
}

#[test]
fn crossing_is_interpolated_between_the_densities() {
    assert_eq!(offset_of_crossing(-200_000, 100_000), 21845);
    assert_eq!(offset_of_crossing(100_000, -200_000), 43690);
    assert_eq!(offset_of_crossing(-150_000, -50_000), CELL_UNITS / 2);
    assert_eq!(offset_of_crossing(-100_000, 0), 0);
    assert_eq!(offset_of_crossing(0, -100_001), 65535);
}

#[test]
fn crossing_of_equal_densities_is_the_midpoint() {
    assert_eq!(offset_of_crossing(5, 5), CELL_UNITS / 2);
    assert_eq!(offset_of_crossing(ISO_LEVEL, ISO_LEVEL), CELL_UNITS / 2);
    assert_eq!(offset_of_crossing(i32::MIN, i32::MIN), CELL_UNITS / 2);
}

#[test]
fn crossing_stays_on_the_edge() {
    assert_eq!(offset_of_crossing(0, 100), 0);
    assert_eq!(offset_of_crossing(-300_000, -200_000), CELL_UNITS);
    assert_eq!(offset_of_crossing(i32::MIN, i32::MAX), 32766);
    assert_eq!(offset_of_crossing(i32::MAX, i32::MIN), 32769);
}

#[test]
fn edge_cut_is_the_same_from_every_cell() {
    let isos = lattice_of((0, 0, 0), hill_field);
    // Edge 1 of a cell is edge 3 of its neighbour along x, run the other way.
    let a = cut_edge((0, 0, 0), &isos, [4, 5, 6], 1);
    let b = cut_edge((0, 0, 0), &isos, [5, 5, 6], 3);
    assert_eq!(a, b);
    assert_eq!(a.slot, 3 * corner_to_iso_idx([5, 5, 6]) + 2);
    // Edge 8 of a cell is edge 11 of its neighbour below along z.
    let c = cut_edge((0, 0, 0), &isos, [4, 5, 6], 8);
    let d = cut_edge((0, 0, 0), &isos, [4, 5, 5], 11);
    assert_eq!(c, d);
    assert_eq!(c.slot, 3 * corner_to_iso_idx([4, 5, 6]) + 1);
}

#[test]
fn corner_index_counts_z_fastest() {
    assert_eq!(corner_to_iso_idx([0, 0, 0]), 0);
    assert_eq!(corner_to_iso_idx([0, 0, 12]), 12);
    assert_eq!(corner_to_iso_idx([0, 1, 0]), 13);
    assert_eq!(corner_to_iso_idx([1, 0, 0]), 169);
    assert_eq!(corner_to_iso_idx([12, 12, 12]), 2196);
}

#[test]
fn cell_mask_sets_a_bit_for_each_corner_below_the_level() {
    let mut isos = vec![0; ISO_COUNT];
    assert_eq!(mask_of_cell(&isos, [3, 4, 5]), 0);
    for (bit, corner) in CUBE_CORNERS.iter().enumerate() {
        let idx = corner_to_iso_idx([3 + corner[0], 4 + corner[1], 5 + corner[2]]);
        isos[idx] = ISO_LEVEL - 1;
        assert_eq!(mask_of_cell(&isos, [3, 4, 5]), 1 << bit);
        isos[idx] = ISO_LEVEL;
        assert_eq!(mask_of_cell(&isos, [3, 4, 5]), 0);
    }
    let isos = vec![ISO_LEVEL - 1; ISO_COUNT];
    assert_eq!(mask_of_cell(&isos, [11, 11, 11]), 255);
}

#[test]
fn table_rows_list_the_crossed_edges() {
    for mask in 0..256usize {
        let row = TRIANGULATION[mask];
        let count = count_tris(row);
        assert!(count <= 5);
        assert_eq!(entry_of_row(row, 3 * count), 15);
        let mut used = [false; 12];
        for k in 0..3 * count {
            used[entry_of_row(row, k)] = true;
        }
        for (e, ends) in EDGE_VERTEX_INDICES.iter().enumerate() {
            let crossed = ((mask >> ends[0]) & 1) != ((mask >> ends[1]) & 1);
            assert_eq!(used[e], crossed);
        }
    }
}

#[test]
fn table_rows_of_known_masks() {
    assert_eq!(count_tris(TRIANGULATION[0]), 0);
    assert_eq!(count_tris(TRIANGULATION[255]), 0);
    let row = TRIANGULATION[1];
    assert_eq!(count_tris(row), 1);
    assert_eq!(
        [entry_of_row(row, 0), entry_of_row(row, 1), entry_of_row(row, 2)],
        [0, 8, 3]
    );
    assert_eq!(count_tris(TRIANGULATION[51]), 2);
    assert_eq!(count_tris(TRIANGULATION[105]), 4);
    assert_eq!(count_tris(TRIANGULATION[61]), 5);
    assert_eq!(entry_of_row(TRIANGULATION[61], 14), 0);
    assert_eq!(entry_of_row(TRIANGULATION[61], 15), 15);
}

#[test]
fn sample_points_walk_the_lattice() {
    let chunk = Chunk::new((1, -1, 0));
    let points = chunk.sample_points();
    assert_eq!(points.len(), ISO_COUNT);
    assert_eq!(points[0], (12, -12, 0));
    assert_eq!(points[1], (12, -12, 1));
    assert_eq!(points[13], (12, -11, 0));
    assert_eq!(points[169], (13, -12, 0));
    assert_eq!(points[2196], (24, 0, 12));
    assert_eq!(point_of_sample((1, -1, 0), 2196), (24, 0, 12));
    let done = built((0, 0, 0), floor_field);
    assert!(done.sample_points().is_empty());
}

#[test]
fn triangles_are_found_by_cell() {
    let chunk = built((0, 0, 0), floor_field);
    let inside = Point::new(5 * CELL_UNITS + 7, 6 * CELL_UNITS + 9, 3 * CELL_UNITS + 1);
    assert_eq!(chunk.tris_around(inside, 0).len(), 2);
    assert_eq!(chunk.tris_around(inside, 1).len(), 18);
    assert_eq!(chunk.tris_around(inside, 12).len(), 288);
    let above = Point::new(5 * CELL_UNITS, 6 * CELL_UNITS, 5 * CELL_UNITS);
    assert_eq!(chunk.tris_around(above, 0).len(), 0);
    assert_eq!(chunk.tris_around(above, 1).len(), 0);
    assert_eq!(chunk.tris_around(above, 2).len(), 50);
    for tri in chunk.tris_around(inside, 0) {
        for p in tri.verts {
            assert_eq!(p.z, 3 * CELL_UNITS + CELL_UNITS / 2);
            assert!(5 * CELL_UNITS <= p.x && p.x <= 6 * CELL_UNITS);
            assert!(6 * CELL_UNITS <= p.y && p.y <= 7 * CELL_UNITS);
        }
        assert_eq!(tri.normal.x, 0);
        assert_eq!(tri.normal.y, 0);
        assert_eq!(tri.normal.z.abs(), CELL_UNITS as i128 * CELL_UNITS as i128);
    }
}

#[test]
fn query_window_is_cut_at_the_chunk_border() {
    let chunk = built((0, 0, 0), floor_field);
    let corner = Point::new(0, 0, 3 * CELL_UNITS);
    assert_eq!(chunk.tris_around(corner, 1).len(), 8);
    let far_corner = Point::new(CHUNK_UNITS - 1, CHUNK_UNITS - 1, 3 * CELL_UNITS);
    assert_eq!(chunk.tris_around(far_corner, 1).len(), 8);
    let outside = Point::new(-1, 0, 3 * CELL_UNITS);
    assert_eq!(chunk.tris_around(outside, 0).len(), 0);
    assert_eq!(chunk.tris_around(outside, 1).len(), 4);
    let beyond = Point::new(CHUNK_UNITS, 0, 3 * CELL_UNITS);
    assert_eq!(chunk.tris_around(beyond, 0).len(), 0);
    assert_eq!(chunk.tris_around(beyond, 1).len(), 4);
    let far = Point::new(-40 * CELL_UNITS, 0, 0);
    assert_eq!(chunk.tris_around(far, 3).len(), 0);
    assert_eq!(chunk.tris_around(corner, -1).len(), 0);
    assert_eq!(chunk.tris_around(corner, i32::MAX).len(), 288);
    assert_eq!(chunk.tris_around(corner, i32::MIN).len(), 0);
    assert_eq!(chunk.tris_around(Point::new(i64::MAX, i64::MIN, 0), i32::MAX).len(), 0);
    assert_eq!(chunk.tris_around(Point::new(i64::MIN, i64::MAX, i64::MAX), i32::MIN).len(), 0);
}

#[test]
fn index_bytes_hold_the_indices() {
    let chunk = built((0, 0, 0), floor_field);
    let bytes = chunk.index_bytes();
    assert_eq!(bytes.len(), 2 * chunk.num_inds());
    for (i, ind) in chunk.inds().iter().enumerate() {
        assert_eq!([bytes[2 * i], bytes[2 * i + 1]], ind.to_ne_bytes());
    }
    assert!(chunk.inds().iter().any(|i| *i > 0));
    assert!(Chunk::new((0, 0, 0)).index_bytes().is_empty());
}

#[test]
fn triangle_normal_is_the_cross_product() {
    let tri = Tri::new([Point::new(0, 0, 0), Point::new(2, 0, 0), Point::new(0, 3, 0)]);
    assert_eq!(tri.normal, WideVec { x: 0, y: 0, z: 6 });
    let flipped = Tri::new([Point::new(0, 0, 0), Point::new(0, 3, 0), Point::new(2, 0, 0)]);
    assert_eq!(flipped.normal, WideVec { x: 0, y: 0, z: -6 });
    let tilted = Tri::new([Point::new(1, 1, 1), Point::new(2, 3, 4), Point::new(-1, 0, 5)]);
    assert_eq!(tilted.normal, WideVec { x: 11, y: -10, z: 3 });
    assert_eq!(tilted.verts[2], Point::new(-1, 0, 5));
    let big = 0x10_0000_0000_0000;
    let wide = Tri::new([
        Point::new(-big, -big, 0),
        Point::new(big, -big, 0),
        Point::new(-big, big, 0),
    ]);
    assert_eq!(wide.normal.z, 4 * (big as i128) * (big as i128));
}
