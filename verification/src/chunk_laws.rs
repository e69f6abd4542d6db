use vstd::prelude::*;
use crate::chunk::{BuildState, ChunkView, is_blank};
use crate::mesh::{Mesh, lemma_add_cells_indexed, lemma_add_cells_split};

verus! {

/// A bound on the number of build steps that a chunk still needs: one to
/// finish sampling and one for every four slabs of cells.
pub open spec fn steps_left(v: ChunkView) -> nat {
    match v.state {
        BuildState::Done => 0,
        BuildState::Mesh => ((12 - v.x + 3) / 4) as nat,
        BuildState::Iso => 4,
    }
}

/// A build step changes nothing about where the build ends, and brings the
/// end nearer.
pub proof fn lemma_step_keeps_completed(v: ChunkView, samples: Seq<i32>)
    requires
        v.valid(),
        v.state == BuildState::Iso ==> samples.len() == v.samples_wanted(),
    ensures
        v.step(samples).completed(samples) == v.completed(samples),
        v.state != BuildState::Done ==> steps_left(v.step(samples)) < steps_left(v),
        v.state == BuildState::Done ==> v.step(samples) == v,
        v.step(samples).state == BuildState::Done ==> v.step(samples) == v.completed(samples),
{
    match v.state {
        BuildState::Done => {},
        BuildState::Iso => {},
        BuildState::Mesh => {
            lemma_add_cells_split(v.mesh, v.pos, v.isos, v.x * 144, v.mesh_stop() * 144, 1728);
        },
    }
}

/// Stepping a build until it is over gives what a single pass over the same
/// lattice gives: the finished chunk does not depend on how the work was
/// cut into steps. Steps past the end change nothing.
pub proof fn lemma_stepped_build_is_single_pass(v: ChunkView, rest: Seq<i32>, n: nat)
    requires
        v.valid(),
        rest.len() == v.samples_missing(),
        n >= steps_left(v),
    ensures
        v.run(rest, n) == v.completed(rest),
    decreases n,
{
    if n > 0 {
        let wanted = v.samples_wanted();
        lemma_first_step_of_run(v, rest);
        lemma_stepped_build_is_single_pass(
            v.step(rest.take(wanted)),
            rest.skip(wanted),
            (n - 1) as nat,
        );
    }
}

/// The first step of a run takes the densities it wants from the front of
/// those that are missing, and leaves a build that ends as the build before
/// the step would have ended.
pub proof fn lemma_first_step_of_run(v: ChunkView, rest: Seq<i32>)
    requires
        v.valid(),
        rest.len() == v.samples_missing(),
    ensures
        ({
            let wanted = v.samples_wanted();
            let next = v.step(rest.take(wanted));
            &&& next.valid()
            &&& rest.skip(wanted).len() == next.samples_missing()
            &&& next.completed(rest.skip(wanted)) == v.completed(rest)
            &&& steps_left(next) < steps_left(v) || (steps_left(v) == 0 && next == v)
        }),
{
    let wanted = v.samples_wanted();
    let samples = rest.take(wanted);
    let next = v.step(samples);
    if v.state == BuildState::Iso {
        assert(wanted == rest.len());
        assert(samples =~= rest);
    } else {
        assert(wanted == 0);
    }
    lemma_step_keeps_completed(v, samples);
    lemma_step_keeps_valid(v, samples);
    lemma_completed_ignores_densities_after_sampling(next, rest.skip(wanted), samples);
    if v.state != BuildState::Iso {
        lemma_completed_ignores_densities_after_sampling(v, rest, samples);
    }
}

/// Once sampling is over, the end of the build does not depend on densities
/// handed in.
pub proof fn lemma_completed_ignores_densities_after_sampling(
    v: ChunkView,
    a: Seq<i32>,
    b: Seq<i32>,
)
    requires
        v.state != BuildState::Iso,
    ensures
        v.completed(a) == v.completed(b),
{
}

/// A build step leads from a valid chunk to a valid chunk.
pub proof fn lemma_step_keeps_valid(v: ChunkView, samples: Seq<i32>)
    requires
        v.valid(),
        v.state == BuildState::Iso ==> samples.len() == v.samples_wanted(),
    ensures
        v.step(samples).valid(),
        v.step(samples).pos == v.pos,
        v.step(samples).samples_missing() == 0,
        v.step(samples).state != BuildState::Iso,
{
    match v.state {
        BuildState::Done => {},
        BuildState::Iso => {
            assert(v.isos + samples == v.source + samples);
        },
        BuildState::Mesh => {
            lemma_add_cells_indexed(v.mesh, v.pos, v.isos, v.x * 144, v.mesh_stop() * 144);
            lemma_add_cells_split(
                Mesh::empty(),
                v.pos,
                v.isos,
                0,
                v.x * 144,
                v.mesh_stop() * 144,
            );
        },
    }
}

/// A build run to its end is finished, valid, and still the chunk of its
/// coordinate.
pub proof fn lemma_completed_is_done(v: ChunkView, rest: Seq<i32>)
    requires
        v.valid(),
        rest.len() == v.samples_missing(),
    ensures
        v.completed(rest).state == BuildState::Done,
        v.completed(rest).valid(),
        v.completed(rest).pos == v.pos,
{
    match v.state {
        BuildState::Done => {},
        BuildState::Iso => {
            lemma_add_cells_indexed(Mesh::empty(), v.pos, v.isos + rest, 0, 1728);
        },
        BuildState::Mesh => {
            lemma_add_cells_indexed(v.mesh, v.pos, v.isos, v.x * 144, 1728);
            lemma_add_cells_split(Mesh::empty(), v.pos, v.isos, 0, v.x * 144, 1728);
        },
    }
}

/// A chunk whose densities all lie above the surface level is finished by
/// the step that completes its lattice, with no geometry, and is never in the
/// meshing phase.
pub proof fn lemma_blank_chunk_skips_meshing(pos: (i32, i32, i32), lattice: Seq<i32>, n: nat)
    requires
        lattice.len() == 2197,
        is_blank(lattice),
    ensures
        ChunkView::fresh(pos).step(lattice) == ChunkView::done(pos, lattice, Mesh::empty()),
        ChunkView::fresh(pos).run(lattice, n).state != BuildState::Mesh,
        n >= 1 ==> ChunkView::fresh(pos).run(lattice, n) == ChunkView::done(
            pos,
            lattice,
            Mesh::empty(),
        ),
        Mesh::empty().verts.len() == 0,
        Mesh::empty().inds.len() == 0,
        Mesh::empty().tris.len() == 0,
{
    let fresh = ChunkView::fresh(pos);
    assert(fresh.isos + lattice =~= lattice);
    if n >= 1 {
        assert(lattice.take(2197) =~= lattice);
        lemma_done_stays(
            ChunkView::done(pos, lattice, Mesh::empty()),
            lattice.skip(2197),
            (n - 1) as nat,
        );
    }
}

/// A finished chunk stays as it is, whatever steps follow.
pub proof fn lemma_done_stays(v: ChunkView, rest: Seq<i32>, n: nat)
    requires
        v.state == BuildState::Done,
    ensures
        v.run(rest, n) == v,
    decreases n,
{
    if n > 0 {
        lemma_done_stays(v, rest.skip(0), (n - 1) as nat);
    }
}

/// Two builds of one chunk coordinate over the same densities end with the
/// same vertices, indices and triangles, however each was cut into steps.
pub proof fn lemma_build_is_deterministic(
    pos: (i32, i32, i32),
    lattice: Seq<i32>,
    n: nat,
    m: nat,
)
    requires
        lattice.len() == 2197,
        n >= 4,
        m >= 4,
    ensures
        ChunkView::fresh(pos).run(lattice, n) == ChunkView::fresh(pos).run(lattice, m),
        ChunkView::fresh(pos).run(lattice, n) == ChunkView::built(pos, lattice),
{
    assert(ChunkView::fresh(pos).isos + lattice =~= lattice);
    lemma_stepped_build_is_single_pass(ChunkView::fresh(pos), lattice, n);
    lemma_stepped_build_is_single_pass(ChunkView::fresh(pos), lattice, m);
}

/// Every finished chunk, however it was built, holds the single-pass mesh
/// of the densities it took in, or nothing if they were blank; its vertices
/// lie where the surface cuts their lattice edges, and its indices draw
/// exactly the triangles that its cells list.
pub proof fn lemma_finished_chunk_is_coherent(v: ChunkView)
    requires
        v.valid(),
        v.state == BuildState::Done,
    ensures
        v == ChunkView::built(v.pos, v.source),
        v.mesh.coherent(v.pos, v.source),
        v.not_blank() ==> !is_blank(v.source) && v.mesh == Mesh::of_lattice(v.pos, v.source),
{
    if is_blank(v.source) {
        assert(Mesh::empty().tris.flatten() =~= Mesh::empty().drawn());
    } else {
        crate::mesh_laws::lemma_mesh_is_coherent(v.pos, v.source);
    }
}

} // verus!
