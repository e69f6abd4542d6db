use vstd::prelude::*;
use crate::chunk::{ChunkView, is_blank};
use crate::mesh::Mesh;
use crate::nearby::{
    Scan, around, center_dist_sq, chunk_center, layers_end, layers_first, lemma_pick_cube,
    pick_around, with_prio,
};
use crate::util::CHUNK_UNITS;
use crate::queue::{coords, lemma_same_entries};
use crate::world::{
    Tick, WorldView, in_band, too_far, MAX_GENERATION_DIST_SQ, MAX_VIEW_DIST_SQ,
};

verus! {

impl WorldView {
    /// The eviction checks of successive ticks within one round, the
    /// observer's chunk being `subs[t]` at tick `t`.
    pub open spec fn evict_run(self, subs: Seq<(i32, i32, i32)>) -> WorldView
        decreases subs.len(),
    {
        if subs.len() == 0 {
            self
        } else {
            self.evict_run(subs.drop_last()).evict_one(subs.last())
        }
    }
}

/// The coordinate that tick `t` of a round checks: the round is used up from
/// its end.
pub open spec fn checked_at(w: WorldView, t: int) -> (i32, i32, i32) {
    w.keys_left[w.keys_left.len() - 1 - t]
}

/// Within a round of eviction checks, tick `t` looks at one coordinate of
/// the round. After the tick the chunk there is gone if it lay too far from
/// the observer's chunk at that tick, and no later tick of the round brings
/// it back. Chunks are dropped for no other reason.
pub proof fn lemma_eviction_bound(w: WorldView, subs: Seq<(i32, i32, i32)>)
    requires
        subs.len() <= w.keys_left.len(),
    ensures
        w.evict_run(subs).keys_left == w.keys_left.take(w.keys_left.len() - subs.len()),
        forall|t: int|
            0 <= t < subs.len() && too_far(checked_at(w, t), #[trigger] subs[t])
                ==> !w.evict_run(subs).chunks.contains_key(checked_at(w, t)),
        forall|pos: (i32, i32, i32)| #[trigger]
            w.evict_run(subs).chunks.contains_key(pos) ==> w.chunks.contains_key(pos)
                && w.evict_run(subs).chunks[pos] == w.chunks[pos],
        forall|pos: (i32, i32, i32)|
            w.chunks.contains_key(pos) && !(#[trigger] w.evict_run(subs).chunks.contains_key(pos))
                ==> exists|t: int|
                0 <= t < subs.len() && pos == checked_at(w, t) && too_far(pos, #[trigger] subs[t]),
    decreases subs.len(),
{
    let n = w.keys_left.len() as int;
    if subs.len() == 0 {
        assert(w.keys_left.take(n) =~= w.keys_left);
    } else {
        let front = subs.drop_last();
        let last = subs.len() - 1;
        lemma_eviction_bound(w, front);
        let mid = w.evict_run(front);
        let post = w.evict_run(subs);
        assert(post == mid.evict_one(subs.last()));
        assert(mid.keys_left.last() == checked_at(w, last));
        assert(mid.keys_left.drop_last() =~= w.keys_left.take(n - subs.len()));
        assert forall|t: int|
            0 <= t < subs.len() && too_far(checked_at(w, t), #[trigger] subs[t]) implies !post.chunks.contains_key(
            checked_at(w, t),
        ) by {
            if t < last {
                assert(front[t] == subs[t]);
                assert(!mid.chunks.contains_key(checked_at(w, t)));
            }
        }
        assert forall|pos: (i32, i32, i32)|
            w.chunks.contains_key(pos) && !(#[trigger] post.chunks.contains_key(
                pos,
            )) implies exists|t: int|
            0 <= t < subs.len() && pos == checked_at(w, t) && too_far(pos, #[trigger] subs[t]) by {
            if mid.chunks.contains_key(pos) {
                assert(pos == checked_at(w, last) && too_far(pos, subs[last]));
            } else {
                let t = choose|t: int|
                    0 <= t < front.len() && pos == checked_at(w, t) && too_far(
                        pos,
                        #[trigger] front[t],
                    );
                assert(front[t] == subs[t]);
            }
        }
    }
}

/// A round of eviction checks that starts with every resident coordinate and
/// runs to its end while the observer stays in one chunk leaves no chunk
/// that lies too far from that chunk, and keeps every other one.
pub proof fn lemma_round_clears_far_chunks(w: WorldView, sub_chunk: (i32, i32, i32))
    requires
        w.keys_left.to_set() == w.chunks.dom(),
    ensures
        ({
            let post = w.evict_run(Seq::new(w.keys_left.len(), |t: int| sub_chunk));
            &&& post.keys_left.len() == 0
            &&& forall|pos: (i32, i32, i32)| #[trigger]
                post.chunks.contains_key(pos) <==> w.chunks.contains_key(pos) && !too_far(
                    pos,
                    sub_chunk,
                )
        }),
{
    let n = w.keys_left.len() as int;
    let subs = Seq::new(w.keys_left.len(), |t: int| sub_chunk);
    let post = w.evict_run(subs);
    lemma_eviction_bound(w, subs);
    assert forall|pos: (i32, i32, i32)| #[trigger]
        post.chunks.contains_key(pos) <==> w.chunks.contains_key(pos) && !too_far(
            pos,
            sub_chunk,
        ) by {
        if post.chunks.contains_key(pos) {
            assert(w.chunks.dom().contains(pos));
            assert(w.keys_left.to_set().contains(pos));
            let i = w.keys_left.index_of(pos);
            let t = n - 1 - i;
            assert(checked_at(w, t) == pos);
            assert(subs[t] == sub_chunk);
        }
        if w.chunks.contains_key(pos) && !too_far(pos, sub_chunk) {
            if !post.chunks.contains_key(pos) {
                let t = choose|t: int|
                    0 <= t < subs.len() && pos == checked_at(w, t) && too_far(
                        pos,
                        #[trigger] subs[t],
                    );
                assert(subs[t] == sub_chunk);
            }
        }
    }
}

/// Every tick within a round of eviction checks takes the last coordinate
/// off the round. If the chunk there lay too far from the observer's chunk,
/// it is not resident after the tick and the tick reports it as dropped;
/// otherwise it stays. Whatever else the tick does, it brings no chunk back
/// that it has dropped.
pub proof fn lemma_tick_checks_one_chunk(
    pre: WorldView,
    post: WorldView,
    scan: Scan,
    sub_reset: bool,
    tick: Tick,
)
    requires
        pre.valid(),
        pre.ticked(post, scan, sub_reset, tick),
        pre.keys_left.len() > 0,
    ensures
        post.keys_left == pre.keys_left.drop_last(),
        too_far(pre.keys_left.last(), scan.sub.chunk_spec()) ==> !post.chunks.contains_key(
            pre.keys_left.last(),
        ),
        pre.chunks.contains_key(pre.keys_left.last()) ==> (tick.dropped == Some(
            pre.keys_left.last(),
        ) <==> too_far(pre.keys_left.last(), scan.sub.chunk_spec())),
        pre.chunks.contains_key(pre.keys_left.last()) && !too_far(
            pre.keys_left.last(),
            scan.sub.chunk_spec(),
        ) ==> post.chunks.contains_key(pre.keys_left.last()),
{
    let c = scan.sub.chunk_spec();
    let pos = pre.keys_left.last();
    let (a, b) = choose|a: WorldView, b: WorldView| #[trigger]
        pre.ticked_by_way_of(post, scan, sub_reset, tick, a, b);
    assert(a == pre.evict_one(c));
    assert(b.chunks == a.chunks);
    assert(b.generating == a.generating);
    assert(b.keys_left == a.keys_left);
    assert(a.generating == pre.generating);
    if pre.chunks.contains_key(pos) {
        assert(!pre.building(pos));
    }
}

/// A coordinate is in one place at most: resident, queued or being built.
/// And every resident chunk is finished, stored under its own coordinate,
/// and the chunk of the densities it took in: its mesh is their single-pass
/// mesh, its indices draw the triangles of its cells.
pub proof fn lemma_world_holds_finished_chunks(w: WorldView, pos: (i32, i32, i32))
    requires
        w.valid(),
    ensures
        !(w.chunks.contains_key(pos) && w.queued(pos)),
        !(w.chunks.contains_key(pos) && w.building(pos)),
        !(w.queued(pos) && w.building(pos)),
        w.chunks.contains_key(pos) ==> {
            let chunk = w.chunks[pos];
            &&& chunk == ChunkView::built(pos, chunk.source)
            &&& chunk.mesh.coherent(pos, chunk.source)
            &&& chunk.not_blank() ==> !is_blank(chunk.source) && chunk.mesh == Mesh::of_lattice(
                pos,
                chunk.source,
            )
        },
{
    if w.chunks.contains_key(pos) {
        crate::chunk_laws::lemma_finished_chunk_is_coherent(w.chunks[pos]);
    }
}

/// A number that is at least five and a half chunk edges in magnitude has a
/// square beyond the square of the generation distance.
proof fn lemma_far_along_an_axis(d: int)
    requires
        d >= 4325376 || d <= -4325376,
    ensures
        d * d > MAX_GENERATION_DIST_SQ,
{
    assert(d * d >= 4325376 * 4325376) by (nonlinear_arith)
        requires
            d >= 4325376 || d <= -4325376,
    ;
}

/// The look at the neighbourhood misses no chunk that is near enough: a
/// coordinate in the layers that are ever generated whose centre lies within
/// the generation distance of the observer is among those looked at.
pub proof fn lemma_near_chunks_are_looked_at(scan: Scan, pos: (i32, i32, i32))
    requires
        scan.sub.valid(),
        in_band(pos),
        center_dist_sq(scan, pos) <= MAX_GENERATION_DIST_SQ,
    ensures
        around(pos, scan.sub.chunk_spec()),
{
    let c = scan.sub.chunk_spec();
    let p = scan.sub.pos;
    let centre = chunk_center(pos);
    let dx = p.x - centre.x;
    let dy = p.y - centre.y;
    let dz = p.z - centre.z;
    assert(c.0 * CHUNK_UNITS <= p.x < (c.0 + 1) * CHUNK_UNITS);
    assert(c.1 * CHUNK_UNITS <= p.y < (c.1 + 1) * CHUNK_UNITS);
    assert(c.2 * CHUNK_UNITS <= p.z < (c.2 + 1) * CHUNK_UNITS);
    assert(dx * dx >= 0 && dy * dy >= 0 && dz * dz >= 0) by (nonlinear_arith);
    if pos.0 >= c.0 + 6 || pos.0 <= c.0 - 6 {
        lemma_far_along_an_axis(dx);
    }
    if pos.1 >= c.1 + 6 || pos.1 <= c.1 - 6 {
        lemma_far_along_an_axis(dy);
    }
    if pos.2 >= c.2 + 6 || pos.2 <= c.2 - 6 {
        lemma_far_along_an_axis(dz);
    }
}

/// What a look at the neighbourhood leaves in the two lists, coordinate by
/// coordinate. The queue is complete: a coordinate is queued exactly if it
/// lies in the layers that are ever generated, its centre lies within the
/// generation distance of the observer, and its chunk is neither resident
/// nor being built, whatever frustum it is in. A coordinate is listed for
/// drawing exactly if its chunk is resident with geometry, nearer than the
/// view distance and in view.
pub proof fn lemma_look_lists_by_rule(
    pre: WorldView,
    post: WorldView,
    scan: Scan,
    pos: (i32, i32, i32),
)
    requires
        pre.valid(),
        scan.valid(),
        pre.looked_around(post, scan),
    ensures
        post.queued(pos) <==> in_band(pos) && pre.wants(scan, pos),
        post.to_render.contains(pos) <==> pre.renders(scan, pos),
{
    let c = scan.sub.chunk_spec();
    let wanted = pick_around(pre.want_rule(scan), c);
    let unsorted = with_prio(wanted, scan);
    lemma_pick_cube(
        pre.want_rule(scan),
        c.0 - 5,
        c.0 + 6,
        c.1 - 5,
        c.1 + 6,
        layers_first(c.2 as int),
        layers_end(c.2 as int),
    );
    lemma_pick_cube(
        pre.render_rule(scan),
        c.0 - 5,
        c.0 + 6,
        c.1 - 5,
        c.1 + 6,
        layers_first(c.2 as int),
        layers_end(c.2 as int),
    );
    if in_band(pos) && pre.wants(scan, pos) {
        lemma_near_chunks_are_looked_at(scan, pos);
    }
    if pre.renders(scan, pos) {
        assert(in_band(pos));
        assert(MAX_VIEW_DIST_SQ <= MAX_GENERATION_DIST_SQ);
        lemma_near_chunks_are_looked_at(scan, pos);
    }
    lemma_same_entries(post.to_generate, unsorted);
    if post.queued(pos) {
        let i = coords(post.to_generate).index_of(pos);
        let entry = post.to_generate[i];
        assert(post.to_generate.contains(entry));
        assert(unsorted.contains(entry));
        let j = unsorted.index_of(entry);
        assert(wanted[j] == pos);
        assert(wanted.contains(pos));
    }
    if wanted.contains(pos) {
        let j = wanted.index_of(pos);
        let entry = unsorted[j];
        assert(unsorted.contains(entry));
        assert(post.to_generate.contains(entry));
        let i = post.to_generate.index_of(entry);
        assert(coords(post.to_generate)[i] == pos);
    }
}

/// The chunk that is taken off the queue is the most urgent one: no entry
/// that stays behind is in a better class than it, and none of its own class
/// has a smaller sort key.
pub proof fn lemma_pop_takes_the_most_urgent(w: WorldView, i: int)
    requires
        w.valid(),
        0 <= i < w.to_generate.len() - 1,
    ensures
        w.popped().to_generate == w.to_generate.drop_last(),
        w.popped().generating == Some(ChunkView::fresh(w.to_generate.last().0)),
        w.to_generate.last().1.class() <= w.to_generate[i].1.class(),
        w.to_generate.last().1.in_view == w.to_generate[i].1.in_view && w.to_generate.last().1.in_gen
            == w.to_generate[i].1.in_gen ==> w.to_generate.last().1.sort_key()
            <= w.to_generate[i].1.sort_key(),
{
    let last = w.to_generate.len() - 1;
    assert(!w.to_generate[i].1.before(w.to_generate[last].1));
}

/// A tick that looks at the neighbourhood leaves the queue full: every
/// coordinate in the layers that are ever generated whose centre lies within
/// the generation distance of the observer is queued after the tick, unless
/// its chunk is resident or being built; and nothing else is queued.
pub proof fn lemma_tick_refills_the_queue(
    pre: WorldView,
    post: WorldView,
    scan: Scan,
    sub_reset: bool,
    tick: Tick,
    pos: (i32, i32, i32),
)
    requires
        scan.valid(),
        pre.ticked(post, scan, sub_reset, tick),
        post.valid(),
        tick.recomputed,
    ensures
        post.queued(pos) <==> in_band(pos) && center_dist_sq(scan, pos) <= MAX_GENERATION_DIST_SQ
            && !post.chunks.contains_key(pos) && !post.building(pos),
{
    let c = scan.sub.chunk_spec();
    let (a, b) = choose|a: WorldView, b: WorldView| #[trigger]
        pre.ticked_by_way_of(post, scan, sub_reset, tick, a, b);
    let looked = WorldView { last_sub: a.last_sub, ..b };
    lemma_look_lists_by_rule(a, looked, scan, pos);
    assert(b.queued(pos) == looked.queued(pos));
    assert(b.chunks == a.chunks && b.generating == a.generating);
    if b.queued(pos) && !post.queued(pos) {
        let i = coords(b.to_generate).index_of(pos);
        assert(b.to_generate[i].0 == pos);
        if i < b.to_generate.len() - 1 {
            assert(coords(post.to_generate)[i] == pos);
        }
    }
    if post.queued(pos) {
        let i = coords(post.to_generate).index_of(pos);
        assert(post.to_generate[i].0 == pos);
        assert(coords(b.to_generate)[i] == pos);
        if post.chunks.contains_key(pos) {
            assert(!post.queued(pos));
        }
    }
}

/// Whether no resident chunk lies too far from the observer's chunk.
pub open spec fn clean(w: WorldView, sub_chunk: (i32, i32, i32)) -> bool {
    forall|pos: (i32, i32, i32)| #[trigger] w.chunks.contains_key(pos) ==> !too_far(pos, sub_chunk)
}

/// Whether every resident chunk that lies too far from the observer's chunk
/// is still to be checked in the current round.
pub open spec fn pending(w: WorldView, sub_chunk: (i32, i32, i32)) -> bool {
    forall|pos: (i32, i32, i32)|
        #[trigger] w.chunks.contains_key(pos) && too_far(pos, sub_chunk) ==> w.keys_left.contains(
            pos,
        )
}

/// Whether each world of the trace follows from the one before it by the
/// eviction work of one tick, with the observer in one chunk throughout.
pub open spec fn eviction_ticks(trace: Seq<WorldView>, sub_chunk: (i32, i32, i32)) -> bool {
    forall|t: int|
        0 <= t < trace.len() - 1 ==> (#[trigger] trace[t]).evicted(trace[t + 1], sub_chunk)
}

/// How far eviction has come after `t` ticks: no chunk has been added, and
/// either the round that was under way is still being used up, or a round
/// that began with every resident chunk is under way and ends in time, or
/// nothing is left to drop.
pub open spec fn on_schedule(trace: Seq<WorldView>, sub_chunk: (i32, i32, i32), t: int) -> bool {
    let left = trace[0].keys_left.len();
    let resident = trace[0].chunks.dom().len();
    &&& trace[t].chunks.dom().subset_of(trace[0].chunks.dom())
    &&& {
        ||| t <= left && trace[t].keys_left.len() == left - t
        ||| pending(trace[t], sub_chunk) && trace[t].keys_left.len() + t <= left + 1 + resident
        ||| clean(trace[t], sub_chunk)
    }
}

/// Eviction keeps to its schedule, tick by tick.
proof fn lemma_eviction_keeps_schedule(
    trace: Seq<WorldView>,
    sub_chunk: (i32, i32, i32),
    t: int,
)
    requires
        0 <= t < trace.len(),
        eviction_ticks(trace, sub_chunk),
        trace[0].chunks.dom().finite(),
    ensures
        on_schedule(trace, sub_chunk, t),
    decreases t,
{
    if t > 0 {
        lemma_eviction_keeps_schedule(trace, sub_chunk, t - 1);
        let pre = trace[t - 1];
        let post = trace[t];
        assert(pre.evicted(post, sub_chunk));
        let left = trace[0].keys_left.len();
        let resident = trace[0].chunks.dom().len();
        if pre.keys_left.len() > 0 {
            let last = pre.keys_left.last();
            if pending(pre, sub_chunk) {
                assert forall|pos: (i32, i32, i32)|
                    #[trigger] post.chunks.contains_key(pos) && too_far(
                        pos,
                        sub_chunk,
                    ) implies post.keys_left.contains(pos) by {
                    assert(pre.chunks.contains_key(pos));
                    let i = pre.keys_left.index_of(pos);
                    assert(i < pre.keys_left.len() - 1);
                    assert(post.keys_left[i] == pos);
                }
            }
        } else {
            assert(post.chunks == pre.chunks);
            if clean(pre, sub_chunk) || pending(pre, sub_chunk) {
                assert(clean(pre, sub_chunk));
                assert(clean(post, sub_chunk));
            } else {
                post.keys_left.unique_seq_to_set();
                vstd::set_lib::lemma_len_subset(pre.chunks.dom(), trace[0].chunks.dom());
                assert(pending(post, sub_chunk)) by {
                    assert forall|pos: (i32, i32, i32)|
                        #[trigger] post.chunks.contains_key(pos) && too_far(
                            pos,
                            sub_chunk,
                        ) implies post.keys_left.contains(pos) by {
                        assert(post.keys_left.to_set().contains(pos));
                    }
                }
            }
        }
    }
}

/// While the observer stays in one chunk, eviction is done after as many
/// ticks as the round under way has coordinates left, one more tick to begin
/// a new round, and one tick for every resident chunk: from then on no
/// resident chunk lies farther from the observer's chunk than chunks are
/// kept. With a round just used up and at most 215 chunks resident, that is
/// within 216 ticks. Ticks that also generate chunks can only add chunks to
/// be checked in the round after.
pub proof fn lemma_eviction_is_done_in_time(trace: Seq<WorldView>, sub_chunk: (i32, i32, i32))
    requires
        trace.len() > 0,
        eviction_ticks(trace, sub_chunk),
        trace[0].chunks.dom().finite(),
        trace.len() - 1 >= trace[0].keys_left.len() + 1 + trace[0].chunks.dom().len(),
    ensures
        clean(trace.last(), sub_chunk),
        forall|pos: (i32, i32, i32)| #[trigger]
            trace.last().chunks.contains_key(pos) ==> trace[0].chunks.contains_key(pos),
{
    lemma_eviction_keeps_schedule(trace, sub_chunk, trace.len() - 1);
    let end = trace.last();
    assert forall|pos: (i32, i32, i32)| #[trigger] end.chunks.contains_key(pos) implies trace[0].chunks.contains_key(
        pos,
    ) by {
        assert(end.chunks.dom().contains(pos));
    }
}

} // verus!
