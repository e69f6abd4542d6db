use vstd::prelude::*;
use std::collections::HashMap;
use vstd::std_specs::iter::IteratorSpec;
use crate::chunk::{BuildError, BuildState, Chunk, ChunkView};
use crate::gen_prio::{GenPrio, sorted_for_pop};
use crate::queue::{all_valid, coords, lemma_same_entries, sort_for_pop};
use crate::sub::{Sub, SUB_CHUNK_LIMIT};
use crate::nearby::{
    Scan, center_dist_sq, corners_in_view, dist_sq_to_center, frustum_flags, layers_end,
    layers_first, lemma_pick_cube, lemma_with_prio_concat, pick_around, pick_column, pick_cube,
    pick_one, pick_slab, scannable, with_prio,
};
use crate::util::{Point, Tri, dist_sq_spec, dist_sq_wide, CHUNK_UNITS};

verus! {

broadcast use vstd::std_specs::hash::group_hash_axioms;

/// Chunks nearer than this many chunk edges may be drawn.
pub const VIEW_DIST: i32 = 4;

/// Chunks are generated out to this many chunk edges from the observer.
pub const GENERATION_DIST: i32 = 5;

/// Resident chunks farther than this many chunks from the observer's chunk
/// are dropped.
pub const KEEP_DIST: i32 = 6;

/// The highest layer of chunks that is ever generated.
pub const MAX_Z: i32 = 2;

/// The lowest layer of chunks that is ever generated.
pub const MIN_Z: i32 = -2;

/// The number of resident chunks at which building whole chunks per tick
/// gives way to building in steps.
pub const STOP_FULL_BUILD: usize = 125;

/// The square of the view distance in position units.
pub const MAX_VIEW_DIST_SQ: i128 = 9_895_604_649_984;

/// The square of the generation distance in position units.
pub const MAX_GENERATION_DIST_SQ: i128 = 15_461_882_265_600;

/// The key under which the chunk at a coordinate is stored: the three
/// coordinates, each shifted to be non-negative, side by side.
#[verifier::opaque]
pub open spec fn key_of(c: (i32, i32, i32)) -> u128 {
    ((c.0 + 0x8000_0000) * 0x1_0000_0000_0000_0000 + (c.1 + 0x8000_0000) * 0x1_0000_0000 + (c.2
        + 0x8000_0000)) as u128
}

/// The coordinate stored under a key.
#[verifier::opaque]
pub open spec fn coord_of(k: u128) -> (i32, i32, i32) {
    (
        ((k / 0x1_0000_0000_0000_0000) as int - 0x8000_0000) as i32,
        (((k / 0x1_0000_0000) % 0x1_0000_0000) as int - 0x8000_0000) as i32,
        ((k % 0x1_0000_0000) as int - 0x8000_0000) as i32,
    )
}

/// Keys and coordinates correspond one to one.
pub proof fn lemma_key_of_coord(c: (i32, i32, i32))
    ensures
        coord_of(key_of(c)) == c,
        key_of(c) < 0x1_0000_0000_0000_0000_0000_0000,
{
    reveal(key_of);
    reveal(coord_of);
}

/// Distinct coordinates have distinct keys.
pub proof fn lemma_key_injective(a: (i32, i32, i32), b: (i32, i32, i32))
    requires
        key_of(a) == key_of(b),
    ensures
        a == b,
{
    lemma_key_of_coord(a);
    lemma_key_of_coord(b);
}

/// Computes the key of a coordinate.
fn pack(c: (i32, i32, i32)) -> (k: u128)
    ensures
        k == key_of(c),
{
    proof {
        reveal(key_of);
    }
    let x: u128 = (c.0 as i64 + 0x8000_0000) as u128;
    let y: u128 = (c.1 as i64 + 0x8000_0000) as u128;
    let z: u128 = (c.2 as i64 + 0x8000_0000) as u128;
    x * 0x1_0000_0000_0000_0000 + y * 0x1_0000_0000 + z
}

/// Computes the coordinate of a key.
fn unpack(k: u128) -> (c: (i32, i32, i32))
    requires
        k < 0x1_0000_0000_0000_0000_0000_0000,
    ensures
        c == coord_of(k),
{
    proof {
        reveal(coord_of);
    }
    let x: i64 = (k / 0x1_0000_0000_0000_0000) as i64 - 0x8000_0000;
    let y: i64 = ((k / 0x1_0000_0000) % 0x1_0000_0000) as i64 - 0x8000_0000;
    let z: i64 = (k % 0x1_0000_0000) as i64 - 0x8000_0000;
    (x as i32, y as i32, z as i32)
}

/// A chunk whose build is under way.
pub struct GeneratingChunk {
    pub chunk_pos: (i32, i32, i32),
    pub chunk: Chunk,
}

/// The round of eviction checks: the resident coordinates that the current
/// round has not looked at yet.
pub struct RemoveState {
    pub keys_left: Vec<(i32, i32, i32)>,
}

impl RemoveState {
    /// A round that is used up, so that the next check starts a new one.
    pub fn new() -> (state: Self)
        ensures
            state.keys_left@.len() == 0,
    {
        Self { keys_left: Vec::new() }
    }
}

/// The streaming manager as contracts see it.
pub struct WorldView {
    /// The resident chunks by coordinate.
    pub chunks: Map<(i32, i32, i32), ChunkView>,
    /// The coordinates to draw.
    pub to_render: Seq<(i32, i32, i32)>,
    /// The coordinates waiting to be generated, the most urgent last.
    pub to_generate: Seq<((i32, i32, i32), GenPrio)>,
    /// The chunk that is being built, if any.
    pub generating: Option<ChunkView>,
    /// What is left of the current round of eviction checks.
    pub keys_left: Seq<(i32, i32, i32)>,
    /// Whether each tick builds a whole chunk.
    pub full_build: bool,
    /// The observer when the neighbourhood was last looked at.
    pub last_sub: Option<Sub>,
}

/// A position in the world as seen from the origin of a chunk.
pub open spec fn local_pos(pos: Point, chunk_pos: (i32, i32, i32)) -> Point {
    Point {
        x: (pos.x - chunk_pos.0 * CHUNK_UNITS) as i64,
        y: (pos.y - chunk_pos.1 * CHUNK_UNITS) as i64,
        z: (pos.z - chunk_pos.2 * CHUNK_UNITS) as i64,
    }
}

/// Whether a coordinate lies in one of the layers of chunks that are ever
/// generated.
pub open spec fn in_band(pos: (i32, i32, i32)) -> bool {
    MIN_Z <= pos.2 <= MAX_Z
}

impl WorldView {
    /// The triangles of the chunk at `chunk_pos` within `range` cells of a
    /// position in the world; none if no chunk is resident there.
    pub open spec fn tris_near(self, chunk_pos: (i32, i32, i32), pos: Point, range: int) -> Seq<
        Tri,
    > {
        if self.chunks.contains_key(chunk_pos) {
            crate::query::tris_near(
                self.chunks[chunk_pos].mesh.tris,
                local_pos(pos, chunk_pos),
                range,
            )
        } else {
            Seq::empty()
        }
    }

    /// The world before its first tick.
    pub open spec fn empty() -> WorldView {
        WorldView {
            chunks: Map::empty(),
            to_render: Seq::empty(),
            to_generate: Seq::empty(),
            generating: None,
            keys_left: Seq::empty(),
            full_build: true,
            last_sub: None,
        }
    }

    /// Whether a coordinate waits in the generation queue.
    pub open spec fn queued(self, pos: (i32, i32, i32)) -> bool {
        coords(self.to_generate).contains(pos)
    }

    /// Whether the chunk at a coordinate is the one being built.
    pub open spec fn building(self, pos: (i32, i32, i32)) -> bool {
        self.generating matches Some(g) && g.pos == pos
    }

    /// What holds of the world between any two operations.
    ///
    /// Resident chunks are finished and stored under their own coordinate;
    /// the chunk being built is not finished; a coordinate is resident,
    /// queued or being built, never two of these, and only in the layers
    /// that are ever generated; the queue is sorted for
    /// popping and names no coordinate twice; every coordinate to draw is
    /// resident with geometry and listed once; the round of eviction checks
    /// names resident coordinates, each once; while whole chunks are built
    /// per tick, a chunk being built is still waiting for its densities.
    pub open spec fn valid(self) -> bool {
        &&& forall|pos: (i32, i32, i32)| #[trigger]
            self.chunks.contains_key(pos) ==> {
                &&& self.chunks[pos].valid()
                &&& self.chunks[pos].state == BuildState::Done
                &&& self.chunks[pos].pos == pos
                &&& in_band(pos)
                &&& !self.queued(pos)
                &&& !self.building(pos)
            }
        &&& self.generating matches Some(g) ==> {
            &&& g.valid()
            &&& g.state != BuildState::Done
            &&& in_band(g.pos)
            &&& !self.queued(g.pos)
            &&& self.full_build ==> g.state == BuildState::Iso
        }
        &&& all_valid(self.to_generate)
        &&& forall|i: int|
            0 <= i < self.to_generate.len() ==> in_band((#[trigger] self.to_generate[i]).0)
        &&& sorted_for_pop(self.to_generate)
        &&& coords(self.to_generate).no_duplicates()
        &&& self.to_render.no_duplicates()
        &&& forall|i: int|
            0 <= i < self.to_render.len() ==> {
                &&& self.chunks.contains_key(#[trigger] self.to_render[i])
                &&& self.chunks[self.to_render[i]].not_blank()
            }
        &&& self.keys_left.no_duplicates()
        &&& forall|i: int|
            0 <= i < self.keys_left.len() ==> self.chunks.contains_key(
                #[trigger] self.keys_left[i],
            )
    }
}

/// A list of coordinates without one of them.
pub open spec fn without(list: Seq<(i32, i32, i32)>, pos: (i32, i32, i32)) -> Seq<
    (i32, i32, i32),
> {
    if list.contains(pos) {
        list.remove(list.index_of(pos))
    } else {
        list
    }
}

/// Whether a chunk lies farther from the observer's chunk than chunks are
/// kept.
pub open spec fn too_far(pos: (i32, i32, i32), sub_chunk: (i32, i32, i32)) -> bool {
    dist_sq_spec(pos, sub_chunk) > KEEP_DIST * KEEP_DIST
}

impl WorldView {
    /// One eviction check: the last coordinate of the round is taken off,
    /// and if its chunk lies too far from the observer's chunk, the chunk is
    /// dropped and no longer drawn.
    pub open spec fn evict_one(self, sub_chunk: (i32, i32, i32)) -> WorldView {
        let pos = self.keys_left.last();
        if too_far(pos, sub_chunk) {
            WorldView {
                chunks: self.chunks.remove(pos),
                to_render: without(self.to_render, pos),
                keys_left: self.keys_left.drop_last(),
                ..self
            }
        } else {
            WorldView { keys_left: self.keys_left.drop_last(), ..self }
        }
    }

    /// A new round of eviction checks begins in `post`: it lists every
    /// resident coordinate once, and nothing else has changed.
    pub open spec fn refreshed(self, post: WorldView) -> bool {
        &&& post == (WorldView { keys_left: post.keys_left, ..self })
        &&& post.keys_left.no_duplicates()
        &&& post.keys_left.to_set() == self.chunks.dom()
    }

    /// The eviction work of one tick leads from `self` to `post`: one check
    /// while the round lasts, a new round once it is used up.
    pub open spec fn evicted(self, post: WorldView, sub_chunk: (i32, i32, i32)) -> bool {
        if self.keys_left.len() > 0 {
            post == self.evict_one(sub_chunk)
        } else {
            self.refreshed(post)
        }
    }

    /// The coordinate that the next eviction check drops, if it drops one.
    pub open spec fn evictee(self, sub_chunk: (i32, i32, i32)) -> Option<(i32, i32, i32)> {
        if self.keys_left.len() > 0 && too_far(self.keys_left.last(), sub_chunk)
            && self.chunks.contains_key(self.keys_left.last()) {
            Some(self.keys_left.last())
        } else {
            None
        }
    }
}

impl WorldView {
    /// Whether a look at the neighbourhood lists a coordinate for drawing:
    /// its chunk is resident with geometry, its centre lies nearer than the
    /// view distance, and a corner of it is in view.
    pub open spec fn renders(self, scan: Scan, pos: (i32, i32, i32)) -> bool {
        &&& self.chunks.contains_key(pos)
        &&& center_dist_sq(scan, pos) < MAX_VIEW_DIST_SQ
        &&& self.chunks[pos].not_blank()
        &&& corners_in_view(pos, scan, 8)
    }

    /// Whether a look at the neighbourhood queues a coordinate: its centre
    /// lies within the generation distance, and its chunk is neither
    /// resident nor being built.
    pub open spec fn wants(self, scan: Scan, pos: (i32, i32, i32)) -> bool {
        &&& center_dist_sq(scan, pos) <= MAX_GENERATION_DIST_SQ
        &&& !self.chunks.contains_key(pos)
        &&& !self.building(pos)
    }

    /// `renders` as a rule over coordinates.
    pub open spec fn render_rule(self, scan: Scan) -> spec_fn((i32, i32, i32)) -> bool {
        |pos: (i32, i32, i32)| self.renders(scan, pos)
    }

    /// `wants` as a rule over coordinates.
    pub open spec fn want_rule(self, scan: Scan) -> spec_fn((i32, i32, i32)) -> bool {
        |pos: (i32, i32, i32)| self.wants(scan, pos)
    }

    /// A look at the neighbourhood leads from `self` to `post`: the list to
    /// draw and the queue are made anew from the coordinates around the
    /// observer's chunk. The list to draw holds, in scanning order, those
    /// that `renders` keeps. The queue holds those that `wants` keeps, each
    /// with its priority, sorted for popping.
    pub open spec fn looked_around(self, post: WorldView, scan: Scan) -> bool {
        let c = scan.sub.chunk_spec();
        &&& post == (WorldView {
            to_render: pick_around(self.render_rule(scan), c),
            to_generate: post.to_generate,
            ..self
        })
        &&& sorted_for_pop(post.to_generate)
        &&& post.to_generate.to_multiset() == with_prio(
            pick_around(self.want_rule(scan), c),
            scan,
        ).to_multiset()
    }
}

/// Whether a chunk lies near enough to the observer's chunk to be drawn as
/// soon as it is finished.
pub open spec fn in_sight(pos: (i32, i32, i32), sub_chunk: (i32, i32, i32)) -> bool {
    dist_sq_spec(pos, sub_chunk) <= (VIEW_DIST + 1) * (VIEW_DIST + 1)
}

/// What one tick did.
#[derive(Clone, Copy, Debug)]
pub struct Tick {
    /// The neighbourhood was looked at again.
    pub recomputed: bool,
    /// The coordinate of the chunk that was dropped.
    pub dropped: Option<(i32, i32, i32)>,
    /// The coordinate of the chunk that was finished and became resident.
    pub finished: Option<(i32, i32, i32)>,
    /// The coordinate of the chunk whose build now waits for densities: they
    /// are to be handed to `supply` before the next tick.
    pub wanted: Option<(i32, i32, i32)>,
}

impl WorldView {
    /// The finished chunk becomes resident and, if it is to be shown and has
    /// geometry, is listed for drawing; no chunk is being built any more.
    pub open spec fn promote(self, done: ChunkView, show: bool) -> WorldView {
        WorldView {
            chunks: self.chunks.insert(done.pos, done),
            to_render: if show && done.not_blank() {
                self.to_render.push(done.pos)
            } else {
                self.to_render
            },
            generating: None,
            ..self
        }
    }

    /// The most urgent coordinate leaves the queue and a fresh chunk for it
    /// becomes the one being built.
    pub open spec fn popped(self) -> WorldView {
        WorldView {
            to_generate: self.to_generate.drop_last(),
            generating: Some(ChunkView::fresh(self.to_generate.last().0)),
            ..self
        }
    }

    /// One bounded step of generation: the chunk being built advances by one
    /// build step and becomes resident if that finishes it; with no chunk
    /// being built, the next one is taken off the queue.
    pub open spec fn stepped(self, samples: Seq<i32>, sub_chunk: (i32, i32, i32)) -> WorldView {
        match self.generating {
            Some(g) => {
                let next = g.step(samples);
                if next.state == BuildState::Done {
                    self.promote(next, in_sight(next.pos, sub_chunk))
                } else {
                    WorldView { generating: Some(next), ..self }
                }
            },
            None => {
                if self.to_generate.len() > 0 {
                    self.popped()
                } else {
                    self
                }
            },
        }
    }

    /// The chunk being built is built to its end at once and becomes
    /// resident; whole chunks go on being built per tick while the queue
    /// holds more and the resident chunks are fewer than the startup
    /// threshold.
    pub open spec fn built_whole(self, lattice: Seq<i32>) -> WorldView {
        let done = self.generating->0.completed(lattice);
        let w = self.promote(done, true);
        WorldView {
            full_build: !(w.to_generate.len() == 0 || w.chunks.dom().len() >= STOP_FULL_BUILD),
            ..w
        }
    }

    /// Whether the chunk being built waits for densities.
    pub open spec fn sampling(self) -> bool {
        self.generating matches Some(g) && g.state == BuildState::Iso
    }

    /// The generation work that a tick does by itself. A build that waits
    /// for densities is left alone. Otherwise, while whole chunks are built
    /// per tick, the next chunk is taken off the queue, and an empty queue
    /// ends that mode; in steady state one bounded step is made.
    pub open spec fn begun(self, sub_chunk: (i32, i32, i32)) -> WorldView {
        if self.sampling() {
            self
        } else if self.full_build {
            if self.to_generate.len() > 0 {
                self.popped()
            } else {
                WorldView { full_build: false, ..self }
            }
        } else {
            self.stepped(Seq::empty(), sub_chunk)
        }
    }

    /// The coordinate whose densities a tick asks for: that of a build which
    /// waits for them, or that of the chunk just taken off the queue while
    /// whole chunks are built per tick.
    pub open spec fn wanted(self) -> Option<(i32, i32, i32)> {
        match self.generating {
            Some(g) => if g.state == BuildState::Iso {
                Some(g.pos)
            } else {
                None
            },
            None => if self.full_build && self.to_generate.len() > 0 {
                Some(self.to_generate.last().0)
            } else {
                None
            },
        }
    }

    /// The coordinate of the chunk that the next build step finishes, if it
    /// finishes one.
    pub open spec fn finishing(self, samples: Seq<i32>) -> Option<(i32, i32, i32)> {
        match self.generating {
            Some(g) => if g.step(samples).state == BuildState::Done {
                Some(g.pos)
            } else {
                None
            },
            None => None,
        }
    }

    /// What handing in the densities that a tick asked for does: the whole
    /// build while whole chunks are built per tick, one build step in steady
    /// state.
    pub open spec fn supplied(self, samples: Seq<i32>, sub_chunk: (i32, i32, i32)) -> WorldView {
        if self.full_build {
            self.built_whole(samples)
        } else {
            self.stepped(samples, sub_chunk)
        }
    }

    /// Whether the observer has strayed so far from where the neighbourhood
    /// was last looked at, if it ever was, that it must be looked at again.
    pub open spec fn rechecks(self, sub: Sub) -> bool {
        match self.last_sub {
            Some(last) => sub.strayed(last),
            None => true,
        }
    }

    /// A tick leads from `self` by way of `a` and `b` to `post` and reports
    /// `tick`: the eviction work leads to `a`; a look at the neighbourhood,
    /// if the observer was reset or has strayed, leads on to `b`; the
    /// generation work leads to `post`. The world is valid at each stage.
    pub open spec fn ticked_by_way_of(
        self,
        post: WorldView,
        scan: Scan,
        sub_reset: bool,
        tick: Tick,
        a: WorldView,
        b: WorldView,
    ) -> bool {
        let c = scan.sub.chunk_spec();
        &&& self.evicted(a, c)
        &&& a.valid()
        &&& tick.dropped == self.evictee(c)
        &&& tick.recomputed == (sub_reset || a.rechecks(scan.sub))
        &&& if tick.recomputed {
            &&& a.looked_around(WorldView { last_sub: a.last_sub, ..b }, scan)
            &&& b.last_sub == Some(scan.sub)
        } else {
            b == a
        }
        &&& b.valid()
        &&& post == b.begun(c)
        &&& tick.wanted == b.wanted()
        &&& tick.finished == (if b.sampling() || b.full_build {
            None
        } else {
            b.finishing(Seq::empty())
        })
    }

    /// A tick leads from `self` to `post` and reports `tick`: first the
    /// eviction work; then a look at the neighbourhood if the observer was
    /// reset or has strayed; then the generation work.
    pub open spec fn ticked(self, post: WorldView, scan: Scan, sub_reset: bool, tick: Tick)
        -> bool {
        exists|a: WorldView, b: WorldView| #[trigger]
            self.ticked_by_way_of(post, scan, sub_reset, tick, a, b)
    }
}

/// Takes a coordinate off a list that names no coordinate twice.
fn remove_coord(list: &mut Vec<(i32, i32, i32)>, pos: (i32, i32, i32))
    requires
        old(list)@.no_duplicates(),
    ensures
        final(list)@ == without(old(list)@, pos),
        final(list)@.no_duplicates(),
        !final(list)@.contains(pos),
        forall|c: (i32, i32, i32)| c != pos ==> (final(list)@.contains(c) <==> old(list)@.contains(c)),
{
    let mut i: usize = 0;
    while i < list.len()
        invariant
            0 <= i <= list@.len(),
            list@ == old(list)@,
            list@.no_duplicates(),
            forall|j: int| 0 <= j < i ==> list@[j] != pos,
        decreases list@.len() - i,
    {
        let c = list[i];
        if c.0 == pos.0 && c.1 == pos.1 && c.2 == pos.2 {
            assert(list@[i as int] == pos);
            assert(list@.contains(pos));
            assert(list@.index_of(pos) == i);
            list.remove(i);
            proof {
                let before = old(list)@;
                let after = list@;
                assert forall|c: (i32, i32, i32)| c != pos implies (after.contains(c)
                    <==> before.contains(c)) by {
                    if before.contains(c) {
                        let j = before.index_of(c);
                        if j < i {
                            assert(after[j] == c);
                        } else {
                            assert(after[j - 1] == c);
                        }
                    }
                    if after.contains(c) {
                        let j = after.index_of(c);
                        if j < i {
                            assert(before[j] == c);
                        } else {
                            assert(before[j + 1] == c);
                        }
                    }
                }
                if after.contains(pos) {
                    let j = after.index_of(pos);
                    if j < i {
                        assert(before[j] == pos);
                    } else {
                        assert(before[j + 1] == pos);
                    }
                }
            }
            return ;
        }
        i += 1;
    }
    assert(!list@.contains(pos));
}

/// Streams chunks around the observer: holds the resident chunks, the queue
/// of chunks to generate, the one build under way and the list to draw.
pub struct World {
    chunks: HashMap<u128, Chunk>,
    chunks_to_render: Vec<(i32, i32, i32)>,
    chunks_to_generate: Vec<((i32, i32, i32), GenPrio)>,
    generating_chunk: Option<GeneratingChunk>,
    remove_state: RemoveState,
    should_full_build: bool,
    last_sub: Option<Sub>,
}

impl View for World {
    type V = WorldView;

    closed spec fn view(&self) -> WorldView {
        WorldView {
            chunks: Map::new(
                |pos: (i32, i32, i32)| self.chunks@.contains_key(key_of(pos)),
                |pos: (i32, i32, i32)| self.chunks@[key_of(pos)]@,
            ),
            to_render: self.chunks_to_render@,
            to_generate: self.chunks_to_generate@,
            generating: match self.generating_chunk {
                Some(g) => Some(g.chunk@),
                None => None,
            },
            keys_left: self.remove_state.keys_left@,
            full_build: self.should_full_build,
            last_sub: self.last_sub,
        }
    }
}

impl World {
    /// Every stored chunk is well formed and stored under the key of its own
    /// coordinate, and so is the chunk being built.
    pub closed spec fn chunks_wf(&self) -> bool {
        &&& forall|k: u128| #[trigger]
            self.chunks@.contains_key(k) ==> {
                &&& self.chunks@[k].wf()
                &&& key_of(self.chunks@[k]@.pos) == k
            }
        &&& self.generating_chunk matches Some(g) ==> g.chunk.wf() && g.chunk@.pos == g.chunk_pos
        &&& self.last_sub matches Some(last) ==> last.valid()
    }

    /// The world is in a state that `new` and the operations can reach.
    pub closed spec fn wf(&self) -> bool {
        &&& self.chunks_wf()
        &&& self@.valid()
    }

    /// A well-formed world has a valid view.
    pub proof fn lemma_wf_valid(&self)
        requires
            self.wf(),
        ensures
            self@.valid(),
    {
    }

    /// A world without chunks, which builds whole chunks per tick to begin
    /// with and looks at the neighbourhood on its first tick.
    pub fn new() -> (world: Self)
        ensures
            world.wf(),
            world@ == WorldView::empty(),
    {
        let world = Self {
            chunks: HashMap::new(),
            chunks_to_render: Vec::new(),
            chunks_to_generate: Vec::new(),
            generating_chunk: None,
            remove_state: RemoveState::new(),
            should_full_build: true,
            last_sub: None,
        };
        assert(world@.chunks =~= Map::empty());
        assert(world@.to_render =~= Seq::empty());
        assert(world@.to_generate =~= Seq::empty());
        assert(world@.keys_left =~= Seq::empty());
        world
    }

    /// The resident chunk at a coordinate, if there is one.
    pub fn get_chunk(&self, pos: (i32, i32, i32)) -> (found: Option<&Chunk>)
        requires
            self.wf(),
        ensures
            match found {
                Some(chunk) => self@.chunks.contains_key(pos) && chunk@ == self@.chunks[pos]
                    && chunk.wf(),
                None => !self@.chunks.contains_key(pos),
            },
    {
        self.chunks.get(&pack(pos))
    }

    /// The triangles of the chunk at `chunk_pos` that lie within `range`
    /// cells of a position in the world; none if no chunk is resident
    /// there. Triangles of neighbouring chunks are had by asking for each
    /// neighbour in turn.
    pub fn tris_near(&self, chunk_pos: (i32, i32, i32), pos: Point, range: i32) -> (tris: Vec<
        Tri,
    >)
        requires
            self.wf(),
            pos.in_range(),
        ensures
            tris@ == self@.tris_near(chunk_pos, pos, range as int),
    {
        match self.get_chunk(chunk_pos) {
            Some(chunk) => {
                let local = Point {
                    x: pos.x - chunk_pos.0 as i64 * CHUNK_UNITS,
                    y: pos.y - chunk_pos.1 as i64 * CHUNK_UNITS,
                    z: pos.z - chunk_pos.2 as i64 * CHUNK_UNITS,
                };
                chunk.tris_around(local, range)
            },
            None => Vec::new(),
        }
    }

    /// The coordinates of the chunks to draw.
    pub fn chunks_to_render(&self) -> (list: &Vec<(i32, i32, i32)>)
        ensures
            list@ == self@.to_render,
    {
        &self.chunks_to_render
    }

    /// The number of coordinates that wait to be generated.
    pub fn generate_count(&self) -> (n: usize)
        ensures
            n == self@.to_generate.len(),
    {
        self.chunks_to_generate.len()
    }

    /// The number of chunks to draw.
    pub fn render_count(&self) -> (n: usize)
        ensures
            n == self@.to_render.len(),
    {
        self.chunks_to_render.len()
    }

    /// The number of resident chunks.
    pub fn total_count(&self) -> (n: usize)
        requires
            self.wf(),
        ensures
            n == self@.chunks.dom().len(),
    {
        proof {
            self.lemma_dom_len();
        }
        self.chunks.len()
    }

    /// The resident coordinates are as many as the stored keys.
    proof fn lemma_dom_len(&self)
        requires
            self.wf(),
        ensures
            self@.chunks.dom().finite(),
            self@.chunks.dom().len() == self.chunks@.dom().len(),
    {
        let keys = self.chunks@.dom();
        let dom = self@.chunks.dom();
        let f = |k: u128| coord_of(k);
        assert forall|k: u128| keys.contains(k) implies key_of(#[trigger] coord_of(k)) == k by {
            lemma_key_of_coord(self.chunks@[k]@.pos);
        }
        assert(vstd::relations::injective_on(f, keys)) by {
            assert forall|a: u128, b: u128|
                keys.contains(a) && keys.contains(b) && #[trigger] f(a) == #[trigger] f(
                    b,
                ) implies a == b by {
                assert(key_of(coord_of(a)) == a);
                assert(key_of(coord_of(b)) == b);
            }
        }
        assert forall|pos: (i32, i32, i32)| dom.contains(pos) implies #[trigger] keys.map(
            f,
        ).contains(pos) by {
            lemma_key_of_coord(pos);
            assert(keys.contains(key_of(pos)));
            assert(f(key_of(pos)) == pos);
        }
        assert forall|pos: (i32, i32, i32)| #[trigger]
            keys.map(f).contains(pos) implies dom.contains(pos) by {
            let k = choose|k: u128| keys.contains(k) && f(k) == pos;
            assert(key_of(coord_of(k)) == k);
        }
        assert(keys.map(f) =~= dom);
        vstd::set_lib::lemma_map_size(keys, dom, f);
    }
}

impl World {
    /// A list of the resident coordinates, each once.
    fn resident_keys(&self) -> (keys: Vec<(i32, i32, i32)>)
        requires
            self.wf(),
        ensures
            keys@.no_duplicates(),
            keys@.to_set() == self@.chunks.dom(),
    {
        let mut keys: Vec<(i32, i32, i32)> = Vec::new();
        let ghost listed = vstd::std_specs::hash::spec_keys_iter(&self.chunks).remaining();
        for k in it: self.chunks.keys()
            invariant
                self.wf(),
                it.seq() == listed,
                listed.no_duplicates(),
                listed.unref().to_set() == self.chunks@.dom(),
                keys@.len() == it.index(),
                forall|i: int| 0 <= i < keys@.len() ==> #[trigger] keys@[i] == coord_of(*listed[i]),
        {
            proof {
                assert(it.seq().unref().contains(*k)) by {
                    assert(it.seq().unref()[it.index() as int] == *k);
                }
                assert(self.chunks@.contains_key(*k));
                lemma_key_of_coord(self.chunks@[*k]@.pos);
            }
            keys.push(unpack(*k));
        }
        proof {
            let stored = listed.unref();
            assert(keys@.len() == stored.len());
            assert(stored.no_duplicates()) by {
                assert forall|i: int, j: int|
                    0 <= i < stored.len() && 0 <= j < stored.len() && i != j implies stored[i]
                    != stored[j] by {
                    assert(listed[i] != listed[j]);
                }
            }
            assert forall|i: int| 0 <= i < stored.len() implies key_of(
                coord_of(#[trigger] stored[i]),
            ) == stored[i] by {
                assert(stored.contains(stored[i]));
                assert(self.chunks@.contains_key(stored[i]));
                lemma_key_of_coord(self.chunks@[stored[i]]@.pos);
            }
            assert forall|i: int, j: int|
                0 <= i < keys@.len() && 0 <= j < keys@.len() && i != j implies keys@[i]
                != keys@[j] by {
                assert(keys@[i] == coord_of(stored[i]));
                assert(keys@[j] == coord_of(stored[j]));
                assert(stored[i] != stored[j]);
            }
            assert forall|pos: (i32, i32, i32)| keys@.to_set().contains(pos)
                <==> self@.chunks.dom().contains(pos) by {
                if keys@.contains(pos) {
                    let i = keys@.index_of(pos);
                    assert(keys@[i] == coord_of(stored[i]));
                    assert(stored.contains(stored[i]));
                }
                if self@.chunks.dom().contains(pos) {
                    assert(stored.to_set().contains(key_of(pos)));
                    let i = stored.index_of(key_of(pos));
                    lemma_key_of_coord(pos);
                    assert(keys@[i] == pos);
                }
            }
            assert(keys@.to_set() =~= self@.chunks.dom());
        }
        keys
    }

    /// The eviction work of one tick: checks one resident coordinate of the
    /// current round and drops its chunk if it lies too far from the
    /// observer's chunk, or starts a new round when none is left. Returns the
    /// coordinate of the chunk it dropped.
    pub fn remove_far_way(&mut self, sub_chunk: (i32, i32, i32)) -> (dropped: Option<
        (i32, i32, i32),
    >)
        requires
            old(self).wf(),
        ensures
            final(self).wf(),
            old(self)@.evicted(final(self)@, sub_chunk),
            dropped == old(self)@.evictee(sub_chunk),
    {
        match self.remove_state.keys_left.pop() {
            Some(pos) => {
                let dist_sq = dist_sq_wide(pos, sub_chunk);
                if dist_sq > (KEEP_DIST * KEEP_DIST) as i128 {
                    let removed = self.chunks.remove(&pack(pos));
                    remove_coord(&mut self.chunks_to_render, pos);
                    proof {
                        assert forall|c: (i32, i32, i32)| c != pos implies key_of(c) != key_of(
                            pos,
                        ) by {
                            if key_of(c) == key_of(pos) {
                                lemma_key_injective(c, pos);
                            }
                        }
                        assert(self@.chunks =~= old(self)@.chunks.remove(pos));
                        assert(self@.keys_left =~= old(self)@.keys_left.drop_last());
                    }
                    match removed {
                        Some(_) => Some(pos),
                        None => None,
                    }
                } else {
                    assert(self@.keys_left =~= old(self)@.keys_left.drop_last());
                    assert(self@.chunks =~= old(self)@.chunks);
                    None
                }
            },
            None => {
                self.remove_state.keys_left = self.resident_keys();
                assert(self@.chunks =~= old(self)@.chunks);
                None
            },
        }
    }
}

impl World {
    /// Whether the chunk at a coordinate is the one being built.
    fn is_building(&self, pos: (i32, i32, i32)) -> (b: bool)
        requires
            self.chunks_wf(),
        ensures
            b == self@.building(pos),
    {
        match &self.generating_chunk {
            Some(g) => g.chunk_pos.0 == pos.0 && g.chunk_pos.1 == pos.1 && g.chunk_pos.2 == pos.2,
            None => false,
        }
    }

    /// Looks at one coordinate: lists it for drawing or queues it, as the
    /// rules say.
    fn check_candidate(
        &self,
        scan: &Scan,
        pos: (i32, i32, i32),
        render: &mut Vec<(i32, i32, i32)>,
        queue: &mut Vec<((i32, i32, i32), GenPrio)>,
    )
        requires
            self.chunks_wf(),
            scan.valid(),
            scannable(pos),
        ensures
            final(render)@ == old(render)@ + pick_one(self@.render_rule(*scan), pos),
            final(queue)@ == old(queue)@ + with_prio(
                pick_one(self@.want_rule(*scan), pos),
                *scan,
            ),
    {
        let dist_sq = dist_sq_to_center(scan, pos);
        if dist_sq > MAX_GENERATION_DIST_SQ {
            assert(old(render)@ + Seq::<(i32, i32, i32)>::empty() =~= old(render)@);
            assert(old(queue)@ + with_prio(Seq::<(i32, i32, i32)>::empty(), *scan) =~= old(
                queue,
            )@);
            return ;
        }
        let flags = frustum_flags(scan, pos);
        match self.chunks.get(&pack(pos)) {
            Some(chunk) => {
                if dist_sq < MAX_VIEW_DIST_SQ && chunk.not_blank() && flags.0 {
                    render.push(pos);
                    assert(render@ =~= old(render)@ + seq![pos]);
                } else {
                    assert(old(render)@ + Seq::<(i32, i32, i32)>::empty() =~= old(render)@);
                }
                assert(queue@ + with_prio(Seq::<(i32, i32, i32)>::empty(), *scan) =~= queue@);
            },
            None => {
                assert(old(render)@ + Seq::<(i32, i32, i32)>::empty() =~= old(render)@);
                if !self.is_building(pos) {
                    let gen_prio = GenPrio {
                        dist_sq,
                        z: pos.2,
                        in_view: flags.0,
                        in_gen: flags.1,
                    };
                    queue.push((pos, gen_prio));
                    assert(queue@ =~= old(queue)@ + with_prio(seq![pos], *scan));
                } else {
                    assert(queue@ + with_prio(Seq::<(i32, i32, i32)>::empty(), *scan) =~= queue@);
                }
            },
        }
    }
}

impl World {
    /// Looks at the coordinates `(x, y, z0..z1)`.
    fn scan_column(
        &self,
        scan: &Scan,
        x: i32,
        y: i32,
        z0: i32,
        z1: i32,
        render: &mut Vec<(i32, i32, i32)>,
        queue: &mut Vec<((i32, i32, i32), GenPrio)>,
    )
        requires
            self.chunks_wf(),
            scan.valid(),
            scannable((x, y, 0)),
            -2 <= z0,
            z1 <= 3,
        ensures
            final(render)@ == old(render)@ + pick_column(
                self@.render_rule(*scan),
                x as int,
                y as int,
                z0 as int,
                z1 as int,
            ),
            final(queue)@ == old(queue)@ + with_prio(
                pick_column(self@.want_rule(*scan), x as int, y as int, z0 as int, z1 as int),
                *scan,
            ),
    {
        let ghost rr = self@.render_rule(*scan);
        let ghost wr = self@.want_rule(*scan);
        let mut z = z0;
        assert(old(render)@ + Seq::<(i32, i32, i32)>::empty() =~= old(render)@);
        assert(old(queue)@ + with_prio(Seq::<(i32, i32, i32)>::empty(), *scan) =~= old(queue)@);
        while z < z1
            invariant
                self.chunks_wf(),
                scan.valid(),
                scannable((x, y, 0)),
                -2 <= z0 <= z,
                z1 <= 3,
                z <= z1 || z1 <= z0,
                z1 <= z0 ==> z == z0,
                rr == self@.render_rule(*scan),
                wr == self@.want_rule(*scan),
                render@ == old(render)@ + pick_column(rr, x as int, y as int, z0 as int, z as int),
                queue@ == old(queue)@ + with_prio(
                    pick_column(wr, x as int, y as int, z0 as int, z as int),
                    *scan,
                ),
            decreases z1 - z,
        {
            let ghost render_before = render@;
            let ghost queue_before = queue@;
            self.check_candidate(scan, (x, y, z), render, queue);
            proof {
                let rc = pick_column(rr, x as int, y as int, z0 as int, z as int);
                let wc = pick_column(wr, x as int, y as int, z0 as int, z as int);
                lemma_with_prio_concat(wc, pick_one(wr, (x, y, z)), *scan);
                assert(render@ =~= old(render)@ + (rc + pick_one(rr, (x, y, z))));
                assert(queue@ =~= old(queue)@ + (with_prio(wc, *scan) + with_prio(
                    pick_one(wr, (x, y, z)),
                    *scan,
                )));
            }
            z += 1;
        }
    }

    /// Looks at the coordinates `(x, y0..y1, z0..z1)`.
    fn scan_slab(
        &self,
        scan: &Scan,
        x: i32,
        y0: i32,
        y1: i32,
        z0: i32,
        z1: i32,
        render: &mut Vec<(i32, i32, i32)>,
        queue: &mut Vec<((i32, i32, i32), GenPrio)>,
    )
        requires
            self.chunks_wf(),
            scan.valid(),
            scannable((x, y0, 0)),
            scannable((x, y1, 0)),
            -2 <= z0,
            z1 <= 3,
        ensures
            final(render)@ == old(render)@ + pick_slab(
                self@.render_rule(*scan),
                x as int,
                y0 as int,
                y1 as int,
                z0 as int,
                z1 as int,
            ),
            final(queue)@ == old(queue)@ + with_prio(
                pick_slab(
                    self@.want_rule(*scan),
                    x as int,
                    y0 as int,
                    y1 as int,
                    z0 as int,
                    z1 as int,
                ),
                *scan,
            ),
    {
        let ghost rr = self@.render_rule(*scan);
        let ghost wr = self@.want_rule(*scan);
        let mut y = y0;
        assert(old(render)@ + Seq::<(i32, i32, i32)>::empty() =~= old(render)@);
        assert(old(queue)@ + with_prio(Seq::<(i32, i32, i32)>::empty(), *scan) =~= old(queue)@);
        while y < y1
            invariant
                self.chunks_wf(),
                scan.valid(),
                scannable((x, y0, 0)),
                scannable((x, y1, 0)),
                -2 <= z0,
                z1 <= 3,
                y0 <= y,
                y <= y1 || y1 <= y0,
                y1 <= y0 ==> y == y0,
                rr == self@.render_rule(*scan),
                wr == self@.want_rule(*scan),
                render@ == old(render)@ + pick_slab(
                    rr,
                    x as int,
                    y0 as int,
                    y as int,
                    z0 as int,
                    z1 as int,
                ),
                queue@ == old(queue)@ + with_prio(
                    pick_slab(wr, x as int, y0 as int, y as int, z0 as int, z1 as int),
                    *scan,
                ),
            decreases y1 - y,
        {
            self.scan_column(scan, x, y, z0, z1, render, queue);
            proof {
                let rs = pick_slab(rr, x as int, y0 as int, y as int, z0 as int, z1 as int);
                let ws = pick_slab(wr, x as int, y0 as int, y as int, z0 as int, z1 as int);
                let rc = pick_column(rr, x as int, y as int, z0 as int, z1 as int);
                let wc = pick_column(wr, x as int, y as int, z0 as int, z1 as int);
                lemma_with_prio_concat(ws, wc, *scan);
                assert(render@ =~= old(render)@ + (rs + rc));
                assert(queue@ =~= old(queue)@ + (with_prio(ws, *scan) + with_prio(wc, *scan)));
            }
            y += 1;
        }
    }

    /// Looks at every coordinate around the observer's chunk.
    fn scan_around(
        &self,
        scan: &Scan,
        render: &mut Vec<(i32, i32, i32)>,
        queue: &mut Vec<((i32, i32, i32), GenPrio)>,
    )
        requires
            self.chunks_wf(),
            scan.valid(),
            old(render)@.len() == 0,
            old(queue)@.len() == 0,
        ensures
            final(render)@ == pick_around(self@.render_rule(*scan), scan.sub.chunk_spec()),
            final(queue)@ == with_prio(
                pick_around(self@.want_rule(*scan), scan.sub.chunk_spec()),
                *scan,
            ),
    {
        let ghost rr = self@.render_rule(*scan);
        let ghost wr = self@.want_rule(*scan);
        let c = scan.sub.chunk();
        let x0 = c.0 - GENERATION_DIST;
        let x1 = c.0 + GENERATION_DIST + 1;
        let y0 = c.1 - GENERATION_DIST;
        let y1 = c.1 + GENERATION_DIST + 1;
        let z0 = if c.2 - GENERATION_DIST < MIN_Z {
            MIN_Z
        } else {
            c.2 - GENERATION_DIST
        };
        let z1 = if c.2 + GENERATION_DIST > MAX_Z {
            MAX_Z + 1
        } else {
            c.2 + GENERATION_DIST + 1
        };
        let mut x = x0;
        assert(render@ =~= Seq::<(i32, i32, i32)>::empty());
        assert(queue@ =~= with_prio(Seq::<(i32, i32, i32)>::empty(), *scan));
        while x < x1
            invariant
                self.chunks_wf(),
                scan.valid(),
                c == scan.sub.chunk_spec(),
                -SUB_CHUNK_LIMIT <= c.0 <= SUB_CHUNK_LIMIT,
                -SUB_CHUNK_LIMIT <= c.1 <= SUB_CHUNK_LIMIT,
                x0 == c.0 - 5,
                x1 == c.0 + 6,
                y0 == c.1 - 5,
                y1 == c.1 + 6,
                z0 == layers_first(c.2 as int),
                z1 == layers_end(c.2 as int),
                x0 <= x <= x1,
                rr == self@.render_rule(*scan),
                wr == self@.want_rule(*scan),
                render@ == pick_cube(
                    rr,
                    x0 as int,
                    x as int,
                    y0 as int,
                    y1 as int,
                    z0 as int,
                    z1 as int,
                ),
                queue@ == with_prio(
                    pick_cube(wr, x0 as int, x as int, y0 as int, y1 as int, z0 as int, z1 as int),
                    *scan,
                ),
            decreases x1 - x,
        {
            self.scan_slab(scan, x, y0, y1, z0, z1, render, queue);
            proof {
                let wq = pick_cube(
                    wr,
                    x0 as int,
                    x as int,
                    y0 as int,
                    y1 as int,
                    z0 as int,
                    z1 as int,
                );
                let ws = pick_slab(wr, x as int, y0 as int, y1 as int, z0 as int, z1 as int);
                lemma_with_prio_concat(wq, ws, *scan);
            }
            x += 1;
        }
    }
}

impl World {
    /// Looks at the neighbourhood of the observer: makes the list to draw
    /// and the generation queue anew from the chunks around the observer's
    /// chunk.
    pub fn update_nearby(&mut self, scan: &Scan)
        requires
            old(self).wf(),
            scan.valid(),
        ensures
            final(self).wf(),
            old(self)@.looked_around(final(self)@, *scan),
            forall|pos: (i32, i32, i32)|
                #[trigger] final(self)@.queued(pos) <==> in_band(pos) && old(self)@.wants(
                    *scan,
                    pos,
                ),
            forall|pos: (i32, i32, i32)|
                #[trigger] final(self)@.to_render.contains(pos) <==> old(self)@.renders(
                    *scan,
                    pos,
                ),
    {
        proof {
            old(self).lemma_wf_valid();
        }
        let mut render: Vec<(i32, i32, i32)> = Vec::new();
        let mut queue: Vec<((i32, i32, i32), GenPrio)> = Vec::new();
        self.scan_around(scan, &mut render, &mut queue);
        let ghost c = scan.sub.chunk_spec();
        let ghost listed = pick_around(self@.render_rule(*scan), c);
        let ghost wanted = pick_around(self@.want_rule(*scan), c);
        let ghost unsorted = queue@;
        proof {
            lemma_pick_cube(
                self@.render_rule(*scan),
                c.0 - 5,
                c.0 + 6,
                c.1 - 5,
                c.1 + 6,
                layers_first(c.2 as int),
                layers_end(c.2 as int),
            );
            lemma_pick_cube(
                self@.want_rule(*scan),
                c.0 - 5,
                c.0 + 6,
                c.1 - 5,
                c.1 + 6,
                layers_first(c.2 as int),
                layers_end(c.2 as int),
            );
            assert(coords(unsorted) =~= wanted);
            assert forall|i: int| 0 <= i < unsorted.len() implies (#[trigger] unsorted[i]).1.valid() by {
                let pos = wanted[i];
                assert(wanted.contains(pos));
                assert(self@.wants(*scan, pos));
                crate::nearby::lemma_dist_sq_nonnegative(scan.sub.pos, crate::nearby::chunk_center(pos));
            }
        }
        sort_for_pop(&mut queue);
        proof {
            lemma_same_entries(queue@, unsorted);
            assert forall|i: int| 0 <= i < queue@.len() implies self@.wants(
                *scan,
                (#[trigger] queue@[i]).0,
            ) && in_band(queue@[i].0) by {
                assert(queue@.contains(queue@[i]));
                assert(unsorted.contains(queue@[i]));
                let j = unsorted.index_of(queue@[i]);
                assert(wanted.contains(wanted[j]));
            }
            assert forall|i: int| 0 <= i < listed.len() implies self@.renders(
                *scan,
                #[trigger] listed[i],
            ) by {
                assert(listed.contains(listed[i]));
            }
        }
        let ghost before = self@;
        self.chunks_to_render = render;
        self.chunks_to_generate = queue;
        proof {
            assert(self@.chunks =~= before.chunks);
            assert forall|pos: (i32, i32, i32)| self@.queued(pos) implies before.wants(
                *scan,
                pos,
            ) by {
                let i = coords(self@.to_generate).index_of(pos);
                assert(self@.to_generate[i].0 == pos);
            }
            assert(before.looked_around(self@, *scan));
            assert forall|pos: (i32, i32, i32)|
                (#[trigger] self@.queued(pos) <==> in_band(pos) && before.wants(*scan, pos)) by {
                crate::world_laws::lemma_look_lists_by_rule(before, self@, *scan, pos);
            }
            assert forall|pos: (i32, i32, i32)|
                (#[trigger] self@.to_render.contains(pos) <==> before.renders(*scan, pos)) by {
                crate::world_laws::lemma_look_lists_by_rule(before, self@, *scan, pos);
            }
        }
    }
}

impl World {
    /// Makes a finished chunk resident and lists it for drawing if it is to
    /// be shown and has geometry.
    fn promote(&mut self, g: GeneratingChunk, show: bool)
        requires
            old(self).wf(),
            old(self)@.generating is None,
            g.chunk.wf(),
            g.chunk@.state == BuildState::Done,
            g.chunk@.pos == g.chunk_pos,
            in_band(g.chunk_pos),
            !old(self)@.chunks.contains_key(g.chunk_pos),
            !old(self)@.queued(g.chunk_pos),
        ensures
            final(self).wf(),
            final(self)@ == old(self)@.promote(g.chunk@, show),
    {
        let pos = g.chunk_pos;
        let ghost done = g.chunk@;
        proof {
            g.chunk.lemma_wf_valid();
        }
        if show && g.chunk.not_blank() {
            self.chunks_to_render.push(pos);
        }
        self.chunks.insert(pack(pos), g.chunk);
        proof {
            assert forall|c: (i32, i32, i32)| c != pos implies key_of(c) != key_of(pos) by {
                if key_of(c) == key_of(pos) {
                    lemma_key_injective(c, pos);
                }
            }
            assert(self@.chunks =~= old(self)@.chunks.insert(pos, done));
            assert(self@ == old(self)@.promote(done, show));
            let listed = old(self)@.to_render;
            if listed.contains(pos) {
                let i = listed.index_of(pos);
                assert(old(self)@.chunks.contains_key(listed[i]));
            }
            assert forall|i: int| 0 <= i < self@.to_render.len() implies {
                &&& self@.chunks.contains_key(#[trigger] self@.to_render[i])
                &&& self@.chunks[self@.to_render[i]].not_blank()
            } by {
                if i < listed.len() {
                    assert(old(self)@.chunks.contains_key(listed[i]));
                }
            }
        }
    }

    /// Takes the most urgent coordinate off the queue and makes a fresh chunk
    /// for it the one being built.
    fn start_next(&mut self) -> (started: Option<(i32, i32, i32)>)
        requires
            old(self).wf(),
            old(self)@.generating is None,
        ensures
            final(self).wf(),
            old(self)@.to_generate.len() > 0 ==> final(self)@ == old(self)@.popped() && started
                == Some(old(self)@.to_generate.last().0),
            old(self)@.to_generate.len() == 0 ==> final(self)@ == old(self)@ && started is None,
    {
        match self.chunks_to_generate.pop() {
            Some(entry) => {
                let pos = entry.0;
                let chunk = Chunk::new(pos);
                self.generating_chunk = Some(GeneratingChunk { chunk_pos: pos, chunk });
                proof {
                    let before = old(self)@.to_generate;
                    let after = self@.to_generate;
                    assert(after =~= before.drop_last());
                    assert(self@.chunks =~= old(self)@.chunks);
                    assert(self@ == old(self)@.popped());
                    assert(coords(before)[before.len() - 1] == pos);
                    assert(coords(after) =~= coords(before).drop_last());
                    assert forall|i: int, j: int|
                        0 <= i < j < after.len() implies !(#[trigger] after[i]).1.before(
                        (#[trigger] after[j]).1,
                    ) by {
                        assert(!before[i].1.before(before[j].1));
                    }
                    assert forall|i: int| 0 <= i < after.len() implies (#[trigger] after[i]).1.valid() by {
                        assert(before[i].1.valid());
                    }
                    assert forall|c: (i32, i32, i32)| self@.queued(c) implies old(self)@.queued(c)
                        && c != pos by {
                        let i = coords(after).index_of(c);
                        assert(coords(before)[i] == c);
                    }
                    assert(old(self)@.queued(pos));
                }
                Some(pos)
            },
            None => {
                assert(self@.to_generate =~= old(self)@.to_generate);
                assert(self@.chunks =~= old(self)@.chunks);
                None
            },
        }
    }

    /// One bounded step of generation: advances the chunk being built by one
    /// build step, making it resident if that finishes it, or takes the next
    /// chunk off the queue if none is being built. `samples` are the
    /// densities that the build step takes in. Returns the coordinate of the
    /// chunk it finished.
    fn build_step(&mut self, sub_chunk: (i32, i32, i32), samples: &Vec<i32>) -> (r: Result<
        Option<(i32, i32, i32)>,
        BuildError,
    >)
        requires
            old(self).wf(),
            !old(self)@.full_build,
        ensures
            final(self).wf(),
            r is Err <==> old(self)@.sampling() && samples@.len() != old(
                self,
            )@.generating->0.samples_wanted(),
            r is Err ==> r == Err::<Option<(i32, i32, i32)>, BuildError>(BuildError::SampleCount)
                && final(self)@ == old(self)@,
            r matches Ok(finished) ==> final(self)@ == old(self)@.stepped(samples@, sub_chunk)
                && finished == old(self)@.finishing(samples@),
    {
        match self.generating_chunk.take() {
            Some(mut g) => {
                let ghost idle = self@;
                proof {
                    assert(idle.chunks =~= old(self)@.chunks);
                    assert(idle == (WorldView { generating: None, ..old(self)@ }));
                    g.chunk.lemma_wf_valid();
                }
                match g.chunk.build_partial(samples) {
                    Err(e) => {
                        self.generating_chunk = Some(g);
                        assert(self@.chunks =~= old(self)@.chunks);
                        Err(e)
                    },
                    Ok(finished) => {
                        proof {
                            crate::chunk_laws::lemma_step_keeps_valid(old(self)@.generating->0, samples@);
                        }
                        if finished {
                            let pos = g.chunk_pos;
                            let dist_sq = dist_sq_wide(pos, sub_chunk);
                            self.promote(g, dist_sq <= ((VIEW_DIST + 1) * (VIEW_DIST + 1)) as i128);
                            Ok(Some(pos))
                        } else {
                            self.generating_chunk = Some(g);
                            assert(self@.chunks =~= old(self)@.chunks);
                            Ok(None)
                        }
                    },
                }
            },
            None => {
                assert(self@.chunks =~= old(self)@.chunks);
                assert(self@ == old(self)@);
                self.start_next();
                Ok(None)
            },
        }
    }

    /// Builds the chunk that waits for densities to its end at once and
    /// makes it resident. `lattice` holds the densities of its whole
    /// lattice. Returns the chunk's coordinate.
    fn build_full_step(&mut self, lattice: &Vec<i32>) -> (r: Result<
        (i32, i32, i32),
        BuildError,
    >)
        requires
            old(self).wf(),
            old(self)@.sampling(),
        ensures
            final(self).wf(),
            r is Err <==> lattice@.len() != old(self)@.generating->0.samples_missing(),
            r is Err ==> r == Err::<(i32, i32, i32), BuildError>(BuildError::SampleCount)
                && final(self)@ == old(self)@,
            r matches Ok(pos) ==> final(self)@ == old(self)@.built_whole(lattice@) && pos == old(
                self,
            )@.generating->0.pos,
    {
        match self.generating_chunk.take() {
            Some(mut g) => {
                let ghost idle = self@;
                proof {
                    assert(idle.chunks =~= old(self)@.chunks);
                    assert(idle == (WorldView { generating: None, ..old(self)@ }));
                    g.chunk.lemma_wf_valid();
                }
                match g.chunk.build_full(lattice) {
                    Err(e) => {
                        self.generating_chunk = Some(g);
                        assert(self@.chunks =~= old(self)@.chunks);
                        Err(e)
                    },
                    Ok(()) => {
                        let pos = g.chunk_pos;
                        proof {
                            crate::chunk_laws::lemma_completed_is_done(
                                old(self)@.generating->0,
                                lattice@,
                            );
                        }
                        self.promote(g, true);
                        proof {
                            self.lemma_dom_len();
                        }
                        let ghost promoted = self@;
                        self.should_full_build = !(self.chunks_to_generate.len() == 0
                            || self.chunks.len() >= STOP_FULL_BUILD);
                        assert(self@.chunks =~= promoted.chunks);
                        Ok(pos)
                    },
                }
            },
            None => {
                proof {
                    assert(false);
                }
                Err(BuildError::SampleCount)
            },
        }
    }
}

impl World {
    /// Whether the chunk being built waits for densities, and if so, which
    /// chunk it is.
    fn sampling_pos(&self) -> (pos: Option<(i32, i32, i32)>)
        requires
            self.wf(),
        ensures
            pos is Some <==> self@.sampling(),
            pos matches Some(p) ==> p == self@.generating->0.pos,
    {
        match &self.generating_chunk {
            Some(g) => match g.chunk.state() {
                BuildState::Iso => Some(g.chunk_pos),
                _ => None,
            },
            None => None,
        }
    }

    /// The lattice points whose densities the build that waits for them
    /// takes in, in the order in which it takes them; nothing if no build
    /// waits.
    pub fn sample_points(&self) -> (points: Option<Vec<(i64, i64, i64)>>)
        requires
            self.wf(),
        ensures
            points is Some <==> self@.sampling(),
            points matches Some(list) ==> {
                let g = self@.generating->0;
                &&& list@.len() == g.samples_wanted()
                &&& forall|k: int|
                    0 <= k < list@.len() ==> {
                        let p = #[trigger] list@[k];
                        (p.0 as int, p.1 as int, p.2 as int) == crate::lattice::lattice_point(
                            g.pos,
                            g.isos.len() + k,
                        )
                    }
            },
    {
        match &self.generating_chunk {
            Some(g) => match g.chunk.state() {
                BuildState::Iso => Some(g.chunk.sample_points()),
                _ => None,
            },
            None => None,
        }
    }

    /// One tick: the eviction work, a look at the neighbourhood if the
    /// observer was reset or has strayed since the last look, and the
    /// generation work that needs no densities. When the tick reports a
    /// coordinate as wanted, the densities of that chunk's lattice are to be
    /// handed to `supply`.
    pub fn update(&mut self, scan: &Scan, sub_reset: bool) -> (tick: Tick)
        requires
            old(self).wf(),
            scan.valid(),
        ensures
            final(self).wf(),
            old(self)@.ticked(final(self)@, *scan, sub_reset, tick),
            tick.recomputed ==> forall|pos: (i32, i32, i32)|
                #[trigger] final(self)@.queued(pos) <==> in_band(pos) && center_dist_sq(
                    *scan,
                    pos,
                ) <= MAX_GENERATION_DIST_SQ && !final(self)@.chunks.contains_key(pos) && !final(self)@.building(pos),
    {
        let c = scan.sub.chunk();
        let dropped = self.remove_far_way(c);
        let ghost a = self@;
        let strayed = match &self.last_sub {
            Some(last) => scan.sub.has_strayed(last),
            None => true,
        };
        let recomputed = sub_reset || strayed;
        if recomputed {
            self.update_nearby(scan);
            let ghost looked = self@;
            self.last_sub = Some(scan.sub);
            assert(self@.chunks =~= looked.chunks);
            assert(looked == (WorldView { last_sub: a.last_sub, ..self@ }));
        }
        let ghost b = self@;
        let mut finished: Option<(i32, i32, i32)> = None;
        let mut wanted: Option<(i32, i32, i32)> = self.sampling_pos();
        if wanted.is_none() {
            if self.should_full_build {
                wanted = self.start_next();
                if wanted.is_none() {
                    let ghost idle = self@;
                    self.should_full_build = false;
                    assert(self@.chunks =~= idle.chunks);
                }
            } else {
                let empty: Vec<i32> = Vec::new();
                match self.build_step(c, &empty) {
                    Ok(done) => {
                        assert(empty@ =~= Seq::<i32>::empty());
                        finished = done;
                    },
                    Err(_) => {},
                }
            }
        }
        let tick = Tick { recomputed, dropped, finished, wanted };
        proof {
            assert(old(self)@.evicted(a, c));
            assert(self@ == b.begun(c));
            assert(tick.wanted == b.wanted());
            assert(old(self)@.ticked_by_way_of(self@, *scan, sub_reset, tick, a, b));
            if tick.recomputed {
                assert forall|pos: (i32, i32, i32)|
                    (#[trigger] self@.queued(pos) <==> in_band(pos) && center_dist_sq(*scan, pos)
                        <= MAX_GENERATION_DIST_SQ && !self@.chunks.contains_key(pos)
                        && !self@.building(pos)) by {
                    crate::world_laws::lemma_tick_refills_the_queue(
                        old(self)@,
                        self@,
                        *scan,
                        sub_reset,
                        tick,
                        pos,
                    );
                }
            }
        }
        tick
    }

    /// Hands in the densities that the last tick asked for. While whole
    /// chunks are built per tick, the waiting chunk is built to its end and
    /// becomes resident; in steady state it takes the densities in as one
    /// build step. Returns the coordinate of the chunk that became
    /// resident. Densities that no build waits for, or of the wrong number,
    /// are refused.
    pub fn supply(&mut self, sub_chunk: (i32, i32, i32), samples: &Vec<i32>) -> (r: Result<
        Option<(i32, i32, i32)>,
        BuildError,
    >)
        requires
            old(self).wf(),
        ensures
            final(self).wf(),
            r is Err ==> final(self)@ == old(self)@,
            !old(self)@.sampling() ==> r == Err::<Option<(i32, i32, i32)>, BuildError>(
                BuildError::NotSampling,
            ),
            old(self)@.sampling() && samples@.len() != old(self)@.generating->0.samples_wanted()
                ==> r == Err::<Option<(i32, i32, i32)>, BuildError>(BuildError::SampleCount),
            old(self)@.sampling() && samples@.len() == old(self)@.generating->0.samples_wanted()
                ==> r is Ok && final(self)@ == old(self)@.supplied(samples@, sub_chunk),
            r matches Ok(finished) ==> finished == (if old(self)@.full_build {
                Some(old(self)@.generating->0.pos)
            } else {
                old(self)@.finishing(samples@)
            }),
    {
        if self.sampling_pos().is_none() {
            return Err(BuildError::NotSampling);
        }
        if self.should_full_build {
            match self.build_full_step(samples) {
                Ok(pos) => Ok(Some(pos)),
                Err(e) => Err(e),
            }
        } else {
            self.build_step(sub_chunk, samples)
        }
    }
}

} // verus!
