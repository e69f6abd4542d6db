use vstd::prelude::*;

verus! {

/// What one chunk of height adds to the sort key: sixteen world units,
/// counted in squared position units like the squared distance beside it.
pub const Z_WEIGHT: i128 = 38_654_705_664;

/// Largest squared distance that a priority may carry.
pub const PRIO_DIST_LIMIT: i128 = 0x4000_0000_0000_0000_0000_0000_0000;

/// How urgently an absent chunk should be generated.
#[derive(Clone, Copy, Debug, PartialEq, Eq, Structural)]
pub struct GenPrio {
    /// Squared distance from the observer to the chunk's centre, in squared
    /// position units.
    pub dist_sq: i128,
    /// The chunk's height in the grid of chunks.
    pub z: i32,
    /// A corner of the chunk lies in the view frustum.
    pub in_view: bool,
    /// A corner of the chunk lies in the wider generation frustum.
    pub in_gen: bool,
}

impl GenPrio {
    /// The squared distance lies within its limit.
    pub open spec fn valid(self) -> bool {
        0 <= self.dist_sq <= PRIO_DIST_LIMIT
    }

    /// Squared distance plus a bias that grows with the chunk's height: near
    /// and low chunks have small keys.
    pub open spec fn sort_key(self) -> int {
        self.dist_sq + self.z * Z_WEIGHT
    }

    /// Whether `self` is strictly more urgent than `other`: chunks in view
    /// come first, then chunks in the generation frustum, then those with
    /// the smaller sort key.
    pub open spec fn before(self, other: GenPrio) -> bool {
        if self.in_view != other.in_view {
            self.in_view
        } else if self.in_gen != other.in_gen {
            self.in_gen
        } else {
            self.sort_key() < other.sort_key()
        }
    }

    /// What the order looks at: the two frustum flags and the sort key.
    pub open spec fn rank(self) -> (bool, bool, int) {
        (self.in_view, self.in_gen, self.sort_key())
    }

    /// The class of a chunk by the frustums it lies in: 0 in view, 1 in the
    /// generation frustum only, 2 in neither.
    pub open spec fn class(self) -> int {
        if self.in_view {
            0
        } else if self.in_gen {
            1
        } else {
            2
        }
    }

    /// Computes the sort key.
    pub fn key(&self) -> (k: i128)
        requires
            self.valid(),
        ensures
            k == self.sort_key(),
    {
        let bias: i128 = self.z as i128 * Z_WEIGHT;
        self.dist_sq + bias
    }
}

/// In a queue sorted for popping from its end, no entry is strictly more
/// urgent than an entry behind it.
pub open spec fn sorted_for_pop(queue: Seq<((i32, i32, i32), GenPrio)>) -> bool {
    forall|i: int, j: int|
        0 <= i < j < queue.len() ==> !(#[trigger] queue[i]).1.before((#[trigger] queue[j]).1)
}

/// Whatever order the candidates came in, a sorted queue hands out chunks in
/// view before chunks that lie in the generation frustum only, and both
/// before chunks in neither frustum: an entry that pops earlier never has a
/// later class.
pub proof fn lemma_pop_order_by_class(queue: Seq<((i32, i32, i32), GenPrio)>, i: int, j: int)
    requires
        sorted_for_pop(queue),
        0 <= i < j < queue.len(),
    ensures
        queue[j].1.class() <= queue[i].1.class(),
{
    assert(!queue[i].1.before(queue[j].1));
}

} // verus!
