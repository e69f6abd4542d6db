use vstd::prelude::*;
use core::cmp::Ordering;
use crate::gen_prio::GenPrio;

verus! {

impl GenPrio {
    /// The three-way order in which `before` is "less".
    pub open spec fn order(self, other: GenPrio) -> Ordering {
        if self.before(other) {
            Ordering::Less
        } else if other.before(self) {
            Ordering::Greater
        } else {
            Ordering::Equal
        }
    }

    /// Compares two priorities: `Less` means that `self` is the more urgent.
    pub fn compare(&self, other: &GenPrio) -> (o: Ordering)
        requires
            self.valid(),
            other.valid(),
        ensures
            o == self.order(*other),
    {
        if self.in_view && !other.in_view {
            return Ordering::Less;
        } else if !self.in_view && other.in_view {
            return Ordering::Greater;
        }
        if self.in_gen && !other.in_gen {
            return Ordering::Less;
        } else if !self.in_gen && other.in_gen {
            return Ordering::Greater;
        }
        let self_sort = self.key();
        let other_sort = other.key();
        if self_sort < other_sort {
            Ordering::Less
        } else if self_sort > other_sort {
            Ordering::Greater
        } else {
            Ordering::Equal
        }
    }

    /// Whether `self` is strictly more urgent than `other`.
    pub fn goes_before(&self, other: &GenPrio) -> (b: bool)
        requires
            self.valid(),
            other.valid(),
        ensures
            b == self.before(*other),
    {
        match self.compare(other) {
            Ordering::Less => true,
            _ => false,
        }
    }
}

} // verus!
