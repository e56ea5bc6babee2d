//! Navigation through the image set.
//!
//! The navigation state holds the sorted image set and the current index,
//! and moves through the set with wraparound: stepping past the last image
//! cycles to the first, and stepping before the first cycles to the last.

use crate::util::ImageSet;
use vstd::arithmetic::div_mod::lemma_add_mod_noop;
use vstd::arithmetic::div_mod::lemma_mod_add_multiples_vanish;
use vstd::arithmetic::div_mod::lemma_mod_bound;
use vstd::arithmetic::div_mod::lemma_mod_self_0;
use vstd::arithmetic::div_mod::lemma_small_mod;
use vstd::prelude::*;

verus! {

/// A navigation intent: one step forward or back through the image set.
#[derive(Clone, Debug)]
pub enum Direction {
    Next,
    Previous,
}

/// The index one wraparound step away from `index` in a set of `count`
/// images: forward to `(index + 1) % count`, backward to
/// `(index + count - 1) % count`.
pub open spec fn advance_index(index: int, count: int, direction: Direction) -> int {
    match direction {
        Direction::Next => (index + 1) % count,
        Direction::Previous => (index + count - 1) % count,
    }
}

/// `advance_index` iterated `steps` times in one direction.
pub open spec fn advance_times(index: int, count: int, direction: Direction, steps: nat) -> int
    decreases steps,
{
    if steps == 0 {
        index
    } else {
        advance_index(advance_times(index, count, direction, (steps - 1) as nat), count, direction)
    }
}

/// Stepping forward `steps` times from `index` lands on
/// `(index + steps) % count`.
proof fn lemma_advance_times_next(index: int, count: int, steps: nat)
    requires
        0 <= index < count,
    ensures
        advance_times(index, count, Direction::Next, steps) == (index + steps) % count,
    decreases steps,
{
    if steps == 0 {
        lemma_small_mod(index as nat, count as nat);
    } else {
        lemma_advance_times_next(index, count, (steps - 1) as nat);
        let x = index + steps - 1;
        lemma_add_mod_noop(x, 1, count);
        if count == 1 {
            lemma_mod_bound(x % count + 1int % count, count);
            lemma_mod_bound(index + steps, count);
        } else {
            lemma_small_mod(1, count as nat);
        }
    }
}

/// Stepping backward `steps` times from `index` lands on
/// `(index - steps) % count`.
proof fn lemma_advance_times_previous(index: int, count: int, steps: nat)
    requires
        0 <= index < count,
    ensures
        advance_times(index, count, Direction::Previous, steps) == (index - steps) % count,
    decreases steps,
{
    if steps == 0 {
        lemma_small_mod(index as nat, count as nat);
    } else {
        lemma_advance_times_previous(index, count, (steps - 1) as nat);
        let x = index - steps + 1;
        lemma_add_mod_noop(x, count - 1, count);
        lemma_mod_add_multiples_vanish(index - steps, count);
        if count == 1 {
            lemma_mod_bound(x % count + (count - 1) % count, count);
            lemma_mod_bound(index - steps, count);
        } else {
            lemma_small_mod((count - 1) as nat, count as nat);
        }
    }
}

/// Law: advancing as many times as there are images returns to the same
/// index, in either direction.
pub proof fn lemma_advance_cycle(index: int, count: int, direction: Direction)
    requires
        0 <= index < count,
    ensures
        advance_times(index, count, direction, count as nat) == index,
{
    match direction {
        Direction::Next => {
            lemma_advance_times_next(index, count, count as nat);
            lemma_mod_add_multiples_vanish(index, count);
            lemma_small_mod(index as nat, count as nat);
        },
        Direction::Previous => {
            lemma_advance_times_previous(index, count, count as nat);
            lemma_mod_add_multiples_vanish(index - count, count);
            lemma_small_mod(index as nat, count as nat);
        },
    }
}

/// Law: one step forward followed by one step back is the identity on the
/// index, whatever the size of the set.
pub proof fn lemma_advance_round_trip(index: int, count: int)
    requires
        0 <= index < count,
    ensures
        advance_index(advance_index(index, count, Direction::Next), count, Direction::Previous)
            == index,
{
    lemma_add_mod_noop(index + 1, count - 1, count);
    lemma_mod_add_multiples_vanish(index, count);
    lemma_small_mod(index as nat, count as nat);
    if count == 1 {
        lemma_mod_bound((index + 1) % count + (count - 1) % count, count);
        lemma_mod_bound(index + 1, count);
    } else {
        lemma_small_mod((count - 1) as nat, count as nat);
    }
}

/// Holds the ordered image set and the current index, and computes
/// wraparound moves.  The set never changes after construction.
pub struct NavigationState {
    images: ImageSet,
    image_id: usize,
}

impl NavigationState {
    /// The names held, in sorted order.
    pub closed spec fn names(self) -> Seq<Seq<u8>> {
        self.images@
    }

    /// The current position.
    pub closed spec fn index(self) -> int {
        self.image_id as int
    }

    /// Invariant: a non-empty set of sorted names, and an index within it.
    pub open spec fn wf(self) -> bool {
        self.names().len() > 0 && crate::util::sorted_names(self.names()) && 0 <= self.index()
            < self.names().len()
    }

    /// Starts at `image_id` within a resolved image set.
    pub fn new(images: ImageSet, image_id: usize) -> (s: Self)
        requires
            images.wf(),
            image_id < images@.len(),
        ensures
            s.wf(),
            s.names() == images@,
            s.index() == image_id as int,
    {
        NavigationState { images, image_id }
    }

    /// One wraparound step; the set itself is untouched.
    pub fn advance(&mut self, direction: &Direction)
        requires
            old(self).wf(),
        ensures
            final(self).wf(),
            final(self).names() == old(self).names(),
            final(self).index() == advance_index(
                old(self).index(),
                old(self).names().len() as int,
                *direction,
            ),
    {
        let n = self.images.len();
        let next: usize = match direction {
            Direction::Next => {
                if self.image_id + 1 == n {
                    proof {
                        lemma_mod_self_0(n as int);
                    }
                    0
                } else {
                    proof {
                        lemma_small_mod((self.image_id + 1) as nat, n as nat);
                    }
                    self.image_id + 1
                }
            },
            Direction::Previous => {
                if self.image_id == 0 {
                    proof {
                        lemma_small_mod((n - 1) as nat, n as nat);
                    }
                    n - 1
                } else {
                    proof {
                        lemma_mod_add_multiples_vanish(self.image_id - 1, n as int);
                        lemma_small_mod((self.image_id - 1) as nat, n as nat);
                    }
                    self.image_id - 1
                }
            },
        };
        self.image_id = next;
    }

    /// The number of images in the set.
    pub fn len(&self) -> (n: usize)
        ensures
            n == self.names().len(),
    {
        self.images.len()
    }

    /// The current image's name.
    pub fn current(&self) -> (name: &Vec<u8>)
        requires
            self.wf(),
        ensures
            name@ == self.names()[self.index()],
    {
        self.images.get(self.image_id)
    }
}

} // verus!
