//! Summaries of a stream: values that visit the items of a stream one by one
//! and that merge, two into one.
//!
//! The reducers for the most frequent items and for the keys with the most
//! distinct values work on any summary. What a summary keeps of the items it
//! has visited is its own matter: [`Counts`] keeps the exact count of every
//! number.

use vstd::prelude::*;
use crate::par_sink::histogram::{can_merge, count_in, count_one, counted, merge_sorted, merged, sorted};
use crate::par_sink::sum::Accumulate;
use crate::par_sink::Factory;

pub mod exact;

verus! {

/// Values that merge, two into one.
pub trait Join: Sized {
    /// Whether `other` can be merged into this value.
    spec fn joins(&self, other: Self) -> bool;

    /// Whether merging `other` into this value may give `next`.
    spec fn joined(&self, other: Self, next: Self) -> bool;

    /// Merges `other` into this value.
    fn join(&mut self, other: Self)
        requires
            old(self).joins(other),
        ensures
            old(self).joined(other, *final(self)),
    ;
}

/// A summary of items of type `A`.
pub trait Sketch<A>: Join {
    /// Whether the summary can visit `item`.
    spec fn admits(&self, item: A) -> bool;

    /// Whether visiting `item` may turn this summary into `next`.
    spec fn visited(&self, item: A, next: Self) -> bool;

    /// Visits `item`.
    fn visit(&mut self, item: A)
        requires
            old(self).admits(item),
        ensures
            old(self).visited(item, *final(self)),
    ;
}

/// The total of values that merge: nothing, until the first value comes, and
/// from then on the merge of all that came.
impl<S: Join> Accumulate<S> for Option<S> {
    open spec fn is_zero(&self) -> bool {
        *self is None
    }

    open spec fn fits(&self, item: S) -> bool {
        match *self {
            Some(held) => held.joins(item),
            None => true,
        }
    }

    open spec fn adds(&self, item: S, sum: Self) -> bool {
        match *self {
            Some(held) => sum matches Some(next) && held.joined(item, next),
            None => sum == Some(item),
        }
    }

    fn zero() -> (z: Self) {
        None
    }

    fn take_in(&mut self, item: S) {
        match self.take() {
            Some(held) => {
                let mut held = held;
                held.join(item);
                *self = Some(held);
            },
            None => {
                *self = Some(item);
            },
        }
    }
}

/// The summary that keeps the exact count of every number it has visited:
/// the numbers with their counts, in the order of the numbers.
pub struct Counts(pub Vec<(u64, usize)>);

impl Counts {
    /// How often the summary has visited `key`.
    pub open spec fn of(&self, key: u64) -> int {
        count_in(self.0@, key)
    }

    /// The summary that has visited nothing.
    pub fn new() -> (counts: Self)
        ensures
            counts.0@ == Seq::<(u64, usize)>::empty(),
    {
        Counts(Vec::new())
    }

    /// The numbers visited with their counts, in the order of the numbers.
    pub fn into_entries(self) -> (entries: Vec<(u64, usize)>)
        ensures
            entries == self.0,
    {
        self.0
    }
}

impl Join for Counts {
    open spec fn joins(&self, other: Self) -> bool {
        can_merge(self.0@, other.0@)
    }

    open spec fn joined(&self, other: Self, next: Self) -> bool {
        merged(self.0@, other.0@, next.0@)
    }

    fn join(&mut self, other: Self) {
        let mut mine: Vec<(u64, usize)> = Vec::new();
        std::mem::swap(&mut self.0, &mut mine);
        self.0 = merge_sorted(mine, other.0);
    }
}

impl Sketch<u64> for Counts {
    open spec fn admits(&self, item: u64) -> bool {
        sorted(self.0@) && count_in(self.0@, item) < usize::MAX
    }

    open spec fn visited(&self, item: u64, next: Self) -> bool {
        counted(self.0@, item, next.0@)
    }

    fn visit(&mut self, item: u64) {
        count_one(&mut self.0, item);
    }
}

/// The maker of summaries that keep exact counts.
#[derive(Clone, Copy)]
pub struct CountsFactory;

impl Factory for CountsFactory {
    type Item = Counts;

    open spec fn inv(&self) -> bool {
        true
    }

    open spec fn makes(&self, item: Counts) -> bool {
        item.0@ == Seq::<(u64, usize)>::empty()
    }

    fn make(&self) -> (item: Counts) {
        Counts::new()
    }
}

} // verus!
