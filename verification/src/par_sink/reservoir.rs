//! The reservoir of a sample without replacement.
//!
//! The reservoir is `streaming_algorithms::SampleUnstable`. What it holds is
//! known here by three names: its items in the order in which it hands them
//! out, the number of items it has visited, and the size it was made with.

use vstd::prelude::*;
use crate::par_sink::sum::Accumulate;
use crate::stream::occurrences;

verus! {

/// A reservoir of `u64` items: a `streaming_algorithms::SampleUnstable<u64>`.
#[verifier::external_body]
pub struct Reservoir {
    inner: streaming_algorithms::SampleUnstable<u64>,
}

/// The items that a reservoir holds, in the order in which it hands them out.
pub uninterp spec fn sample_items(reservoir: Reservoir) -> Seq<u64>;

/// The number of items that a reservoir has visited.
pub uninterp spec fn sample_seen(reservoir: Reservoir) -> nat;

/// The number of items that a reservoir was made to hold.
pub uninterp spec fn sample_capacity(reservoir: Reservoir) -> nat;

/// The largest size a reservoir can be made with: the items must fit into one
/// allocation.
pub open spec fn max_samples() -> int {
    (usize::MAX / 16) as int
}

/// Whether a reservoir can visit one more item.
pub open spec fn can_visit(reservoir: Reservoir) -> bool {
    &&& sample_items(reservoir).len() < sample_capacity(reservoir) || sample_seen(reservoir) > 0
    &&& sample_seen(reservoir) < usize::MAX
}

/// Whether visiting `item` may turn the reservoir `before` into `after`: while
/// it is not full the item is appended; once it is full the item takes the
/// place of one of the items held, or is left out.
pub open spec fn visits(
    before: Reservoir,
    item: u64,
    after: Reservoir,
) -> bool {
    &&& sample_capacity(after) == sample_capacity(before)
    &&& sample_seen(after) == sample_seen(before) + 1
    &&& if sample_items(before).len() < sample_capacity(before) {
        sample_items(after) == sample_items(before).push(item)
    } else {
        ||| sample_items(after) == sample_items(before)
        ||| exists|i: int|
            0 <= i < sample_items(before).len() && sample_items(after) == #[trigger] sample_items(
                before,
            ).update(i, item)
    }
}

/// Whether the reservoir `into` can take in the reservoir `other`. One that was
/// made to hold nothing takes in any other. Otherwise both were made with
/// the same size, one of them has visited something, and each one that has
/// visited something is full.
pub open spec fn can_merge(
    into: Reservoir,
    other: Reservoir,
) -> bool {
    ||| sample_capacity(into) == 0
    ||| {
        &&& sample_capacity(into) == sample_capacity(other)
        &&& 0 < sample_seen(into) + sample_seen(other) <= usize::MAX
        &&& sample_seen(into) > 0 ==> sample_items(into).len() == sample_capacity(into)
        &&& sample_seen(other) > 0 ==> sample_items(other).len() == sample_capacity(other)
    }
}

/// Whether taking in `other` may turn the reservoir `before` into `after`. One
/// that was made to hold nothing becomes the other. Otherwise the result is
/// full, has visited what both have visited, and holds no item more often
/// than the two held it together.
pub open spec fn merges_into(
    before: Reservoir,
    other: Reservoir,
    after: Reservoir,
) -> bool {
    if sample_capacity(before) == 0 {
        &&& sample_capacity(after) == sample_capacity(other)
        &&& sample_seen(after) == sample_seen(other)
        &&& sample_items(after) == sample_items(other)
    } else {
        &&& sample_capacity(after) == sample_capacity(before)
        &&& sample_seen(after) == sample_seen(before) + sample_seen(other)
        &&& sample_items(after).len() == sample_capacity(before)
        &&& forall|item: u64| #[trigger]
            occurrences(sample_items(after), item) <= occurrences(sample_items(before), item)
                + occurrences(sample_items(other), item)
    }
}

/// An empty reservoir for `samples` items.
///
/// Calls `streaming_algorithms::SampleUnstable::new`, which allocates room for
/// `samples` items and has visited nothing.
#[verifier::external_body]
pub(crate) fn reservoir_new(samples: usize) -> (reservoir: Reservoir)
    requires
        samples <= max_samples(),
    ensures
        sample_items(reservoir) == Seq::<u64>::empty(),
        sample_seen(reservoir) == 0,
        sample_capacity(reservoir) == samples,
{
    Reservoir { inner: streaming_algorithms::SampleUnstable::new(samples) }
}

/// Lets the reservoir visit `item`.
///
/// Calls `streaming_algorithms::SampleUnstable::push` with the thread's random
/// number generator, `rand::thread_rng`. While the reservoir is not full the
/// item is appended. Once it is full an index below the number of items
/// visited is drawn, and the item is written at that index if the index is
/// inside the reservoir.
#[verifier::external_body]
pub(crate) fn reservoir_push(reservoir: &mut Reservoir, item: u64)
    requires
        can_visit(*old(reservoir)),
    ensures
        visits(*old(reservoir), item, *final(reservoir)),
{
    reservoir.inner.push(item, &mut rand::thread_rng());
}

/// Merges `other` into the reservoir.
///
/// Calls `AddAssign::add_assign` of `streaming_algorithms::SampleUnstable`. A
/// reservoir made to hold nothing is replaced by `other`. Otherwise a new
/// reservoir of the same size is filled by taking, for each place, an item
/// off the end of one of the two, chosen by chance in proportion to what
/// each has visited; an item taken off is gone from where it was.
#[verifier::external_body]
pub(crate) fn reservoir_merge(
    reservoir: &mut Reservoir,
    other: Reservoir,
)
    requires
        can_merge(*old(reservoir), other),
    ensures
        merges_into(*old(reservoir), other, *final(reservoir)),
{
    reservoir.inner += other.inner;
}

/// The items of a reservoir, in the order in which it hands them out.
///
/// Calls `IntoIterator::into_iter` of `streaming_algorithms::SampleUnstable`
/// and collects what it yields.
#[verifier::external_body]
pub(crate) fn reservoir_items(reservoir: Reservoir) -> (items: Vec<u64>)
    ensures
        items@ == sample_items(reservoir),
{
    reservoir.inner.into_iter().collect()
}

/// Takes the items out of a reservoir, in the order in which it hands them
/// out.
pub fn sample_into_vec(reservoir: Reservoir) -> (items: Vec<u64>)
    ensures
        items@ == sample_items(reservoir),
{
    reservoir_items(reservoir)
}

impl Accumulate<Reservoir> for Reservoir {
    open spec fn is_zero(&self) -> bool {
        &&& sample_capacity(*self) == 0
        &&& sample_seen(*self) == 0
        &&& sample_items(*self) == Seq::<u64>::empty()
    }

    open spec fn fits(&self, item: Reservoir) -> bool {
        can_merge(*self, item)
    }

    open spec fn adds(&self, item: Reservoir, sum: Self) -> bool {
        merges_into(*self, item, sum)
    }

    fn zero() -> (z: Self) {
        reservoir_new(0)
    }

    fn take_in(&mut self, item: Reservoir) {
        reservoir_merge(self, item);
    }
}

} // verus!
