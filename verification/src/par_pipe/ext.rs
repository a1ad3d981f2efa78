//! The methods that build pipes on pipes and terminal operators on pipes.

use vstd::prelude::*;
use either::Either;
use crate::par_pipe::filter::Filter;
use crate::par_pipe::inspect::Inspect;
use crate::par_pipe::map::MapItems;
use crate::par_pipe::ParallelPipe;
use crate::par_sink::all::All;
use crate::par_sink::any::Any;
use crate::par_sink::collect::Collect;
use crate::par_sink::combine::Combine;
use crate::par_sink::count::Count;
use crate::par_sink::fold::Fold;
use crate::par_sink::for_each::ForEach;
use crate::par_sink::group_by::GroupBy;
use crate::par_sink::histogram::Histogram;
use crate::par_sink::max::combine::Compare;
use crate::par_sink::max::{Max, MaxBy, MaxByKey, Min, MinBy, MinByKey};
use crate::par_sink::most_distinct::MostDistinct;
use crate::par_sink::most_frequent::MostFrequent;
use crate::par_sink::sample::SampleUnstable;
use crate::par_sink::sum::Sum;

verus! {

/// What can be built on a pipe: longer pipes, and terminal operators that
/// end the pipe in a reducer.
pub trait PipeExt<Source>: ParallelPipe<Source> {
    /// The pipe that shows every item of this one to `f` and forwards it.
    fn inspect<F: Fn(&Self::Item)>(self, f: F) -> (s: Inspect<Self, F>)
        ensures
            s == Inspect::<Self, F>::of(self, f),
    {
        Inspect::new(self, f)
    }

    /// The pipe that hands out every item of this one as `f` leaves it.
    fn update<F: Fn(Self::Item) -> Self::Item>(self, f: F) -> (s: MapItems<Self, F>)
        ensures
            s == MapItems::<Self, F>::of(self, f),
    {
        MapItems::new(self, f)
    }

    /// The pipe that hands out what `f` makes of every item of this one.
    fn map<B, F: Fn(Self::Item) -> B>(self, f: F) -> (s: MapItems<Self, F>)
        ensures
            s == MapItems::<Self, F>::of(self, f),
    {
        MapItems::new(self, f)
    }

    /// The pipe that hands out the items of this one on which `f` holds.
    fn filter<F: Fn(&Self::Item) -> bool>(self, f: F) -> (s: Filter<Self, F>)
        ensures
            s == Filter::<Self, F>::of(self, f),
    {
        Filter::new(self, f)
    }

    /// The terminal operator that calls `f` on every item.
    fn for_each<F: Fn(Self::Item) + Copy>(self, f: F) -> (s: ForEach<Self, F>)
        ensures
            s == ForEach::<Self, F>::of(self, f),
    {
        ForEach::new(self, f)
    }

    /// The terminal operator that folds the items with `op`, starting from what
    /// `identity` gives.
    fn fold<ID: Fn() -> B + Copy, F: Fn(
        B,
        Either<Self::Item, B>,
    ) -> B + Copy, B>(self, identity: ID, op: F) -> (s: Fold<Self, ID, F, B>)
        ensures
            s == Fold::<Self, ID, F, B>::of(self, identity, op),
    {
        Fold::new(self, identity, op)
    }

    /// The terminal operator that folds the values of pairs key by key.
    fn group_by<ID: Fn() -> C + Copy, F, C>(
        self,
        identity: ID,
        op: F,
    ) -> (s: GroupBy<Self, ID, F, C>)
        ensures
            s == GroupBy::<Self, ID, F, C>::of(self, identity, op),
    {
        GroupBy::new(self, identity, op)
    }

    /// The terminal operator that counts how often each number occurs.
    fn histogram(self) -> (s: Histogram<Self>)
        ensures
            s == Histogram::<Self>::of(self),
    {
        Histogram::new(self)
    }

    /// The terminal operator that counts the items.
    fn count(self) -> (s: Count<Self>)
        ensures
            s == Count::<Self>::of(self),
    {
        Count::new(self)
    }

    /// The terminal operator that sums the items.
    fn sum<B>(self) -> (s: Sum<Self, B>)
        ensures
            s == Sum::<Self, B>::of(self),
    {
        Sum::new(self)
    }

    /// The terminal operator that combines the items two by two with `f`.
    fn combine<F: Fn(
        Self::Item,
        Self::Item,
    ) -> Self::Item + Copy>(self, f: F) -> (s: Combine<Self, F>)
        ensures
            s == Combine::<Self, F>::of(self, f),
    {
        Combine::new(self, f)
    }

    /// The terminal operator that finds the greatest item.
    fn max(self) -> (s: Max<Self>)
        ensures
            s == Max::<Self>::of(self),
    {
        Max::new(self)
    }

    /// The terminal operator that finds the greatest item by the order that `f`
    /// gives.
    fn max_by<F: Compare<Self::Item> + Copy>(self, f: F) -> (s: MaxBy<Self, F>)
        ensures
            s == MaxBy::<Self, F>::of(self, f),
    {
        MaxBy::new(self, f)
    }

    /// The terminal operator that finds the greatest item by the keys that `f`
    /// gives.
    fn max_by_key<B: Ord, F: Fn(&Self::Item) -> B + Copy>(self, f: F) -> (s: MaxByKey<Self, F>)
        ensures
            s == MaxByKey::<Self, F>::of(self, f),
    {
        MaxByKey::new(self, f)
    }

    /// The terminal operator that finds the smallest item.
    fn min(self) -> (s: Min<Self>)
        ensures
            s == Min::<Self>::of(self),
    {
        Min::new(self)
    }

    /// The terminal operator that finds the smallest item by the order that `f`
    /// gives.
    fn min_by<F: Compare<Self::Item> + Copy>(self, f: F) -> (s: MinBy<Self, F>)
        ensures
            s == MinBy::<Self, F>::of(self, f),
    {
        MinBy::new(self, f)
    }

    /// The terminal operator that finds the smallest item by the keys that `f`
    /// gives.
    fn min_by_key<B: Ord, F: Fn(&Self::Item) -> B + Copy>(self, f: F) -> (s: MinByKey<Self, F>)
        ensures
            s == MinByKey::<Self, F>::of(self, f),
    {
        MinByKey::new(self, f)
    }

    /// The terminal operator that draws a sample of at most `samples` items.
    fn sample_unstable(self, samples: usize) -> (s: SampleUnstable<Self>)
        ensures
            s == SampleUnstable::<Self>::of(self, samples),
    {
        SampleUnstable::new(self, samples)
    }

    /// The terminal operator that summarizes how often each item occurs, in
    /// summaries as `sketches` makes them.
    fn most_frequent<F>(self, sketches: F) -> (s: MostFrequent<Self, F>)
        ensures
            s == MostFrequent::<Self, F>::of(self, sketches),
    {
        MostFrequent::new(self, sketches)
    }

    /// The terminal operator that summarizes the distinct values of each key,
    /// in summaries as `sketches` makes them.
    fn most_distinct<F>(self, sketches: F) -> (s: MostDistinct<Self, F>)
        ensures
            s == MostDistinct::<Self, F>::of(self, sketches),
    {
        MostDistinct::new(self, sketches)
    }

    /// The terminal operator that tells whether `f` holds on every item.
    fn all<F: Fn(Self::Item) -> bool + Copy>(self, f: F) -> (s: All<Self, F>)
        ensures
            s == All::<Self, F>::of(self, f),
    {
        All::new(self, f)
    }

    /// The terminal operator that tells whether `f` holds on some item.
    fn any<F: Fn(Self::Item) -> bool + Copy>(self, f: F) -> (s: Any<Self, F>)
        ensures
            s == Any::<Self, F>::of(self, f),
    {
        Any::new(self, f)
    }

    /// The terminal operator that collects the items into a container of type
    /// `B`.
    fn collect<B>(self) -> (s: Collect<Self, B>)
        ensures
            s == Collect::<Self, B>::of(self),
    {
        Collect::new(self)
    }

}

impl<Source, P: ParallelPipe<Source>> PipeExt<Source> for P {

}

} // verus!
