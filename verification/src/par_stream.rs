//! Streams of tasks and the engine that reduces them.

use vstd::prelude::*;
use either::Either;
use std::collections::HashMap;
use std::hash::Hash;
use crate::par_pipe::filter::Filter;
use crate::par_pipe::identity::Identity;
use crate::par_pipe::inspect::Inspect;
use crate::par_pipe::map::MapItems;
use crate::par_sink::all::All;
use crate::par_sink::any::Any;
use crate::par_sink::collect::{Collect, FromDistributedStream, FromParallelStream};
use crate::par_sink::combine::Combine;
use crate::par_sink::count::Count;
use crate::par_sink::fold::Fold;
use crate::par_sink::for_each::ForEach;
use crate::par_sink::group_by::GroupBy;
use crate::par_sink::histogram::Histogram;
use crate::par_sink::max::combine::Compare;
use crate::par_sink::max::{Max, MaxBy, MaxByKey, Min, MinBy, MinByKey};
use crate::par_sink::most_distinct::MostDistinct;
use crate::par_sink::most_frequent::MostFrequent;
use crate::par_sink::reservoir::{max_samples, Reservoir};
use crate::par_sink::sample::SampleUnstable;
use crate::par_sink::sketch::Sketch;
use crate::par_sink::sum::{Accumulate, Sum};
use crate::par_sink::{DistributedSink, Factory, Lowering, ParallelSink, Reducer};
use crate::par_stream::chain::Chain;
use crate::par_stream::flat_map::FlatMap;
use crate::par_stream::fork::{
    dist_fork, dist_fork_reduces, dist_fork_runs, par_fork, par_fork_reduces, par_fork_runs,
};
use crate::par_stream::pipe::{
    dist_pipe, dist_pipe_reduces, dist_pipe_runs, par_pipe, par_pipe_reduces, par_pipe_runs, Connect,
};
use crate::par_stream::reduce::{
    dist_reduce, dist_reduces, dist_runs, par_reduce, par_reduces, par_runs,
};
use crate::sink::{admits_all, offered, Sink};
use crate::stream::{leaves, taken, Poll, Stream};

pub mod chain;
pub mod flat_map;
pub mod fork;
pub mod partition;
pub mod pipe;
pub mod reduce;
pub mod tally;

verus! {

/// A unit of work: a slice of the input that one worker runs.
pub trait StreamTask: Sized {
    type Item;

    type Async: StreamTaskAsync<Item = Self::Item>;

    /// Well-formedness of the task.
    spec fn inv(&self) -> bool;

    /// The items that the task hands out when it is run, in order.
    spec fn items(&self) -> Seq<Self::Item>;

    /// Turns the task into its running form, which has all its items still to
    /// hand out.
    fn into_async(self) -> (a: Self::Async)
        requires
            self.inv(),
        ensures
            a.inv(),
            a.rest() == self.items(),
    ;
}

/// A task that is being run: a stream that pushes its items into a sink.
pub trait StreamTaskAsync: Stream + Sized {
    /// Lets `sink` pull the task's items until the task stalls or ends, or
    /// until the sink wants no more.
    fn poll_run<K: Sink<Item = Self::Item>>(&mut self, sink: &mut K) -> (r: Poll<()>)
        requires
            old(self).inv(),
            old(sink).inv(),
            admits_all(*old(sink), old(self).rest()),
        ensures
            final(self).inv(),
            final(sink).inv(),
            leaves(old(self).rest(), final(self).rest()),
            offered(*old(sink), taken(old(self).rest(), final(self).rest()), *final(sink)),
            final(self).stalls() <= old(self).stalls(),
            r is Ready ==> final(self).rest().len() == 0 || !final(sink).wants(),
            r is Pending ==> final(self).stalls() < old(self).stalls(),
            !old(sink).wants() ==> r is Ready && *final(sink) == *old(sink) && *final(self)
                == *old(self),
    {
        sink.poll_forward(self)
    }
}

/// A source of tasks: the part that both kinds of stream share.
pub trait TaskStream: Sized {
    type Item;

    type Task: StreamTask<Item = Self::Item>;

    /// Well-formedness of the stream.
    spec fn inv(&self) -> bool;

    /// The tasks not yet handed out, in the order in which they will come.
    spec fn tasks(&self) -> Seq<Self::Task>;

    /// The bounds that `size_hint` reports in this state.
    spec fn hint(&self) -> (usize, Option<usize>);

    /// Bounds on the number of tasks still to come. The lower bound is never
    /// more than that number.
    fn size_hint(&self) -> (r: (usize, Option<usize>))
        requires
            self.inv(),
        ensures
            r == self.hint(),
            r.0 <= self.tasks().len(),
    ;

    /// Hands out the next task, or `None` when there is none left.
    fn next_task(&mut self) -> (r: Option<Self::Task>)
        requires
            old(self).inv(),
        ensures
            final(self).inv(),
            match r {
                Some(task) => {
                    &&& old(self).tasks().len() > 0
                    &&& task == old(self).tasks()[0]
                    &&& final(self).tasks() == old(self).tasks().drop_first()
                },
                None => old(self).tasks().len() == 0 && final(self).tasks().len() == 0,
            },
    ;
}

/// A stream of tasks that runs on the `threads` threads of one
/// process.
///
/// The pool is stood for by its size: every operation runs its tasks on the
/// calling thread, dealt to workers as a pool of that size would get them.
pub trait ParallelStream: TaskStream {
    /// The stream whose items are what `f` makes of the items of this one.
    fn map<B, F: Fn(Self::Item) -> B>(self, f: F) -> (s: Connect<Self, MapItems<Identity, F>>)
        requires
            self.inv(),
        ensures
            s.0 == self,
            s.1 == MapItems::<Identity, F>::of(Identity, f),
            s.inv(),
    {
        let pipe: MapItems<Identity, F> = MapItems::new(Identity, f);
        assert(<MapItems<Identity, F> as crate::par_pipe::ParallelPipe<Self::Item>>::inv(&pipe));
        Connect(self, pipe)
    }

    /// The stream of the items of this one on which `f` holds.
    fn filter<F: Fn(&Self::Item) -> bool>(self, f: F) -> (s: Connect<Self, Filter<Identity, F>>)
        requires
            self.inv(),
        ensures
            s.0 == self,
            s.1 == Filter::<Identity, F>::of(Identity, f),
            s.inv(),
    {
        let pipe: Filter<Identity, F> = Filter::new(Identity, f);
        assert(<Filter<Identity, F> as crate::par_pipe::ParallelPipe<Self::Item>>::inv(&pipe));
        Connect(self, pipe)
    }

    /// The stream of the items of this one, each shown to `f` on its way.
    fn inspect<F: Fn(&Self::Item)>(self, f: F) -> (s: Connect<Self, Inspect<Identity, F>>)
        requires
            self.inv(),
        ensures
            s.0 == self,
            s.1 == Inspect::<Identity, F>::of(Identity, f),
            s.inv(),
    {
        let pipe: Inspect<Identity, F> = Inspect::new(Identity, f);
        assert(<Inspect<Identity, F> as crate::par_pipe::ParallelPipe<Self::Item>>::inv(&pipe));
        Connect(self, pipe)
    }

    /// The stream of the items of this one, each as `f` leaves it.
    fn update<F: Fn(Self::Item) -> Self::Item>(self, f: F) -> (s: Connect<
        Self,
        MapItems<Identity, F>,
    >)
        requires
            self.inv(),
        ensures
            s.0 == self,
            s.1 == MapItems::<Identity, F>::of(Identity, f),
            s.inv(),
    {
        let pipe: MapItems<Identity, F> = MapItems::new(Identity, f);
        assert(<MapItems<Identity, F> as crate::par_pipe::ParallelPipe<Self::Item>>::inv(&pipe));
        Connect(self, pipe)
    }

    /// The stream that hands out, for every item of this one, the items of the
    /// stream that `f` makes of it, that stream drained before the next item is
    /// looked at.
    fn flat_map<B: Stream, F: Fn(Self::Item) -> B>(self, f: F) -> (s: FlatMap<Self, F>)
        requires
            self.inv(),
        ensures
            s == FlatMap::<Self, F>::of(self, f),
            s.inv(),
    {
        let s: FlatMap<Self, F> = FlatMap::new(self, f);
        assert(<FlatMap<Self, F> as TaskStream>::inv(&s));
        s
    }

    /// The stream that hands out the tasks of this one and then those of
    /// `chain`.
    fn chain<C: TaskStream<Item = Self::Item>>(self, chain: C) -> (s: Chain<Self, C>)
        requires
            self.inv(),
            chain.inv(),
        ensures
            s == Chain(self, chain),
            s.inv(),
    {
        let s: Chain<Self, C> = Chain(self, chain);
        assert(<Chain<Self, C> as TaskStream>::inv(&s));
        s
    }

    /// Reduces the stream: every thread that has tasks runs them into a fresh
    /// reducer of `reduce_a_factory`, and `reduce_c` is handed the threads'
    /// outputs.
    fn reduce<R1F, R3>(self, threads: usize, reduce_a_factory: R1F, reduce_c: R3) -> (out:
        R3::Output) where
        R1F: Factory,
        R1F::Item: Reducer<Item = Self::Item>,
        R3: Reducer<Item = <R1F::Item as Reducer>::Output>,

        requires
            self.inv(),
            reduce_a_factory.inv(),
            0 < threads,
            self.tasks().len() < usize::MAX,
            par_runs(self.tasks(), threads as int, Lowering(reduce_a_factory), reduce_c.lowered()),
        ensures
            par_reduces(
                self.tasks(),
                threads as int,
                Lowering(reduce_a_factory),
                reduce_c.lowered(),
                out,
            ),
    {
        let lowering = Lowering(reduce_a_factory);
        assert(lowering.inv());
        par_reduce(self, threads, &lowering, reduce_c.into_async())
    }

    /// Reduces the stream through the terminal operator `sink`.
    fn pipe<K: ParallelSink<Self::Item>>(self, threads: usize, sink: K) -> (out: K::Output)
        requires
            self.inv(),
            sink.inv(),
            0 < threads,
            self.tasks().len() < usize::MAX,
            par_pipe_runs(self.tasks(), threads as int, sink),
        ensures
            par_pipe_reduces(self.tasks(), threads as int, sink, out),
    {
        par_pipe(self, threads, sink)
    }

    /// Feeds the stream to the two terminal operators `sink_a` and `sink_b` at
    /// once and gives the outputs of both. Every item is handed to the pipe of
    /// `sink_b` first and to the pipe of `sink_a` after that.
    fn fork<KA: ParallelSink<Self::Item>, KB: ParallelSink<Self::Item>>(
        self,
        threads: usize,
        sink_a: KA,
        sink_b: KB,
    ) -> (out: (KA::Output, KB::Output)) where Self::Item: Copy
        requires
            self.inv(),
            sink_a.inv(),
            sink_b.inv(),
            0 < threads,
            self.tasks().len() < usize::MAX,
            par_fork_runs(self.tasks(), threads as int, sink_a, sink_b),
        ensures
            par_fork_reduces(self.tasks(), threads as int, sink_a, sink_b, out),
    {
        par_fork(self, threads, sink_a, sink_b)
    }

    /// Calls `f` on every item of the stream.
    fn for_each<F: Fn(Self::Item) + Copy>(self, threads: usize, f: F)
        requires
            self.inv(),
            0 < threads,
            self.tasks().len() < usize::MAX,
            par_pipe_runs(self.tasks(), threads as int, ForEach::<Identity, F>::of(Identity, f)),
        ensures
            par_pipe_reduces(
                self.tasks(),
                threads as int,
                ForEach::<Identity, F>::of(Identity, f),
                (),
            ),
    {
        let sink: ForEach<Identity, F> = ForEach::new(Identity, f);
        par_pipe(self, threads, sink)
    }

    /// What `op` makes of the items of the stream: every thread starts from
    /// what `identity` gives and takes its items in as `Left`; the levels above
    /// start from what `identity` gives and take in the values of the level
    /// below as `Right`.
    fn fold<ID: Fn() -> B + Copy, F: Fn(B, Either<Self::Item, B>) -> B + Copy, B>(
        self,
        threads: usize,
        identity: ID,
        op: F,
    ) -> (out: B)
        requires
            self.inv(),
            call_requires(identity, ()),
            0 < threads,
            self.tasks().len() < usize::MAX,
            par_pipe_runs(
                self.tasks(),
                threads as int,
                Fold::<Identity, ID, F, B>::of(Identity, identity, op),
            ),
        ensures
            par_pipe_reduces(
                self.tasks(),
                threads as int,
                Fold::<Identity, ID, F, B>::of(Identity, identity, op),
                out,
            ),
    {
        let sink: Fold<Identity, ID, F, B> = Fold::new(Identity, identity, op);
        par_pipe(self, threads, sink)
    }

    /// For each key of the pairs of the stream, what `op` makes of the values
    /// that come with the key.
    fn group_by<K: Eq + Hash, V, ID: Fn() -> C + Copy, F: Fn(C, Either<V, C>) -> C + Copy, C>(
        self,
        threads: usize,
        identity: ID,
        op: F,
    ) -> (out: HashMap<K, C>) where Self: TaskStream<Item = (K, V)>
        requires
            self.inv(),
            0 < threads,
            self.tasks().len() < usize::MAX,
            par_pipe_runs(
                self.tasks(),
                threads as int,
                GroupBy::<Identity, ID, F, C>::of(Identity, identity, op),
            ),
        ensures
            par_pipe_reduces(
                self.tasks(),
                threads as int,
                GroupBy::<Identity, ID, F, C>::of(Identity, identity, op),
                out,
            ),
    {
        let sink: GroupBy<Identity, ID, F, C> = GroupBy::new(Identity, identity, op);
        par_pipe(self, threads, sink)
    }

    /// How often each number of the stream occurs: the numbers with their
    /// counts, in the order of the numbers.
    fn histogram(
        self,
        threads: usize,
    ) -> (out: Vec<(u64, usize)>) where Self: TaskStream<Item = u64>
        requires
            self.inv(),
            0 < threads,
            self.tasks().len() < usize::MAX,
            par_pipe_runs(self.tasks(), threads as int, Histogram::<Identity>::of(Identity)),
        ensures
            par_pipe_reduces(
                self.tasks(),
                threads as int,
                Histogram::<Identity>::of(Identity),
                out,
            ),
    {
        let sink: Histogram<Identity> = Histogram::new(Identity);
        par_pipe(self, threads, sink)
    }

    /// The number of items of the stream.
    fn count(self, threads: usize) -> (out: usize)
        requires
            self.inv(),
            0 < threads,
            self.tasks().len() < usize::MAX,
            par_pipe_runs(self.tasks(), threads as int, Count::<Identity>::of(Identity)),
        ensures
            par_pipe_reduces(self.tasks(), threads as int, Count::<Identity>::of(Identity), out),
    {
        let sink: Count<Identity> = Count::new(Identity);
        par_pipe(self, threads, sink)
    }

    /// The sum of the items of the stream.
    fn sum<B: Accumulate<Self::Item> + Accumulate<B>>(self, threads: usize) -> (out: B)
        requires
            self.inv(),
            0 < threads,
            self.tasks().len() < usize::MAX,
            par_pipe_runs(self.tasks(), threads as int, Sum::<Identity, B>::of(Identity)),
        ensures
            par_pipe_reduces(self.tasks(), threads as int, Sum::<Identity, B>::of(Identity), out),
    {
        let sink: Sum<Identity, B> = Sum::new(Identity);
        par_pipe(self, threads, sink)
    }

    /// What `f` makes of the items of the stream, combined two by two, or `None`
    /// where the stream has no item.
    fn combine<F: Fn(
        Self::Item,
        Self::Item,
    ) -> Self::Item + Copy>(self, threads: usize, f: F) -> (out: Option<Self::Item>)
        requires
            self.inv(),
            0 < threads,
            self.tasks().len() < usize::MAX,
            par_pipe_runs(self.tasks(), threads as int, Combine::<Identity, F>::of(Identity, f)),
        ensures
            par_pipe_reduces(
                self.tasks(),
                threads as int,
                Combine::<Identity, F>::of(Identity, f),
                out,
            ),
    {
        let sink: Combine<Identity, F> = Combine::new(Identity, f);
        par_pipe(self, threads, sink)
    }

    /// The greatest item of the stream by its own order; of several that compare
    /// equal, one that came last where it was compared.
    fn max(self, threads: usize) -> (out: Option<Self::Item>) where Self::Item: Ord
        requires
            self.inv(),
            0 < threads,
            self.tasks().len() < usize::MAX,
            par_pipe_runs(self.tasks(), threads as int, Max::<Identity>::of(Identity)),
        ensures
            par_pipe_reduces(self.tasks(), threads as int, Max::<Identity>::of(Identity), out),
    {
        let sink: Max<Identity> = Max::new(Identity);
        par_pipe(self, threads, sink)
    }

    /// The greatest item of the stream by the order that `f` gives.
    fn max_by<F: Compare<Self::Item> + Copy>(
        self,
        threads: usize,
        f: F,
    ) -> (out: Option<Self::Item>)
        requires
            self.inv(),
            0 < threads,
            self.tasks().len() < usize::MAX,
            par_pipe_runs(self.tasks(), threads as int, MaxBy::<Identity, F>::of(Identity, f)),
        ensures
            par_pipe_reduces(
                self.tasks(),
                threads as int,
                MaxBy::<Identity, F>::of(Identity, f),
                out,
            ),
    {
        let sink: MaxBy<Identity, F> = MaxBy::new(Identity, f);
        par_pipe(self, threads, sink)
    }

    /// The greatest item of the stream by the keys that `f` gives.
    fn max_by_key<B: Ord, F: Fn(&Self::Item) -> B + Copy>(
        self,
        threads: usize,
        f: F,
    ) -> (out: Option<Self::Item>)
        requires
            self.inv(),
            0 < threads,
            self.tasks().len() < usize::MAX,
            par_pipe_runs(self.tasks(), threads as int, MaxByKey::<Identity, F>::of(Identity, f)),
        ensures
            par_pipe_reduces(
                self.tasks(),
                threads as int,
                MaxByKey::<Identity, F>::of(Identity, f),
                out,
            ),
    {
        let sink: MaxByKey<Identity, F> = MaxByKey::new(Identity, f);
        par_pipe(self, threads, sink)
    }

    /// The smallest item of the stream by its own order; of several that compare
    /// equal, one that came first where it was compared.
    fn min(self, threads: usize) -> (out: Option<Self::Item>) where Self::Item: Ord
        requires
            self.inv(),
            0 < threads,
            self.tasks().len() < usize::MAX,
            par_pipe_runs(self.tasks(), threads as int, Min::<Identity>::of(Identity)),
        ensures
            par_pipe_reduces(self.tasks(), threads as int, Min::<Identity>::of(Identity), out),
    {
        let sink: Min<Identity> = Min::new(Identity);
        par_pipe(self, threads, sink)
    }

    /// The smallest item of the stream by the order that `f` gives.
    fn min_by<F: Compare<Self::Item> + Copy>(
        self,
        threads: usize,
        f: F,
    ) -> (out: Option<Self::Item>)
        requires
            self.inv(),
            0 < threads,
            self.tasks().len() < usize::MAX,
            par_pipe_runs(self.tasks(), threads as int, MinBy::<Identity, F>::of(Identity, f)),
        ensures
            par_pipe_reduces(
                self.tasks(),
                threads as int,
                MinBy::<Identity, F>::of(Identity, f),
                out,
            ),
    {
        let sink: MinBy<Identity, F> = MinBy::new(Identity, f);
        par_pipe(self, threads, sink)
    }

    /// The smallest item of the stream by the keys that `f` gives.
    fn min_by_key<B: Ord, F: Fn(&Self::Item) -> B + Copy>(
        self,
        threads: usize,
        f: F,
    ) -> (out: Option<Self::Item>)
        requires
            self.inv(),
            0 < threads,
            self.tasks().len() < usize::MAX,
            par_pipe_runs(self.tasks(), threads as int, MinByKey::<Identity, F>::of(Identity, f)),
        ensures
            par_pipe_reduces(
                self.tasks(),
                threads as int,
                MinByKey::<Identity, F>::of(Identity, f),
                out,
            ),
    {
        let sink: MinByKey<Identity, F> = MinByKey::new(Identity, f);
        par_pipe(self, threads, sink)
    }

    /// Whether `f` holds on every item of the stream.
    fn all<F: Fn(Self::Item) -> bool + Copy>(self, threads: usize, f: F) -> (out: bool)
        requires
            self.inv(),
            0 < threads,
            self.tasks().len() < usize::MAX,
            par_pipe_runs(self.tasks(), threads as int, All::<Identity, F>::of(Identity, f)),
        ensures
            par_pipe_reduces(
                self.tasks(),
                threads as int,
                All::<Identity, F>::of(Identity, f),
                out,
            ),
    {
        let sink: All<Identity, F> = All::new(Identity, f);
        par_pipe(self, threads, sink)
    }

    /// Whether `f` holds on some item of the stream.
    fn any<F: Fn(Self::Item) -> bool + Copy>(self, threads: usize, f: F) -> (out: bool)
        requires
            self.inv(),
            0 < threads,
            self.tasks().len() < usize::MAX,
            par_pipe_runs(self.tasks(), threads as int, Any::<Identity, F>::of(Identity, f)),
        ensures
            par_pipe_reduces(
                self.tasks(),
                threads as int,
                Any::<Identity, F>::of(Identity, f),
                out,
            ),
    {
        let sink: Any<Identity, F> = Any::new(Identity, f);
        par_pipe(self, threads, sink)
    }

    /// A sample of at most `samples` of the items of the stream.
    fn sample_unstable(self, threads: usize, samples: usize) -> (out: Reservoir) where
        Self: TaskStream<Item = u64>,

        requires
            self.inv(),
            samples <= max_samples(),
            0 < threads,
            self.tasks().len() < usize::MAX,
            par_pipe_runs(
                self.tasks(),
                threads as int,
                SampleUnstable::<Identity>::of(Identity, samples),
            ),
        ensures
            par_pipe_reduces(
                self.tasks(),
                threads as int,
                SampleUnstable::<Identity>::of(Identity, samples),
                out,
            ),
    {
        let sink: SampleUnstable<Identity> = SampleUnstable::new(Identity, samples);
        par_pipe(self, threads, sink)
    }

    /// A summary of how often each item of the stream occurs, in a summary as
    /// `sketches` makes them.
    fn most_frequent<F: Factory>(self, threads: usize, sketches: F) -> (out: F::Item) where
        F::Item: Sketch<Self::Item>,

        requires
            self.inv(),
            sketches.inv(),
            0 < threads,
            self.tasks().len() < usize::MAX,
            par_pipe_runs(
                self.tasks(),
                threads as int,
                MostFrequent::<Identity, F>::of(Identity, sketches),
            ),
        ensures
            par_pipe_reduces(
                self.tasks(),
                threads as int,
                MostFrequent::<Identity, F>::of(Identity, sketches),
                out,
            ),
    {
        let sink: MostFrequent<Identity, F> = MostFrequent::new(Identity, sketches);
        par_pipe(self, threads, sink)
    }

    /// A summary of the distinct values that come with each key of a stream
    /// of pairs, in a summary as `sketches` makes them.
    fn most_distinct<A, B, F: Factory>(self, threads: usize, sketches: F) -> (out: F::Item) where
        Self: TaskStream<Item = (A, B)>,
        F::Item: Sketch<(A, B)>,

        requires
            self.inv(),
            sketches.inv(),
            0 < threads,
            self.tasks().len() < usize::MAX,
            par_pipe_runs(
                self.tasks(),
                threads as int,
                MostDistinct::<Identity, F>::of(Identity, sketches),
            ),
        ensures
            par_pipe_reduces(
                self.tasks(),
                threads as int,
                MostDistinct::<Identity, F>::of(Identity, sketches),
                out,
            ),
    {
        let sink: MostDistinct<Identity, F> = MostDistinct::new(Identity, sketches);
        par_pipe(self, threads, sink)
    }

    /// The items of the stream in a container of type `B`.
    fn collect<B: FromParallelStream<Self::Item>>(self, threads: usize) -> (out: B)
        requires
            self.inv(),
            0 < threads,
            self.tasks().len() < usize::MAX,
            par_pipe_runs(self.tasks(), threads as int, Collect::<Identity, B>::of(Identity)),
        ensures
            par_pipe_reduces(
                self.tasks(),
                threads as int,
                Collect::<Identity, B>::of(Identity),
                out,
            ),
    {
        let sink: Collect<Identity, B> = Collect::new(Identity);
        par_pipe(self, threads, sink)
    }
}

/// A stream of tasks that runs on a pool of
/// `processes` processes of `threads` threads each.
///
/// The pool is stood for by its size: every operation runs its tasks on the
/// calling thread, dealt to workers as a pool of that size would get them.
pub trait DistributedStream: TaskStream {
    /// The stream whose items are what `f` makes of the items of this one.
    fn map<B, F: Fn(Self::Item) -> B>(self, f: F) -> (s: Connect<Self, MapItems<Identity, F>>)
        requires
            self.inv(),
        ensures
            s.0 == self,
            s.1 == MapItems::<Identity, F>::of(Identity, f),
            s.inv(),
    {
        let pipe: MapItems<Identity, F> = MapItems::new(Identity, f);
        assert(<MapItems<Identity, F> as crate::par_pipe::ParallelPipe<Self::Item>>::inv(&pipe));
        Connect(self, pipe)
    }

    /// The stream of the items of this one on which `f` holds.
    fn filter<F: Fn(&Self::Item) -> bool>(self, f: F) -> (s: Connect<Self, Filter<Identity, F>>)
        requires
            self.inv(),
        ensures
            s.0 == self,
            s.1 == Filter::<Identity, F>::of(Identity, f),
            s.inv(),
    {
        let pipe: Filter<Identity, F> = Filter::new(Identity, f);
        assert(<Filter<Identity, F> as crate::par_pipe::ParallelPipe<Self::Item>>::inv(&pipe));
        Connect(self, pipe)
    }

    /// The stream of the items of this one, each shown to `f` on its way.
    fn inspect<F: Fn(&Self::Item)>(self, f: F) -> (s: Connect<Self, Inspect<Identity, F>>)
        requires
            self.inv(),
        ensures
            s.0 == self,
            s.1 == Inspect::<Identity, F>::of(Identity, f),
            s.inv(),
    {
        let pipe: Inspect<Identity, F> = Inspect::new(Identity, f);
        assert(<Inspect<Identity, F> as crate::par_pipe::ParallelPipe<Self::Item>>::inv(&pipe));
        Connect(self, pipe)
    }

    /// The stream of the items of this one, each as `f` leaves it.
    fn update<F: Fn(Self::Item) -> Self::Item>(self, f: F) -> (s: Connect<
        Self,
        MapItems<Identity, F>,
    >)
        requires
            self.inv(),
        ensures
            s.0 == self,
            s.1 == MapItems::<Identity, F>::of(Identity, f),
            s.inv(),
    {
        let pipe: MapItems<Identity, F> = MapItems::new(Identity, f);
        assert(<MapItems<Identity, F> as crate::par_pipe::ParallelPipe<Self::Item>>::inv(&pipe));
        Connect(self, pipe)
    }

    /// The stream that hands out, for every item of this one, the items of the
    /// stream that `f` makes of it, that stream drained before the next item is
    /// looked at.
    fn flat_map<B: Stream, F: Fn(Self::Item) -> B>(self, f: F) -> (s: FlatMap<Self, F>)
        requires
            self.inv(),
        ensures
            s == FlatMap::<Self, F>::of(self, f),
            s.inv(),
    {
        let s: FlatMap<Self, F> = FlatMap::new(self, f);
        assert(<FlatMap<Self, F> as TaskStream>::inv(&s));
        s
    }

    /// The stream that hands out the tasks of this one and then those of
    /// `chain`.
    fn chain<C: TaskStream<Item = Self::Item>>(self, chain: C) -> (s: Chain<Self, C>)
        requires
            self.inv(),
            chain.inv(),
        ensures
            s == Chain(self, chain),
            s.inv(),
    {
        let s: Chain<Self, C> = Chain(self, chain);
        assert(<Chain<Self, C> as TaskStream>::inv(&s));
        s
    }

    /// Reduces the stream: every thread that has tasks runs them into a fresh
    /// reducer of `reduce_a_factory`, a fresh reducer of `reduce_b_factory` is
    /// handed the outputs of the threads of one process, and `reduce_c` is
    /// handed the processes' outputs.
    fn reduce<R1F, R2F, R3>(
        self,
        processes: usize,
        threads: usize,
        reduce_a_factory: R1F,
        reduce_b_factory: R2F,
        reduce_c: R3,
    ) -> (out: R3::Output) where
        R1F: Factory,
        R2F: Factory,
        R1F::Item: Reducer<Item = Self::Item>,
        R2F::Item: Reducer<Item = <R1F::Item as Reducer>::Output>,
        R3: Reducer<Item = <R2F::Item as Reducer>::Output>,

        requires
            self.inv(),
            reduce_a_factory.inv(),
            reduce_b_factory.inv(),
            0 < processes,
            0 < threads,
            self.tasks().len() < usize::MAX,
            dist_runs(
                self.tasks(),
                processes as int,
                threads as int,
                Lowering(reduce_a_factory),
                Lowering(reduce_b_factory),
                reduce_c.lowered(),
            ),
        ensures
            dist_reduces(
                self.tasks(),
                processes as int,
                threads as int,
                Lowering(reduce_a_factory),
                Lowering(reduce_b_factory),
                reduce_c.lowered(),
                out,
            ),
    {
        let lowering_a = Lowering(reduce_a_factory);
        let lowering_b = Lowering(reduce_b_factory);
        assert(lowering_a.inv());
        assert(lowering_b.inv());
        dist_reduce(self, processes, threads, &lowering_a, &lowering_b, reduce_c.into_async())
    }

    /// Reduces the stream through the terminal operator `sink`.
    fn pipe<K: DistributedSink<Self::Item>>(
        self,
        processes: usize,
        threads: usize,
        sink: K,
    ) -> (out: K::Output)
        requires
            self.inv(),
            sink.inv(),
            0 < processes,
            0 < threads,
            self.tasks().len() < usize::MAX,
            dist_pipe_runs(self.tasks(), processes as int, threads as int, sink),
        ensures
            dist_pipe_reduces(self.tasks(), processes as int, threads as int, sink, out),
    {
        dist_pipe(self, processes, threads, sink)
    }

    /// Feeds the stream to the two terminal operators `sink_a` and `sink_b` at
    /// once and gives the outputs of both. Every item is handed to the pipe of
    /// `sink_b` first and to the pipe of `sink_a` after that.
    fn fork<KA: DistributedSink<Self::Item>, KB: DistributedSink<Self::Item>>(
        self,
        processes: usize, threads: usize,
        sink_a: KA,
        sink_b: KB,
    ) -> (out: (KA::Output, KB::Output)) where Self::Item: Copy
        requires
            self.inv(),
            sink_a.inv(),
            sink_b.inv(),
            0 < processes,
            0 < threads,
            self.tasks().len() < usize::MAX,
            dist_fork_runs(self.tasks(), processes as int, threads as int, sink_a, sink_b),
        ensures
            dist_fork_reduces(self.tasks(), processes as int, threads as int, sink_a, sink_b, out),
    {
        dist_fork(self, processes, threads, sink_a, sink_b)
    }

    /// Calls `f` on every item of the stream.
    fn for_each<F: Fn(Self::Item) + Copy>(self, processes: usize, threads: usize, f: F)
        requires
            self.inv(),
            0 < processes,
            0 < threads,
            self.tasks().len() < usize::MAX,
            dist_pipe_runs(
                self.tasks(),
                processes as int,
                threads as int,
                ForEach::<Identity, F>::of(Identity, f),
            ),
        ensures
            dist_pipe_reduces(
                self.tasks(),
                processes as int,
                threads as int,
                ForEach::<Identity, F>::of(Identity, f),
                (),
            ),
    {
        let sink: ForEach<Identity, F> = ForEach::new(Identity, f);
        dist_pipe(self, processes, threads, sink)
    }

    /// What `op` makes of the items of the stream: every thread starts from
    /// what `identity` gives and takes its items in as `Left`; the levels above
    /// start from what `identity` gives and take in the values of the level
    /// below as `Right`.
    fn fold<ID: Fn() -> B + Copy, F: Fn(B, Either<Self::Item, B>) -> B + Copy, B>(
        self,
        processes: usize, threads: usize,
        identity: ID,
        op: F,
    ) -> (out: B)
        requires
            self.inv(),
            call_requires(identity, ()),
            0 < processes,
            0 < threads,
            self.tasks().len() < usize::MAX,
            dist_pipe_runs(
                self.tasks(),
                processes as int, threads as int,
                Fold::<Identity, ID, F, B>::of(Identity, identity, op),
            ),
        ensures
            dist_pipe_reduces(
                self.tasks(),
                processes as int, threads as int,
                Fold::<Identity, ID, F, B>::of(Identity, identity, op),
                out,
            ),
    {
        let sink: Fold<Identity, ID, F, B> = Fold::new(Identity, identity, op);
        dist_pipe(self, processes, threads, sink)
    }

    /// For each key of the pairs of the stream, what `op` makes of the values
    /// that come with the key.
    fn group_by<K: Eq + Hash, V, ID: Fn() -> C + Copy, F: Fn(C, Either<V, C>) -> C + Copy, C>(
        self,
        processes: usize, threads: usize,
        identity: ID,
        op: F,
    ) -> (out: HashMap<K, C>) where Self: TaskStream<Item = (K, V)>
        requires
            self.inv(),
            0 < processes,
            0 < threads,
            self.tasks().len() < usize::MAX,
            dist_pipe_runs(
                self.tasks(),
                processes as int, threads as int,
                GroupBy::<Identity, ID, F, C>::of(Identity, identity, op),
            ),
        ensures
            dist_pipe_reduces(
                self.tasks(),
                processes as int, threads as int,
                GroupBy::<Identity, ID, F, C>::of(Identity, identity, op),
                out,
            ),
    {
        let sink: GroupBy<Identity, ID, F, C> = GroupBy::new(Identity, identity, op);
        dist_pipe(self, processes, threads, sink)
    }

    /// How often each number of the stream occurs: the numbers with their
    /// counts, in the order of the numbers.
    fn histogram(
        self,
        processes: usize,
        threads: usize,
    ) -> (out: Vec<(u64, usize)>) where Self: TaskStream<Item = u64>
        requires
            self.inv(),
            0 < processes,
            0 < threads,
            self.tasks().len() < usize::MAX,
            dist_pipe_runs(
                self.tasks(),
                processes as int,
                threads as int,
                Histogram::<Identity>::of(Identity),
            ),
        ensures
            dist_pipe_reduces(
                self.tasks(),
                processes as int,
                threads as int,
                Histogram::<Identity>::of(Identity),
                out,
            ),
    {
        let sink: Histogram<Identity> = Histogram::new(Identity);
        dist_pipe(self, processes, threads, sink)
    }

    /// The number of items of the stream.
    fn count(self, processes: usize, threads: usize) -> (out: usize)
        requires
            self.inv(),
            0 < processes,
            0 < threads,
            self.tasks().len() < usize::MAX,
            dist_pipe_runs(
                self.tasks(),
                processes as int,
                threads as int,
                Count::<Identity>::of(Identity),
            ),
        ensures
            dist_pipe_reduces(
                self.tasks(),
                processes as int,
                threads as int,
                Count::<Identity>::of(Identity),
                out,
            ),
    {
        let sink: Count<Identity> = Count::new(Identity);
        dist_pipe(self, processes, threads, sink)
    }

    /// The sum of the items of the stream.
    fn sum<B: Accumulate<Self::Item> + Accumulate<B>>(
        self,
        processes: usize,
        threads: usize,
    ) -> (out: B)
        requires
            self.inv(),
            0 < processes,
            0 < threads,
            self.tasks().len() < usize::MAX,
            dist_pipe_runs(
                self.tasks(),
                processes as int,
                threads as int,
                Sum::<Identity, B>::of(Identity),
            ),
        ensures
            dist_pipe_reduces(
                self.tasks(),
                processes as int,
                threads as int,
                Sum::<Identity, B>::of(Identity),
                out,
            ),
    {
        let sink: Sum<Identity, B> = Sum::new(Identity);
        dist_pipe(self, processes, threads, sink)
    }

    /// What `f` makes of the items of the stream, combined two by two, or `None`
    /// where the stream has no item.
    fn combine<F: Fn(
        Self::Item,
        Self::Item,
    ) -> Self::Item + Copy>(
        self,
        processes: usize,
        threads: usize,
        f: F,
    ) -> (out: Option<Self::Item>)
        requires
            self.inv(),
            0 < processes,
            0 < threads,
            self.tasks().len() < usize::MAX,
            dist_pipe_runs(
                self.tasks(),
                processes as int,
                threads as int,
                Combine::<Identity, F>::of(Identity, f),
            ),
        ensures
            dist_pipe_reduces(
                self.tasks(),
                processes as int,
                threads as int,
                Combine::<Identity, F>::of(Identity, f),
                out,
            ),
    {
        let sink: Combine<Identity, F> = Combine::new(Identity, f);
        dist_pipe(self, processes, threads, sink)
    }

    /// The greatest item of the stream by its own order; of several that compare
    /// equal, one that came last where it was compared.
    fn max(
        self,
        processes: usize,
        threads: usize,
    ) -> (out: Option<Self::Item>) where Self::Item: Ord
        requires
            self.inv(),
            0 < processes,
            0 < threads,
            self.tasks().len() < usize::MAX,
            dist_pipe_runs(
                self.tasks(),
                processes as int,
                threads as int,
                Max::<Identity>::of(Identity),
            ),
        ensures
            dist_pipe_reduces(
                self.tasks(),
                processes as int,
                threads as int,
                Max::<Identity>::of(Identity),
                out,
            ),
    {
        let sink: Max<Identity> = Max::new(Identity);
        dist_pipe(self, processes, threads, sink)
    }

    /// The greatest item of the stream by the order that `f` gives.
    fn max_by<F: Compare<Self::Item> + Copy>(
        self,
        processes: usize,
        threads: usize,
        f: F,
    ) -> (out: Option<Self::Item>)
        requires
            self.inv(),
            0 < processes,
            0 < threads,
            self.tasks().len() < usize::MAX,
            dist_pipe_runs(
                self.tasks(),
                processes as int,
                threads as int,
                MaxBy::<Identity, F>::of(Identity, f),
            ),
        ensures
            dist_pipe_reduces(
                self.tasks(),
                processes as int,
                threads as int,
                MaxBy::<Identity, F>::of(Identity, f),
                out,
            ),
    {
        let sink: MaxBy<Identity, F> = MaxBy::new(Identity, f);
        dist_pipe(self, processes, threads, sink)
    }

    /// The greatest item of the stream by the keys that `f` gives.
    fn max_by_key<B: Ord, F: Fn(&Self::Item) -> B + Copy>(
        self,
        processes: usize,
        threads: usize,
        f: F,
    ) -> (out: Option<Self::Item>)
        requires
            self.inv(),
            0 < processes,
            0 < threads,
            self.tasks().len() < usize::MAX,
            dist_pipe_runs(
                self.tasks(),
                processes as int,
                threads as int,
                MaxByKey::<Identity, F>::of(Identity, f),
            ),
        ensures
            dist_pipe_reduces(
                self.tasks(),
                processes as int,
                threads as int,
                MaxByKey::<Identity, F>::of(Identity, f),
                out,
            ),
    {
        let sink: MaxByKey<Identity, F> = MaxByKey::new(Identity, f);
        dist_pipe(self, processes, threads, sink)
    }

    /// The smallest item of the stream by its own order; of several that compare
    /// equal, one that came first where it was compared.
    fn min(
        self,
        processes: usize,
        threads: usize,
    ) -> (out: Option<Self::Item>) where Self::Item: Ord
        requires
            self.inv(),
            0 < processes,
            0 < threads,
            self.tasks().len() < usize::MAX,
            dist_pipe_runs(
                self.tasks(),
                processes as int,
                threads as int,
                Min::<Identity>::of(Identity),
            ),
        ensures
            dist_pipe_reduces(
                self.tasks(),
                processes as int,
                threads as int,
                Min::<Identity>::of(Identity),
                out,
            ),
    {
        let sink: Min<Identity> = Min::new(Identity);
        dist_pipe(self, processes, threads, sink)
    }

    /// The smallest item of the stream by the order that `f` gives.
    fn min_by<F: Compare<Self::Item> + Copy>(
        self,
        processes: usize,
        threads: usize,
        f: F,
    ) -> (out: Option<Self::Item>)
        requires
            self.inv(),
            0 < processes,
            0 < threads,
            self.tasks().len() < usize::MAX,
            dist_pipe_runs(
                self.tasks(),
                processes as int,
                threads as int,
                MinBy::<Identity, F>::of(Identity, f),
            ),
        ensures
            dist_pipe_reduces(
                self.tasks(),
                processes as int,
                threads as int,
                MinBy::<Identity, F>::of(Identity, f),
                out,
            ),
    {
        let sink: MinBy<Identity, F> = MinBy::new(Identity, f);
        dist_pipe(self, processes, threads, sink)
    }

    /// The smallest item of the stream by the keys that `f` gives.
    fn min_by_key<B: Ord, F: Fn(&Self::Item) -> B + Copy>(
        self,
        processes: usize,
        threads: usize,
        f: F,
    ) -> (out: Option<Self::Item>)
        requires
            self.inv(),
            0 < processes,
            0 < threads,
            self.tasks().len() < usize::MAX,
            dist_pipe_runs(
                self.tasks(),
                processes as int,
                threads as int,
                MinByKey::<Identity, F>::of(Identity, f),
            ),
        ensures
            dist_pipe_reduces(
                self.tasks(),
                processes as int,
                threads as int,
                MinByKey::<Identity, F>::of(Identity, f),
                out,
            ),
    {
        let sink: MinByKey<Identity, F> = MinByKey::new(Identity, f);
        dist_pipe(self, processes, threads, sink)
    }

    /// Whether `f` holds on every item of the stream.
    fn all<F: Fn(Self::Item) -> bool + Copy>(
        self,
        processes: usize,
        threads: usize,
        f: F,
    ) -> (out: bool)
        requires
            self.inv(),
            0 < processes,
            0 < threads,
            self.tasks().len() < usize::MAX,
            dist_pipe_runs(
                self.tasks(),
                processes as int,
                threads as int,
                All::<Identity, F>::of(Identity, f),
            ),
        ensures
            dist_pipe_reduces(
                self.tasks(),
                processes as int,
                threads as int,
                All::<Identity, F>::of(Identity, f),
                out,
            ),
    {
        let sink: All<Identity, F> = All::new(Identity, f);
        dist_pipe(self, processes, threads, sink)
    }

    /// Whether `f` holds on some item of the stream.
    fn any<F: Fn(Self::Item) -> bool + Copy>(
        self,
        processes: usize,
        threads: usize,
        f: F,
    ) -> (out: bool)
        requires
            self.inv(),
            0 < processes,
            0 < threads,
            self.tasks().len() < usize::MAX,
            dist_pipe_runs(
                self.tasks(),
                processes as int,
                threads as int,
                Any::<Identity, F>::of(Identity, f),
            ),
        ensures
            dist_pipe_reduces(
                self.tasks(),
                processes as int,
                threads as int,
                Any::<Identity, F>::of(Identity, f),
                out,
            ),
    {
        let sink: Any<Identity, F> = Any::new(Identity, f);
        dist_pipe(self, processes, threads, sink)
    }

    /// A sample of at most `samples` of the items of the stream.
    fn sample_unstable(
        self,
        processes: usize,
        threads: usize,
        samples: usize,
    ) -> (out: Reservoir) where
        Self: TaskStream<Item = u64>,

        requires
            self.inv(),
            samples <= max_samples(),
            0 < processes,
            0 < threads,
            self.tasks().len() < usize::MAX,
            dist_pipe_runs(
                self.tasks(),
                processes as int, threads as int,
                SampleUnstable::<Identity>::of(Identity, samples),
            ),
        ensures
            dist_pipe_reduces(
                self.tasks(),
                processes as int, threads as int,
                SampleUnstable::<Identity>::of(Identity, samples),
                out,
            ),
    {
        let sink: SampleUnstable<Identity> = SampleUnstable::new(Identity, samples);
        dist_pipe(self, processes, threads, sink)
    }

    /// A summary of how often each item of the stream occurs, in a summary as
    /// `sketches` makes them.
    fn most_frequent<F: Factory>(
        self,
        processes: usize,
        threads: usize,
        sketches: F,
    ) -> (out: F::Item) where
        F::Item: Sketch<Self::Item>,

        requires
            self.inv(),
            sketches.inv(),
            0 < processes,
            0 < threads,
            self.tasks().len() < usize::MAX,
            dist_pipe_runs(
                self.tasks(),
                processes as int,
                threads as int,
                MostFrequent::<Identity, F>::of(Identity, sketches),
            ),
        ensures
            dist_pipe_reduces(
                self.tasks(),
                processes as int,
                threads as int,
                MostFrequent::<Identity, F>::of(Identity, sketches),
                out,
            ),
    {
        let sink: MostFrequent<Identity, F> = MostFrequent::new(Identity, sketches);
        dist_pipe(self, processes, threads, sink)
    }

    /// A summary of the distinct values that come with each key of a stream
    /// of pairs, in a summary as `sketches` makes them.
    fn most_distinct<A, B, F: Factory>(
        self,
        processes: usize,
        threads: usize,
        sketches: F,
    ) -> (out: F::Item) where
        Self: TaskStream<Item = (A, B)>,
        F::Item: Sketch<(A, B)>,

        requires
            self.inv(),
            sketches.inv(),
            0 < processes,
            0 < threads,
            self.tasks().len() < usize::MAX,
            dist_pipe_runs(
                self.tasks(),
                processes as int,
                threads as int,
                MostDistinct::<Identity, F>::of(Identity, sketches),
            ),
        ensures
            dist_pipe_reduces(
                self.tasks(),
                processes as int,
                threads as int,
                MostDistinct::<Identity, F>::of(Identity, sketches),
                out,
            ),
    {
        let sink: MostDistinct<Identity, F> = MostDistinct::new(Identity, sketches);
        dist_pipe(self, processes, threads, sink)
    }

    /// The items of the stream in a container of type `B`.
    fn collect<B: FromDistributedStream<Self::Item>>(
        self,
        processes: usize,
        threads: usize,
    ) -> (out: B)
        requires
            self.inv(),
            0 < processes,
            0 < threads,
            self.tasks().len() < usize::MAX,
            dist_pipe_runs(
                self.tasks(),
                processes as int,
                threads as int,
                Collect::<Identity, B>::of(Identity),
            ),
        ensures
            dist_pipe_reduces(
                self.tasks(),
                processes as int,
                threads as int,
                Collect::<Identity, B>::of(Identity),
                out,
            ),
    {
        let sink: Collect<Identity, B> = Collect::new(Identity);
        dist_pipe(self, processes, threads, sink)
    }
}

} // verus!
