//! Reducers: sinks that end in an output, and the factories that make them.

use vstd::prelude::*;
use crate::par_pipe::{DistributedPipe, ParallelPipe};
use crate::sink::{admits_all, offered, Sink};
use crate::stream::Poll;

pub mod all;
pub mod any;
pub mod collect;
pub mod combine;
pub mod count;
pub mod fold;
pub mod for_each;
pub mod group_by;
pub mod histogram;
pub mod max;
pub mod most_distinct;
pub mod most_frequent;
pub mod ordered;
pub mod reservoir;
pub mod sample;
pub mod sketch;
pub mod sum;
pub mod tuple;

verus! {

/// A sink that ends in an output.
pub trait ReducerAsync: Sink {
    type Output;

    /// Whether the output can be asked for in this state.
    spec fn ripe(&self) -> bool;

    /// Whether `out` may be the output of a reducer in this state.
    spec fn yields(&self, out: Self::Output) -> bool;

    /// Hands out the output. It is there at once: reducers do not suspend.
    fn poll_output(&mut self) -> (r: Poll<Self::Output>)
        requires
            old(self).inv(),
            old(self).ripe(),
        ensures
            r matches Poll::Ready(out) && old(self).yields(out),
    ;
}

/// A reducer before it is put to work.
pub trait Reducer: Sized {
    type Item;

    type Output;

    type Async: ReducerAsync<Item = Self::Item, Output = Self::Output>;

    /// The working form of this reducer.
    spec fn lowered(self) -> Self::Async;

    /// Turns the reducer into its working form.
    fn into_async(self) -> (a: Self::Async)
        ensures
            a == self.lowered(),
    ;
}

/// A maker of independent values of one kind, reducers for the most part.
pub trait Factory {
    type Item;

    /// Well-formedness of the factory.
    spec fn inv(&self) -> bool;

    /// Whether `item` is a value as this factory makes them.
    spec fn makes(&self, item: Self::Item) -> bool;

    /// Makes a fresh value.
    fn make(&self) -> (item: Self::Item)
        requires
            self.inv(),
        ensures
            self.makes(item),
    ;
}

/// Whether a reducer that starts as `start` and is handed `items` may end in
/// the output `out`.
pub open spec fn reduces<R: ReducerAsync>(start: R, items: Seq<R::Item>, out: R::Output) -> bool {
    exists|end: R| offered(start, items, end) && #[trigger] end.yields(out)
}

/// Whether a reducer that starts as `start` can be handed `items` and then be
/// asked for its output.
pub open spec fn runs_on<R: ReducerAsync>(start: R, items: Seq<R::Item>) -> bool {
    &&& start.inv()
    &&& admits_all(start, items)
    &&& forall|end: R| #[trigger] offered(start, items, end) ==> end.ripe()
}

/// The factory that makes the reducers of another factory and puts them to
/// work.
pub struct Lowering<F>(pub F);

impl<F: Factory> Factory for Lowering<F> where F::Item: Reducer {
    type Item = <F::Item as Reducer>::Async;

    open spec fn inv(&self) -> bool {
        self.0.inv()
    }

    open spec fn makes(&self, item: <F::Item as Reducer>::Async) -> bool {
        exists|reducer: F::Item| #[trigger] self.0.makes(reducer) && item == reducer.lowered()
    }

    fn make(&self) -> (item: <F::Item as Reducer>::Async) {
        self.0.make().into_async()
    }
}

/// A terminal operator for streams that run on the threads of one process: a
/// pipe, a factory of the reducers that the threads run, and the reducer that
/// takes the threads' outputs.
pub trait ParallelSink<Source>: Sized {
    type Output;

    type Pipe: ParallelPipe<Source>;

    type ReduceAFactory: Factory<Item = Self::ReduceA>;

    type ReduceA: Reducer<Item = <Self::Pipe as ParallelPipe<Source>>::Item>;

    type ReduceC: Reducer<Item = <Self::ReduceA as Reducer>::Output, Output = Self::Output>;

    /// Well-formedness of the operator.
    spec fn inv(&self) -> bool;

    /// Whether [`reducers`](ParallelSink::reducers) may hand out these parts.
    spec fn splits(self, pipe: Self::Pipe, a: Self::ReduceAFactory, c: Self::ReduceC) -> bool;

    /// Takes the operator apart.
    fn reducers(self) -> (r: (Self::Pipe, Self::ReduceAFactory, Self::ReduceC))
        requires
            self.inv(),
        ensures
            self.splits(r.0, r.1, r.2),
            r.0.inv(),
            r.1.inv(),
    ;
}

/// A terminal operator for streams that run on a pool of processes: a pipe, a
/// factory of the reducers that the threads run, a factory of the reducers
/// that take the outputs of the threads of one process, and the reducer that
/// takes the processes' outputs.
pub trait DistributedSink<Source>: Sized {
    type Output;

    type Pipe: DistributedPipe<Source>;

    type ReduceAFactory: Factory<Item = Self::ReduceA>;

    type ReduceBFactory: Factory<Item = Self::ReduceB>;

    type ReduceA: Reducer<Item = <Self::Pipe as ParallelPipe<Source>>::Item>;

    type ReduceB: Reducer<Item = <Self::ReduceA as Reducer>::Output>;

    type ReduceC: Reducer<Item = <Self::ReduceB as Reducer>::Output, Output = Self::Output>;

    /// Well-formedness of the operator.
    spec fn inv(&self) -> bool;

    /// Whether [`reducers`](DistributedSink::reducers) may hand out these
    /// parts.
    spec fn splits(
        self,
        pipe: Self::Pipe,
        a: Self::ReduceAFactory,
        b: Self::ReduceBFactory,
        c: Self::ReduceC,
    ) -> bool;

    /// Takes the operator apart.
    fn reducers(self) -> (r: (
        Self::Pipe,
        Self::ReduceAFactory,
        Self::ReduceBFactory,
        Self::ReduceC,
    ))
        requires
            self.inv(),
        ensures
            self.splits(r.0, r.1, r.2, r.3),
            r.0.inv(),
            r.1.inv(),
            r.2.inv(),
    ;
}

} // verus!
