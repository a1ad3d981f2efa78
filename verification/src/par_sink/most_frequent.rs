//! The most frequent items of a stream.

use vstd::prelude::*;
use std::marker::PhantomData;
use crate::par_pipe::{DistributedPipe, ParallelPipe};
use crate::par_sink::sample::{NonzeroReduceFactory, NonzeroReducer};
use crate::par_sink::sketch::Sketch;
use crate::par_sink::sum::{SumReducer, SumReducerFactory};
use crate::par_sink::{DistributedSink, Factory, ParallelSink, Reducer, ReducerAsync};
use crate::sink::{Intake, Sink};
use crate::stream::Poll;

verus! {

/// The terminal operator that summarizes how often each occurs of the items that the pipe
/// `i` hands out, in summaries as `sketches` makes them.
pub struct MostFrequent<I, F> {
    pub i: I,
    pub sketches: F,
}

impl<I, F> MostFrequent<I, F> {
    /// The operator as [`new`](MostFrequent::new) makes it.
    pub open spec fn of(i: I, sketches: F) -> Self {
        MostFrequent { i, sketches }
    }

    pub fn new(i: I, sketches: F) -> (s: Self)
        ensures
            s == Self::of(i, sketches),
    {
        MostFrequent { i, sketches }
    }
}

impl<Source, I, F> ParallelSink<Source> for MostFrequent<I, F> where
    I: ParallelPipe<Source>,
    F: Factory,
    F::Item: Sketch<I::Item>,
 {
    type Output = F::Item;

    type Pipe = I;

    type ReduceAFactory = MostFrequentReduceFactory<I::Item, F>;

    type ReduceA = MostFrequentReducer<I::Item, F::Item>;

    type ReduceC = NonzeroReducer<SumReducer<F::Item, Option<F::Item>>>;

    open spec fn inv(&self) -> bool {
        self.i.inv() && self.sketches.inv()
    }

    open spec fn splits(
        self,
        pipe: I,
        a: MostFrequentReduceFactory<I::Item, F>,
        c: NonzeroReducer<SumReducer<F::Item, Option<F::Item>>>,
    ) -> bool {
        &&& pipe == self.i
        &&& a.0 == self.sketches
        &&& c.0.0 matches Some(sketch) && self.sketches.makes(sketch)
    }

    fn reducers(self) -> (r: (
        I,
        MostFrequentReduceFactory<I::Item, F>,
        NonzeroReducer<SumReducer<F::Item, Option<F::Item>>>,
    )) {
        let c = NonzeroReducer(SumReducer(Some(self.sketches.make()), PhantomData));
        let a: MostFrequentReduceFactory<I::Item, F> = MostFrequentReduceFactory(
            self.sketches,
            PhantomData,
        );
        assert(a.inv());
        (self.i, a, c)
    }
}

impl<Source, I, F> DistributedSink<Source> for MostFrequent<I, F> where
    I: DistributedPipe<Source>,
    F: Factory,
    F::Item: Sketch<I::Item>,
 {
    type Output = F::Item;

    type Pipe = I;

    type ReduceAFactory = MostFrequentReduceFactory<I::Item, F>;

    type ReduceBFactory = NonzeroReduceFactory<SumReducerFactory<F::Item, Option<F::Item>>>;

    type ReduceA = MostFrequentReducer<I::Item, F::Item>;

    type ReduceB = NonzeroReducer<SumReducer<F::Item, Option<F::Item>>>;

    type ReduceC = NonzeroReducer<SumReducer<F::Item, Option<F::Item>>>;

    open spec fn inv(&self) -> bool {
        self.i.inv() && self.sketches.inv()
    }

    open spec fn splits(
        self,
        pipe: I,
        a: MostFrequentReduceFactory<I::Item, F>,
        b: NonzeroReduceFactory<SumReducerFactory<F::Item, Option<F::Item>>>,
        c: NonzeroReducer<SumReducer<F::Item, Option<F::Item>>>,
    ) -> bool {
        &&& pipe == self.i
        &&& a.0 == self.sketches
        &&& c.0.0 matches Some(sketch) && self.sketches.makes(sketch)
    }

    fn reducers(self) -> (r: (
        I,
        MostFrequentReduceFactory<I::Item, F>,
        NonzeroReduceFactory<SumReducerFactory<F::Item, Option<F::Item>>>,
        NonzeroReducer<SumReducer<F::Item, Option<F::Item>>>,
    )) {
        let c = NonzeroReducer(SumReducer(Some(self.sketches.make()), PhantomData));
        let a: MostFrequentReduceFactory<I::Item, F> = MostFrequentReduceFactory(
            self.sketches,
            PhantomData,
        );
        let b: NonzeroReduceFactory<SumReducerFactory<F::Item, Option<F::Item>>> =
            NonzeroReduceFactory(SumReducerFactory(PhantomData));
        assert(a.inv());
        assert(b.inv());
        (self.i, a, b, c)
    }
}

/// The maker of reducers that summarize how often each occurs of their items, each in a
/// fresh summary of `.0`.
pub struct MostFrequentReduceFactory<A, F>(pub F, pub PhantomData<A>);

impl<A, F: Factory> Factory for MostFrequentReduceFactory<A, F> where F::Item: Sketch<A> {
    type Item = MostFrequentReducer<A, F::Item>;

    open spec fn inv(&self) -> bool {
        self.0.inv()
    }

    open spec fn makes(&self, item: MostFrequentReducer<A, F::Item>) -> bool {
        item.0 matches Some(sketch) && self.0.makes(sketch)
    }

    fn make(&self) -> (item: MostFrequentReducer<A, F::Item>) {
        MostFrequentReducer(Some(self.0.make()), PhantomData)
    }
}

impl<A, F: Copy> Clone for MostFrequentReduceFactory<A, F> {
    fn clone(&self) -> (c: Self)
        ensures
            c == *self,
    {
        MostFrequentReduceFactory(self.0, PhantomData)
    }
}

/// The reducer that summarizes how often each occurs of its items. It holds the summary
/// until it is asked for its output.
pub struct MostFrequentReducer<A, S>(pub Option<S>, pub PhantomData<A>);

impl<A, S: Sketch<A>> Intake for MostFrequentReducer<A, S> {
    type Item = A;

    open spec fn inv(&self) -> bool {
        self.0 is Some
    }

    open spec fn wants(&self) -> bool {
        true
    }

    open spec fn admits(&self, item: A) -> bool {
        self.0 matches Some(sketch) && sketch.admits(item)
    }

    open spec fn absorbs(&self, item: A, next: Self) -> bool {
        self.0 matches Some(before) && next.0 matches Some(after) && before.visited(item, after)
    }
}

impl<A, S: Sketch<A>> Sink for MostFrequentReducer<A, S> {
    fn accepting(&self) -> (b: bool) {
        true
    }

    fn push(&mut self, item: A) {
        let mut sketch = self.0.take().unwrap();
        sketch.visit(item);
        self.0 = Some(sketch);
    }
}

impl<A, S: Sketch<A>> ReducerAsync for MostFrequentReducer<A, S> {
    type Output = S;

    open spec fn ripe(&self) -> bool {
        true
    }

    open spec fn yields(&self, out: S) -> bool {
        self.0 == Some(out)
    }

    fn poll_output(&mut self) -> (r: Poll<S>) {
        Poll::Ready(self.0.take().unwrap())
    }
}

impl<A, S: Sketch<A>> Reducer for MostFrequentReducer<A, S> {
    type Item = A;

    type Output = S;

    type Async = Self;

    open spec fn lowered(self) -> Self {
        self
    }

    fn into_async(self) -> (a: Self) {
        self
    }
}

} // verus!
