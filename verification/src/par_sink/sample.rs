//! Sampling items without replacement, and taking the value out of an
//! optional output.

use vstd::prelude::*;
use std::marker::PhantomData;
use crate::par_pipe::{DistributedPipe, ParallelPipe};
use crate::par_sink::reservoir::{
    can_visit, max_samples, Reservoir, reservoir_new, reservoir_push, sample_capacity, sample_items,
    sample_seen, visits,
};
use crate::par_sink::sum::{SumReducer, SumReducerFactory};
use crate::par_sink::{DistributedSink, Factory, ParallelSink, Reducer, ReducerAsync};
use crate::sink::{Intake, Sink};
use crate::stream::Poll;

pub mod bounds;
pub mod fits;

verus! {

/// The terminal operator that draws a sample of at most `samples` of the
/// items that the pipe `i` hands out.
pub struct SampleUnstable<I> {
    pub i: I,
    pub samples: usize,
}

impl<I> SampleUnstable<I> {
    /// The operator as [`new`](SampleUnstable::new) makes it.
    pub open spec fn of(i: I, samples: usize) -> Self {
        SampleUnstable { i, samples }
    }

    pub fn new(i: I, samples: usize) -> (s: Self)
        ensures
            s == Self::of(i, samples),
    {
        SampleUnstable { i, samples }
    }
}

impl<Source, I: ParallelPipe<Source, Item = u64>> ParallelSink<Source> for SampleUnstable<I> {
    type Output = Reservoir;

    type Pipe = I;

    type ReduceAFactory = SampleUnstableReduceFactory<u64>;

    type ReduceA = SampleUnstableReducer;

    type ReduceC = SumReducer<Reservoir, Reservoir>;

    open spec fn inv(&self) -> bool {
        self.i.inv() && self.samples <= max_samples()
    }

    open spec fn splits(
        self,
        pipe: I,
        a: SampleUnstableReduceFactory<u64>,
        c: SumReducer<Reservoir, Reservoir>,
    ) -> bool {
        &&& pipe == self.i
        &&& a.0 == self.samples
        &&& sample_items(c.0) == Seq::<u64>::empty()
        &&& sample_seen(c.0) == 0
        &&& sample_capacity(c.0) == self.samples
    }

    fn reducers(self) -> (r: (
        I,
        SampleUnstableReduceFactory<u64>,
        SumReducer<Reservoir, Reservoir>,
    )) {
        let a: SampleUnstableReduceFactory<u64> = SampleUnstableReduceFactory(
            self.samples,
            PhantomData,
        );
        assert(a.inv());
        (self.i, a, SumReducer(reservoir_new(self.samples), PhantomData))
    }
}

impl<Source, I: DistributedPipe<Source, Item = u64>> DistributedSink<Source> for SampleUnstable<I> {
    type Output = Reservoir;

    type Pipe = I;

    type ReduceAFactory = SampleUnstableReduceFactory<u64>;

    type ReduceBFactory = SumReducerFactory<Reservoir, Reservoir>;

    type ReduceA = SampleUnstableReducer;

    type ReduceB = SumReducer<Reservoir, Reservoir>;

    type ReduceC = SumReducer<Reservoir, Reservoir>;

    open spec fn inv(&self) -> bool {
        self.i.inv() && self.samples <= max_samples()
    }

    open spec fn splits(
        self,
        pipe: I,
        a: SampleUnstableReduceFactory<u64>,
        b: SumReducerFactory<Reservoir, Reservoir>,
        c: SumReducer<Reservoir, Reservoir>,
    ) -> bool {
        &&& pipe == self.i
        &&& a.0 == self.samples
        &&& sample_items(c.0) == Seq::<u64>::empty()
        &&& sample_seen(c.0) == 0
        &&& sample_capacity(c.0) == self.samples
    }

    fn reducers(self) -> (r: (
        I,
        SampleUnstableReduceFactory<u64>,
        SumReducerFactory<Reservoir, Reservoir>,
        SumReducer<Reservoir, Reservoir>,
    )) {
        let a: SampleUnstableReduceFactory<u64> = SampleUnstableReduceFactory(
            self.samples,
            PhantomData,
        );
        let b: SumReducerFactory<Reservoir, Reservoir> = SumReducerFactory(PhantomData);
        assert(a.inv());
        assert(b.inv());
        (self.i, a, b, SumReducer(reservoir_new(self.samples), PhantomData))
    }
}

/// The maker of reducers that draw a sample of at most `.0` items.
pub struct SampleUnstableReduceFactory<A>(pub usize, pub PhantomData<A>);

impl Factory for SampleUnstableReduceFactory<u64> {
    type Item = SampleUnstableReducer;

    open spec fn inv(&self) -> bool {
        self.0 <= max_samples()
    }

    open spec fn makes(&self, item: SampleUnstableReducer) -> bool {
        &&& item.0 matches Some(reservoir)
        &&& sample_items(reservoir) == Seq::<u64>::empty()
        &&& sample_seen(reservoir) == 0
        &&& sample_capacity(reservoir) == self.0
    }

    fn make(&self) -> (item: SampleUnstableReducer) {
        SampleUnstableReducer(Some(reservoir_new(self.0)))
    }
}

impl<A> Clone for SampleUnstableReduceFactory<A> {
    fn clone(&self) -> (c: Self)
        ensures
            c == *self,
    {
        SampleUnstableReduceFactory(self.0, PhantomData)
    }
}

/// The reducer that draws a sample of its items. It holds the reservoir until
/// it is asked for its output.
pub struct SampleUnstableReducer(pub Option<Reservoir>);

impl Intake for SampleUnstableReducer {
    type Item = u64;

    open spec fn inv(&self) -> bool {
        self.0.is_some()
    }

    open spec fn wants(&self) -> bool {
        true
    }

    open spec fn admits(&self, item: u64) -> bool {
        self.0 matches Some(reservoir) && can_visit(reservoir)
    }

    open spec fn absorbs(&self, item: u64, next: Self) -> bool {
        self.0 matches Some(before) && next.0 matches Some(after) && visits(before, item, after)
    }
}

impl Sink for SampleUnstableReducer {
    fn accepting(&self) -> (b: bool) {
        true
    }

    fn push(&mut self, item: u64) {
        let mut reservoir = self.0.take().unwrap();
        reservoir_push(&mut reservoir, item);
        self.0 = Some(reservoir);
    }
}

impl ReducerAsync for SampleUnstableReducer {
    type Output = Reservoir;

    open spec fn ripe(&self) -> bool {
        true
    }

    open spec fn yields(&self, out: Reservoir) -> bool {
        self.0 == Some(out)
    }

    fn poll_output(&mut self) -> (r: Poll<Reservoir>) {
        Poll::Ready(self.0.take().unwrap())
    }
}

impl Reducer for SampleUnstableReducer {
    type Item = u64;

    type Output = Reservoir;

    type Async = Self;

    open spec fn lowered(self) -> Self {
        self
    }

    fn into_async(self) -> (a: Self) {
        self
    }
}

/// The maker of reducers that take the value out of the optional output of
/// the reducers of `.0`.
pub struct NonzeroReduceFactory<RF>(pub RF);

impl<RF, B> Factory for NonzeroReduceFactory<RF> where RF: Factory, RF::Item: ReducerAsync<Output = Option<B>> {
    type Item = NonzeroReducer<RF::Item>;

    open spec fn inv(&self) -> bool {
        self.0.inv()
    }

    open spec fn makes(&self, item: NonzeroReducer<RF::Item>) -> bool {
        self.0.makes(item.0)
    }

    fn make(&self) -> (item: NonzeroReducer<RF::Item>) {
        NonzeroReducer(self.0.make())
    }
}

/// The reducer that does what `R` does and takes the value out of its
/// optional output. Its output can be asked for only where `R` cannot give
/// `None`.
pub struct NonzeroReducer<R>(pub R);

impl<R, B> Intake for NonzeroReducer<R> where R: ReducerAsync<Output = Option<B>> {
    type Item = R::Item;

    open spec fn inv(&self) -> bool {
        self.0.inv()
    }

    open spec fn wants(&self) -> bool {
        self.0.wants()
    }

    open spec fn admits(&self, item: R::Item) -> bool {
        self.0.admits(item)
    }

    open spec fn absorbs(&self, item: R::Item, next: Self) -> bool {
        self.0.absorbs(item, next.0)
    }
}

impl<R, B> Sink for NonzeroReducer<R> where R: ReducerAsync<Output = Option<B>> {
    fn accepting(&self) -> (b: bool) {
        self.0.accepting()
    }

    fn push(&mut self, item: R::Item) {
        self.0.push(item);
    }
}

impl<R, B> Reducer for NonzeroReducer<R> where R: Reducer<Output = Option<B>> {
    type Item = R::Item;

    type Output = B;

    type Async = NonzeroReducer<R::Async>;

    open spec fn lowered(self) -> NonzeroReducer<R::Async> {
        NonzeroReducer(self.0.lowered())
    }

    fn into_async(self) -> (a: NonzeroReducer<R::Async>) {
        NonzeroReducer(self.0.into_async())
    }
}

impl<R, B> ReducerAsync for NonzeroReducer<R> where R: ReducerAsync<Output = Option<B>> {
    type Output = B;

    open spec fn ripe(&self) -> bool {
        &&& self.0.ripe()
        &&& forall|out: Option<B>| #[trigger] self.0.yields(out) ==> out.is_some()
    }

    open spec fn yields(&self, out: B) -> bool {
        self.0.yields(Some(out))
    }

    fn poll_output(&mut self) -> (r: Poll<B>) {
        match self.0.poll_output() {
            Poll::Ready(item) => Poll::Ready(item.unwrap()),
            Poll::Pending => Poll::Pending,
        }
    }
}

} // verus!
