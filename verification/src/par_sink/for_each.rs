//! Calling a function on every item.

use vstd::prelude::*;
use std::marker::PhantomData;
use crate::par_pipe::{DistributedPipe, ParallelPipe};
use crate::par_sink::collect::PushReducer;
use crate::par_sink::{DistributedSink, Factory, ParallelSink, Reducer, ReducerAsync};
use crate::sink::{Intake, Sink};
use crate::stream::Poll;

verus! {

/// The terminal operator that calls `f` on every item that the pipe `i` hands
/// out.
pub struct ForEach<I, F> {
    pub i: I,
    pub f: F,
}

impl<I, F> ForEach<I, F> {
    /// The operator as [`new`](ForEach::new) makes it.
    pub open spec fn of(i: I, f: F) -> Self {
        ForEach { i, f }
    }

    pub fn new(i: I, f: F) -> (s: Self)
        ensures
            s == Self::of(i, f),
    {
        ForEach { i, f }
    }
}

/// The maker of reducers that call `.0` on every item.
pub struct ForEachReducerFactory<A, F>(pub F, pub PhantomData<A>);

impl<A, F: Fn(A) + Copy> Factory for ForEachReducerFactory<A, F> {
    type Item = ForEachReducer<A, F>;

    open spec fn inv(&self) -> bool {
        true
    }

    open spec fn makes(&self, item: ForEachReducer<A, F>) -> bool {
        item.0 == self.0
    }

    fn make(&self) -> (item: ForEachReducer<A, F>) {
        ForEachReducer(self.0, PhantomData)
    }
}

/// The reducer that calls `.0` on every item and gives nothing.
pub struct ForEachReducer<A, F>(pub F, pub PhantomData<A>);

impl<A, F: Fn(A)> Intake for ForEachReducer<A, F> {
    type Item = A;

    open spec fn inv(&self) -> bool {
        true
    }

    open spec fn wants(&self) -> bool {
        true
    }

    open spec fn admits(&self, item: A) -> bool {
        call_requires(self.0, (item,))
    }

    open spec fn absorbs(&self, item: A, next: Self) -> bool {
        next.0 == self.0 && call_ensures(self.0, (item,), ())
    }
}

impl<A, F: Fn(A)> Sink for ForEachReducer<A, F> {
    fn accepting(&self) -> (b: bool) {
        true
    }

    fn push(&mut self, item: A) {
        (self.0)(item);
    }
}

impl<A, F: Fn(A)> ReducerAsync for ForEachReducer<A, F> {
    type Output = ();

    open spec fn ripe(&self) -> bool {
        true
    }

    open spec fn yields(&self, out: ()) -> bool {
        true
    }

    fn poll_output(&mut self) -> (r: Poll<()>) {
        Poll::Ready(())
    }
}

impl<A, F: Fn(A)> Reducer for ForEachReducer<A, F> {
    type Item = A;

    type Output = ();

    type Async = Self;

    open spec fn lowered(self) -> Self {
        self
    }

    fn into_async(self) -> (a: Self) {
        self
    }
}

/// The maker of reducers that take in units.
pub struct UnitReducerFactory;

impl Factory for UnitReducerFactory {
    type Item = PushReducer<(), ()>;

    open spec fn inv(&self) -> bool {
        true
    }

    open spec fn makes(&self, item: PushReducer<(), ()>) -> bool {
        item.0 == Some(())
    }

    fn make(&self) -> (item: PushReducer<(), ()>) {
        PushReducer::new(())
    }
}

impl<Source, I: ParallelPipe<Source>, F: Fn(I::Item) + Copy> ParallelSink<Source> for ForEach<I, F> {
    type Output = ();

    type Pipe = I;

    type ReduceAFactory = ForEachReducerFactory<I::Item, F>;

    type ReduceA = ForEachReducer<I::Item, F>;

    type ReduceC = PushReducer<(), ()>;

    open spec fn inv(&self) -> bool {
        self.i.inv()
    }

    open spec fn splits(
        self,
        pipe: I,
        a: ForEachReducerFactory<I::Item, F>,
        c: PushReducer<(), ()>,
    ) -> bool {
        pipe == self.i && a.0 == self.f && c.0 == Some(())
    }

    fn reducers(self) -> (r: (I, ForEachReducerFactory<I::Item, F>, PushReducer<(), ()>)) {
        let a: ForEachReducerFactory<I::Item, F> = ForEachReducerFactory(self.f, PhantomData);
        assert(a.inv());
        (self.i, a, PushReducer::new(()))
    }
}

impl<Source, I: DistributedPipe<Source>, F: Fn(I::Item) + Copy> DistributedSink<Source> for ForEach<
    I,
    F,
> {
    type Output = ();

    type Pipe = I;

    type ReduceAFactory = ForEachReducerFactory<I::Item, F>;

    type ReduceBFactory = UnitReducerFactory;

    type ReduceA = ForEachReducer<I::Item, F>;

    type ReduceB = PushReducer<(), ()>;

    type ReduceC = PushReducer<(), ()>;

    open spec fn inv(&self) -> bool {
        self.i.inv()
    }

    open spec fn splits(
        self,
        pipe: I,
        a: ForEachReducerFactory<I::Item, F>,
        b: UnitReducerFactory,
        c: PushReducer<(), ()>,
    ) -> bool {
        pipe == self.i && a.0 == self.f && c.0 == Some(())
    }

    fn reducers(self) -> (r: (
        I,
        ForEachReducerFactory<I::Item, F>,
        UnitReducerFactory,
        PushReducer<(), ()>,
    )) {
        let a: ForEachReducerFactory<I::Item, F> = ForEachReducerFactory(self.f, PhantomData);
        let b = UnitReducerFactory;
        assert(a.inv());
        assert(b.inv());
        (self.i, a, b, PushReducer::new(()))
    }
}

} // verus!
