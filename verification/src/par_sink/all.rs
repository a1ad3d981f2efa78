//! Whether the predicate holds on every item.

use vstd::prelude::*;
use std::marker::PhantomData;
use crate::par_pipe::{DistributedPipe, ParallelPipe};
use crate::par_sink::{DistributedSink, Factory, ParallelSink, Reducer, ReducerAsync};
use crate::sink::{Intake, Sink};
use crate::stream::Poll;

verus! {

/// The terminal operator that tells whether `f` holds on every of the
/// items that the pipe `i` hands out.
pub struct All<I, F> {
    pub i: I,
    pub f: F,
}

impl<I, F> All<I, F> {
    /// The operator as [`new`](All::new) makes it.
    pub open spec fn of(i: I, f: F) -> Self {
        All { i, f }
    }

    pub fn new(i: I, f: F) -> (s: Self)
        ensures
            s == Self::of(i, f),
    {
        All { i, f }
    }
}

impl<Source, I: ParallelPipe<Source>, F: Fn(I::Item) -> bool + Copy> ParallelSink<Source> for All<
    I,
    F,
> {
    type Output = bool;

    type Pipe = I;

    type ReduceAFactory = AllReduceFactory<I::Item, F>;

    type ReduceA = AllReducer<I::Item, F>;

    type ReduceC = BoolAndReducer;

    open spec fn inv(&self) -> bool {
        self.i.inv()
    }

    open spec fn splits(self, pipe: I, a: AllReduceFactory<I::Item, F>, c: BoolAndReducer) -> bool {
        pipe == self.i && a.0 == self.f && c.0
    }

    fn reducers(self) -> (r: (I, AllReduceFactory<I::Item, F>, BoolAndReducer)) {
        let r = (self.i, AllReduceFactory(self.f, PhantomData), BoolAndReducer(true));
        assert(Factory::inv(&r.1));
        r
    }
}

impl<Source, I: DistributedPipe<Source>, F: Fn(I::Item) -> bool + Copy> DistributedSink<
    Source,
> for All<I, F> {
    type Output = bool;

    type Pipe = I;

    type ReduceAFactory = AllReduceFactory<I::Item, F>;

    type ReduceBFactory = BoolAndReduceFactory;

    type ReduceA = AllReducer<I::Item, F>;

    type ReduceB = BoolAndReducer;

    type ReduceC = BoolAndReducer;

    open spec fn inv(&self) -> bool {
        self.i.inv()
    }

    open spec fn splits(
        self,
        pipe: I,
        a: AllReduceFactory<I::Item, F>,
        b: BoolAndReduceFactory,
        c: BoolAndReducer,
    ) -> bool {
        pipe == self.i && a.0 == self.f && c.0
    }

    fn reducers(self) -> (r: (
        I,
        AllReduceFactory<I::Item, F>,
        BoolAndReduceFactory,
        BoolAndReducer,
    )) {
        let r = (
            self.i,
            AllReduceFactory(self.f, PhantomData),
            BoolAndReduceFactory,
            BoolAndReducer(true),
        );
        assert(Factory::inv(&r.1));
        assert(Factory::inv(&r.2));
        r
    }
}

/// The maker of reducers that tell whether `.0` holds on every of their items.
pub struct AllReduceFactory<A, F>(pub F, pub PhantomData<A>);

impl<A, F: Fn(A) -> bool + Copy> Factory for AllReduceFactory<A, F> {
    type Item = AllReducer<A, F>;

    open spec fn inv(&self) -> bool {
        true
    }

    open spec fn makes(&self, item: AllReducer<A, F>) -> bool {
        item.0 == self.0 && item.1
    }

    fn make(&self) -> (item: AllReducer<A, F>) {
        AllReducer(self.0, true, PhantomData)
    }
}

impl<A, F: Copy> Clone for AllReduceFactory<A, F> {
    fn clone(&self) -> (c: Self)
        ensures
            c == *self,
    {
        AllReduceFactory(self.0, PhantomData)
    }
}

/// The reducer that tells whether `.0` holds on every of its items. `.1`
/// says that the answer is still open: that it has held on every item so far. Once the answer is
/// decided the reducer wants no more items.
pub struct AllReducer<A, F>(pub F, pub bool, pub PhantomData<A>);

impl<A, F: Fn(A) -> bool> Intake for AllReducer<A, F> {
    type Item = A;

    open spec fn inv(&self) -> bool {
        true
    }

    open spec fn wants(&self) -> bool {
        self.1
    }

    open spec fn admits(&self, item: A) -> bool {
        call_requires(self.0, (item,))
    }

    open spec fn absorbs(&self, item: A, next: Self) -> bool {
        next.0 == self.0 && call_ensures(self.0, (item,), next.1)
    }
}

impl<A, F: Fn(A) -> bool> Sink for AllReducer<A, F> {
    fn accepting(&self) -> (b: bool) {
        self.1
    }

    fn push(&mut self, item: A) {
        self.1 = self.1 && (self.0)(item);
    }
}

impl<A, F: Fn(A) -> bool> ReducerAsync for AllReducer<A, F> {
    type Output = bool;

    open spec fn ripe(&self) -> bool {
        true
    }

    open spec fn yields(&self, out: bool) -> bool {
        out == self.1
    }

    fn poll_output(&mut self) -> (r: Poll<bool>) {
        Poll::Ready(self.1)
    }
}

impl<A, F: Fn(A) -> bool> Reducer for AllReducer<A, F> {
    type Item = A;

    type Output = bool;

    type Async = Self;

    open spec fn lowered(self) -> Self {
        self
    }

    fn into_async(self) -> (a: Self) {
        self
    }
}

/// The maker of reducers that tell whether all of their items are true.
pub struct BoolAndReduceFactory;

impl Factory for BoolAndReduceFactory {
    type Item = BoolAndReducer;

    open spec fn inv(&self) -> bool {
        true
    }

    open spec fn makes(&self, item: BoolAndReducer) -> bool {
        item.0
    }

    fn make(&self) -> (item: BoolAndReducer) {
        BoolAndReducer(true)
    }
}

/// The reducer that tells whether all of their items are true. `.0` says that the answer is
/// still open. Once the answer is decided the reducer wants no more items.
pub struct BoolAndReducer(pub bool);

impl Intake for BoolAndReducer {
    type Item = bool;

    open spec fn inv(&self) -> bool {
        true
    }

    open spec fn wants(&self) -> bool {
        self.0
    }

    open spec fn admits(&self, item: bool) -> bool {
        true
    }

    open spec fn absorbs(&self, item: bool, next: Self) -> bool {
        next.0 == item
    }
}

impl Sink for BoolAndReducer {
    fn accepting(&self) -> (b: bool) {
        self.0
    }

    fn push(&mut self, item: bool) {
        self.0 = self.0 && item;
    }
}

impl ReducerAsync for BoolAndReducer {
    type Output = bool;

    open spec fn ripe(&self) -> bool {
        true
    }

    open spec fn yields(&self, out: bool) -> bool {
        out == self.0
    }

    fn poll_output(&mut self) -> (r: Poll<bool>) {
        Poll::Ready(self.0)
    }
}

impl Reducer for BoolAndReducer {
    type Item = bool;

    type Output = bool;

    type Async = Self;

    open spec fn lowered(self) -> Self {
        self
    }

    fn into_async(self) -> (a: Self) {
        self
    }
}

} // verus!
