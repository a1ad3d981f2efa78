//! Whether the predicate holds on some item.

use vstd::prelude::*;
use std::marker::PhantomData;
use crate::par_pipe::{DistributedPipe, ParallelPipe};
use crate::par_sink::{DistributedSink, Factory, ParallelSink, Reducer, ReducerAsync};
use crate::sink::{Intake, Sink};
use crate::stream::Poll;

verus! {

/// The terminal operator that tells whether `f` holds on some of the
/// items that the pipe `i` hands out.
pub struct Any<I, F> {
    pub i: I,
    pub f: F,
}

impl<I, F> Any<I, F> {
    /// The operator as [`new`](Any::new) makes it.
    pub open spec fn of(i: I, f: F) -> Self {
        Any { i, f }
    }

    pub fn new(i: I, f: F) -> (s: Self)
        ensures
            s == Self::of(i, f),
    {
        Any { i, f }
    }
}

impl<Source, I: ParallelPipe<Source>, F: Fn(I::Item) -> bool + Copy> ParallelSink<Source> for Any<
    I,
    F,
> {
    type Output = bool;

    type Pipe = I;

    type ReduceAFactory = AnyReduceFactory<I::Item, F>;

    type ReduceA = AnyReducer<I::Item, F>;

    type ReduceC = BoolOrReducer;

    open spec fn inv(&self) -> bool {
        self.i.inv()
    }

    open spec fn splits(self, pipe: I, a: AnyReduceFactory<I::Item, F>, c: BoolOrReducer) -> bool {
        pipe == self.i && a.0 == self.f && c.0
    }

    fn reducers(self) -> (r: (I, AnyReduceFactory<I::Item, F>, BoolOrReducer)) {
        let r = (self.i, AnyReduceFactory(self.f, PhantomData), BoolOrReducer(true));
        assert(Factory::inv(&r.1));
        r
    }
}

impl<Source, I: DistributedPipe<Source>, F: Fn(I::Item) -> bool + Copy> DistributedSink<
    Source,
> for Any<I, F> {
    type Output = bool;

    type Pipe = I;

    type ReduceAFactory = AnyReduceFactory<I::Item, F>;

    type ReduceBFactory = BoolOrReduceFactory;

    type ReduceA = AnyReducer<I::Item, F>;

    type ReduceB = BoolOrReducer;

    type ReduceC = BoolOrReducer;

    open spec fn inv(&self) -> bool {
        self.i.inv()
    }

    open spec fn splits(
        self,
        pipe: I,
        a: AnyReduceFactory<I::Item, F>,
        b: BoolOrReduceFactory,
        c: BoolOrReducer,
    ) -> bool {
        pipe == self.i && a.0 == self.f && c.0
    }

    fn reducers(self) -> (r: (
        I,
        AnyReduceFactory<I::Item, F>,
        BoolOrReduceFactory,
        BoolOrReducer,
    )) {
        let r = (
            self.i,
            AnyReduceFactory(self.f, PhantomData),
            BoolOrReduceFactory,
            BoolOrReducer(true),
        );
        assert(Factory::inv(&r.1));
        assert(Factory::inv(&r.2));
        r
    }
}

/// The maker of reducers that tell whether `.0` holds on some of their items.
pub struct AnyReduceFactory<A, F>(pub F, pub PhantomData<A>);

impl<A, F: Fn(A) -> bool + Copy> Factory for AnyReduceFactory<A, F> {
    type Item = AnyReducer<A, F>;

    open spec fn inv(&self) -> bool {
        true
    }

    open spec fn makes(&self, item: AnyReducer<A, F>) -> bool {
        item.0 == self.0 && item.1
    }

    fn make(&self) -> (item: AnyReducer<A, F>) {
        AnyReducer(self.0, true, PhantomData)
    }
}

impl<A, F: Copy> Clone for AnyReduceFactory<A, F> {
    fn clone(&self) -> (c: Self)
        ensures
            c == *self,
    {
        AnyReduceFactory(self.0, PhantomData)
    }
}

/// The reducer that tells whether `.0` holds on some of its items. `.1`
/// says that the answer is still open: that it has held on no item so far. Once the answer is
/// decided the reducer wants no more items.
pub struct AnyReducer<A, F>(pub F, pub bool, pub PhantomData<A>);

impl<A, F: Fn(A) -> bool> Intake for AnyReducer<A, F> {
    type Item = A;

    open spec fn inv(&self) -> bool {
        true
    }

    open spec fn wants(&self) -> bool {
        self.1
    }

    open spec fn admits(&self, item: A) -> bool {
        call_requires(self.0, (item,))
    }

    open spec fn absorbs(&self, item: A, next: Self) -> bool {
        next.0 == self.0 && call_ensures(self.0, (item,), !next.1)
    }
}

impl<A, F: Fn(A) -> bool> Sink for AnyReducer<A, F> {
    fn accepting(&self) -> (b: bool) {
        self.1
    }

    fn push(&mut self, item: A) {
        self.1 = self.1 && !(self.0)(item);
    }
}

impl<A, F: Fn(A) -> bool> ReducerAsync for AnyReducer<A, F> {
    type Output = bool;

    open spec fn ripe(&self) -> bool {
        true
    }

    open spec fn yields(&self, out: bool) -> bool {
        out == !self.1
    }

    fn poll_output(&mut self) -> (r: Poll<bool>) {
        Poll::Ready(!self.1)
    }
}

impl<A, F: Fn(A) -> bool> Reducer for AnyReducer<A, F> {
    type Item = A;

    type Output = bool;

    type Async = Self;

    open spec fn lowered(self) -> Self {
        self
    }

    fn into_async(self) -> (a: Self) {
        self
    }
}

/// The maker of reducers that tell whether one of their items is true.
pub struct BoolOrReduceFactory;

impl Factory for BoolOrReduceFactory {
    type Item = BoolOrReducer;

    open spec fn inv(&self) -> bool {
        true
    }

    open spec fn makes(&self, item: BoolOrReducer) -> bool {
        item.0
    }

    fn make(&self) -> (item: BoolOrReducer) {
        BoolOrReducer(true)
    }
}

/// The reducer that tells whether one of their items is true. `.0` says that the answer is
/// still open. Once the answer is decided the reducer wants no more items.
pub struct BoolOrReducer(pub bool);

impl Intake for BoolOrReducer {
    type Item = bool;

    open spec fn inv(&self) -> bool {
        true
    }

    open spec fn wants(&self) -> bool {
        self.0
    }

    open spec fn admits(&self, item: bool) -> bool {
        true
    }

    open spec fn absorbs(&self, item: bool, next: Self) -> bool {
        next.0 == !item
    }
}

impl Sink for BoolOrReducer {
    fn accepting(&self) -> (b: bool) {
        self.0
    }

    fn push(&mut self, item: bool) {
        self.0 = self.0 && !item;
    }
}

impl ReducerAsync for BoolOrReducer {
    type Output = bool;

    open spec fn ripe(&self) -> bool {
        true
    }

    open spec fn yields(&self, out: bool) -> bool {
        out == !self.0
    }

    fn poll_output(&mut self) -> (r: Poll<bool>) {
        Poll::Ready(!self.0)
    }
}

impl Reducer for BoolOrReducer {
    type Item = bool;

    type Output = bool;

    type Async = Self;

    open spec fn lowered(self) -> Self {
        self
    }

    fn into_async(self) -> (a: Self) {
        self
    }
}

} // verus!
