//! Folding items into one value with a function that takes both items and
//! the values folded so far on the level below.

use vstd::prelude::*;
use either::Either;
use std::marker::PhantomData;
use crate::par_pipe::{DistributedPipe, ParallelPipe};
use crate::par_sink::{DistributedSink, Factory, ParallelSink, Reducer, ReducerAsync};
use crate::sink::{Intake, Sink};
use crate::stream::Poll;

verus! {

/// `either::Either`: a value of one of two types, `Left` or `Right`. Both
/// variants and their fields are public, and are used here as they are.
#[verifier::external_type_specification]
#[verifier::reject_recursive_types(L)]
#[verifier::reject_recursive_types(R)]
pub struct ExEither<L, R>(Either<L, R>);

/// The terminal operator that folds the items that the pipe `i` hands out:
/// every thread starts from what `identity` gives and takes each item in with
/// `op`, as `Left`; the levels above start from what `identity` gives and take
/// in the values of the level below with `op`, as `Right`.
pub struct Fold<I, ID, F, B> {
    pub i: I,
    pub identity: ID,
    pub op: F,
    pub marker: PhantomData<B>,
}

impl<I, ID, F, B> Fold<I, ID, F, B> {
    /// The operator as [`new`](Fold::new) makes it.
    pub open spec fn of(i: I, identity: ID, op: F) -> Self {
        Fold { i, identity, op, marker: PhantomData }
    }

    pub fn new(i: I, identity: ID, op: F) -> (s: Self)
        ensures
            s == Self::of(i, identity, op),
    {
        Fold { i, identity, op, marker: PhantomData }
    }
}

/// The maker of reducers that fold items of type `A`, starting from what `.0`
/// gives.
pub struct FoldReducerFactory<A, B, ID, F>(pub ID, pub F, pub PhantomData<(A, B)>);

impl<A, B, ID: Fn() -> B + Copy, F: Fn(B, Either<A, B>) -> B + Copy> Factory for FoldReducerFactory<
    A,
    B,
    ID,
    F,
> {
    type Item = FoldReducer<A, B, F>;

    open spec fn inv(&self) -> bool {
        call_requires(self.0, ())
    }

    open spec fn makes(&self, item: FoldReducer<A, B, F>) -> bool {
        &&& item.0 matches Some(start)
        &&& call_ensures(self.0, (), start)
        &&& item.1 == self.1
    }

    fn make(&self) -> (item: FoldReducer<A, B, F>) {
        FoldReducer(Some((self.0)()), self.1, PhantomData)
    }
}

/// The reducer that folds items: it takes each one in with `.1`, as `Left`.
pub struct FoldReducer<A, B, F>(pub Option<B>, pub F, pub PhantomData<A>);

impl<A, B, F: Fn(B, Either<A, B>) -> B> Intake for FoldReducer<A, B, F> {
    type Item = A;

    open spec fn inv(&self) -> bool {
        self.0.is_some()
    }

    open spec fn wants(&self) -> bool {
        true
    }

    open spec fn admits(&self, item: A) -> bool {
        self.0 matches Some(acc) && call_requires(self.1, (acc, Either::<A, B>::Left(item)))
    }

    open spec fn absorbs(&self, item: A, next: Self) -> bool {
        &&& next.1 == self.1
        &&& self.0 matches Some(acc)
        &&& next.0 matches Some(then)
        &&& call_ensures(self.1, (acc, Either::<A, B>::Left(item)), then)
    }
}

impl<A, B, F: Fn(B, Either<A, B>) -> B> Sink for FoldReducer<A, B, F> {
    fn accepting(&self) -> (b: bool) {
        true
    }

    fn push(&mut self, item: A) {
        let acc = self.0.take().unwrap();
        self.0 = Some((self.1)(acc, Either::Left(item)));
    }
}

impl<A, B, F: Fn(B, Either<A, B>) -> B> ReducerAsync for FoldReducer<A, B, F> {
    type Output = B;

    open spec fn ripe(&self) -> bool {
        true
    }

    open spec fn yields(&self, out: B) -> bool {
        self.0 == Some(out)
    }

    fn poll_output(&mut self) -> (r: Poll<B>) {
        Poll::Ready(self.0.take().unwrap())
    }
}

impl<A, B, F: Fn(B, Either<A, B>) -> B> Reducer for FoldReducer<A, B, F> {
    type Item = A;

    type Output = B;

    type Async = Self;

    open spec fn lowered(self) -> Self {
        self
    }

    fn into_async(self) -> (a: Self) {
        self
    }
}

/// The maker of reducers that fold the values of the level below, starting
/// from what `.0` gives.
pub struct FoldMergerFactory<A, B, ID, F>(pub ID, pub F, pub PhantomData<(A, B)>);

impl<A, B, ID: Fn() -> B + Copy, F: Fn(B, Either<A, B>) -> B + Copy> Factory for FoldMergerFactory<
    A,
    B,
    ID,
    F,
> {
    type Item = FoldMerger<A, B, F>;

    open spec fn inv(&self) -> bool {
        call_requires(self.0, ())
    }

    open spec fn makes(&self, item: FoldMerger<A, B, F>) -> bool {
        &&& item.0 matches Some(start)
        &&& call_ensures(self.0, (), start)
        &&& item.1 == self.1
    }

    fn make(&self) -> (item: FoldMerger<A, B, F>) {
        FoldMerger(Some((self.0)()), self.1, PhantomData)
    }
}

/// The reducer that folds the values of the level below: it takes each one in
/// with `.1`, as `Right`.
pub struct FoldMerger<A, B, F>(pub Option<B>, pub F, pub PhantomData<A>);

impl<A, B, F: Fn(B, Either<A, B>) -> B> Intake for FoldMerger<A, B, F> {
    type Item = B;

    open spec fn inv(&self) -> bool {
        self.0.is_some()
    }

    open spec fn wants(&self) -> bool {
        true
    }

    open spec fn admits(&self, item: B) -> bool {
        self.0 matches Some(acc) && call_requires(self.1, (acc, Either::<A, B>::Right(item)))
    }

    open spec fn absorbs(&self, item: B, next: Self) -> bool {
        &&& next.1 == self.1
        &&& self.0 matches Some(acc)
        &&& next.0 matches Some(then)
        &&& call_ensures(self.1, (acc, Either::<A, B>::Right(item)), then)
    }
}

impl<A, B, F: Fn(B, Either<A, B>) -> B> Sink for FoldMerger<A, B, F> {
    fn accepting(&self) -> (b: bool) {
        true
    }

    fn push(&mut self, item: B) {
        let acc = self.0.take().unwrap();
        self.0 = Some((self.1)(acc, Either::Right(item)));
    }
}

impl<A, B, F: Fn(B, Either<A, B>) -> B> ReducerAsync for FoldMerger<A, B, F> {
    type Output = B;

    open spec fn ripe(&self) -> bool {
        true
    }

    open spec fn yields(&self, out: B) -> bool {
        self.0 == Some(out)
    }

    fn poll_output(&mut self) -> (r: Poll<B>) {
        Poll::Ready(self.0.take().unwrap())
    }
}

impl<A, B, F: Fn(B, Either<A, B>) -> B> Reducer for FoldMerger<A, B, F> {
    type Item = B;

    type Output = B;

    type Async = Self;

    open spec fn lowered(self) -> Self {
        self
    }

    fn into_async(self) -> (a: Self) {
        self
    }
}

impl<
    Source,
    I: ParallelPipe<Source>,
    B,
    ID: Fn() -> B + Copy,
    F: Fn(B, Either<I::Item, B>) -> B + Copy,
> ParallelSink<Source> for Fold<I, ID, F, B> {
    type Output = B;

    type Pipe = I;

    type ReduceAFactory = FoldReducerFactory<I::Item, B, ID, F>;

    type ReduceA = FoldReducer<I::Item, B, F>;

    type ReduceC = FoldMerger<I::Item, B, F>;

    open spec fn inv(&self) -> bool {
        self.i.inv() && call_requires(self.identity, ())
    }

    open spec fn splits(
        self,
        pipe: I,
        a: FoldReducerFactory<I::Item, B, ID, F>,
        c: FoldMerger<I::Item, B, F>,
    ) -> bool {
        &&& pipe == self.i
        &&& a.0 == self.identity
        &&& a.1 == self.op
        &&& c.0 matches Some(start)
        &&& call_ensures(self.identity, (), start)
        &&& c.1 == self.op
    }

    fn reducers(self) -> (r: (
        I,
        FoldReducerFactory<I::Item, B, ID, F>,
        FoldMerger<I::Item, B, F>,
    )) {
        let a: FoldReducerFactory<I::Item, B, ID, F> = FoldReducerFactory(
            self.identity,
            self.op,
            PhantomData,
        );
        assert(a.inv());
        let start = (self.identity)();
        (self.i, a, FoldMerger(Some(start), self.op, PhantomData))
    }
}

impl<
    Source,
    I: DistributedPipe<Source>,
    B,
    ID: Fn() -> B + Copy,
    F: Fn(B, Either<I::Item, B>) -> B + Copy,
> DistributedSink<Source> for Fold<I, ID, F, B> {
    type Output = B;

    type Pipe = I;

    type ReduceAFactory = FoldReducerFactory<I::Item, B, ID, F>;

    type ReduceBFactory = FoldMergerFactory<I::Item, B, ID, F>;

    type ReduceA = FoldReducer<I::Item, B, F>;

    type ReduceB = FoldMerger<I::Item, B, F>;

    type ReduceC = FoldMerger<I::Item, B, F>;

    open spec fn inv(&self) -> bool {
        self.i.inv() && call_requires(self.identity, ())
    }

    open spec fn splits(
        self,
        pipe: I,
        a: FoldReducerFactory<I::Item, B, ID, F>,
        b: FoldMergerFactory<I::Item, B, ID, F>,
        c: FoldMerger<I::Item, B, F>,
    ) -> bool {
        &&& pipe == self.i
        &&& a.0 == self.identity
        &&& a.1 == self.op
        &&& b.0 == self.identity
        &&& b.1 == self.op
        &&& c.0 matches Some(start)
        &&& call_ensures(self.identity, (), start)
        &&& c.1 == self.op
    }

    fn reducers(self) -> (r: (
        I,
        FoldReducerFactory<I::Item, B, ID, F>,
        FoldMergerFactory<I::Item, B, ID, F>,
        FoldMerger<I::Item, B, F>,
    )) {
        let a: FoldReducerFactory<I::Item, B, ID, F> = FoldReducerFactory(
            self.identity,
            self.op,
            PhantomData,
        );
        let b: FoldMergerFactory<I::Item, B, ID, F> = FoldMergerFactory(
            self.identity,
            self.op,
            PhantomData,
        );
        assert(a.inv());
        assert(b.inv());
        let start = (self.identity)();
        (self.i, a, b, FoldMerger(Some(start), self.op, PhantomData))
    }
}

} // verus!
