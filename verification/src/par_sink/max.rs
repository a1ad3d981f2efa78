//! The terminal operators that find the greatest or the smallest item.

use vstd::prelude::*;
use std::marker::PhantomData;
use crate::par_pipe::identity::{Identity, IdentityTask};
use crate::par_pipe::{DistributedPipe, ParallelPipe};
use crate::par_sink::combine::{CombineReducer, CombineReducerFactory};
use crate::par_sink::max::combine::{
    greatest, greatest_of_some, lemma_greatest_of_some_offered, lemma_greatest_offered,
    lemma_smallest_of_some_offered, lemma_smallest_offered, smallest, smallest_of_some, Compare,
    MaxTally, MinTally,
};
use crate::par_sink::{reduces, DistributedSink, Factory, Lowering, ParallelSink, Reducer, ReducerAsync};
use crate::par_stream::pipe::{
    connected, dist_pipe_reduces, dist_pipe_runs, lemma_connected_identity,
    lemma_connected_identity_inv, par_pipe_reduces, par_pipe_runs, ConnectTask,
};
use crate::par_stream::reduce::{
    dist_reduces, dist_runs, lemma_dist_runs_unconditional, lemma_par_runs_unconditional,
    par_reduces, par_runs, tasks_inv, tasks_items, unconditional,
};
use crate::par_stream::tally::{lemma_dist_tally, lemma_par_tally, merged_a, merged_b};
use crate::par_stream::StreamTask;
use crate::sink::offered;

pub mod combine;

verus! {

/// The terminal operator that finds the greatest of the items that the pipe
/// `i` hands out, by their own order.
pub struct Max<I> {
    pub i: I,
}

impl<I> Max<I> {
    /// The operator as [`new`](Max::new) makes it.
    pub open spec fn of(i: I) -> Self {
        Max { i }
    }

    pub fn new(i: I) -> (s: Self)
        ensures
            s == Self::of(i),
    {
        Max { i }
    }
}

impl<Source, I: ParallelPipe<Source>> ParallelSink<Source> for Max<I> where I::Item: Ord {
    type Output = Option<I::Item>;

    type Pipe = I;

    type ReduceAFactory = CombineReducerFactory<I::Item, I::Item, combine::Max>;

    type ReduceA = CombineReducer<I::Item, I::Item, combine::Max>;

    type ReduceC = CombineReducer<Option<I::Item>, I::Item, combine::Max>;

    open spec fn inv(&self) -> bool {
        self.i.inv()
    }

    open spec fn splits(
        self,
        pipe: I,
        a: CombineReducerFactory<I::Item, I::Item, combine::Max>,
        c: CombineReducer<Option<I::Item>, I::Item, combine::Max>,
    ) -> bool {
        &&& pipe == self.i
        &&& a.0 == combine::Max
        &&& c.0.is_none()
        &&& c.1 == combine::Max
    }

    fn reducers(self) -> (r: (
        I,
        CombineReducerFactory<I::Item, I::Item, combine::Max>,
        CombineReducer<Option<I::Item>, I::Item, combine::Max>,
    )) {
        let r = (
            self.i,
            CombineReducerFactory(combine::Max, PhantomData),
            CombineReducer(None, combine::Max, PhantomData),
        );
        assert(Factory::inv(&r.1));
        r
    }
}

impl<Source, I: DistributedPipe<Source>> DistributedSink<Source> for Max<I> where I::Item: Ord {
    type Output = Option<I::Item>;

    type Pipe = I;

    type ReduceAFactory = CombineReducerFactory<I::Item, I::Item, combine::Max>;

    type ReduceBFactory = CombineReducerFactory<Option<I::Item>, I::Item, combine::Max>;

    type ReduceA = CombineReducer<I::Item, I::Item, combine::Max>;

    type ReduceB = CombineReducer<Option<I::Item>, I::Item, combine::Max>;

    type ReduceC = CombineReducer<Option<I::Item>, I::Item, combine::Max>;

    open spec fn inv(&self) -> bool {
        self.i.inv()
    }

    open spec fn splits(
        self,
        pipe: I,
        a: CombineReducerFactory<I::Item, I::Item, combine::Max>,
        b: CombineReducerFactory<Option<I::Item>, I::Item, combine::Max>,
        c: CombineReducer<Option<I::Item>, I::Item, combine::Max>,
    ) -> bool {
        &&& pipe == self.i
        &&& a.0 == combine::Max
        &&& b.0 == combine::Max
        &&& c.0.is_none()
        &&& c.1 == combine::Max
    }

    fn reducers(self) -> (r: (
        I,
        CombineReducerFactory<I::Item, I::Item, combine::Max>,
        CombineReducerFactory<Option<I::Item>, I::Item, combine::Max>,
        CombineReducer<Option<I::Item>, I::Item, combine::Max>,
    )) {
        let r = (
            self.i,
            CombineReducerFactory(combine::Max, PhantomData),
            CombineReducerFactory(combine::Max, PhantomData),
            CombineReducer(None, combine::Max, PhantomData),
        );
        assert(Factory::inv(&r.1));
        assert(Factory::inv(&r.2));
        r
    }
}

/// The terminal operator that finds the greatest of the items that the pipe
/// `i` hands out, by the order that `f` gives.
pub struct MaxBy<I, F> {
    pub i: I,
    pub f: F,
}

impl<I, F> MaxBy<I, F> {
    /// The operator as [`new`](MaxBy::new) makes it.
    pub open spec fn of(i: I, f: F) -> Self {
        MaxBy { i, f }
    }

    pub fn new(i: I, f: F) -> (s: Self)
        ensures
            s == Self::of(i, f),
    {
        MaxBy { i, f }
    }
}

impl<Source, I: ParallelPipe<Source>, F: Compare<I::Item> + Copy> ParallelSink<Source> for MaxBy<I, F> {
    type Output = Option<I::Item>;

    type Pipe = I;

    type ReduceAFactory = CombineReducerFactory<I::Item, I::Item, combine::MaxBy<F>>;

    type ReduceA = CombineReducer<I::Item, I::Item, combine::MaxBy<F>>;

    type ReduceC = CombineReducer<Option<I::Item>, I::Item, combine::MaxBy<F>>;

    open spec fn inv(&self) -> bool {
        self.i.inv()
    }

    open spec fn splits(
        self,
        pipe: I,
        a: CombineReducerFactory<I::Item, I::Item, combine::MaxBy<F>>,
        c: CombineReducer<Option<I::Item>, I::Item, combine::MaxBy<F>>,
    ) -> bool {
        &&& pipe == self.i
        &&& a.0 == combine::MaxBy(self.f)
        &&& c.0.is_none()
        &&& c.1 == combine::MaxBy(self.f)
    }

    fn reducers(self) -> (r: (
        I,
        CombineReducerFactory<I::Item, I::Item, combine::MaxBy<F>>,
        CombineReducer<Option<I::Item>, I::Item, combine::MaxBy<F>>,
    )) {
        let r = (
            self.i,
            CombineReducerFactory(combine::MaxBy(self.f), PhantomData),
            CombineReducer(None, combine::MaxBy(self.f), PhantomData),
        );
        assert(Factory::inv(&r.1));
        r
    }
}

impl<Source, I: DistributedPipe<Source>, F: Compare<I::Item> + Copy> DistributedSink<Source> for MaxBy<I, F> {
    type Output = Option<I::Item>;

    type Pipe = I;

    type ReduceAFactory = CombineReducerFactory<I::Item, I::Item, combine::MaxBy<F>>;

    type ReduceBFactory = CombineReducerFactory<Option<I::Item>, I::Item, combine::MaxBy<F>>;

    type ReduceA = CombineReducer<I::Item, I::Item, combine::MaxBy<F>>;

    type ReduceB = CombineReducer<Option<I::Item>, I::Item, combine::MaxBy<F>>;

    type ReduceC = CombineReducer<Option<I::Item>, I::Item, combine::MaxBy<F>>;

    open spec fn inv(&self) -> bool {
        self.i.inv()
    }

    open spec fn splits(
        self,
        pipe: I,
        a: CombineReducerFactory<I::Item, I::Item, combine::MaxBy<F>>,
        b: CombineReducerFactory<Option<I::Item>, I::Item, combine::MaxBy<F>>,
        c: CombineReducer<Option<I::Item>, I::Item, combine::MaxBy<F>>,
    ) -> bool {
        &&& pipe == self.i
        &&& a.0 == combine::MaxBy(self.f)
        &&& b.0 == combine::MaxBy(self.f)
        &&& c.0.is_none()
        &&& c.1 == combine::MaxBy(self.f)
    }

    fn reducers(self) -> (r: (
        I,
        CombineReducerFactory<I::Item, I::Item, combine::MaxBy<F>>,
        CombineReducerFactory<Option<I::Item>, I::Item, combine::MaxBy<F>>,
        CombineReducer<Option<I::Item>, I::Item, combine::MaxBy<F>>,
    )) {
        let r = (
            self.i,
            CombineReducerFactory(combine::MaxBy(self.f), PhantomData),
            CombineReducerFactory(combine::MaxBy(self.f), PhantomData),
            CombineReducer(None, combine::MaxBy(self.f), PhantomData),
        );
        assert(Factory::inv(&r.1));
        assert(Factory::inv(&r.2));
        r
    }
}

/// The terminal operator that finds the greatest of the items that the pipe
/// `i` hands out, by the keys that `f` gives them.
pub struct MaxByKey<I, F> {
    pub i: I,
    pub f: F,
}

impl<I, F> MaxByKey<I, F> {
    /// The operator as [`new`](MaxByKey::new) makes it.
    pub open spec fn of(i: I, f: F) -> Self {
        MaxByKey { i, f }
    }

    pub fn new(i: I, f: F) -> (s: Self)
        ensures
            s == Self::of(i, f),
    {
        MaxByKey { i, f }
    }
}

impl<Source, I: ParallelPipe<Source>, B: Ord, F: Fn(&I::Item) -> B + Copy> ParallelSink<Source> for MaxByKey<I, F> {
    type Output = Option<I::Item>;

    type Pipe = I;

    type ReduceAFactory = CombineReducerFactory<I::Item, I::Item, combine::MaxByKey<F, B>>;

    type ReduceA = CombineReducer<I::Item, I::Item, combine::MaxByKey<F, B>>;

    type ReduceC = CombineReducer<Option<I::Item>, I::Item, combine::MaxByKey<F, B>>;

    open spec fn inv(&self) -> bool {
        self.i.inv()
    }

    open spec fn splits(
        self,
        pipe: I,
        a: CombineReducerFactory<I::Item, I::Item, combine::MaxByKey<F, B>>,
        c: CombineReducer<Option<I::Item>, I::Item, combine::MaxByKey<F, B>>,
    ) -> bool {
        &&& pipe == self.i
        &&& a.0.0 == self.f
        &&& c.0.is_none()
        &&& c.1.0 == self.f
    }

    fn reducers(self) -> (r: (
        I,
        CombineReducerFactory<I::Item, I::Item, combine::MaxByKey<F, B>>,
        CombineReducer<Option<I::Item>, I::Item, combine::MaxByKey<F, B>>,
    )) {
        let r = (
            self.i,
            CombineReducerFactory(combine::MaxByKey(self.f, PhantomData), PhantomData),
            CombineReducer(None, combine::MaxByKey(self.f, PhantomData), PhantomData),
        );
        assert(Factory::inv(&r.1));
        r
    }
}

impl<Source, I: DistributedPipe<Source>, B: Ord, F: Fn(&I::Item) -> B + Copy> DistributedSink<Source> for MaxByKey<I, F> {
    type Output = Option<I::Item>;

    type Pipe = I;

    type ReduceAFactory = CombineReducerFactory<I::Item, I::Item, combine::MaxByKey<F, B>>;

    type ReduceBFactory = CombineReducerFactory<Option<I::Item>, I::Item, combine::MaxByKey<F, B>>;

    type ReduceA = CombineReducer<I::Item, I::Item, combine::MaxByKey<F, B>>;

    type ReduceB = CombineReducer<Option<I::Item>, I::Item, combine::MaxByKey<F, B>>;

    type ReduceC = CombineReducer<Option<I::Item>, I::Item, combine::MaxByKey<F, B>>;

    open spec fn inv(&self) -> bool {
        self.i.inv()
    }

    open spec fn splits(
        self,
        pipe: I,
        a: CombineReducerFactory<I::Item, I::Item, combine::MaxByKey<F, B>>,
        b: CombineReducerFactory<Option<I::Item>, I::Item, combine::MaxByKey<F, B>>,
        c: CombineReducer<Option<I::Item>, I::Item, combine::MaxByKey<F, B>>,
    ) -> bool {
        &&& pipe == self.i
        &&& a.0.0 == self.f
        &&& b.0.0 == self.f
        &&& c.0.is_none()
        &&& c.1.0 == self.f
    }

    fn reducers(self) -> (r: (
        I,
        CombineReducerFactory<I::Item, I::Item, combine::MaxByKey<F, B>>,
        CombineReducerFactory<Option<I::Item>, I::Item, combine::MaxByKey<F, B>>,
        CombineReducer<Option<I::Item>, I::Item, combine::MaxByKey<F, B>>,
    )) {
        let r = (
            self.i,
            CombineReducerFactory(combine::MaxByKey(self.f, PhantomData), PhantomData),
            CombineReducerFactory(combine::MaxByKey(self.f, PhantomData), PhantomData),
            CombineReducer(None, combine::MaxByKey(self.f, PhantomData), PhantomData),
        );
        assert(Factory::inv(&r.1));
        assert(Factory::inv(&r.2));
        r
    }
}

/// The terminal operator that finds the smallest of the items that the pipe
/// `i` hands out, by their own order.
pub struct Min<I> {
    pub i: I,
}

impl<I> Min<I> {
    /// The operator as [`new`](Min::new) makes it.
    pub open spec fn of(i: I) -> Self {
        Min { i }
    }

    pub fn new(i: I) -> (s: Self)
        ensures
            s == Self::of(i),
    {
        Min { i }
    }
}

impl<Source, I: ParallelPipe<Source>> ParallelSink<Source> for Min<I> where I::Item: Ord {
    type Output = Option<I::Item>;

    type Pipe = I;

    type ReduceAFactory = CombineReducerFactory<I::Item, I::Item, combine::Min>;

    type ReduceA = CombineReducer<I::Item, I::Item, combine::Min>;

    type ReduceC = CombineReducer<Option<I::Item>, I::Item, combine::Min>;

    open spec fn inv(&self) -> bool {
        self.i.inv()
    }

    open spec fn splits(
        self,
        pipe: I,
        a: CombineReducerFactory<I::Item, I::Item, combine::Min>,
        c: CombineReducer<Option<I::Item>, I::Item, combine::Min>,
    ) -> bool {
        &&& pipe == self.i
        &&& a.0 == combine::Min
        &&& c.0.is_none()
        &&& c.1 == combine::Min
    }

    fn reducers(self) -> (r: (
        I,
        CombineReducerFactory<I::Item, I::Item, combine::Min>,
        CombineReducer<Option<I::Item>, I::Item, combine::Min>,
    )) {
        let r = (
            self.i,
            CombineReducerFactory(combine::Min, PhantomData),
            CombineReducer(None, combine::Min, PhantomData),
        );
        assert(Factory::inv(&r.1));
        r
    }
}

impl<Source, I: DistributedPipe<Source>> DistributedSink<Source> for Min<I> where I::Item: Ord {
    type Output = Option<I::Item>;

    type Pipe = I;

    type ReduceAFactory = CombineReducerFactory<I::Item, I::Item, combine::Min>;

    type ReduceBFactory = CombineReducerFactory<Option<I::Item>, I::Item, combine::Min>;

    type ReduceA = CombineReducer<I::Item, I::Item, combine::Min>;

    type ReduceB = CombineReducer<Option<I::Item>, I::Item, combine::Min>;

    type ReduceC = CombineReducer<Option<I::Item>, I::Item, combine::Min>;

    open spec fn inv(&self) -> bool {
        self.i.inv()
    }

    open spec fn splits(
        self,
        pipe: I,
        a: CombineReducerFactory<I::Item, I::Item, combine::Min>,
        b: CombineReducerFactory<Option<I::Item>, I::Item, combine::Min>,
        c: CombineReducer<Option<I::Item>, I::Item, combine::Min>,
    ) -> bool {
        &&& pipe == self.i
        &&& a.0 == combine::Min
        &&& b.0 == combine::Min
        &&& c.0.is_none()
        &&& c.1 == combine::Min
    }

    fn reducers(self) -> (r: (
        I,
        CombineReducerFactory<I::Item, I::Item, combine::Min>,
        CombineReducerFactory<Option<I::Item>, I::Item, combine::Min>,
        CombineReducer<Option<I::Item>, I::Item, combine::Min>,
    )) {
        let r = (
            self.i,
            CombineReducerFactory(combine::Min, PhantomData),
            CombineReducerFactory(combine::Min, PhantomData),
            CombineReducer(None, combine::Min, PhantomData),
        );
        assert(Factory::inv(&r.1));
        assert(Factory::inv(&r.2));
        r
    }
}

/// The terminal operator that finds the smallest of the items that the pipe
/// `i` hands out, by the order that `f` gives.
pub struct MinBy<I, F> {
    pub i: I,
    pub f: F,
}

impl<I, F> MinBy<I, F> {
    /// The operator as [`new`](MinBy::new) makes it.
    pub open spec fn of(i: I, f: F) -> Self {
        MinBy { i, f }
    }

    pub fn new(i: I, f: F) -> (s: Self)
        ensures
            s == Self::of(i, f),
    {
        MinBy { i, f }
    }
}

impl<Source, I: ParallelPipe<Source>, F: Compare<I::Item> + Copy> ParallelSink<Source> for MinBy<I, F> {
    type Output = Option<I::Item>;

    type Pipe = I;

    type ReduceAFactory = CombineReducerFactory<I::Item, I::Item, combine::MinBy<F>>;

    type ReduceA = CombineReducer<I::Item, I::Item, combine::MinBy<F>>;

    type ReduceC = CombineReducer<Option<I::Item>, I::Item, combine::MinBy<F>>;

    open spec fn inv(&self) -> bool {
        self.i.inv()
    }

    open spec fn splits(
        self,
        pipe: I,
        a: CombineReducerFactory<I::Item, I::Item, combine::MinBy<F>>,
        c: CombineReducer<Option<I::Item>, I::Item, combine::MinBy<F>>,
    ) -> bool {
        &&& pipe == self.i
        &&& a.0 == combine::MinBy(self.f)
        &&& c.0.is_none()
        &&& c.1 == combine::MinBy(self.f)
    }

    fn reducers(self) -> (r: (
        I,
        CombineReducerFactory<I::Item, I::Item, combine::MinBy<F>>,
        CombineReducer<Option<I::Item>, I::Item, combine::MinBy<F>>,
    )) {
        let r = (
            self.i,
            CombineReducerFactory(combine::MinBy(self.f), PhantomData),
            CombineReducer(None, combine::MinBy(self.f), PhantomData),
        );
        assert(Factory::inv(&r.1));
        r
    }
}

impl<Source, I: DistributedPipe<Source>, F: Compare<I::Item> + Copy> DistributedSink<Source> for MinBy<I, F> {
    type Output = Option<I::Item>;

    type Pipe = I;

    type ReduceAFactory = CombineReducerFactory<I::Item, I::Item, combine::MinBy<F>>;

    type ReduceBFactory = CombineReducerFactory<Option<I::Item>, I::Item, combine::MinBy<F>>;

    type ReduceA = CombineReducer<I::Item, I::Item, combine::MinBy<F>>;

    type ReduceB = CombineReducer<Option<I::Item>, I::Item, combine::MinBy<F>>;

    type ReduceC = CombineReducer<Option<I::Item>, I::Item, combine::MinBy<F>>;

    open spec fn inv(&self) -> bool {
        self.i.inv()
    }

    open spec fn splits(
        self,
        pipe: I,
        a: CombineReducerFactory<I::Item, I::Item, combine::MinBy<F>>,
        b: CombineReducerFactory<Option<I::Item>, I::Item, combine::MinBy<F>>,
        c: CombineReducer<Option<I::Item>, I::Item, combine::MinBy<F>>,
    ) -> bool {
        &&& pipe == self.i
        &&& a.0 == combine::MinBy(self.f)
        &&& b.0 == combine::MinBy(self.f)
        &&& c.0.is_none()
        &&& c.1 == combine::MinBy(self.f)
    }

    fn reducers(self) -> (r: (
        I,
        CombineReducerFactory<I::Item, I::Item, combine::MinBy<F>>,
        CombineReducerFactory<Option<I::Item>, I::Item, combine::MinBy<F>>,
        CombineReducer<Option<I::Item>, I::Item, combine::MinBy<F>>,
    )) {
        let r = (
            self.i,
            CombineReducerFactory(combine::MinBy(self.f), PhantomData),
            CombineReducerFactory(combine::MinBy(self.f), PhantomData),
            CombineReducer(None, combine::MinBy(self.f), PhantomData),
        );
        assert(Factory::inv(&r.1));
        assert(Factory::inv(&r.2));
        r
    }
}

/// The terminal operator that finds the smallest of the items that the pipe
/// `i` hands out, by the keys that `f` gives them.
pub struct MinByKey<I, F> {
    pub i: I,
    pub f: F,
}

impl<I, F> MinByKey<I, F> {
    /// The operator as [`new`](MinByKey::new) makes it.
    pub open spec fn of(i: I, f: F) -> Self {
        MinByKey { i, f }
    }

    pub fn new(i: I, f: F) -> (s: Self)
        ensures
            s == Self::of(i, f),
    {
        MinByKey { i, f }
    }
}

impl<Source, I: ParallelPipe<Source>, B: Ord, F: Fn(&I::Item) -> B + Copy> ParallelSink<Source> for MinByKey<I, F> {
    type Output = Option<I::Item>;

    type Pipe = I;

    type ReduceAFactory = CombineReducerFactory<I::Item, I::Item, combine::MinByKey<F, B>>;

    type ReduceA = CombineReducer<I::Item, I::Item, combine::MinByKey<F, B>>;

    type ReduceC = CombineReducer<Option<I::Item>, I::Item, combine::MinByKey<F, B>>;

    open spec fn inv(&self) -> bool {
        self.i.inv()
    }

    open spec fn splits(
        self,
        pipe: I,
        a: CombineReducerFactory<I::Item, I::Item, combine::MinByKey<F, B>>,
        c: CombineReducer<Option<I::Item>, I::Item, combine::MinByKey<F, B>>,
    ) -> bool {
        &&& pipe == self.i
        &&& a.0.0 == self.f
        &&& c.0.is_none()
        &&& c.1.0 == self.f
    }

    fn reducers(self) -> (r: (
        I,
        CombineReducerFactory<I::Item, I::Item, combine::MinByKey<F, B>>,
        CombineReducer<Option<I::Item>, I::Item, combine::MinByKey<F, B>>,
    )) {
        let r = (
            self.i,
            CombineReducerFactory(combine::MinByKey(self.f, PhantomData), PhantomData),
            CombineReducer(None, combine::MinByKey(self.f, PhantomData), PhantomData),
        );
        assert(Factory::inv(&r.1));
        r
    }
}

impl<Source, I: DistributedPipe<Source>, B: Ord, F: Fn(&I::Item) -> B + Copy> DistributedSink<Source> for MinByKey<I, F> {
    type Output = Option<I::Item>;

    type Pipe = I;

    type ReduceAFactory = CombineReducerFactory<I::Item, I::Item, combine::MinByKey<F, B>>;

    type ReduceBFactory = CombineReducerFactory<Option<I::Item>, I::Item, combine::MinByKey<F, B>>;

    type ReduceA = CombineReducer<I::Item, I::Item, combine::MinByKey<F, B>>;

    type ReduceB = CombineReducer<Option<I::Item>, I::Item, combine::MinByKey<F, B>>;

    type ReduceC = CombineReducer<Option<I::Item>, I::Item, combine::MinByKey<F, B>>;

    open spec fn inv(&self) -> bool {
        self.i.inv()
    }

    open spec fn splits(
        self,
        pipe: I,
        a: CombineReducerFactory<I::Item, I::Item, combine::MinByKey<F, B>>,
        b: CombineReducerFactory<Option<I::Item>, I::Item, combine::MinByKey<F, B>>,
        c: CombineReducer<Option<I::Item>, I::Item, combine::MinByKey<F, B>>,
    ) -> bool {
        &&& pipe == self.i
        &&& a.0.0 == self.f
        &&& b.0.0 == self.f
        &&& c.0.is_none()
        &&& c.1.0 == self.f
    }

    fn reducers(self) -> (r: (
        I,
        CombineReducerFactory<I::Item, I::Item, combine::MinByKey<F, B>>,
        CombineReducerFactory<Option<I::Item>, I::Item, combine::MinByKey<F, B>>,
        CombineReducer<Option<I::Item>, I::Item, combine::MinByKey<F, B>>,
    )) {
        let r = (
            self.i,
            CombineReducerFactory(combine::MinByKey(self.f, PhantomData), PhantomData),
            CombineReducerFactory(combine::MinByKey(self.f, PhantomData), PhantomData),
            CombineReducer(None, combine::MinByKey(self.f, PhantomData), PhantomData),
        );
        assert(Factory::inv(&r.1));
        assert(Factory::inv(&r.2));
        r
    }
}

/// The merge of outputs that are greatest numbers is the greatest of them.
pub proof fn lemma_merged_greatest(outs: Seq<Option<u64>>)
    ensures
        merged_a::<MaxTally>(MaxTally, outs) == greatest_of_some(outs),
        merged_b::<MaxTally>(MaxTally, outs) == greatest_of_some(outs),
    decreases outs.len(),
{
    if outs.len() > 0 {
        lemma_merged_greatest(outs.drop_last());
    }
}

/// The greatest number of a stream does not depend on the pool: on any number
/// of processes and threads, however the tasks are dealt, it is the greatest
/// of all the items.
pub proof fn lemma_max_on_pool<T: StreamTask<Item = u64>>(
    tasks: Seq<T>,
    processes: int,
    threads: int,
    out: Option<u64>,
)
    requires
        dist_pipe_reduces(tasks, processes, threads, Max::<Identity>::of(Identity), out),
    ensures
        out == greatest(tasks_items(tasks)),
{
    let sink = Max::<Identity>::of(Identity);
    let (pipe, a, b, c) = choose|
        pipe: Identity,
        a: CombineReducerFactory<u64, u64, combine::Max>,
        b: CombineReducerFactory<Option<u64>, u64, combine::Max>,
        c: CombineReducer<Option<u64>, u64, combine::Max>,
    | #[trigger]
        DistributedSink::<u64>::splits(sink, pipe, a, b, c) && dist_reduces(
            connected::<T, u64, Identity>(tasks, pipe),
            processes,
            threads,
            Lowering(a),
            Lowering(b),
            c.lowered(),
            out,
        );
    assert forall|r: CombineReducer<u64, u64, combine::Max>, items: Seq<u64>, o: Option<u64>|
        Lowering(a).makes(r) && #[trigger] reduces(r, items, o) implies o == greatest(items) by {
        let end = choose|end: CombineReducer<u64, u64, combine::Max>|
            offered(r, items, end) && #[trigger] end.yields(o);
        lemma_greatest_offered(r, items, end);
    }
    assert forall|
        r: CombineReducer<Option<u64>, u64, combine::Max>,
        outs: Seq<Option<u64>>,
        o: Option<u64>,
    |
        Lowering(b).makes(r) && #[trigger] reduces(
            r,
            outs,
            o,
        ) implies o == merged_a::<MaxTally>(MaxTally, outs,
    ) by {
        let end = choose|end: CombineReducer<Option<u64>, u64, combine::Max>|
            offered(r, outs, end) && #[trigger] end.yields(o);
        lemma_greatest_of_some_offered(r, outs, end);
        lemma_merged_greatest(outs);
    }
    assert forall|outs: Seq<Option<u64>>, o: Option<u64>| #[trigger]
        reduces(c.lowered(), outs, o) implies o == merged_b::<MaxTally>(MaxTally, outs) by {
        let end = choose|end: CombineReducer<Option<u64>, u64, combine::Max>|
            offered(c, outs, end) && #[trigger] end.yields(o);
        lemma_greatest_of_some_offered(c, outs, end);
        lemma_merged_greatest(outs);
    }
    lemma_dist_tally::<
        MaxTally,
        ConnectTask<T, IdentityTask>,
        Lowering<CombineReducerFactory<u64, u64, combine::Max>>,
        Lowering<CombineReducerFactory<Option<u64>, u64, combine::Max>>,
        CombineReducer<Option<u64>, u64, combine::Max>,
    >(
        MaxTally, connected::<T, u64, Identity>(tasks, pipe),
        processes,
        threads,
        Lowering(a),
        Lowering(b),
        c.lowered(),
        out,
    );
    lemma_connected_identity(tasks);
}

/// The greatest number of a stream does not depend on the number of threads.
pub proof fn lemma_max_on_threads<T: StreamTask<Item = u64>>(
    tasks: Seq<T>,
    threads: int,
    out: Option<u64>,
)
    requires
        par_pipe_reduces(tasks, threads, Max::<Identity>::of(Identity), out),
    ensures
        out == greatest(tasks_items(tasks)),
{
    let sink = Max::<Identity>::of(Identity);
    let (pipe, a, c) = choose|
        pipe: Identity,
        a: CombineReducerFactory<u64, u64, combine::Max>,
        c: CombineReducer<Option<u64>, u64, combine::Max>,
    | #[trigger]
        ParallelSink::<u64>::splits(sink, pipe, a, c) && par_reduces(
            connected::<T, u64, Identity>(tasks, pipe),
            threads,
            Lowering(a),
            c.lowered(),
            out,
        );
    assert forall|r: CombineReducer<u64, u64, combine::Max>, items: Seq<u64>, o: Option<u64>|
        Lowering(a).makes(r) && #[trigger] reduces(r, items, o) implies o == greatest(items) by {
        let end = choose|end: CombineReducer<u64, u64, combine::Max>|
            offered(r, items, end) && #[trigger] end.yields(o);
        lemma_greatest_offered(r, items, end);
    }
    assert forall|outs: Seq<Option<u64>>, o: Option<u64>| #[trigger]
        reduces(c.lowered(), outs, o) implies o == merged_a::<MaxTally>(MaxTally, outs) by {
        let end = choose|end: CombineReducer<Option<u64>, u64, combine::Max>|
            offered(c, outs, end) && #[trigger] end.yields(o);
        lemma_greatest_of_some_offered(c, outs, end);
        lemma_merged_greatest(outs);
    }
    lemma_par_tally::<
        MaxTally,
        ConnectTask<T, IdentityTask>,
        Lowering<CombineReducerFactory<u64, u64, combine::Max>>,
        CombineReducer<Option<u64>, u64, combine::Max>,
    >(MaxTally, connected::<T, u64, Identity>(tasks, pipe), threads, Lowering(a), c.lowered(), out);
    lemma_connected_identity(tasks);
}

/// The merge of outputs that are smallest numbers is the smallest of them.
pub proof fn lemma_merged_smallest(outs: Seq<Option<u64>>)
    ensures
        merged_a::<MinTally>(MinTally, outs) == smallest_of_some(outs),
        merged_b::<MinTally>(MinTally, outs) == smallest_of_some(outs),
    decreases outs.len(),
{
    if outs.len() > 0 {
        lemma_merged_smallest(outs.drop_last());
    }
}

/// The smallest number of a stream does not depend on the pool: on any number
/// of processes and threads, however the tasks are dealt, it is the smallest
/// of all the items.
pub proof fn lemma_min_on_pool<T: StreamTask<Item = u64>>(
    tasks: Seq<T>,
    processes: int,
    threads: int,
    out: Option<u64>,
)
    requires
        dist_pipe_reduces(tasks, processes, threads, Min::<Identity>::of(Identity), out),
    ensures
        out == smallest(tasks_items(tasks)),
{
    let sink = Min::<Identity>::of(Identity);
    let (pipe, a, b, c) = choose|
        pipe: Identity,
        a: CombineReducerFactory<u64, u64, combine::Min>,
        b: CombineReducerFactory<Option<u64>, u64, combine::Min>,
        c: CombineReducer<Option<u64>, u64, combine::Min>,
    | #[trigger]
        DistributedSink::<u64>::splits(sink, pipe, a, b, c) && dist_reduces(
            connected::<T, u64, Identity>(tasks, pipe),
            processes,
            threads,
            Lowering(a),
            Lowering(b),
            c.lowered(),
            out,
        );
    assert forall|r: CombineReducer<u64, u64, combine::Min>, items: Seq<u64>, o: Option<u64>|
        Lowering(a).makes(r) && #[trigger] reduces(r, items, o) implies o == smallest(items) by {
        let end = choose|end: CombineReducer<u64, u64, combine::Min>|
            offered(r, items, end) && #[trigger] end.yields(o);
        lemma_smallest_offered(r, items, end);
    }
    assert forall|
        r: CombineReducer<Option<u64>, u64, combine::Min>,
        outs: Seq<Option<u64>>,
        o: Option<u64>,
    |
        Lowering(b).makes(r) && #[trigger] reduces(
            r,
            outs,
            o,
        ) implies o == merged_a::<MinTally>(MinTally, outs,
    ) by {
        let end = choose|end: CombineReducer<Option<u64>, u64, combine::Min>|
            offered(r, outs, end) && #[trigger] end.yields(o);
        lemma_smallest_of_some_offered(r, outs, end);
        lemma_merged_smallest(outs);
    }
    assert forall|outs: Seq<Option<u64>>, o: Option<u64>| #[trigger]
        reduces(c.lowered(), outs, o) implies o == merged_b::<MinTally>(MinTally, outs) by {
        let end = choose|end: CombineReducer<Option<u64>, u64, combine::Min>|
            offered(c, outs, end) && #[trigger] end.yields(o);
        lemma_smallest_of_some_offered(c, outs, end);
        lemma_merged_smallest(outs);
    }
    lemma_dist_tally::<
        MinTally,
        ConnectTask<T, IdentityTask>,
        Lowering<CombineReducerFactory<u64, u64, combine::Min>>,
        Lowering<CombineReducerFactory<Option<u64>, u64, combine::Min>>,
        CombineReducer<Option<u64>, u64, combine::Min>,
    >(
        MinTally, connected::<T, u64, Identity>(tasks, pipe),
        processes,
        threads,
        Lowering(a),
        Lowering(b),
        c.lowered(),
        out,
    );
    lemma_connected_identity(tasks);
}

/// The smallest number of a stream does not depend on the number of threads.
pub proof fn lemma_min_on_threads<T: StreamTask<Item = u64>>(
    tasks: Seq<T>,
    threads: int,
    out: Option<u64>,
)
    requires
        par_pipe_reduces(tasks, threads, Min::<Identity>::of(Identity), out),
    ensures
        out == smallest(tasks_items(tasks)),
{
    let sink = Min::<Identity>::of(Identity);
    let (pipe, a, c) = choose|
        pipe: Identity,
        a: CombineReducerFactory<u64, u64, combine::Min>,
        c: CombineReducer<Option<u64>, u64, combine::Min>,
    | #[trigger]
        ParallelSink::<u64>::splits(sink, pipe, a, c) && par_reduces(
            connected::<T, u64, Identity>(tasks, pipe),
            threads,
            Lowering(a),
            c.lowered(),
            out,
        );
    assert forall|r: CombineReducer<u64, u64, combine::Min>, items: Seq<u64>, o: Option<u64>|
        Lowering(a).makes(r) && #[trigger] reduces(r, items, o) implies o == smallest(items) by {
        let end = choose|end: CombineReducer<u64, u64, combine::Min>|
            offered(r, items, end) && #[trigger] end.yields(o);
        lemma_smallest_offered(r, items, end);
    }
    assert forall|outs: Seq<Option<u64>>, o: Option<u64>| #[trigger]
        reduces(c.lowered(), outs, o) implies o == merged_a::<MinTally>(MinTally, outs) by {
        let end = choose|end: CombineReducer<Option<u64>, u64, combine::Min>|
            offered(c, outs, end) && #[trigger] end.yields(o);
        lemma_smallest_of_some_offered(c, outs, end);
        lemma_merged_smallest(outs);
    }
    lemma_par_tally::<
        MinTally,
        ConnectTask<T, IdentityTask>,
        Lowering<CombineReducerFactory<u64, u64, combine::Min>>,
        CombineReducer<Option<u64>, u64, combine::Min>,
    >(MinTally, connected::<T, u64, Identity>(tasks, pipe), threads, Lowering(a), c.lowered(), out);
    lemma_connected_identity(tasks);
}

/// The greatest item of well-formed tasks can be found on any pool.
pub proof fn lemma_max_runs_on_pool<T: StreamTask>(tasks: Seq<T>, processes: int, threads: int)
    where T::Item: Ord
    requires
        tasks_inv(tasks),
    ensures
        dist_pipe_runs(tasks, processes, threads, Max::<Identity>::of(Identity)),
{
    let sink = Max::<Identity>::of(Identity);
    assert forall|
        pipe: Identity,
        a: CombineReducerFactory<T::Item, T::Item, combine::Max>,
        b: CombineReducerFactory<Option<T::Item>, T::Item, combine::Max>,
        c: CombineReducer<Option<T::Item>, T::Item, combine::Max>,
    | #[trigger]
        DistributedSink::<T::Item>::splits(sink, pipe, a, b, c) implies dist_runs(
        connected::<T, T::Item, Identity>(tasks, pipe),
        processes,
        threads,
        Lowering(a),
        Lowering(b),
        c.lowered(),
    ) by {
        lemma_connected_identity_inv(tasks);
        assert(unconditional::<CombineReducer<T::Item, T::Item, combine::Max>>());
        assert(unconditional::<CombineReducer<Option<T::Item>, T::Item, combine::Max>>());
        lemma_dist_runs_unconditional(
            connected::<T, T::Item, Identity>(tasks, pipe),
            processes,
            threads,
            Lowering(a),
            Lowering(b),
            c.lowered(),
        );
    }
}

/// The greatest item of well-formed tasks can be found on any number of
/// threads.
pub proof fn lemma_max_runs_on_threads<T: StreamTask>(tasks: Seq<T>, threads: int)
    where T::Item: Ord
    requires
        tasks_inv(tasks),
    ensures
        par_pipe_runs(tasks, threads, Max::<Identity>::of(Identity)),
{
    let sink = Max::<Identity>::of(Identity);
    assert forall|
        pipe: Identity,
        a: CombineReducerFactory<T::Item, T::Item, combine::Max>,
        c: CombineReducer<Option<T::Item>, T::Item, combine::Max>,
    | #[trigger]
        ParallelSink::<T::Item>::splits(sink, pipe, a, c) implies par_runs(
        connected::<T, T::Item, Identity>(tasks, pipe),
        threads,
        Lowering(a),
        c.lowered(),
    ) by {
        lemma_connected_identity_inv(tasks);
        assert(unconditional::<CombineReducer<T::Item, T::Item, combine::Max>>());
        assert(unconditional::<CombineReducer<Option<T::Item>, T::Item, combine::Max>>());
        lemma_par_runs_unconditional(
            connected::<T, T::Item, Identity>(tasks, pipe),
            threads,
            Lowering(a),
            c.lowered(),
        );
    }
}

/// The smallest item of well-formed tasks can be found on any pool.
pub proof fn lemma_min_runs_on_pool<T: StreamTask>(tasks: Seq<T>, processes: int, threads: int)
    where T::Item: Ord
    requires
        tasks_inv(tasks),
    ensures
        dist_pipe_runs(tasks, processes, threads, Min::<Identity>::of(Identity)),
{
    let sink = Min::<Identity>::of(Identity);
    assert forall|
        pipe: Identity,
        a: CombineReducerFactory<T::Item, T::Item, combine::Min>,
        b: CombineReducerFactory<Option<T::Item>, T::Item, combine::Min>,
        c: CombineReducer<Option<T::Item>, T::Item, combine::Min>,
    | #[trigger]
        DistributedSink::<T::Item>::splits(sink, pipe, a, b, c) implies dist_runs(
        connected::<T, T::Item, Identity>(tasks, pipe),
        processes,
        threads,
        Lowering(a),
        Lowering(b),
        c.lowered(),
    ) by {
        lemma_connected_identity_inv(tasks);
        assert(unconditional::<CombineReducer<T::Item, T::Item, combine::Min>>());
        assert(unconditional::<CombineReducer<Option<T::Item>, T::Item, combine::Min>>());
        lemma_dist_runs_unconditional(
            connected::<T, T::Item, Identity>(tasks, pipe),
            processes,
            threads,
            Lowering(a),
            Lowering(b),
            c.lowered(),
        );
    }
}

/// The smallest item of well-formed tasks can be found on any number of
/// threads.
pub proof fn lemma_min_runs_on_threads<T: StreamTask>(tasks: Seq<T>, threads: int)
    where T::Item: Ord
    requires
        tasks_inv(tasks),
    ensures
        par_pipe_runs(tasks, threads, Min::<Identity>::of(Identity)),
{
    let sink = Min::<Identity>::of(Identity);
    assert forall|
        pipe: Identity,
        a: CombineReducerFactory<T::Item, T::Item, combine::Min>,
        c: CombineReducer<Option<T::Item>, T::Item, combine::Min>,
    | #[trigger]
        ParallelSink::<T::Item>::splits(sink, pipe, a, c) implies par_runs(
        connected::<T, T::Item, Identity>(tasks, pipe),
        threads,
        Lowering(a),
        c.lowered(),
    ) by {
        lemma_connected_identity_inv(tasks);
        assert(unconditional::<CombineReducer<T::Item, T::Item, combine::Min>>());
        assert(unconditional::<CombineReducer<Option<T::Item>, T::Item, combine::Min>>());
        lemma_par_runs_unconditional(
            connected::<T, T::Item, Identity>(tasks, pipe),
            threads,
            Lowering(a),
            c.lowered(),
        );
    }
}

} // verus!
