//! Summing items.

use vstd::prelude::*;
use std::marker::PhantomData;
use crate::par_pipe::{DistributedPipe, ParallelPipe};
use crate::par_pipe::identity::Identity;
use crate::par_sink::{reduces, DistributedSink, Factory, Lowering, ParallelSink, Reducer, ReducerAsync};
use crate::par_pipe::identity::IdentityTask;
use crate::par_stream::partition::dealt;
use crate::par_stream::pipe::{
    connected, dist_pipe_reduces, dist_pipe_runs, lemma_connected_identity,
    lemma_connected_identity_inv, par_pipe_reduces, par_pipe_runs, ConnectTask,
};
use crate::par_stream::reduce::{
    bins_reduce, bins_run, dist_reduces, dist_runs, evenly_dealt, lemma_dealt_inv, made_runs_on,
    par_reduces, par_runs, proc_runs, procs_reduce, procs_run, tasks_inv, tasks_items,
};
use crate::par_stream::tally::{
    bins_tally, exact_a, exact_b, exact_c, exact_top, lemma_bins_reduce_tally, lemma_dealt_tally,
    lemma_dist_tally, lemma_par_tally, lemma_procs_reduce_tally, merged_a, merged_b, Tally,
};
use crate::par_stream::StreamTask;
use crate::par_sink::runs_on;
use crate::sink::{moved, offered, Intake, Sink};
use crate::stream::Poll;

verus! {

/// A running total that takes in items of type `A`.
pub trait Accumulate<A>: Sized {
    /// Whether this is the total of no items.
    spec fn is_zero(&self) -> bool;

    /// Whether `item` can be taken in without leaving the type's range.
    spec fn fits(&self, item: A) -> bool;

    /// Whether taking `item` in may turn this total into `sum`.
    spec fn adds(&self, item: A, sum: Self) -> bool;

    /// The total of no items.
    fn zero() -> (z: Self)
        ensures
            z.is_zero(),
    ;

    /// Takes `item` into the total.
    fn take_in(&mut self, item: A)
        requires
            old(self).fits(item),
        ensures
            old(self).adds(item, *final(self)),
    ;
}

impl Accumulate<u32> for u32 {
    open spec fn is_zero(&self) -> bool {
        *self == 0
    }

    open spec fn fits(&self, item: u32) -> bool {
        u32::MIN <= *self + item <= u32::MAX
    }

    open spec fn adds(&self, item: u32, sum: u32) -> bool {
        sum == *self + item
    }

    fn zero() -> (z: u32) {
        0
    }

    fn take_in(&mut self, item: u32) {
        *self = *self + item;
    }
}

impl Accumulate<u64> for u64 {
    open spec fn is_zero(&self) -> bool {
        *self == 0
    }

    open spec fn fits(&self, item: u64) -> bool {
        u64::MIN <= *self + item <= u64::MAX
    }

    open spec fn adds(&self, item: u64, sum: u64) -> bool {
        sum == *self + item
    }

    fn zero() -> (z: u64) {
        0
    }

    fn take_in(&mut self, item: u64) {
        *self = *self + item;
    }
}

impl Accumulate<usize> for usize {
    open spec fn is_zero(&self) -> bool {
        *self == 0
    }

    open spec fn fits(&self, item: usize) -> bool {
        usize::MIN <= *self + item <= usize::MAX
    }

    open spec fn adds(&self, item: usize, sum: usize) -> bool {
        sum == *self + item
    }

    fn zero() -> (z: usize) {
        0
    }

    fn take_in(&mut self, item: usize) {
        *self = *self + item;
    }
}

impl Accumulate<i32> for i32 {
    open spec fn is_zero(&self) -> bool {
        *self == 0
    }

    open spec fn fits(&self, item: i32) -> bool {
        i32::MIN <= *self + item <= i32::MAX
    }

    open spec fn adds(&self, item: i32, sum: i32) -> bool {
        sum == *self + item
    }

    fn zero() -> (z: i32) {
        0
    }

    fn take_in(&mut self, item: i32) {
        *self = *self + item;
    }
}

impl Accumulate<i64> for i64 {
    open spec fn is_zero(&self) -> bool {
        *self == 0
    }

    open spec fn fits(&self, item: i64) -> bool {
        i64::MIN <= *self + item <= i64::MAX
    }

    open spec fn adds(&self, item: i64, sum: i64) -> bool {
        sum == *self + item
    }

    fn zero() -> (z: i64) {
        0
    }

    fn take_in(&mut self, item: i64) {
        *self = *self + item;
    }
}

/// The terminal operator that sums the items that the pipe `i` hands out.
pub struct Sum<I, B> {
    pub i: I,
    pub marker: PhantomData<B>,
}

impl<I, B> Sum<I, B> {
    /// The operator as [`new`](Sum::new) makes it.
    pub open spec fn of(i: I) -> Self {
        Sum { i, marker: PhantomData }
    }

    pub fn new(i: I) -> (s: Self)
        ensures
            s == Self::of(i),
    {
        Sum { i, marker: PhantomData }
    }
}

impl<Source, I: ParallelPipe<Source>, B: Accumulate<I::Item> + Accumulate<B>> ParallelSink<
    Source,
> for Sum<I, B> {
    type Output = B;

    type Pipe = I;

    type ReduceAFactory = SumReducerFactory<I::Item, B>;

    type ReduceA = SumReducer<I::Item, B>;

    type ReduceC = SumReducer<B, B>;

    open spec fn inv(&self) -> bool {
        self.i.inv()
    }

    open spec fn splits(
        self,
        pipe: I,
        a: SumReducerFactory<I::Item, B>,
        c: SumReducer<B, B>,
    ) -> bool {
        pipe == self.i && <B as Accumulate<B>>::is_zero(&c.0)
    }

    fn reducers(self) -> (r: (I, SumReducerFactory<I::Item, B>, SumReducer<B, B>)) {
        let a: SumReducerFactory<I::Item, B> = SumReducerFactory(PhantomData);
        assert(a.inv());
        (self.i, a, SumReducer(<B as Accumulate<B>>::zero(), PhantomData))
    }
}

impl<Source, I: DistributedPipe<Source>, B: Accumulate<I::Item> + Accumulate<B>> DistributedSink<
    Source,
> for Sum<I, B> {
    type Output = B;

    type Pipe = I;

    type ReduceAFactory = SumReducerFactory<I::Item, B>;

    type ReduceBFactory = SumReducerFactory<B, B>;

    type ReduceA = SumReducer<I::Item, B>;

    type ReduceB = SumReducer<B, B>;

    type ReduceC = SumReducer<B, B>;

    open spec fn inv(&self) -> bool {
        self.i.inv()
    }

    open spec fn splits(
        self,
        pipe: I,
        a: SumReducerFactory<I::Item, B>,
        b: SumReducerFactory<B, B>,
        c: SumReducer<B, B>,
    ) -> bool {
        pipe == self.i && <B as Accumulate<B>>::is_zero(&c.0)
    }

    fn reducers(self) -> (r: (
        I,
        SumReducerFactory<I::Item, B>,
        SumReducerFactory<B, B>,
        SumReducer<B, B>,
    )) {
        let a: SumReducerFactory<I::Item, B> = SumReducerFactory(PhantomData);
        let b: SumReducerFactory<B, B> = SumReducerFactory(PhantomData);
        assert(a.inv());
        assert(b.inv());
        (self.i, a, b, SumReducer(<B as Accumulate<B>>::zero(), PhantomData))
    }
}

/// The maker of reducers that sum their items, starting from the total of no
/// items.
pub struct SumReducerFactory<A, B>(pub PhantomData<(A, B)>);

impl<A, B: Accumulate<A>> Factory for SumReducerFactory<A, B> {
    type Item = SumReducer<A, B>;

    open spec fn inv(&self) -> bool {
        true
    }

    open spec fn makes(&self, item: SumReducer<A, B>) -> bool {
        item.0.is_zero()
    }

    fn make(&self) -> (item: SumReducer<A, B>) {
        SumReducer(B::zero(), PhantomData)
    }
}

/// The reducer that sums its items.
pub struct SumReducer<A, B>(pub B, pub PhantomData<A>);

impl<A, B: Accumulate<A>> Intake for SumReducer<A, B> {
    type Item = A;

    open spec fn inv(&self) -> bool {
        true
    }

    open spec fn wants(&self) -> bool {
        true
    }

    open spec fn admits(&self, item: A) -> bool {
        self.0.fits(item)
    }

    open spec fn absorbs(&self, item: A, next: Self) -> bool {
        self.0.adds(item, next.0)
    }
}

impl<A, B: Accumulate<A>> Sink for SumReducer<A, B> {
    fn accepting(&self) -> (b: bool) {
        true
    }

    fn push(&mut self, item: A) {
        self.0.take_in(item);
    }
}

impl<A, B: Accumulate<A>> Reducer for SumReducer<A, B> {
    type Item = A;

    type Output = B;

    type Async = Self;

    open spec fn lowered(self) -> Self {
        self
    }

    fn into_async(self) -> (a: Self) {
        self
    }
}

impl<A, B: Accumulate<A>> ReducerAsync for SumReducer<A, B> {
    type Output = B;

    open spec fn ripe(&self) -> bool {
        true
    }

    open spec fn yields(&self, out: B) -> bool {
        out == self.0
    }

    fn poll_output(&mut self) -> (r: Poll<B>) {
        let mut out = B::zero();
        std::mem::swap(&mut self.0, &mut out);
        Poll::Ready(out)
    }
}

/// Totals that are the numbers themselves: taking in is adding, with nothing
/// lost.
pub trait Exact: Accumulate<Self> {
    /// The number that this total is.
    spec fn to_int(self) -> int;

    proof fn lemma_adds(a: Self, b: Self, sum: Self)
        requires
            a.adds(b, sum),
        ensures
            sum.to_int() == a.to_int() + b.to_int(),
    ;

    proof fn lemma_zero(z: Self)
        requires
            z.is_zero(),
        ensures
            z.to_int() == 0,
    ;
}

impl Exact for u32 {
    open spec fn to_int(self) -> int {
        self as int
    }

    proof fn lemma_adds(a: u32, b: u32, sum: u32) {
    }

    proof fn lemma_zero(z: u32) {
    }
}

impl Exact for u64 {
    open spec fn to_int(self) -> int {
        self as int
    }

    proof fn lemma_adds(a: u64, b: u64, sum: u64) {
    }

    proof fn lemma_zero(z: u64) {
    }
}

impl Exact for usize {
    open spec fn to_int(self) -> int {
        self as int
    }

    proof fn lemma_adds(a: usize, b: usize, sum: usize) {
    }

    proof fn lemma_zero(z: usize) {
    }
}

impl Exact for i32 {
    open spec fn to_int(self) -> int {
        self as int
    }

    proof fn lemma_adds(a: i32, b: i32, sum: i32) {
    }

    proof fn lemma_zero(z: i32) {
    }
}

impl Exact for i64 {
    open spec fn to_int(self) -> int {
        self as int
    }

    proof fn lemma_adds(a: i64, b: i64, sum: i64) {
    }

    proof fn lemma_zero(z: i64) {
    }
}

/// The sum of `items`.
pub open spec fn total<B: Exact>(items: Seq<B>) -> int
    decreases items.len(),
{
    if items.len() == 0 {
        0
    } else {
        total(items.drop_last()) + items.last().to_int()
    }
}

/// The sum of two runs of items.
pub proof fn lemma_total_concat<B: Exact>(first: Seq<B>, second: Seq<B>)
    ensures
        total(first + second) == total(first) + total(second),
    decreases second.len(),
{
    if second.len() == 0 {
        assert(first + second =~= first);
    } else {
        lemma_total_concat(first, second.drop_last());
        assert((first + second).drop_last() =~= first + second.drop_last());
    }
}

/// A reducer that sums holds what it held before plus the sum of the items it
/// was handed.
pub proof fn lemma_sum_offered<B: Exact>(
    start: SumReducer<B, B>,
    items: Seq<B>,
    end: SumReducer<B, B>,
)
    requires
        offered(start, items, end),
    ensures
        end.0.to_int() == start.0.to_int() + total(items),
    decreases items.len(),
{
    if items.len() > 0 {
        let mid = choose|mid: SumReducer<B, B>|
            offered(start, items.drop_last(), mid) && #[trigger] moved(mid, items.last(), end);
        lemma_sum_offered(start, items.drop_last(), mid);
        B::lemma_adds(mid.0, items.last(), end.0);
    }
}

/// The sum as a tally: the value of a run of numbers is their sum, and values
/// merge by addition.
pub struct SumTally<B>(pub PhantomData<B>);

impl<B: Exact> Tally for SumTally<B> {
    type Item = B;

    type Value = int;

    type A = B;

    type B = B;

    type C = B;

    open spec fn lawful(&self) -> bool {
        true
    }

    open spec fn of(&self, items: Seq<B>) -> int {
        total(items)
    }

    open spec fn merge(&self, a: int, b: int) -> int {
        a + b
    }

    open spec fn of_a(&self, out: B) -> int {
        out.to_int()
    }

    open spec fn of_b(&self, out: B) -> int {
        out.to_int()
    }

    open spec fn of_c(&self, out: B) -> int {
        out.to_int()
    }

    proof fn lemma_of_concat(&self, first: Seq<B>, second: Seq<B>) {
        lemma_total_concat(first, second);
    }

    proof fn lemma_merge_commutes(&self, a: int, b: int) {
    }

    proof fn lemma_merge_associates(&self, a: int, b: int, c: int) {
    }

    proof fn lemma_merge_none(&self, a: int) {
    }

    open spec fn within(&self, a: int, b: int) -> bool {
        a == b
    }

    proof fn lemma_within_itself(&self, a: int) {
    }

    proof fn lemma_within_chain(&self, a: int, b: int, c: int) {
    }

    proof fn lemma_merge_within(&self, a: int, b: int, c: int, d: int) {
    }
}

/// The merge of outputs that are sums is their sum.
pub proof fn lemma_merged_sums<B: Exact>(outs: Seq<B>)
    ensures
        merged_a::<SumTally<B>>(SumTally(PhantomData), outs) == total(outs),
        merged_b::<SumTally<B>>(SumTally(PhantomData), outs) == total(outs),
    decreases outs.len(),
{
    if outs.len() > 0 {
        lemma_merged_sums(outs.drop_last());
    }
}

/// A reducer that sums, started from the total of no items, gives the sum of
/// what it is handed.
pub proof fn lemma_sum_reduces<B: Exact>(start: SumReducer<B, B>, items: Seq<B>, out: B)
    requires
        start.0.is_zero(),
        reduces(start, items, out),
    ensures
        out.to_int() == total(items),
{
    let end = choose|end: SumReducer<B, B>| offered(start, items, end) && #[trigger] end.yields(out);
    lemma_sum_offered(start, items, end);
    B::lemma_zero(start.0);
}

/// The sum of a stream does not depend on the pool: on any number of
/// processes and threads, however the tasks are dealt, it is the sum of all
/// the items.
pub proof fn lemma_sum_on_pool<T: StreamTask>(
    tasks: Seq<T>,
    processes: int,
    threads: int,
    out: T::Item,
)
    where T::Item: Exact
    requires
        dist_pipe_reduces(tasks, processes, threads, Sum::<Identity, T::Item>::of(Identity), out),
    ensures
        out.to_int() == total(tasks_items(tasks)),
{
    let sink = Sum::<Identity, T::Item>::of(Identity);
    let (pipe, a, b, c) = choose|
        pipe: Identity,
        a: SumReducerFactory<T::Item, T::Item>,
        b: SumReducerFactory<T::Item, T::Item>,
        c: SumReducer<T::Item, T::Item>,
    | #[trigger]
        DistributedSink::<T::Item>::splits(sink, pipe, a, b, c) && dist_reduces(
            connected::<T, T::Item, Identity>(tasks, pipe),
            processes,
            threads,
            Lowering(a),
            Lowering(b),
            c.lowered(),
            out,
        );
    assert forall|r: SumReducer<T::Item, T::Item>, items: Seq<T::Item>, o: T::Item|
        Lowering(a).makes(r) && #[trigger] reduces(r, items, o) implies o.to_int() == total(
        items,
    ) by {
        lemma_sum_reduces(r, items, o);
    }
    assert forall|r: SumReducer<T::Item, T::Item>, outs: Seq<T::Item>, o: T::Item|
        Lowering(b).makes(r) && #[trigger] reduces(
            r,
            outs,
            o,
        ) implies o.to_int() == merged_a::<SumTally<T::Item>>(SumTally(PhantomData), outs) by {
        lemma_sum_reduces(r, outs, o);
        lemma_merged_sums(outs);
    }
    assert forall|outs: Seq<T::Item>, o: T::Item| #[trigger]
        reduces(
            c.lowered(),
            outs,
            o,
        ) implies o.to_int() == merged_b::<SumTally<T::Item>>(SumTally(PhantomData), outs,
    ) by {
        lemma_sum_reduces(c, outs, o);
        lemma_merged_sums(outs);
    }
    lemma_dist_tally::<
        SumTally<T::Item>,
        ConnectTask<T, crate::par_pipe::identity::IdentityTask>,
        Lowering<SumReducerFactory<T::Item, T::Item>>,
        Lowering<SumReducerFactory<T::Item, T::Item>>,
        SumReducer<T::Item, T::Item>,
    >(
        SumTally(PhantomData),
        connected::<T, T::Item, Identity>(tasks, pipe),
        processes,
        threads,
        Lowering(a),
        Lowering(b),
        c.lowered(),
        out,
    );
    lemma_connected_identity(tasks);
}

/// The sum of a stream does not depend on the number of threads: however
/// the tasks are dealt, it is the sum of all the items.
pub proof fn lemma_sum_on_threads<T: StreamTask>(tasks: Seq<T>, threads: int, out: T::Item)
    where T::Item: Exact
    requires
        par_pipe_reduces(tasks, threads, Sum::<Identity, T::Item>::of(Identity), out),
    ensures
        out.to_int() == total(tasks_items(tasks)),
{
    let sink = Sum::<Identity, T::Item>::of(Identity);
    let (pipe, a, c) = choose|
        pipe: Identity,
        a: SumReducerFactory<T::Item, T::Item>,
        c: SumReducer<T::Item, T::Item>,
    | #[trigger]
        ParallelSink::<T::Item>::splits(sink, pipe, a, c) && par_reduces(
            connected::<T, T::Item, Identity>(tasks, pipe),
            threads,
            Lowering(a),
            c.lowered(),
            out,
        );
    assert forall|r: SumReducer<T::Item, T::Item>, items: Seq<T::Item>, o: T::Item|
        Lowering(a).makes(r) && #[trigger] reduces(r, items, o) implies o.to_int() == total(
        items,
    ) by {
        lemma_sum_reduces(r, items, o);
    }
    assert forall|outs: Seq<T::Item>, o: T::Item| #[trigger]
        reduces(
            c.lowered(),
            outs,
            o,
        ) implies o.to_int() == merged_a::<SumTally<T::Item>>(SumTally(PhantomData), outs,
    ) by {
        lemma_sum_reduces(c, outs, o);
        lemma_merged_sums(outs);
    }
    lemma_par_tally::<
        SumTally<T::Item>,
        ConnectTask<T, crate::par_pipe::identity::IdentityTask>,
        Lowering<SumReducerFactory<T::Item, T::Item>>,
        SumReducer<T::Item, T::Item>,
    >(
        SumTally(PhantomData),
        connected::<T, T::Item, Identity>(tasks, pipe),
        threads,
        Lowering(a),
        c.lowered(),
        out,
    );
    lemma_connected_identity(tasks);
}

/// Exact totals that are never negative and have a greatest value.
pub trait Unsigned: Exact {
    /// The greatest total.
    spec fn limit() -> int;

    proof fn lemma_unsigned(a: Self, b: Self)
        ensures
            0 <= a.to_int() <= Self::limit(),
            a.fits(b) <==> a.to_int() + b.to_int() <= Self::limit(),
    ;
}

impl Unsigned for u32 {
    open spec fn limit() -> int {
        u32::MAX as int
    }

    proof fn lemma_unsigned(a: u32, b: u32) {
    }
}

impl Unsigned for u64 {
    open spec fn limit() -> int {
        u64::MAX as int
    }

    proof fn lemma_unsigned(a: u64, b: u64) {
    }
}

impl Unsigned for usize {
    open spec fn limit() -> int {
        usize::MAX as int
    }

    proof fn lemma_unsigned(a: usize, b: usize) {
    }
}

/// The sum of unsigned numbers is not negative and not less than the sum of
/// the first `k` of them.
pub proof fn lemma_total_prefix<B: Unsigned>(items: Seq<B>, k: int)
    requires
        0 <= k <= items.len(),
    ensures
        0 <= total(items.take(k)) <= total(items),
    decreases items.len(),
{
    if k == items.len() {
        assert(items.take(k) =~= items);
        if items.len() > 0 {
            lemma_total_prefix(items.drop_last(), k - 1);
            assert(items.drop_last().take(k - 1) =~= items.drop_last());
            B::lemma_unsigned(items.last(), items.last());
        }
    } else {
        lemma_total_prefix(items.drop_last(), k);
        assert(items.drop_last().take(k) =~= items.take(k));
        B::lemma_unsigned(items.last(), items.last());
    }
}

/// A reducer that sums unsigned numbers can be handed any items with which
/// its total stays within the limit.
pub proof fn lemma_sum_runs<B: Unsigned>(start: SumReducer<B, B>, items: Seq<B>)
    requires
        start.0.to_int() + total(items) <= B::limit(),
    ensures
        runs_on(start, items),
{
    assert forall|k: int, mid: SumReducer<B, B>|
        0 <= k < items.len() && #[trigger] offered(start, items.take(k), mid)
            && mid.wants() implies mid.admits(items[k]) by {
        lemma_sum_offered(start, items.take(k), mid);
        lemma_total_prefix(items, k + 1);
        assert(items.take(k + 1).drop_last() =~= items.take(k));
        B::lemma_unsigned(mid.0, items[k]);
    }
}

/// The reducers of every level of a sum give the sum of what they are handed.
pub proof fn lemma_sum_exact<B: Exact>(
    a: SumReducerFactory<B, B>,
    b: SumReducerFactory<B, B>,
    c: SumReducer<B, B>,
)
    requires
        c.0.is_zero(),
    ensures
        exact_a::<SumTally<B>, Lowering<SumReducerFactory<B, B>>>(
            SumTally(PhantomData),
            Lowering(a),
        ),
        exact_b::<SumTally<B>, Lowering<SumReducerFactory<B, B>>>(
            SumTally(PhantomData),
            Lowering(b),
        ),
        exact_c::<SumTally<B>, SumReducer<B, B>>(SumTally(PhantomData), c),
        exact_top::<SumTally<B>, SumReducer<B, B>>(SumTally(PhantomData), c),
        forall|r: SumReducer<B, B>| #[trigger] Lowering(b).makes(r) ==> exact_top::<
            SumTally<B>,
            SumReducer<B, B>,
        >(SumTally(PhantomData), r),
{
    assert forall|r: SumReducer<B, B>, items: Seq<B>, o: B|
        Lowering(a).makes(r) && #[trigger] reduces(r, items, o) implies o.to_int() == total(
        items,
    ) by {
        lemma_sum_reduces(r, items, o);
    }
    assert forall|r: SumReducer<B, B>, outs: Seq<B>, o: B|
        Lowering(b).makes(r) && #[trigger] reduces(
            r,
            outs,
            o,
        ) implies o.to_int() == merged_a::<SumTally<B>>(SumTally(PhantomData), outs) by {
        lemma_sum_reduces(r, outs, o);
        lemma_merged_sums(outs);
    }
    assert forall|outs: Seq<B>, o: B| #[trigger] reduces(c, outs, o) implies o.to_int()
        == merged_b::<SumTally<B>>(
            SumTally(PhantomData),
            outs,
        ) && o.to_int() == merged_a::<SumTally<B>>(SumTally(PhantomData), outs) by {
        lemma_sum_reduces(c, outs, o);
        lemma_merged_sums(outs);
    }
    assert forall|r: SumReducer<B, B>| #[trigger] Lowering(b).makes(r) implies exact_top::<
        SumTally<B>,
        SumReducer<B, B>,
    >(SumTally(PhantomData), r) by {
        assert forall|outs: Seq<B>, o: B| #[trigger] reduces(r, outs, o) implies o.to_int()
            == merged_a::<SumTally<B>>(SumTally(PhantomData), outs) by {
            lemma_sum_reduces(r, outs, o);
            lemma_merged_sums(outs);
        }
    }
}

/// The sum of the items of one bin of unsigned numbers is not more than the
/// sum of the items of the first `k` bins, if the bin is among them, and no
/// such sum is negative.
pub proof fn lemma_bin_within<B: Unsigned, T: StreamTask<Item = B>>(
    bins: Seq<Seq<T>>,
    i: int,
    k: int,
)
    requires
        0 <= i < bins.len(),
        0 <= k <= bins.len(),
    ensures
        0 <= bins_tally::<SumTally<B>, T>(SumTally(PhantomData), bins, k),
        i < k ==> total(tasks_items(bins[i])) <= bins_tally::<SumTally<B>, T>(
            SumTally(PhantomData),
            bins,
            k,
        ),
    decreases k,
{
    if k > 0 {
        lemma_bin_within::<B, T>(bins, i, k - 1);
        lemma_total_prefix(tasks_items(bins[k - 1]), 0);
    }
}

/// On the threads of one process, unsigned numbers whose sum is within the
/// limit can be summed, whatever reducer that holds nothing takes the threads'
/// outputs.
pub proof fn lemma_sum_par_runs<B: Unsigned, T: StreamTask<Item = B>>(
    tasks: Seq<T>,
    threads: int,
    a: SumReducerFactory<B, B>,
    c: SumReducer<B, B>,
)
    requires
        tasks_inv(tasks),
        c.0.is_zero(),
        total(tasks_items(tasks)) <= B::limit(),
    ensures
        par_runs(tasks, threads, Lowering(a), c),
{
    lemma_sum_exact(a, a, c);
    B::lemma_zero(c.0);
    assert forall|bins: Seq<Seq<T>>| #[trigger] evenly_dealt(tasks, threads, bins) implies bins_run(
        Lowering(a),
        bins,
    ) by {
        lemma_dealt_tally::<SumTally<B>, T>(SumTally(PhantomData), tasks, bins);
        assert forall|i: int| 0 <= i < bins.len() && (#[trigger] bins[i]).len() > 0 implies made_runs_on(
            Lowering(a),
            tasks_items(bins[i]),
        ) by {
            lemma_bin_within::<B, T>(bins, i, bins.len() as int);
            assert forall|r: SumReducer<B, B>| #[trigger] Lowering(a).makes(r) implies runs_on(
                r,
                tasks_items(bins[i]),
            ) by {
                B::lemma_zero(r.0);
                lemma_sum_runs(r, tasks_items(bins[i]));
            }
        }
    }
    assert forall|bins: Seq<Seq<T>>, outs: Seq<B>|
        evenly_dealt(tasks, threads, bins) && #[trigger] bins_reduce(
            Lowering(a),
            bins,
            outs,
        ) implies runs_on(c, outs) by {
        lemma_dealt_tally::<SumTally<B>, T>(SumTally(PhantomData), tasks, bins);
        lemma_bins_reduce_tally::<SumTally<B>, T, Lowering<SumReducerFactory<B, B>>>(
            SumTally(PhantomData), Lowering(a),
            bins,
            outs,
        );
        lemma_merged_sums(outs);
        lemma_sum_runs(c, outs);
    }
}

/// Unsigned numbers whose sum is within the limit can be summed on any
/// number of threads.
pub proof fn lemma_sum_runs_on_threads<T: StreamTask>(tasks: Seq<T>, threads: int)
    where T::Item: Unsigned
    requires
        tasks_inv(tasks),
        total(tasks_items(tasks)) <= T::Item::limit(),
    ensures
        par_pipe_runs(tasks, threads, Sum::<Identity, T::Item>::of(Identity)),
{
    let sink = Sum::<Identity, T::Item>::of(Identity);
    assert forall|
        pipe: Identity,
        a: SumReducerFactory<T::Item, T::Item>,
        c: SumReducer<T::Item, T::Item>,
    | #[trigger]
        ParallelSink::<T::Item>::splits(sink, pipe, a, c) implies par_runs(
        connected::<T, T::Item, Identity>(tasks, pipe),
        threads,
        Lowering(a),
        c.lowered(),
    ) by {
        lemma_connected_identity_inv(tasks);
        lemma_connected_identity(tasks);
        lemma_sum_par_runs::<T::Item, ConnectTask<T, IdentityTask>>(
            connected::<T, T::Item, Identity>(tasks, pipe),
            threads,
            a,
            c,
        );
    }
}

/// Unsigned numbers whose sum is within the limit can be summed on any pool.
pub proof fn lemma_sum_runs_on_pool<T: StreamTask>(tasks: Seq<T>, processes: int, threads: int)
    where T::Item: Unsigned
    requires
        tasks_inv(tasks),
        total(tasks_items(tasks)) <= T::Item::limit(),
    ensures
        dist_pipe_runs(tasks, processes, threads, Sum::<Identity, T::Item>::of(Identity)),
{
    let sink = Sum::<Identity, T::Item>::of(Identity);
    assert forall|
        pipe: Identity,
        a: SumReducerFactory<T::Item, T::Item>,
        b: SumReducerFactory<T::Item, T::Item>,
        c: SumReducer<T::Item, T::Item>,
    | #[trigger]
        DistributedSink::<T::Item>::splits(sink, pipe, a, b, c) implies dist_runs(
        connected::<T, T::Item, Identity>(tasks, pipe),
        processes,
        threads,
        Lowering(a),
        Lowering(b),
        c.lowered(),
    ) by {
        let with_pipe = connected::<T, T::Item, Identity>(tasks, pipe);
        lemma_connected_identity_inv(tasks);
        lemma_connected_identity(tasks);
        lemma_sum_exact(a, b, c);
        assert forall|bins: Seq<Seq<ConnectTask<T, IdentityTask>>>| #[trigger]
            evenly_dealt(with_pipe, processes, bins) implies procs_run(
            Lowering(a),
            Lowering(b),
            threads,
            bins,
        ) by {
            lemma_dealt_inv(with_pipe, bins);
            lemma_dealt_tally::<SumTally<T::Item>, ConnectTask<T, IdentityTask>>(
                SumTally(PhantomData),
                with_pipe,
                bins,
            );
            assert forall|i: int| 0 <= i < bins.len() && (#[trigger] bins[i]).len() > 0 implies proc_runs(
                Lowering(a),
                Lowering(b),
                threads,
                bins[i],
            ) by {
                lemma_bin_within::<T::Item, ConnectTask<T, IdentityTask>>(
                    bins,
                    i,
                    bins.len() as int,
                );
                assert forall|reduce_b: SumReducer<T::Item, T::Item>| #[trigger]
                    Lowering(b).makes(reduce_b) implies par_runs(
                    bins[i],
                    threads,
                    Lowering(a),
                    reduce_b,
                ) by {
                    lemma_sum_par_runs::<T::Item, ConnectTask<T, IdentityTask>>(
                        bins[i],
                        threads,
                        a,
                        reduce_b,
                    );
                }
            }
        }
        assert forall|bins: Seq<Seq<ConnectTask<T, IdentityTask>>>, outs: Seq<T::Item>|
            evenly_dealt(with_pipe, processes, bins) && #[trigger] procs_reduce(
                Lowering(a),
                Lowering(b),
                threads,
                bins,
                outs,
            ) implies runs_on(c.lowered(), outs) by {
            lemma_dealt_tally::<SumTally<T::Item>, ConnectTask<T, IdentityTask>>(
                SumTally(PhantomData),
                with_pipe,
                bins,
            );
            lemma_procs_reduce_tally::<
                SumTally<T::Item>,
                ConnectTask<T, IdentityTask>,
                Lowering<SumReducerFactory<T::Item, T::Item>>,
                Lowering<SumReducerFactory<T::Item, T::Item>>,
            >(SumTally(PhantomData), Lowering(a), Lowering(b), threads, bins, outs);
            lemma_merged_sums(outs);
            T::Item::lemma_zero(c.0);
            lemma_sum_runs(c, outs);
        }
    }
}

} // verus!
