//! Counting items.

use vstd::prelude::*;
use std::marker::PhantomData;
use crate::par_pipe::{DistributedPipe, ParallelPipe};
use crate::par_pipe::identity::{Identity, IdentityTask};
use crate::par_sink::sum::{
    lemma_sum_reduces, lemma_sum_runs, total, SumReducer, SumReducerFactory,
};
use crate::par_sink::{
    reduces, runs_on, DistributedSink, Factory, Lowering, ParallelSink, Reducer, ReducerAsync,
};
use crate::par_stream::pipe::{
    connected, dist_pipe_reduces, dist_pipe_runs, lemma_connected_identity,
    lemma_connected_identity_inv, par_pipe_reduces, par_pipe_runs, ConnectTask,
};
use crate::par_stream::reduce::{
    bins_reduce, bins_run, dist_reduces, dist_runs, evenly_dealt, lemma_dealt_inv, made_runs_on,
    par_reduces, par_runs, proc_runs, procs_reduce, procs_run, tasks_inv, tasks_items,
};
use crate::par_stream::tally::{
    bins_tally, exact_a, exact_b, exact_c, exact_top, lemma_bins_reduce_tally, lemma_dealt_tally,
    lemma_dist_tally, lemma_par_tally, lemma_procs_reduce_tally, merged_a, merged_b, Tally,
};
use crate::par_stream::StreamTask;
use crate::sink::{moved, offered, Intake, Sink};
use crate::stream::Poll;

verus! {

/// The terminal operator that counts the items that the pipe `i` hands out.
pub struct Count<I> {
    pub i: I,
}

impl<I> Count<I> {
    /// The operator as [`new`](Count::new) makes it.
    pub open spec fn of(i: I) -> Self {
        Count { i }
    }

    pub fn new(i: I) -> (s: Self)
        ensures
            s == Self::of(i),
    {
        Count { i }
    }
}

impl<Source, I: ParallelPipe<Source>> ParallelSink<Source> for Count<I> {
    type Output = usize;

    type Pipe = I;

    type ReduceAFactory = CountReducerFactory<I::Item>;

    type ReduceA = CountReducer<I::Item>;

    type ReduceC = SumReducer<usize, usize>;

    open spec fn inv(&self) -> bool {
        self.i.inv()
    }

    open spec fn splits(
        self,
        pipe: I,
        a: CountReducerFactory<I::Item>,
        c: SumReducer<usize, usize>,
    ) -> bool {
        pipe == self.i && c.0 == 0
    }

    fn reducers(self) -> (r: (I, CountReducerFactory<I::Item>, SumReducer<usize, usize>)) {
        let a: CountReducerFactory<I::Item> = CountReducerFactory(PhantomData);
        assert(a.inv());
        (self.i, a, SumReducer(0, PhantomData))
    }
}

impl<Source, I: DistributedPipe<Source>> DistributedSink<Source> for Count<I> {
    type Output = usize;

    type Pipe = I;

    type ReduceAFactory = CountReducerFactory<I::Item>;

    type ReduceBFactory = SumReducerFactory<usize, usize>;

    type ReduceA = CountReducer<I::Item>;

    type ReduceB = SumReducer<usize, usize>;

    type ReduceC = SumReducer<usize, usize>;

    open spec fn inv(&self) -> bool {
        self.i.inv()
    }

    open spec fn splits(
        self,
        pipe: I,
        a: CountReducerFactory<I::Item>,
        b: SumReducerFactory<usize, usize>,
        c: SumReducer<usize, usize>,
    ) -> bool {
        pipe == self.i && c.0 == 0
    }

    fn reducers(self) -> (r: (
        I,
        CountReducerFactory<I::Item>,
        SumReducerFactory<usize, usize>,
        SumReducer<usize, usize>,
    )) {
        let a: CountReducerFactory<I::Item> = CountReducerFactory(PhantomData);
        let b: SumReducerFactory<usize, usize> = SumReducerFactory(PhantomData);
        assert(a.inv());
        assert(b.inv());
        (self.i, a, b, SumReducer(0, PhantomData))
    }
}

/// The maker of reducers that count their items from zero.
pub struct CountReducerFactory<A>(pub PhantomData<A>);

impl<A> Factory for CountReducerFactory<A> {
    type Item = CountReducer<A>;

    open spec fn inv(&self) -> bool {
        true
    }

    open spec fn makes(&self, item: CountReducer<A>) -> bool {
        item.0 == 0
    }

    fn make(&self) -> (item: CountReducer<A>) {
        CountReducer(0, PhantomData)
    }
}

/// The reducer that counts its items and ignores what they are.
pub struct CountReducer<A>(pub usize, pub PhantomData<A>);

impl<A> Intake for CountReducer<A> {
    type Item = A;

    open spec fn inv(&self) -> bool {
        true
    }

    open spec fn wants(&self) -> bool {
        true
    }

    open spec fn admits(&self, item: A) -> bool {
        self.0 < usize::MAX
    }

    open spec fn absorbs(&self, item: A, next: Self) -> bool {
        next.0 == self.0 + 1
    }
}

impl<A> Sink for CountReducer<A> {
    fn accepting(&self) -> (b: bool) {
        true
    }

    fn push(&mut self, _item: A) {
        self.0 = self.0 + 1;
    }
}

impl<A> ReducerAsync for CountReducer<A> {
    type Output = usize;

    open spec fn ripe(&self) -> bool {
        true
    }

    open spec fn yields(&self, out: usize) -> bool {
        out == self.0
    }

    fn poll_output(&mut self) -> (r: Poll<usize>) {
        Poll::Ready(self.0)
    }
}

impl<A> Reducer for CountReducer<A> {
    type Item = A;

    type Output = usize;

    type Async = Self;

    open spec fn lowered(self) -> Self {
        self
    }

    fn into_async(self) -> (a: Self) {
        self
    }
}

/// A reducer that counts holds what it held before plus the number of items
/// it was handed.
pub proof fn lemma_count_offered<A>(start: CountReducer<A>, items: Seq<A>, end: CountReducer<A>)
    requires
        offered(start, items, end),
    ensures
        end.0 == start.0 + items.len(),
    decreases items.len(),
{
    if items.len() > 0 {
        let mid = choose|mid: CountReducer<A>|
            offered(start, items.drop_last(), mid) && #[trigger] moved(mid, items.last(), end);
        lemma_count_offered(start, items.drop_last(), mid);
    }
}

/// The count as a tally: the value of a run of items is its length, and
/// values merge by addition.
pub struct CountTally<A>(pub PhantomData<A>);

impl<A> Tally for CountTally<A> {
    type Item = A;

    type Value = int;

    type A = usize;

    type B = usize;

    type C = usize;

    open spec fn lawful(&self) -> bool {
        true
    }

    open spec fn of(&self, items: Seq<A>) -> int {
        items.len() as int
    }

    open spec fn merge(&self, a: int, b: int) -> int {
        a + b
    }

    open spec fn of_a(&self, out: usize) -> int {
        out as int
    }

    open spec fn of_b(&self, out: usize) -> int {
        out as int
    }

    open spec fn of_c(&self, out: usize) -> int {
        out as int
    }

    proof fn lemma_of_concat(&self, first: Seq<A>, second: Seq<A>) {
    }

    proof fn lemma_merge_commutes(&self, a: int, b: int) {
    }

    proof fn lemma_merge_associates(&self, a: int, b: int, c: int) {
    }

    proof fn lemma_merge_none(&self, a: int) {
    }

    open spec fn within(&self, a: int, b: int) -> bool {
        a == b
    }

    proof fn lemma_within_itself(&self, a: int) {
    }

    proof fn lemma_within_chain(&self, a: int, b: int, c: int) {
    }

    proof fn lemma_merge_within(&self, a: int, b: int, c: int, d: int) {
    }
}

/// The merge of outputs that are counts is their sum.
pub proof fn lemma_merged_counts<A>(outs: Seq<usize>)
    ensures
        merged_a::<CountTally<A>>(CountTally(PhantomData), outs) == total(outs),
        merged_b::<CountTally<A>>(CountTally(PhantomData), outs) == total(outs),
    decreases outs.len(),
{
    if outs.len() > 0 {
        lemma_merged_counts::<A>(outs.drop_last());
    }
}

/// The count of a stream does not depend on the pool: on any number of
/// processes and threads, however the tasks are dealt, it is the number of all
/// the items.
pub proof fn lemma_count_on_pool<T: StreamTask>(
    tasks: Seq<T>,
    processes: int,
    threads: int,
    out: usize,
)
    requires
        dist_pipe_reduces(tasks, processes, threads, Count::<Identity>::of(Identity), out),
    ensures
        out == tasks_items(tasks).len(),
{
    let sink = Count::<Identity>::of(Identity);
    let (pipe, a, b, c) = choose|
        pipe: Identity,
        a: CountReducerFactory<T::Item>,
        b: SumReducerFactory<usize, usize>,
        c: SumReducer<usize, usize>,
    | #[trigger]
        DistributedSink::<T::Item>::splits(sink, pipe, a, b, c) && dist_reduces(
            connected::<T, T::Item, Identity>(tasks, pipe),
            processes,
            threads,
            Lowering(a),
            Lowering(b),
            c.lowered(),
            out,
        );
    assert forall|r: CountReducer<T::Item>, items: Seq<T::Item>, o: usize|
        Lowering(a).makes(r) && #[trigger] reduces(r, items, o) implies o == items.len() by {
        let end = choose|end: CountReducer<T::Item>|
            offered(r, items, end) && #[trigger] end.yields(o);
        lemma_count_offered(r, items, end);
    }
    assert forall|r: SumReducer<usize, usize>, outs: Seq<usize>, o: usize|
        Lowering(b).makes(r) && #[trigger] reduces(
            r,
            outs,
            o,
        ) implies o == merged_a::<CountTally<T::Item>>(CountTally(PhantomData), outs) by {
        lemma_sum_reduces(r, outs, o);
        lemma_merged_counts::<T::Item>(outs);
    }
    assert forall|outs: Seq<usize>, o: usize| #[trigger]
        reduces(
            c.lowered(),
            outs,
            o,
        ) implies o == merged_b::<CountTally<T::Item>>(CountTally(PhantomData), outs) by {
        lemma_sum_reduces(c, outs, o);
        lemma_merged_counts::<T::Item>(outs);
    }
    lemma_dist_tally::<
        CountTally<T::Item>,
        ConnectTask<T, IdentityTask>,
        Lowering<CountReducerFactory<T::Item>>,
        Lowering<SumReducerFactory<usize, usize>>,
        SumReducer<usize, usize>,
    >(
        CountTally(PhantomData), connected::<T, T::Item, Identity>(tasks, pipe),
        processes,
        threads,
        Lowering(a),
        Lowering(b),
        c.lowered(),
        out,
    );
    lemma_connected_identity(tasks);
}

/// The count of a stream does not depend on the number of threads.
pub proof fn lemma_count_on_threads<T: StreamTask>(tasks: Seq<T>, threads: int, out: usize)
    requires
        par_pipe_reduces(tasks, threads, Count::<Identity>::of(Identity), out),
    ensures
        out == tasks_items(tasks).len(),
{
    let sink = Count::<Identity>::of(Identity);
    let (pipe, a, c) = choose|
        pipe: Identity,
        a: CountReducerFactory<T::Item>,
        c: SumReducer<usize, usize>,
    | #[trigger]
        ParallelSink::<T::Item>::splits(sink, pipe, a, c) && par_reduces(
            connected::<T, T::Item, Identity>(tasks, pipe),
            threads,
            Lowering(a),
            c.lowered(),
            out,
        );
    assert forall|r: CountReducer<T::Item>, items: Seq<T::Item>, o: usize|
        Lowering(a).makes(r) && #[trigger] reduces(r, items, o) implies o == items.len() by {
        let end = choose|end: CountReducer<T::Item>|
            offered(r, items, end) && #[trigger] end.yields(o);
        lemma_count_offered(r, items, end);
    }
    assert forall|outs: Seq<usize>, o: usize| #[trigger]
        reduces(
            c.lowered(),
            outs,
            o,
        ) implies o == merged_a::<CountTally<T::Item>>(CountTally(PhantomData), outs) by {
        lemma_sum_reduces(c, outs, o);
        lemma_merged_counts::<T::Item>(outs);
    }
    lemma_par_tally::<
        CountTally<T::Item>,
        ConnectTask<T, IdentityTask>,
        Lowering<CountReducerFactory<T::Item>>,
        SumReducer<usize, usize>,
    >(
        CountTally(PhantomData),
        connected::<T, T::Item, Identity>(tasks, pipe),
        threads,
        Lowering(a),
        c.lowered(),
        out,
    );
    lemma_connected_identity(tasks);
}

/// A reducer that counts can be handed any items with which its count stays
/// a number.
pub proof fn lemma_count_runs<A>(start: CountReducer<A>, items: Seq<A>)
    requires
        start.0 + items.len() <= usize::MAX,
    ensures
        runs_on(start, items),
{
    assert forall|k: int, mid: CountReducer<A>|
        0 <= k < items.len() && #[trigger] offered(start, items.take(k), mid)
            && mid.wants() implies mid.admits(items[k]) by {
        lemma_count_offered(start, items.take(k), mid);
    }
}

/// The reducers of every level of a count give the number of items that
/// they stand for.
pub proof fn lemma_count_exact<A>(
    a: CountReducerFactory<A>,
    b: SumReducerFactory<usize, usize>,
    c: SumReducer<usize, usize>,
)
    requires
        c.0 == 0,
    ensures
        exact_a::<CountTally<A>, Lowering<CountReducerFactory<A>>>(
            CountTally(PhantomData),
            Lowering(a),
        ),
        exact_b::<CountTally<A>, Lowering<SumReducerFactory<usize, usize>>>(
            CountTally(PhantomData),
            Lowering(b),
        ),
        exact_c::<CountTally<A>, SumReducer<usize, usize>>(CountTally(PhantomData), c),
        exact_top::<CountTally<A>, SumReducer<usize, usize>>(CountTally(PhantomData), c),
        forall|r: SumReducer<usize, usize>| #[trigger] Lowering(b).makes(r) ==> exact_top::<
            CountTally<A>,
            SumReducer<usize, usize>,
        >(CountTally(PhantomData), r),
{
    assert forall|r: CountReducer<A>, items: Seq<A>, o: usize|
        Lowering(a).makes(r) && #[trigger] reduces(r, items, o) implies o == items.len() by {
        let end = choose|end: CountReducer<A>| offered(r, items, end) && #[trigger] end.yields(o);
        lemma_count_offered(r, items, end);
    }
    assert forall|r: SumReducer<usize, usize>, outs: Seq<usize>, o: usize|
        Lowering(b).makes(r) && #[trigger] reduces(
            r,
            outs,
            o,
        ) implies o == merged_a::<CountTally<A>>(CountTally(PhantomData), outs,
    ) by {
        lemma_sum_reduces(r, outs, o);
        lemma_merged_counts::<A>(outs);
    }
    assert forall|outs: Seq<usize>, o: usize| #[trigger] reduces(c, outs, o) implies o
        == merged_b::<CountTally<A>>(
            CountTally(PhantomData),
            outs,
        ) && o == merged_a::<CountTally<A>>(CountTally(PhantomData), outs) by {
        lemma_sum_reduces(c, outs, o);
        lemma_merged_counts::<A>(outs);
    }
    assert forall|r: SumReducer<usize, usize>| #[trigger] Lowering(b).makes(r) implies exact_top::<
        CountTally<A>,
        SumReducer<usize, usize>,
    >(CountTally(PhantomData), r) by {
        assert forall|outs: Seq<usize>, o: usize| #[trigger] reduces(r, outs, o) implies o
            == merged_a::<CountTally<A>>(CountTally(PhantomData), outs) by {
            lemma_sum_reduces(r, outs, o);
            lemma_merged_counts::<A>(outs);
        }
    }
}

/// The number of items of one bin is not more than the number of items of
/// the first `k` bins, if the bin is among them.
pub proof fn lemma_bin_count_within<T: StreamTask>(bins: Seq<Seq<T>>, i: int, k: int)
    requires
        0 <= i < bins.len(),
        0 <= k <= bins.len(),
    ensures
        0 <= bins_tally::<CountTally<T::Item>, T>(CountTally(PhantomData), bins, k),
        i < k ==> tasks_items(bins[i]).len() <= bins_tally::<CountTally<T::Item>, T>(
            CountTally(PhantomData),
            bins,
            k,
        ),
    decreases k,
{
    if k > 0 {
        lemma_bin_count_within::<T>(bins, i, k - 1);
    }
}

/// On the threads of one process, items can be counted if their number is a
/// number, whatever reducer that holds zero takes the threads' outputs.
pub proof fn lemma_count_par_runs<T: StreamTask>(
    tasks: Seq<T>,
    threads: int,
    a: CountReducerFactory<T::Item>,
    c: SumReducer<usize, usize>,
)
    requires
        tasks_inv(tasks),
        c.0 == 0,
        tasks_items(tasks).len() <= usize::MAX,
    ensures
        par_runs(tasks, threads, Lowering(a), c),
{
    let b: SumReducerFactory<usize, usize> = SumReducerFactory(std::marker::PhantomData);
    lemma_count_exact(a, b, c);
    assert forall|bins: Seq<Seq<T>>| #[trigger] evenly_dealt(tasks, threads, bins) implies bins_run(
        Lowering(a),
        bins,
    ) by {
        lemma_dealt_tally::<CountTally<T::Item>, T>(CountTally(PhantomData), tasks, bins);
        assert forall|i: int| 0 <= i < bins.len() && (#[trigger] bins[i]).len() > 0 implies made_runs_on(
            Lowering(a),
            tasks_items(bins[i]),
        ) by {
            lemma_bin_count_within::<T>(bins, i, bins.len() as int);
            assert forall|r: CountReducer<T::Item>| #[trigger] Lowering(a).makes(r) implies runs_on(
                r,
                tasks_items(bins[i]),
            ) by {
                lemma_count_runs(r, tasks_items(bins[i]));
            }
        }
    }
    assert forall|bins: Seq<Seq<T>>, outs: Seq<usize>|
        evenly_dealt(tasks, threads, bins) && #[trigger] bins_reduce(
            Lowering(a),
            bins,
            outs,
        ) implies runs_on(c, outs) by {
        lemma_dealt_tally::<CountTally<T::Item>, T>(CountTally(PhantomData), tasks, bins);
        lemma_bins_reduce_tally::<CountTally<T::Item>, T, Lowering<CountReducerFactory<T::Item>>>(
            CountTally(PhantomData), Lowering(a),
            bins,
            outs,
        );
        lemma_merged_counts::<T::Item>(outs);
        lemma_sum_runs(c, outs);
    }
}

/// Items whose number is a number can be counted on any number of threads.
pub proof fn lemma_count_runs_on_threads<T: StreamTask>(tasks: Seq<T>, threads: int)
    requires
        tasks_inv(tasks),
        tasks_items(tasks).len() <= usize::MAX,
    ensures
        par_pipe_runs(tasks, threads, Count::<Identity>::of(Identity)),
{
    let sink = Count::<Identity>::of(Identity);
    assert forall|pipe: Identity, a: CountReducerFactory<T::Item>, c: SumReducer<usize, usize>| #[trigger]
        ParallelSink::<T::Item>::splits(sink, pipe, a, c) implies par_runs(
        connected::<T, T::Item, Identity>(tasks, pipe),
        threads,
        Lowering(a),
        c.lowered(),
    ) by {
        lemma_connected_identity_inv(tasks);
        lemma_connected_identity(tasks);
        lemma_count_par_runs::<ConnectTask<T, IdentityTask>>(
            connected::<T, T::Item, Identity>(tasks, pipe),
            threads,
            a,
            c,
        );
    }
}

/// Items whose number is a number can be counted on any pool.
pub proof fn lemma_count_runs_on_pool<T: StreamTask>(tasks: Seq<T>, processes: int, threads: int)
    requires
        tasks_inv(tasks),
        tasks_items(tasks).len() <= usize::MAX,
    ensures
        dist_pipe_runs(tasks, processes, threads, Count::<Identity>::of(Identity)),
{
    let sink = Count::<Identity>::of(Identity);
    assert forall|
        pipe: Identity,
        a: CountReducerFactory<T::Item>,
        b: SumReducerFactory<usize, usize>,
        c: SumReducer<usize, usize>,
    | #[trigger]
        DistributedSink::<T::Item>::splits(sink, pipe, a, b, c) implies dist_runs(
        connected::<T, T::Item, Identity>(tasks, pipe),
        processes,
        threads,
        Lowering(a),
        Lowering(b),
        c.lowered(),
    ) by {
        let with_pipe = connected::<T, T::Item, Identity>(tasks, pipe);
        lemma_connected_identity_inv(tasks);
        lemma_connected_identity(tasks);
        lemma_count_exact(a, b, c);
        assert forall|bins: Seq<Seq<ConnectTask<T, IdentityTask>>>| #[trigger]
            evenly_dealt(with_pipe, processes, bins) implies procs_run(
            Lowering(a),
            Lowering(b),
            threads,
            bins,
        ) by {
            lemma_dealt_inv(with_pipe, bins);
            lemma_dealt_tally::<CountTally<T::Item>, ConnectTask<T, IdentityTask>>(
                CountTally(PhantomData),
                with_pipe,
                bins,
            );
            assert forall|i: int| 0 <= i < bins.len() && (#[trigger] bins[i]).len() > 0 implies proc_runs(
                Lowering(a),
                Lowering(b),
                threads,
                bins[i],
            ) by {
                lemma_bin_count_within::<ConnectTask<T, IdentityTask>>(bins, i, bins.len() as int);
                assert forall|reduce_b: SumReducer<usize, usize>| #[trigger]
                    Lowering(b).makes(reduce_b) implies par_runs(
                    bins[i],
                    threads,
                    Lowering(a),
                    reduce_b,
                ) by {
                    lemma_count_par_runs::<ConnectTask<T, IdentityTask>>(
                        bins[i],
                        threads,
                        a,
                        reduce_b,
                    );
                }
            }
        }
        assert forall|bins: Seq<Seq<ConnectTask<T, IdentityTask>>>, outs: Seq<usize>|
            evenly_dealt(with_pipe, processes, bins) && #[trigger] procs_reduce(
                Lowering(a),
                Lowering(b),
                threads,
                bins,
                outs,
            ) implies runs_on(c.lowered(), outs) by {
            lemma_dealt_tally::<CountTally<T::Item>, ConnectTask<T, IdentityTask>>(
                CountTally(PhantomData),
                with_pipe,
                bins,
            );
            lemma_procs_reduce_tally::<
                CountTally<T::Item>,
                ConnectTask<T, IdentityTask>,
                Lowering<CountReducerFactory<T::Item>>,
                Lowering<SumReducerFactory<usize, usize>>,
            >(CountTally(PhantomData), Lowering(a), Lowering(b), threads, bins, outs);
            lemma_merged_counts::<T::Item>(outs);
            lemma_sum_runs(c, outs);
        }
    }
}

} // verus!
