//! What holds of the most frequent items where the summary keeps exact
//! counts: the summary gives every number the count of how often it occurs
//! in the stream, whatever the pool.

use vstd::prelude::*;
use std::marker::PhantomData;
use crate::par_pipe::identity::{Identity, IdentityTask};
use crate::par_sink::count::{lemma_bin_count_within, CountTally};
use crate::par_sink::histogram::{count_in, sorted};
use crate::par_sink::histogram::fits::lemma_count_in_bounds;
use crate::par_sink::most_frequent::{MostFrequent, MostFrequentReduceFactory, MostFrequentReducer};
use crate::par_sink::sample::{NonzeroReduceFactory, NonzeroReducer};
use crate::par_sink::sketch::{Counts, CountsFactory};
use crate::par_sink::sum::{Accumulate, SumReducer, SumReducerFactory};
use crate::par_sink::{
    reduces, runs_on, DistributedSink, Factory, Lowering, ParallelSink, Reducer, ReducerAsync,
};
use crate::par_stream::partition::on_top;
use crate::par_stream::pipe::{
    connected, dist_pipe_reduces, dist_pipe_runs, lemma_connected_identity,
    lemma_connected_identity_inv, par_pipe_reduces, par_pipe_runs, ConnectTask,
};
use crate::par_stream::reduce::{
    bins_reduce, bins_run, dist_reduces, dist_runs, evenly_dealt, lemma_bins_reduce_each,
    lemma_bins_reduce_some, lemma_dealt_inv, lemma_procs_reduce_each, made_runs_on, par_reduces,
    par_runs, proc_runs, procs_reduce, procs_run, tasks_inv, tasks_items,
};
use crate::par_stream::tally::{
    exact_a, exact_b, exact_c, exact_top, lemma_bins_reduce_tally, lemma_dealt_tally,
    lemma_dist_tally, lemma_par_tally, lemma_procs_reduce_tally, merged_a, merged_b, Tally,
};
use crate::par_stream::StreamTask;
use crate::sink::{moved, offered, Intake};
use crate::stream::{
    lemma_occurrences_bounds, lemma_occurrences_concat, lemma_occurrences_prefix, occurrences,
};

verus! {

/// The reducer that merges summaries of exact counts.
pub type CountsMerger = NonzeroReducer<SumReducer<Counts, Option<Counts>>>;

/// The count that an optional summary gives to `key`: zero if there is none.
pub open spec fn held_count(held: Option<Counts>, key: u64) -> int {
    match held {
        Some(counts) => counts.of(key),
        None => 0,
    }
}

/// Whether an optional summary is in order, if there is one.
pub open spec fn held_sorted(held: Option<Counts>) -> bool {
    match held {
        Some(counts) => sorted(counts.0@),
        None => true,
    }
}

/// The count of one number as a tally over summaries of exact counts.
pub struct CountedOf(pub u64);

impl Tally for CountedOf {
    type Item = u64;

    type Value = int;

    type A = Counts;

    type B = Counts;

    type C = Counts;

    open spec fn lawful(&self) -> bool {
        true
    }

    open spec fn of(&self, items: Seq<u64>) -> int {
        occurrences(items, self.0)
    }

    open spec fn merge(&self, a: int, b: int) -> int {
        a + b
    }

    open spec fn of_a(&self, out: Counts) -> int {
        out.of(self.0)
    }

    open spec fn of_b(&self, out: Counts) -> int {
        out.of(self.0)
    }

    open spec fn of_c(&self, out: Counts) -> int {
        out.of(self.0)
    }

    proof fn lemma_of_concat(&self, first: Seq<u64>, second: Seq<u64>) {
        lemma_occurrences_concat(first, second, self.0);
    }

    proof fn lemma_merge_commutes(&self, a: int, b: int) {
    }

    proof fn lemma_merge_associates(&self, a: int, b: int, c: int) {
    }

    proof fn lemma_merge_none(&self, a: int) {
    }

    open spec fn within(&self, a: int, b: int) -> bool {
        a == b
    }

    proof fn lemma_within_itself(&self, a: int) {
    }

    proof fn lemma_within_chain(&self, a: int, b: int, c: int) {
    }

    proof fn lemma_merge_within(&self, a: int, b: int, c: int, d: int) {
    }
}

/// A reducer that counts exactly holds its numbers in order, and for every
/// number the count it held plus how often the number came.
pub proof fn lemma_counts_offered(
    start: MostFrequentReducer<u64, Counts>,
    items: Seq<u64>,
    end: MostFrequentReducer<u64, Counts>,
    key: u64,
)
    requires
        offered(start, items, end),
        start.0 is Some,
        held_sorted(start.0),
    ensures
        end.0 is Some,
        held_sorted(end.0),
        held_count(end.0, key) == held_count(start.0, key) + occurrences(items, key),
    decreases items.len(),
{
    if items.len() > 0 {
        let mid = choose|mid: MostFrequentReducer<u64, Counts>|
            offered(start, items.drop_last(), mid) && #[trigger] moved(mid, items.last(), end);
        lemma_counts_offered(start, items.drop_last(), mid, key);
        assert(held_count(end.0, key) == held_count(mid.0, key) + if key == items.last() {
            1int
        } else {
            0int
        });
    }
}

/// A reducer that merges exact counts gives every number the count it held
/// plus the counts of the summaries that came. One that started with a
/// summary holds its numbers in order.
pub proof fn lemma_counts_merged(
    start: CountsMerger,
    outs: Seq<Counts>,
    end: CountsMerger,
    key: u64,
)
    requires
        offered(start, outs, end),
        held_sorted(start.0.0),
    ensures
        outs.len() > 0 || start.0.0 is Some ==> end.0.0 is Some,
        start.0.0 is Some ==> held_sorted(end.0.0),
        held_count(end.0.0, key) == held_count(start.0.0, key) + merged_a::<CountedOf>(
            CountedOf(key),
            outs,
        ),
        merged_b::<CountedOf>(CountedOf(key), outs) == merged_a::<CountedOf>(CountedOf(key), outs),
    decreases outs.len(),
{
    if outs.len() > 0 {
        let mid = choose|mid: CountsMerger|
            offered(start, outs.drop_last(), mid) && #[trigger] moved(mid, outs.last(), end);
        lemma_counts_merged(start, outs.drop_last(), mid, key);
        assert(mid.0.0.adds(outs.last(), end.0.0));
        if mid.0.0 is Some {
            assert(held_count(end.0.0, key) == held_count(mid.0.0, key) + outs.last().of(key));
        }
    }
}

/// The reducers of every level of the most frequent items, with summaries
/// that keep exact counts, give every number the count that they stand for.
pub proof fn lemma_counts_exact(
    a: MostFrequentReduceFactory<u64, CountsFactory>,
    b: NonzeroReduceFactory<SumReducerFactory<Counts, Option<Counts>>>,
    c: CountsMerger,
    key: u64,
)
    requires
        c.0.0 matches Some(counts) && counts.0@ == Seq::<(u64, usize)>::empty(),
    ensures
        exact_a::<CountedOf, Lowering<MostFrequentReduceFactory<u64, CountsFactory>>>(
            CountedOf(key),
            Lowering(a),
        ),
        exact_b::<
            CountedOf,
            Lowering<NonzeroReduceFactory<SumReducerFactory<Counts, Option<Counts>>>>,
        >(CountedOf(key), Lowering(b)),
        exact_c::<CountedOf, CountsMerger>(CountedOf(key), c),
        exact_top::<CountedOf, CountsMerger>(CountedOf(key), c),
        forall|outs: Seq<Counts>, out: Counts| #[trigger] reduces(c, outs, out) ==> sorted(out.0@),
{
    assert forall|r: MostFrequentReducer<u64, Counts>, items: Seq<u64>, out: Counts|
        Lowering(a).makes(r) && #[trigger] reduces(r, items, out) implies out.of(key)
        == occurrences(items, key) by {
        let end = choose|end: MostFrequentReducer<u64, Counts>|
            offered(r, items, end) && #[trigger] end.yields(out);
        lemma_counts_offered(r, items, end, key);
    }
    assert forall|r: CountsMerger, outs: Seq<Counts>, out: Counts|
        Lowering(b).makes(r) && #[trigger] reduces(r, outs, out) implies out.of(key) == merged_a::<
        CountedOf,
    >(CountedOf(key), outs) by {
        let end = choose|end: CountsMerger| offered(r, outs, end) && #[trigger] end.yields(out);
        lemma_counts_merged(r, outs, end, key);
    }
    assert forall|outs: Seq<Counts>, out: Counts| #[trigger] reduces(c, outs, out) implies out.of(
        key,
    ) == merged_a::<CountedOf>(CountedOf(key), outs) && out.of(key) == merged_b::<CountedOf>(
        CountedOf(key),
        outs,
    ) && sorted(out.0@) by {
        let end = choose|end: CountsMerger| offered(c, outs, end) && #[trigger] end.yields(out);
        lemma_counts_merged(c, outs, end, key);
    }
}

/// The most frequent items, by exact counts, do not depend on the pool: on
/// any number of processes and threads, however the tasks are dealt, the
/// summary holds its numbers in order and gives every number the count of how
/// often it occurs among all the items.
pub proof fn lemma_counts_on_pool<T: StreamTask<Item = u64>>(
    tasks: Seq<T>,
    processes: int,
    threads: int,
    out: Counts,
    key: u64,
)
    requires
        dist_pipe_reduces(
            tasks,
            processes,
            threads,
            MostFrequent::<Identity, CountsFactory>::of(Identity, CountsFactory),
            out,
        ),
    ensures
        sorted(out.0@),
        out.of(key) == occurrences(tasks_items(tasks), key),
{
    let sink = MostFrequent::<Identity, CountsFactory>::of(Identity, CountsFactory);
    let (pipe, a, b, c) = choose|
        pipe: Identity,
        a: MostFrequentReduceFactory<u64, CountsFactory>,
        b: NonzeroReduceFactory<SumReducerFactory<Counts, Option<Counts>>>,
        c: CountsMerger,
    | #[trigger]
        DistributedSink::<u64>::splits(sink, pipe, a, b, c) && dist_reduces(
            connected::<T, u64, Identity>(tasks, pipe),
            processes,
            threads,
            Lowering(a),
            Lowering(b),
            c.lowered(),
            out,
        );
    lemma_counts_exact(a, b, c, key);
    lemma_dist_tally::<
        CountedOf,
        ConnectTask<T, IdentityTask>,
        Lowering<MostFrequentReduceFactory<u64, CountsFactory>>,
        Lowering<NonzeroReduceFactory<SumReducerFactory<Counts, Option<Counts>>>>,
        CountsMerger,
    >(
        CountedOf(key),
        connected::<T, u64, Identity>(tasks, pipe),
        processes,
        threads,
        Lowering(a),
        Lowering(b),
        c.lowered(),
        out,
    );
    lemma_connected_identity(tasks);
    let (bins, outs) = choose|bins: Seq<Seq<ConnectTask<T, IdentityTask>>>, outs: Seq<Counts>|
        crate::par_stream::reduce::evenly_dealt(
            connected::<T, u64, Identity>(tasks, pipe),
            processes,
            bins,
        ) && #[trigger] crate::par_stream::reduce::procs_reduce(
            Lowering(a),
            Lowering(b),
            threads,
            bins,
            outs,
        ) && reduces(c.lowered(), outs, out);
    assert(reduces(c, outs, out));
}

/// The most frequent items, by exact counts, do not depend on the number of
/// threads.
pub proof fn lemma_counts_on_threads<T: StreamTask<Item = u64>>(
    tasks: Seq<T>,
    threads: int,
    out: Counts,
    key: u64,
)
    requires
        par_pipe_reduces(
            tasks,
            threads,
            MostFrequent::<Identity, CountsFactory>::of(Identity, CountsFactory),
            out,
        ),
    ensures
        sorted(out.0@),
        out.of(key) == occurrences(tasks_items(tasks), key),
{
    let sink = MostFrequent::<Identity, CountsFactory>::of(Identity, CountsFactory);
    let (pipe, a, c) = choose|
        pipe: Identity,
        a: MostFrequentReduceFactory<u64, CountsFactory>,
        c: CountsMerger,
    | #[trigger]
        ParallelSink::<u64>::splits(sink, pipe, a, c) && par_reduces(
            connected::<T, u64, Identity>(tasks, pipe),
            threads,
            Lowering(a),
            c.lowered(),
            out,
        );
    let b: NonzeroReduceFactory<SumReducerFactory<Counts, Option<Counts>>> = NonzeroReduceFactory(
        SumReducerFactory(PhantomData),
    );
    lemma_counts_exact(a, b, c, key);
    lemma_par_tally::<
        CountedOf,
        ConnectTask<T, IdentityTask>,
        Lowering<MostFrequentReduceFactory<u64, CountsFactory>>,
        CountsMerger,
    >(
        CountedOf(key),
        connected::<T, u64, Identity>(tasks, pipe),
        threads,
        Lowering(a),
        c.lowered(),
        out,
    );
    lemma_connected_identity(tasks);
    let (bins, outs) = choose|bins: Seq<Seq<ConnectTask<T, IdentityTask>>>, outs: Seq<Counts>|
        crate::par_stream::reduce::evenly_dealt(
            connected::<T, u64, Identity>(tasks, pipe),
            threads,
            bins,
        ) && #[trigger] crate::par_stream::reduce::bins_reduce(Lowering(a), bins, outs) && reduces(
            c.lowered(),
            outs,
            out,
        );
    assert(reduces(c, outs, out));
}

/// The merge of the counts of summaries is the same on every level.
pub proof fn lemma_merged_counts_same(outs: Seq<Counts>, key: u64)
    ensures
        merged_b::<CountedOf>(CountedOf(key), outs) == merged_a::<CountedOf>(CountedOf(key), outs),
    decreases outs.len(),
{
    if outs.len() > 0 {
        lemma_merged_counts_same(outs.drop_last(), key);
    }
}

/// No count that an optional summary gives is negative.
pub proof fn lemma_held_count_bounds(held: Option<Counts>, key: u64)
    ensures
        0 <= held_count(held, key),
{
    if let Some(counts) = held {
        lemma_count_in_bounds(counts.0@, key);
    }
}

/// The merge of the counts of summaries is not negative, and that of the
/// first `k` of them is not more than that of all.
pub proof fn lemma_merged_counts_prefix(outs: Seq<Counts>, k: int, key: u64)
    requires
        0 <= k <= outs.len(),
    ensures
        0 <= merged_a::<CountedOf>(CountedOf(key), outs.take(k)) <= merged_a::<CountedOf>(
            CountedOf(key),
            outs,
        ),
    decreases outs.len(),
{
    if k == outs.len() {
        assert(outs.take(k) =~= outs);
        if outs.len() > 0 {
            lemma_merged_counts_prefix(outs.drop_last(), k - 1, key);
            assert(outs.drop_last().take(k - 1) =~= outs.drop_last());
            lemma_count_in_bounds(outs.last().0@, key);
        }
    } else {
        lemma_merged_counts_prefix(outs.drop_last(), k, key);
        assert(outs.drop_last().take(k) =~= outs.take(k));
        lemma_count_in_bounds(outs.last().0@, key);
    }
}

/// A reducer that merges summaries whose numbers are in order holds its
/// numbers in order.
pub proof fn lemma_counts_merged_sorted(start: CountsMerger, outs: Seq<Counts>, end: CountsMerger)
    requires
        offered(start, outs, end),
        held_sorted(start.0.0),
        forall|j: int| 0 <= j < outs.len() ==> sorted(#[trigger] outs[j].0@),
    ensures
        held_sorted(end.0.0),
    decreases outs.len(),
{
    if outs.len() > 0 {
        let mid = choose|mid: CountsMerger|
            offered(start, outs.drop_last(), mid) && #[trigger] moved(mid, outs.last(), end);
        assert forall|j: int| 0 <= j < outs.drop_last().len() implies sorted(
            #[trigger] outs.drop_last()[j].0@,
        ) by {
            assert(outs.drop_last()[j] == outs[j]);
        }
        lemma_counts_merged_sorted(start, outs.drop_last(), mid);
        assert(mid.0.0.adds(outs.last(), end.0.0));
        assert(sorted(outs[outs.len() - 1].0@));
    }
}

/// A reducer that counts exactly can be handed any items with which all its
/// counts stay numbers.
pub proof fn lemma_counts_run(start: MostFrequentReducer<u64, Counts>, items: Seq<u64>)
    requires
        start.0 is Some,
        held_sorted(start.0),
        forall|key: u64| held_count(start.0, key) + #[trigger] occurrences(items, key) <= usize::MAX,
    ensures
        runs_on(start, items),
{
    assert forall|k: int, mid: MostFrequentReducer<u64, Counts>|
        0 <= k < items.len() && #[trigger] offered(start, items.take(k), mid)
            && mid.wants() implies mid.admits(items[k]) by {
        lemma_counts_offered(start, items.take(k), mid, items[k]);
        lemma_occurrences_prefix(items, k + 1, items[k]);
        assert(items.take(k + 1).drop_last() =~= items.take(k));
        assert(occurrences(items, items[k]) >= 0);
    }
}

/// A reducer that merges exact counts can be handed any summaries in order
/// with which all its counts stay numbers, if it holds a summary or is handed
/// one.
pub proof fn lemma_counts_merger_runs(start: CountsMerger, outs: Seq<Counts>)
    requires
        held_sorted(start.0.0),
        start.0.0 is Some || outs.len() > 0,
        forall|j: int| 0 <= j < outs.len() ==> sorted(#[trigger] outs[j].0@),
        forall|key: u64|
            held_count(start.0.0, key) + #[trigger] merged_a::<CountedOf>(CountedOf(key), outs)
                <= usize::MAX,
    ensures
        runs_on(start, outs),
{
    assert forall|k: int, mid: CountsMerger|
        0 <= k < outs.len() && #[trigger] offered(start, outs.take(k), mid)
            && mid.wants() implies mid.admits(outs[k]) by {
        lemma_counts_merged_sorted(start, outs.take(k), mid);
        assert(sorted(outs[k].0@));
        if mid.0.0 is Some {
            let held = mid.0.0->0;
            assert forall|key: u64| #[trigger]
                count_in(held.0@, key) + count_in(outs[k].0@, key) <= usize::MAX by {
                lemma_counts_merged(start, outs.take(k), mid, key);
                lemma_merged_counts_prefix(outs, k + 1, key);
                assert(outs.take(k + 1).drop_last() =~= outs.take(k));
                lemma_count_in_bounds(outs[k].0@, key);
                lemma_held_count_bounds(start.0.0, key);
            }
        }
    }
    assert forall|end: CountsMerger| #[trigger] offered(start, outs, end) implies end.ripe() by {
        lemma_counts_merged(start, outs, end, 0);
    }
}

/// The summaries that threads make of their bins hold their numbers in order
/// and count, together, how often each number occurs among the items of all
/// the bins.
pub proof fn lemma_counts_bins<T: StreamTask<Item = u64>>(
    a: MostFrequentReduceFactory<u64, CountsFactory>,
    tasks: Seq<T>,
    threads: int,
    bins: Seq<Seq<T>>,
    outs: Seq<Counts>,
)
    requires
        evenly_dealt(tasks, threads, bins),
        bins_reduce(Lowering(a), bins, outs),
    ensures
        tasks.len() > 0 ==> outs.len() > 0,
        forall|j: int| 0 <= j < outs.len() ==> sorted(#[trigger] outs[j].0@),
        forall|key: u64| #[trigger]
            merged_a::<CountedOf>(CountedOf(key), outs) == occurrences(tasks_items(tasks), key),
{
    if tasks.len() > 0 {
        let i = choose|i: int| #[trigger] on_top(bins, i, tasks.last());
        lemma_bins_reduce_some(Lowering(a), bins, outs, i);
    }
    assert forall|j: int| 0 <= j < outs.len() implies sorted(#[trigger] outs[j].0@) by {
        let i = lemma_bins_reduce_each(Lowering(a), bins, outs, j);
        let r = choose|r: MostFrequentReducer<u64, Counts>| #[trigger]
            Lowering(a).makes(r) && reduces(r, tasks_items(bins[i]), outs[j]);
        let end = choose|end: MostFrequentReducer<u64, Counts>|
            offered(r, tasks_items(bins[i]), end) && #[trigger] end.yields(outs[j]);
        lemma_counts_offered(r, tasks_items(bins[i]), end, 0);
    }
    assert forall|key: u64| #[trigger]
        merged_a::<CountedOf>(CountedOf(key), outs) == occurrences(tasks_items(tasks), key) by {
        assert forall|r: MostFrequentReducer<u64, Counts>, items: Seq<u64>, out: Counts|
            Lowering(a).makes(r) && #[trigger] reduces(r, items, out) implies out.of(key)
            == occurrences(items, key) by {
            let end = choose|end: MostFrequentReducer<u64, Counts>|
                offered(r, items, end) && #[trigger] end.yields(out);
            lemma_counts_offered(r, items, end, key);
        }
        lemma_bins_reduce_tally::<
            CountedOf,
            T,
            Lowering<MostFrequentReduceFactory<u64, CountsFactory>>,
        >(CountedOf(key), Lowering(a), bins, outs);
        lemma_dealt_tally::<CountedOf, T>(CountedOf(key), tasks, bins);
    }
}

/// On the threads of one process, the most frequent items can be counted
/// exactly if the number of the items is a number and there is a task,
/// whatever reducer takes the threads' summaries, be it one that holds
/// nothing yet or one that holds a summary that has visited nothing.
pub proof fn lemma_counts_par_runs<T: StreamTask<Item = u64>>(
    tasks: Seq<T>,
    threads: int,
    a: MostFrequentReduceFactory<u64, CountsFactory>,
    c: CountsMerger,
)
    requires
        tasks_inv(tasks),
        match c.0.0 {
            Some(counts) => counts.0@ == Seq::<(u64, usize)>::empty(),
            None => tasks.len() > 0,
        },
        tasks_items(tasks).len() <= usize::MAX,
    ensures
        par_runs(tasks, threads, Lowering(a), c),
{
    assert forall|bins: Seq<Seq<T>>| #[trigger] evenly_dealt(tasks, threads, bins) implies bins_run(
        Lowering(a),
        bins,
    ) by {
        lemma_dealt_tally::<CountTally<u64>, T>(CountTally(PhantomData), tasks, bins);
        assert forall|i: int| 0 <= i < bins.len() && (#[trigger] bins[i]).len() > 0 implies made_runs_on(
            Lowering(a),
            tasks_items(bins[i]),
        ) by {
            lemma_bin_count_within::<T>(bins, i, bins.len() as int);
            assert forall|r: MostFrequentReducer<u64, Counts>| #[trigger]
                Lowering(a).makes(r) implies runs_on(r, tasks_items(bins[i])) by {
                assert forall|key: u64|
                    held_count(r.0, key) + #[trigger] occurrences(tasks_items(bins[i]), key)
                        <= usize::MAX by {
                    lemma_occurrences_bounds(tasks_items(bins[i]), key);
                }
                lemma_counts_run(r, tasks_items(bins[i]));
            }
        }
    }
    assert forall|bins: Seq<Seq<T>>, outs: Seq<Counts>|
        evenly_dealt(tasks, threads, bins) && #[trigger] bins_reduce(
            Lowering(a),
            bins,
            outs,
        ) implies runs_on(c, outs) by {
        lemma_counts_bins(a, tasks, threads, bins, outs);
        assert forall|key: u64|
            held_count(c.0.0, key) + #[trigger] merged_a::<CountedOf>(CountedOf(key), outs)
                <= usize::MAX by {
            lemma_occurrences_bounds(tasks_items(tasks), key);
        }
        lemma_counts_merger_runs(c, outs);
    }
}

/// The most frequent items can be counted exactly on any number of threads
/// if the number of the items is a number.
pub proof fn lemma_counts_runs_on_threads<T: StreamTask<Item = u64>>(tasks: Seq<T>, threads: int)
    requires
        tasks_inv(tasks),
        tasks_items(tasks).len() <= usize::MAX,
    ensures
        par_pipe_runs(
            tasks,
            threads,
            MostFrequent::<Identity, CountsFactory>::of(Identity, CountsFactory),
        ),
{
    let sink = MostFrequent::<Identity, CountsFactory>::of(Identity, CountsFactory);
    assert forall|
        pipe: Identity,
        a: MostFrequentReduceFactory<u64, CountsFactory>,
        c: CountsMerger,
    | #[trigger]
        ParallelSink::<u64>::splits(sink, pipe, a, c) implies par_runs(
        connected::<T, u64, Identity>(tasks, pipe),
        threads,
        Lowering(a),
        c.lowered(),
    ) by {
        lemma_connected_identity_inv(tasks);
        lemma_connected_identity(tasks);
        lemma_counts_par_runs::<ConnectTask<T, IdentityTask>>(
            connected::<T, u64, Identity>(tasks, pipe),
            threads,
            a,
            c,
        );
    }
}

/// The most frequent items can be counted exactly on any pool if the number
/// of the items is a number.
pub proof fn lemma_counts_runs_on_pool<T: StreamTask<Item = u64>>(
    tasks: Seq<T>,
    processes: int,
    threads: int,
)
    requires
        tasks_inv(tasks),
        tasks_items(tasks).len() <= usize::MAX,
    ensures
        dist_pipe_runs(
            tasks,
            processes,
            threads,
            MostFrequent::<Identity, CountsFactory>::of(Identity, CountsFactory),
        ),
{
    let sink = MostFrequent::<Identity, CountsFactory>::of(Identity, CountsFactory);
    assert forall|
        pipe: Identity,
        a: MostFrequentReduceFactory<u64, CountsFactory>,
        b: NonzeroReduceFactory<SumReducerFactory<Counts, Option<Counts>>>,
        c: CountsMerger,
    | #[trigger]
        DistributedSink::<u64>::splits(sink, pipe, a, b, c) implies dist_runs(
        connected::<T, u64, Identity>(tasks, pipe),
        processes,
        threads,
        Lowering(a),
        Lowering(b),
        c.lowered(),
    ) by {
        let with_pipe = connected::<T, u64, Identity>(tasks, pipe);
        lemma_connected_identity_inv(tasks);
        lemma_connected_identity(tasks);
        assert forall|bins: Seq<Seq<ConnectTask<T, IdentityTask>>>| #[trigger]
            evenly_dealt(with_pipe, processes, bins) implies procs_run(
            Lowering(a),
            Lowering(b),
            threads,
            bins,
        ) by {
            lemma_dealt_inv(with_pipe, bins);
            lemma_dealt_tally::<CountTally<u64>, ConnectTask<T, IdentityTask>>(
                CountTally(PhantomData),
                with_pipe,
                bins,
            );
            assert forall|i: int| 0 <= i < bins.len() && (#[trigger] bins[i]).len() > 0 implies proc_runs(
                Lowering(a),
                Lowering(b),
                threads,
                bins[i],
            ) by {
                lemma_bin_count_within::<ConnectTask<T, IdentityTask>>(bins, i, bins.len() as int);
                assert forall|reduce_b: CountsMerger| #[trigger]
                    Lowering(b).makes(reduce_b) implies par_runs(
                    bins[i],
                    threads,
                    Lowering(a),
                    reduce_b,
                ) by {
                    lemma_counts_par_runs::<ConnectTask<T, IdentityTask>>(
                        bins[i],
                        threads,
                        a,
                        reduce_b,
                    );
                }
            }
        }
        assert forall|bins: Seq<Seq<ConnectTask<T, IdentityTask>>>, outs: Seq<Counts>|
            evenly_dealt(with_pipe, processes, bins) && #[trigger] procs_reduce(
                Lowering(a),
                Lowering(b),
                threads,
                bins,
                outs,
            ) implies runs_on(c.lowered(), outs) by {
            assert forall|j: int| 0 <= j < outs.len() implies sorted(#[trigger] outs[j].0@) by {
                let i = lemma_procs_reduce_each(Lowering(a), Lowering(b), threads, bins, outs, j);
                let reduce_b = choose|reduce_b: CountsMerger| #[trigger]
                    Lowering(b).makes(reduce_b) && par_reduces(
                        bins[i],
                        threads,
                        Lowering(a),
                        reduce_b,
                        outs[j],
                    );
                let (inner, mids) = choose|
                    inner: Seq<Seq<ConnectTask<T, IdentityTask>>>,
                    mids: Seq<Counts>,
                |
                    evenly_dealt(bins[i], threads, inner) && #[trigger] bins_reduce(
                        Lowering(a),
                        inner,
                        mids,
                    ) && reduces(reduce_b, mids, outs[j]);
                lemma_counts_bins(a, bins[i], threads, inner, mids);
                let end = choose|end: CountsMerger|
                    offered(reduce_b, mids, end) && #[trigger] end.yields(outs[j]);
                lemma_counts_merged_sorted(reduce_b, mids, end);
            }
            assert forall|key: u64|
                held_count(c.0.0, key) + #[trigger] merged_a::<CountedOf>(CountedOf(key), outs)
                    <= usize::MAX by {
                lemma_counts_exact(a, b, c, key);
                lemma_procs_reduce_tally::<
                    CountedOf,
                    ConnectTask<T, IdentityTask>,
                    Lowering<MostFrequentReduceFactory<u64, CountsFactory>>,
                    Lowering<NonzeroReduceFactory<SumReducerFactory<Counts, Option<Counts>>>>,
                >(CountedOf(key), Lowering(a), Lowering(b), threads, bins, outs);
                lemma_dealt_tally::<CountedOf, ConnectTask<T, IdentityTask>>(
                    CountedOf(key),
                    with_pipe,
                    bins,
                );
                lemma_merged_counts_same(outs, key);
                lemma_occurrences_bounds(tasks_items(with_pipe), key);
            }
            lemma_counts_merger_runs(c, outs);
        }
    }
}

} // verus!
