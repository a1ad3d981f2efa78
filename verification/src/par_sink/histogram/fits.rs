//! When a histogram can be built: whenever the number of the items is a
//! number, on any pool.

use vstd::prelude::*;
use std::marker::PhantomData;
use crate::par_pipe::identity::{Identity, IdentityTask};
use crate::par_sink::count::{lemma_bin_count_within, CountTally};
use crate::par_sink::histogram::{
    count_in, counts_in, lemma_histogram_offered, lemma_histograms_offered,
    lemma_merged_histograms, sorted, CountOf, Histogram, HistogramMerger, HistogramMergerFactory,
    HistogramReducer, HistogramReducerFactory,
};
use crate::par_sink::{
    reduces, runs_on, DistributedSink, Factory, Lowering, ParallelSink, Reducer, ReducerAsync,
};
use crate::par_stream::pipe::{
    connected, dist_pipe_runs, lemma_connected_identity, lemma_connected_identity_inv,
    par_pipe_runs, ConnectTask,
};
use crate::par_stream::reduce::{
    bins_reduce, bins_run, dist_runs, evenly_dealt, lemma_bins_reduce_each, lemma_dealt_inv,
    lemma_procs_reduce_each, made_runs_on, par_reduces, par_runs, proc_runs, procs_reduce,
    procs_run, tasks_inv, tasks_items,
};
use crate::par_stream::tally::{
    exact_a, exact_b, lemma_bins_reduce_tally, lemma_dealt_tally, lemma_procs_reduce_tally,
    merged_a,
};
use crate::par_stream::StreamTask;
use crate::sink::{offered, Intake};
use crate::stream::{lemma_occurrences_bounds, lemma_occurrences_prefix, occurrences};

verus! {

/// No count that entries give is negative.
pub proof fn lemma_count_in_bounds(entries: Seq<(u64, usize)>, key: u64)
    ensures
        0 <= count_in(entries, key),
    decreases entries.len(),
{
    if entries.len() > 0 {
        lemma_count_in_bounds(entries.drop_last(), key);
    }
}

/// The first `k` histograms count no number more often than all of them.
pub proof fn lemma_counts_in_prefix(histograms: Seq<Vec<(u64, usize)>>, k: int, key: u64)
    requires
        0 <= k <= histograms.len(),
    ensures
        0 <= counts_in(histograms.take(k), key) <= counts_in(histograms, key),
    decreases histograms.len(),
{
    if k == histograms.len() {
        assert(histograms.take(k) =~= histograms);
        if histograms.len() > 0 {
            lemma_counts_in_prefix(histograms.drop_last(), k - 1, key);
            assert(histograms.drop_last().take(k - 1) =~= histograms.drop_last());
            lemma_count_in_bounds(histograms.last()@, key);
        }
    } else {
        lemma_counts_in_prefix(histograms.drop_last(), k, key);
        assert(histograms.drop_last().take(k) =~= histograms.take(k));
        lemma_count_in_bounds(histograms.last()@, key);
    }
}

/// A reducer that builds a histogram can be handed any items with which all
/// its counts stay numbers.
pub proof fn lemma_histogram_runs(start: HistogramReducer, items: Seq<u64>)
    requires
        sorted(start.0@),
        forall|key: u64| count_in(start.0@, key) + #[trigger] occurrences(items, key) <= usize::MAX,
    ensures
        runs_on(start, items),
{
    assert forall|k: int, mid: HistogramReducer|
        0 <= k < items.len() && #[trigger] offered(start, items.take(k), mid)
            && mid.wants() implies mid.admits(items[k]) by {
        lemma_histogram_offered(start, items.take(k), mid, items[k]);
        lemma_occurrences_prefix(items, k + 1, items[k]);
        assert(items.take(k + 1).drop_last() =~= items.take(k));
        assert(occurrences(items, items[k]) >= 0);
    }
}

/// A reducer that merges histograms can be handed any histograms in order
/// with which all its counts stay numbers.
pub proof fn lemma_histograms_run(start: HistogramMerger, outs: Seq<Vec<(u64, usize)>>)
    requires
        sorted(start.0@),
        forall|j: int| 0 <= j < outs.len() ==> sorted(#[trigger] outs[j]@),
        forall|key: u64| count_in(start.0@, key) + #[trigger] counts_in(outs, key) <= usize::MAX,
    ensures
        runs_on(start, outs),
{
    assert forall|k: int, mid: HistogramMerger|
        0 <= k < outs.len() && #[trigger] offered(start, outs.take(k), mid)
            && mid.wants() implies mid.admits(outs[k]) by {
        lemma_histograms_offered(start, outs.take(k), mid, 0);
        assert forall|key: u64| #[trigger]
            count_in(mid.0@, key) + count_in(outs[k]@, key) <= usize::MAX by {
            lemma_histograms_offered(start, outs.take(k), mid, key);
            lemma_counts_in_prefix(outs, k + 1, key);
            assert(outs.take(k + 1).drop_last() =~= outs.take(k));
            assert(counts_in(outs, key) >= 0);
        }
        assert(sorted(outs[k]@));
    }
}

/// The histograms that threads build of their bins are in order and count,
/// together, how often each number occurs among the items of all the bins.
pub proof fn lemma_histogram_bins<T: StreamTask<Item = u64>>(
    a: HistogramReducerFactory,
    tasks: Seq<T>,
    threads: int,
    bins: Seq<Seq<T>>,
    outs: Seq<Vec<(u64, usize)>>,
)
    requires
        evenly_dealt(tasks, threads, bins),
        bins_reduce(Lowering(a), bins, outs),
    ensures
        forall|j: int| 0 <= j < outs.len() ==> sorted(#[trigger] outs[j]@),
        forall|key: u64| #[trigger] counts_in(outs, key) == occurrences(tasks_items(tasks), key),
{
    assert forall|j: int| 0 <= j < outs.len() implies sorted(#[trigger] outs[j]@) by {
        let i = lemma_bins_reduce_each(Lowering(a), bins, outs, j);
        let r = choose|r: HistogramReducer| #[trigger]
            Lowering(a).makes(r) && reduces(r, tasks_items(bins[i]), outs[j]);
        let end = choose|end: HistogramReducer|
            offered(r, tasks_items(bins[i]), end) && #[trigger] end.yields(outs[j]);
        lemma_histogram_offered(r, tasks_items(bins[i]), end, 0);
    }
    assert forall|key: u64| #[trigger]
        counts_in(outs, key) == occurrences(tasks_items(tasks), key) by {
        lemma_histogram_exact(a, key);
        lemma_bins_reduce_tally::<CountOf, T, Lowering<HistogramReducerFactory>>(
            CountOf(key),
            Lowering(a),
            bins,
            outs,
        );
        lemma_dealt_tally::<CountOf, T>(CountOf(key), tasks, bins);
        lemma_merged_histograms(outs, key);
    }
}

/// The reducers that build and merge histograms give every number the count
/// that they stand for.
pub proof fn lemma_histogram_exact(a: HistogramReducerFactory, key: u64)
    ensures
        exact_a::<CountOf, Lowering<HistogramReducerFactory>>(CountOf(key), Lowering(a)),
        exact_b::<CountOf, Lowering<HistogramMergerFactory>>(
            CountOf(key),
            Lowering(HistogramMergerFactory),
        ),
{
    assert forall|r: HistogramReducer, items: Seq<u64>, o: Vec<(u64, usize)>|
        Lowering(a).makes(r) && #[trigger] reduces(r, items, o) implies count_in(o@, key)
        == occurrences(items, key) by {
        let end = choose|end: HistogramReducer| offered(r, items, end) && #[trigger] end.yields(o);
        lemma_histogram_offered(r, items, end, key);
    }
    assert forall|r: HistogramMerger, outs: Seq<Vec<(u64, usize)>>, o: Vec<(u64, usize)>|
        Lowering(HistogramMergerFactory).makes(r) && #[trigger] reduces(
            r,
            outs,
            o,
        ) implies count_in(o@, key) == merged_a::<CountOf>(CountOf(key), outs) by {
        let end = choose|end: HistogramMerger| offered(r, outs, end) && #[trigger] end.yields(o);
        lemma_histograms_offered(r, outs, end, key);
        lemma_merged_histograms(outs, key);
    }
}

/// On the threads of one process, a histogram can be built if the number of
/// the items is a number, whatever reducer that holds nothing takes the
/// threads' histograms.
pub proof fn lemma_histogram_par_runs<T: StreamTask<Item = u64>>(
    tasks: Seq<T>,
    threads: int,
    a: HistogramReducerFactory,
    c: HistogramMerger,
)
    requires
        tasks_inv(tasks),
        c.0@ == Seq::<(u64, usize)>::empty(),
        tasks_items(tasks).len() <= usize::MAX,
    ensures
        par_runs(tasks, threads, Lowering(a), c),
{
    assert forall|bins: Seq<Seq<T>>| #[trigger] evenly_dealt(tasks, threads, bins) implies bins_run(
        Lowering(a),
        bins,
    ) by {
        lemma_dealt_tally::<CountTally<u64>, T>(CountTally(PhantomData), tasks, bins);
        assert forall|i: int| 0 <= i < bins.len() && (#[trigger] bins[i]).len() > 0 implies made_runs_on(
            Lowering(a),
            tasks_items(bins[i]),
        ) by {
            lemma_bin_count_within::<T>(bins, i, bins.len() as int);
            assert forall|r: HistogramReducer| #[trigger] Lowering(a).makes(r) implies runs_on(
                r,
                tasks_items(bins[i]),
            ) by {
                assert forall|key: u64|
                    count_in(r.0@, key) + #[trigger] occurrences(tasks_items(bins[i]), key)
                        <= usize::MAX by {
                    lemma_occurrences_bounds(tasks_items(bins[i]), key);
                }
                lemma_histogram_runs(r, tasks_items(bins[i]));
            }
        }
    }
    assert forall|bins: Seq<Seq<T>>, outs: Seq<Vec<(u64, usize)>>|
        evenly_dealt(tasks, threads, bins) && #[trigger] bins_reduce(
            Lowering(a),
            bins,
            outs,
        ) implies runs_on(c, outs) by {
        lemma_histogram_bins(a, tasks, threads, bins, outs);
        assert forall|key: u64| count_in(c.0@, key) + #[trigger] counts_in(outs, key)
            <= usize::MAX by {
            lemma_occurrences_bounds(tasks_items(tasks), key);
        }
        lemma_histograms_run(c, outs);
    }
}

/// A histogram can be built on any number of threads if the number of the
/// items is a number.
pub proof fn lemma_histogram_runs_on_threads<T: StreamTask<Item = u64>>(tasks: Seq<T>, threads: int)
    requires
        tasks_inv(tasks),
        tasks_items(tasks).len() <= usize::MAX,
    ensures
        par_pipe_runs(tasks, threads, Histogram::<Identity>::of(Identity)),
{
    let sink = Histogram::<Identity>::of(Identity);
    assert forall|pipe: Identity, a: HistogramReducerFactory, c: HistogramMerger| #[trigger]
        ParallelSink::<u64>::splits(sink, pipe, a, c) implies par_runs(
        connected::<T, u64, Identity>(tasks, pipe),
        threads,
        Lowering(a),
        c.lowered(),
    ) by {
        lemma_connected_identity_inv(tasks);
        lemma_connected_identity(tasks);
        lemma_histogram_par_runs::<ConnectTask<T, IdentityTask>>(
            connected::<T, u64, Identity>(tasks, pipe),
            threads,
            a,
            c,
        );
    }
}

/// A histogram can be built on any pool if the number of the items is a
/// number.
pub proof fn lemma_histogram_runs_on_pool<T: StreamTask<Item = u64>>(
    tasks: Seq<T>,
    processes: int,
    threads: int,
)
    requires
        tasks_inv(tasks),
        tasks_items(tasks).len() <= usize::MAX,
    ensures
        dist_pipe_runs(tasks, processes, threads, Histogram::<Identity>::of(Identity)),
{
    let sink = Histogram::<Identity>::of(Identity);
    assert forall|
        pipe: Identity,
        a: HistogramReducerFactory,
        b: HistogramMergerFactory,
        c: HistogramMerger,
    | #[trigger]
        DistributedSink::<u64>::splits(sink, pipe, a, b, c) implies dist_runs(
        connected::<T, u64, Identity>(tasks, pipe),
        processes,
        threads,
        Lowering(a),
        Lowering(b),
        c.lowered(),
    ) by {
        let with_pipe = connected::<T, u64, Identity>(tasks, pipe);
        lemma_connected_identity_inv(tasks);
        lemma_connected_identity(tasks);
        assert forall|bins: Seq<Seq<ConnectTask<T, IdentityTask>>>| #[trigger]
            evenly_dealt(with_pipe, processes, bins) implies procs_run(
            Lowering(a),
            Lowering(b),
            threads,
            bins,
        ) by {
            lemma_dealt_inv(with_pipe, bins);
            lemma_dealt_tally::<CountTally<u64>, ConnectTask<T, IdentityTask>>(
                CountTally(PhantomData),
                with_pipe,
                bins,
            );
            assert forall|i: int| 0 <= i < bins.len() && (#[trigger] bins[i]).len() > 0 implies proc_runs(
                Lowering(a),
                Lowering(b),
                threads,
                bins[i],
            ) by {
                lemma_bin_count_within::<ConnectTask<T, IdentityTask>>(bins, i, bins.len() as int);
                assert forall|reduce_b: HistogramMerger| #[trigger]
                    Lowering(b).makes(reduce_b) implies par_runs(
                    bins[i],
                    threads,
                    Lowering(a),
                    reduce_b,
                ) by {
                    lemma_histogram_par_runs::<ConnectTask<T, IdentityTask>>(
                        bins[i],
                        threads,
                        a,
                        reduce_b,
                    );
                }
            }
        }
        assert forall|bins: Seq<Seq<ConnectTask<T, IdentityTask>>>, outs: Seq<Vec<(u64, usize)>>|
            evenly_dealt(with_pipe, processes, bins) && #[trigger] procs_reduce(
                Lowering(a),
                Lowering(b),
                threads,
                bins,
                outs,
            ) implies runs_on(c.lowered(), outs) by {
            assert forall|j: int| 0 <= j < outs.len() implies sorted(#[trigger] outs[j]@) by {
                let i = lemma_procs_reduce_each(Lowering(a), Lowering(b), threads, bins, outs, j);
                let reduce_b = choose|reduce_b: HistogramMerger| #[trigger]
                    Lowering(b).makes(reduce_b) && par_reduces(
                        bins[i],
                        threads,
                        Lowering(a),
                        reduce_b,
                        outs[j],
                    );
                let (inner, mids) = choose|
                    inner: Seq<Seq<ConnectTask<T, IdentityTask>>>,
                    mids: Seq<Vec<(u64, usize)>>,
                |
                    evenly_dealt(bins[i], threads, inner) && #[trigger] bins_reduce(
                        Lowering(a),
                        inner,
                        mids,
                    ) && reduces(reduce_b, mids, outs[j]);
                let end = choose|end: HistogramMerger|
                    offered(reduce_b, mids, end) && #[trigger] end.yields(outs[j]);
                lemma_histograms_offered(reduce_b, mids, end, 0);
            }
            assert forall|key: u64| count_in(c.0@, key) + #[trigger] counts_in(outs, key)
                <= usize::MAX by {
                lemma_histogram_exact(a, key);
                assert(b == HistogramMergerFactory);
                lemma_procs_reduce_tally::<
                    CountOf,
                    ConnectTask<T, IdentityTask>,
                    Lowering<HistogramReducerFactory>,
                    Lowering<HistogramMergerFactory>,
                >(CountOf(key), Lowering(a), Lowering(b), threads, bins, outs);
                lemma_dealt_tally::<CountOf, ConnectTask<T, IdentityTask>>(
                    CountOf(key),
                    with_pipe,
                    bins,
                );
                lemma_merged_histograms(outs, key);
                lemma_occurrences_bounds(tasks_items(with_pipe), key);
            }
            lemma_histograms_run(c, outs);
        }
    }
}

} // verus!
