//! When a sample can be drawn: whenever every worker that has tasks is handed
//! at least as many items as the sample is to hold, so that every reservoir
//! that is merged is full.

use vstd::prelude::*;
use vstd::arithmetic::div_mod::lemma_div_is_ordered;
use crate::par_pipe::identity::{Identity, IdentityTask};
use crate::par_sink::reservoir::{
    can_merge, max_samples, merges_into, Reservoir, sample_capacity, sample_items,
    sample_seen, visits,
};
use crate::par_sink::sample::bounds::{
    lemma_merged_same, lemma_merged_visited, lemma_sample_offered, lemma_sample_visited, Visited,
};
use crate::par_sink::sample::{SampleUnstable, SampleUnstableReduceFactory, SampleUnstableReducer};
use crate::par_sink::sum::{Accumulate, SumReducer, SumReducerFactory};
use crate::par_sink::{
    reduces, runs_on, DistributedSink, Factory, Lowering, ParallelSink, Reducer, ReducerAsync,
};
use crate::par_stream::partition::{dealt, lemma_dealt_member, on_top, share};
use crate::par_stream::pipe::{
    connected, dist_pipe_runs, lemma_connected_identity, lemma_connected_identity_inv,
    par_pipe_runs, ConnectTask,
};
use crate::par_stream::reduce::{
    bins_reduce, bins_run, dist_runs, evenly_dealt, lemma_bins_reduce_each,
    lemma_bins_reduce_some, lemma_dealt_inv, lemma_procs_reduce_each, made_runs_on, par_reduces,
    par_runs, proc_runs, procs_reduce, procs_run, tasks_inv, tasks_items,
};
use crate::par_stream::tally::{
    exact_a, lemma_bins_reduce_tally, lemma_dealt_tally, lemma_procs_reduce_within, merged_a,
    Tally,
};
use crate::par_stream::StreamTask;
use crate::sink::{moved, offered, Intake};

verus! {

/// Whether a reservoir for `samples` items has visited nothing.
pub open spec fn fresh(samples: usize, reservoir: Reservoir) -> bool {
    &&& sample_capacity(reservoir) == samples
    &&& sample_seen(reservoir) == 0
    &&& sample_items(reservoir) == Seq::<u64>::empty()
}

/// Whether a reservoir for `samples` items is full.
pub open spec fn full(samples: usize, reservoir: Reservoir) -> bool {
    &&& sample_capacity(reservoir) == samples
    &&& sample_items(reservoir).len() == samples
    &&& sample_seen(reservoir) > 0
}

/// Whether every bin that has tasks has at least `samples` items.
pub open spec fn enough<T: StreamTask>(bins: Seq<Seq<T>>, samples: usize) -> bool {
    forall|i: int|
        0 <= i < bins.len() && (#[trigger] bins[i]).len() > 0 ==> tasks_items(bins[i]).len()
            >= samples
}

/// Whether, however `tasks` are dealt to `threads` threads, every thread that
/// has tasks has at least `samples` items.
pub open spec fn enough_on_threads<T: StreamTask>(
    tasks: Seq<T>,
    threads: int,
    samples: usize,
) -> bool {
    forall|bins: Seq<Seq<T>>| #[trigger] evenly_dealt(tasks, threads, bins) ==> enough(bins, samples)
}

/// Whether, however `tasks` are dealt to `processes` processes of `threads`
/// threads each, every thread that has tasks has at least `samples` items.
pub open spec fn enough_on_pool<T: StreamTask>(
    tasks: Seq<T>,
    processes: int,
    threads: int,
    samples: usize,
) -> bool {
    forall|bins: Seq<Seq<T>>, i: int| #[trigger]
        evenly_dealt(tasks, processes, bins) && 0 <= i < bins.len() ==> enough_on_threads(
            #[trigger] bins[i],
            threads,
            samples,
        )
}

/// A reducer that samples holds, after a run of items, what it held and the
/// items of the run, up to the size of its reservoir.
pub proof fn lemma_sample_fills(
    start: SampleUnstableReducer,
    items: Seq<u64>,
    end: SampleUnstableReducer,
)
    requires
        start.0 is Some,
        offered(start, items, end),
        sample_items(start.0->0).len() <= sample_capacity(start.0->0),
    ensures
        end.0 is Some,
        sample_items(end.0->0).len() == if sample_items(start.0->0).len() + items.len()
            <= sample_capacity(start.0->0) {
            sample_items(start.0->0).len() + items.len()
        } else {
            sample_capacity(start.0->0)
        },
    decreases items.len(),
{
    if items.len() > 0 {
        let mid = choose|mid: SampleUnstableReducer|
            offered(start, items.drop_last(), mid) && #[trigger] moved(mid, items.last(), end);
        lemma_sample_fills(start, items.drop_last(), mid);
        lemma_sample_offered(start, items.drop_last(), mid, 0);
        assert(visits(mid.0->0, items.last(), end.0->0));
    }
}

/// A reducer that samples can be handed any items that it can count, if its
/// reservoir has room or has visited something.
pub proof fn lemma_sample_runs(start: SampleUnstableReducer, items: Seq<u64>)
    requires
        start.0 is Some,
        sample_items(start.0->0).len() < sample_capacity(start.0->0) || sample_seen(start.0->0) > 0,
        sample_seen(start.0->0) + items.len() <= usize::MAX,
    ensures
        runs_on(start, items),
{
    assert forall|k: int, mid: SampleUnstableReducer|
        0 <= k < items.len() && #[trigger] offered(start, items.take(k), mid)
            && mid.wants() implies mid.admits(items[k]) by {
        lemma_sample_offered(start, items.take(k), mid, 0);
    }
}

/// The numbers of items that full reservoirs have visited, added up: the
/// sum is a number, it is not negative, and that of the first `k` is not more
/// than that of all.
pub proof fn lemma_visited_prefix(outs: Seq<Reservoir>, k: int, samples: usize)
    requires
        0 <= k <= outs.len(),
        forall|j: int| 0 <= j < outs.len() ==> full(samples, #[trigger] outs[j]),
    ensures
        merged_a::<Visited>(Visited(samples), outs.take(k)) matches Some(first) && merged_a::<
            Visited,
        >(Visited(samples), outs) matches Some(all) && 0 <= first <= all,
        outs.len() > 0 ==> merged_a::<Visited>(Visited(samples), outs)->0 > 0,
    decreases outs.len(),
{
    if outs.len() == 0 {
        assert(outs.take(k) =~= outs);
    } else {
        assert(full(samples, outs[outs.len() - 1]));
        assert forall|j: int| 0 <= j < outs.drop_last().len() implies full(
            samples,
            #[trigger] outs.drop_last()[j],
        ) by {
            assert(outs.drop_last()[j] == outs[j]);
        }
        if k == outs.len() {
            assert(outs.take(k) =~= outs);
            lemma_visited_prefix(outs.drop_last(), k - 1, samples);
        } else {
            lemma_visited_prefix(outs.drop_last(), k, samples);
            assert(outs.drop_last().take(k) =~= outs.take(k));
        }
    }
}

/// A reducer that merges full reservoirs, and that started with a reservoir
/// that had visited nothing, stays as it was while nothing comes and holds a
/// full reservoir from then on.
pub proof fn lemma_samples_merged(
    start: SumReducer<Reservoir, Reservoir>,
    outs: Seq<Reservoir>,
    end: SumReducer<Reservoir, Reservoir>,
    samples: usize,
)
    requires
        samples > 0,
        offered(start, outs, end),
        start.0.is_zero() || fresh(samples, start.0),
        forall|j: int| 0 <= j < outs.len() ==> full(samples, #[trigger] outs[j]),
    ensures
        outs.len() == 0 ==> end == start,
        outs.len() > 0 ==> full(samples, end.0),
        sample_seen(end.0) == merged_a::<Visited>(Visited(samples), outs)->0,
    decreases outs.len(),
{
    lemma_visited_prefix(outs, 0, samples);
    lemma_merged_visited(start, outs, end, samples);
    if outs.len() > 0 {
        let mid = choose|mid: SumReducer<Reservoir, Reservoir>|
            offered(start, outs.drop_last(), mid) && #[trigger] moved(mid, outs.last(), end);
        assert forall|j: int| 0 <= j < outs.drop_last().len() implies full(
            samples,
            #[trigger] outs.drop_last()[j],
        ) by {
            assert(outs.drop_last()[j] == outs[j]);
        }
        lemma_samples_merged(start, outs.drop_last(), mid, samples);
        assert(merges_into(mid.0, outs.last(), end.0));
        assert(full(samples, outs[outs.len() - 1]));
    }
}

/// A reducer that merges reservoirs, and that starts with one that has
/// visited nothing, can be handed any full reservoirs whose items it can
/// count.
pub proof fn lemma_samples_merge_runs(
    start: SumReducer<Reservoir, Reservoir>,
    outs: Seq<Reservoir>,
    samples: usize,
)
    requires
        samples > 0,
        start.0.is_zero() || fresh(samples, start.0),
        forall|j: int| 0 <= j < outs.len() ==> full(samples, #[trigger] outs[j]),
        merged_a::<Visited>(Visited(samples), outs)->0 <= usize::MAX,
    ensures
        runs_on(start, outs),
{
    assert forall|k: int, mid: SumReducer<Reservoir, Reservoir>|
        0 <= k < outs.len() && #[trigger] offered(start, outs.take(k), mid)
            && mid.wants() implies mid.admits(outs[k]) by {
        assert forall|j: int| 0 <= j < outs.take(k).len() implies full(
            samples,
            #[trigger] outs.take(k)[j],
        ) by {
            assert(outs.take(k)[j] == outs[j]);
        }
        lemma_samples_merged(start, outs.take(k), mid, samples);
        lemma_visited_prefix(outs, k, samples);
        lemma_visited_prefix(outs, k + 1, samples);
        assert(outs.take(k + 1).drop_last() =~= outs.take(k));
        assert(full(samples, outs[k]));
        assert(can_merge(mid.0, outs[k]));
    }
}

/// The reducers that sample and those that merge samples have visited as
/// many items as they stand for.
pub proof fn lemma_sample_exact(a: SampleUnstableReduceFactory<u64>)
    requires
        a.0 > 0,
    ensures
        exact_a::<Visited, Lowering<SampleUnstableReduceFactory<u64>>>(Visited(a.0), Lowering(a)),
{
    let tally = Visited(a.0);
    assert forall|r: SampleUnstableReducer, items: Seq<u64>, out: Reservoir|
        Lowering(a).makes(r) && #[trigger] reduces(r, items, out) implies tally.of_a(out)
        == tally.of(items) by {
        let end = choose|end: SampleUnstableReducer|
            offered(r, items, end) && #[trigger] end.yields(out);
        lemma_sample_offered(r, items, end, 0);
    }
}

/// The reservoirs that threads fill of bins with enough items are full, and
/// have visited, together, all the items of all the bins.
pub proof fn lemma_sample_bins<T: StreamTask<Item = u64>>(
    a: SampleUnstableReduceFactory<u64>,
    tasks: Seq<T>,
    threads: int,
    bins: Seq<Seq<T>>,
    outs: Seq<Reservoir>,
)
    requires
        a.0 > 0,
        evenly_dealt(tasks, threads, bins),
        enough(bins, a.0),
        bins_reduce(Lowering(a), bins, outs),
    ensures
        tasks.len() > 0 ==> outs.len() > 0,
        forall|j: int| 0 <= j < outs.len() ==> full(a.0, #[trigger] outs[j]),
        merged_a::<Visited>(Visited(a.0), outs) == Some(tasks_items(tasks).len() as int),
{
    if tasks.len() > 0 {
        let i = choose|i: int| #[trigger] on_top(bins, i, tasks.last());
        lemma_bins_reduce_some(Lowering(a), bins, outs, i);
    }
    assert forall|j: int| 0 <= j < outs.len() implies full(a.0, #[trigger] outs[j]) by {
        let i = lemma_bins_reduce_each(Lowering(a), bins, outs, j);
        let r = choose|r: SampleUnstableReducer| #[trigger]
            Lowering(a).makes(r) && reduces(r, tasks_items(bins[i]), outs[j]);
        let end = choose|end: SampleUnstableReducer|
            offered(r, tasks_items(bins[i]), end) && #[trigger] end.yields(outs[j]);
        lemma_sample_offered(r, tasks_items(bins[i]), end, 0);
        lemma_sample_fills(r, tasks_items(bins[i]), end);
    }
    lemma_sample_exact(a);
    lemma_bins_reduce_tally::<Visited, T, Lowering<SampleUnstableReduceFactory<u64>>>(
        Visited(a.0),
        Lowering(a),
        bins,
        outs,
    );
    lemma_dealt_tally::<Visited, T>(Visited(a.0), tasks, bins);
}

/// On the threads of one process, a sample of at least one item can be drawn
/// if every thread that has tasks has enough items and the number of the
/// items is a number, whatever reducer takes the threads' reservoirs, if its
/// own has visited nothing.
pub proof fn lemma_sample_par_runs<T: StreamTask<Item = u64>>(
    tasks: Seq<T>,
    threads: int,
    a: SampleUnstableReduceFactory<u64>,
    c: SumReducer<Reservoir, Reservoir>,
)
    requires
        tasks_inv(tasks),
        0 < a.0 <= max_samples(),
        c.0.is_zero() || fresh(a.0, c.0),
        enough_on_threads(tasks, threads, a.0),
        tasks_items(tasks).len() <= usize::MAX,
    ensures
        par_runs(tasks, threads, Lowering(a), c),
{
    assert forall|bins: Seq<Seq<T>>| #[trigger] evenly_dealt(tasks, threads, bins) implies bins_run(
        Lowering(a),
        bins,
    ) by {
        assert forall|i: int| 0 <= i < bins.len() && (#[trigger] bins[i]).len() > 0 implies made_runs_on(
            Lowering(a),
            tasks_items(bins[i]),
        ) by {
            lemma_bin_items_within(tasks, bins, i);
            assert forall|r: SampleUnstableReducer| #[trigger] Lowering(a).makes(r) implies runs_on(
                r,
                tasks_items(bins[i]),
            ) by {
                lemma_sample_runs(r, tasks_items(bins[i]));
            }
        }
    }
    assert forall|bins: Seq<Seq<T>>, outs: Seq<Reservoir>|
        evenly_dealt(tasks, threads, bins) && #[trigger] bins_reduce(
            Lowering(a),
            bins,
            outs,
        ) implies runs_on(c, outs) by {
        lemma_sample_bins(a, tasks, threads, bins, outs);
        lemma_samples_merge_runs(c, outs, a.0);
    }
}

/// The items of one bin of a dealing are not more than all the items.
pub proof fn lemma_bin_items_within<T: StreamTask>(tasks: Seq<T>, bins: Seq<Seq<T>>, i: int)
    requires
        dealt(tasks, bins),
        0 <= i < bins.len(),
    ensures
        tasks_items(bins[i]).len() <= tasks_items(tasks).len(),
{
    lemma_dealt_tally::<crate::par_sink::count::CountTally<T::Item>, T>(
        crate::par_sink::count::CountTally(std::marker::PhantomData),
        tasks,
        bins,
    );
    crate::par_sink::count::lemma_bin_count_within::<T>(bins, i, bins.len() as int);
}

/// A sample of at least one item can be drawn on any number of threads on
/// which every thread that has tasks has enough items, if the number of the
/// items is a number.
pub proof fn lemma_sample_runs_on_threads<T: StreamTask<Item = u64>>(
    tasks: Seq<T>,
    threads: int,
    samples: usize,
)
    requires
        tasks_inv(tasks),
        0 < samples <= max_samples(),
        enough_on_threads(tasks, threads, samples),
        tasks_items(tasks).len() <= usize::MAX,
    ensures
        par_pipe_runs(tasks, threads, SampleUnstable::<Identity>::of(Identity, samples)),
{
    let sink = SampleUnstable::<Identity>::of(Identity, samples);
    assert forall|
        pipe: Identity,
        a: SampleUnstableReduceFactory<u64>,
        c: SumReducer<Reservoir, Reservoir>,
    | #[trigger]
        ParallelSink::<u64>::splits(sink, pipe, a, c) implies par_runs(
        connected::<T, u64, Identity>(tasks, pipe),
        threads,
        Lowering(a),
        c.lowered(),
    ) by {
        lemma_connected_identity_inv(tasks);
        lemma_connected_identity(tasks);
        lemma_enough_connected(tasks, threads, samples);
        lemma_sample_par_runs::<ConnectTask<T, IdentityTask>>(
            connected::<T, u64, Identity>(tasks, pipe),
            threads,
            a,
            c,
        );
    }
}

/// The bins of tasks behind the pipe that forwards have as many items as the
/// bins of the tasks themselves.
pub proof fn lemma_enough_connected<T: StreamTask>(tasks: Seq<T>, threads: int, samples: usize)
    requires
        enough_on_threads(tasks, threads, samples),
    ensures
        enough_on_threads(connected::<T, T::Item, Identity>(tasks, Identity), threads, samples),
{
    let with_pipe = connected::<T, T::Item, Identity>(tasks, Identity);
    assert forall|bins: Seq<Seq<ConnectTask<T, IdentityTask>>>| #[trigger]
        evenly_dealt(with_pipe, threads, bins) implies enough(bins, samples) by {
        let bare = lemma_bare_evenly(tasks, threads, bins);
        assert forall|i: int| 0 <= i < bins.len() && (#[trigger] bins[i]).len() > 0 implies tasks_items(
            bins[i],
        ).len() >= samples by {
            assert(bare[i].len() > 0);
            lemma_connected_identity(bare[i]);
        }
    }
}

/// An even dealing of tasks behind the pipe that forwards is one of the
/// tasks themselves, bin by bin.
pub proof fn lemma_bare_evenly<T: StreamTask>(
    tasks: Seq<T>,
    count: int,
    bins: Seq<Seq<ConnectTask<T, IdentityTask>>>,
) -> (bare: Seq<Seq<T>>)
    requires
        evenly_dealt(connected::<T, T::Item, Identity>(tasks, Identity), count, bins),
    ensures
        evenly_dealt(tasks, count, bare),
        forall|i: int|
            0 <= i < bins.len() ==> connected::<T, T::Item, Identity>(#[trigger] bare[i], Identity)
                == bins[i],
{
    let with_pipe = connected::<T, T::Item, Identity>(tasks, Identity);
    let bare = Seq::new(bins.len(), |i: int| Seq::new(bins[i].len(), |k: int| bins[i][k].0));
    lemma_bare_dealt(tasks, bins);
    assert forall|i: int| 0 <= i < bare.len() implies (#[trigger] bare[i]).len() == share(
        tasks.len() as int,
        count,
        i,
    ) by {
        assert(bins[i].len() == share(with_pipe.len() as int, count, i));
    }
    assert forall|i: int| 0 <= i < bins.len() implies connected::<T, T::Item, Identity>(
        #[trigger] bare[i],
        Identity,
    ) == bins[i] by {
        assert forall|k: int| 0 <= k < bins[i].len() implies connected::<T, T::Item, Identity>(
            bare[i],
            Identity,
        )[k] == bins[i][k] by {
            let m = lemma_dealt_member(with_pipe, bins, i, k);
        }
        assert(connected::<T, T::Item, Identity>(bare[i], Identity) =~= bins[i]);
    }
    bare
}

/// A dealing of tasks behind the pipe that forwards is a dealing of the tasks
/// themselves.
pub proof fn lemma_bare_dealt<T: StreamTask>(
    tasks: Seq<T>,
    bins: Seq<Seq<ConnectTask<T, IdentityTask>>>,
)
    requires
        dealt(connected::<T, T::Item, Identity>(tasks, Identity), bins),
    ensures
        dealt(tasks, Seq::new(bins.len(), |i: int| Seq::new(bins[i].len(), |k: int| bins[i][k].0))),
    decreases tasks.len(),
{
    let with_pipe = connected::<T, T::Item, Identity>(tasks, Identity);
    let bare = Seq::new(bins.len(), |i: int| Seq::new(bins[i].len(), |k: int| bins[i][k].0));
    if tasks.len() == 0 {
        assert forall|i: int| 0 <= i < bare.len() implies (#[trigger] bare[i]).len() == 0 by {
            assert(bins[i].len() == 0);
        }
    } else {
        let j = choose|j: int| #[trigger]
            on_top(bins, j, with_pipe.last()) && dealt(
                with_pipe.drop_last(),
                bins.update(j, bins[j].drop_last()),
            );
        let before = bins.update(j, bins[j].drop_last());
        assert(with_pipe.drop_last() =~= connected::<T, T::Item, Identity>(
            tasks.drop_last(),
            Identity,
        ));
        lemma_bare_dealt(tasks.drop_last(), before);
        let bare_before = Seq::new(
            before.len(),
            |i: int| Seq::new(before[i].len(), |k: int| before[i][k].0),
        );
        assert(bare_before =~= bare.update(j, bare[j].drop_last())) by {
            assert forall|i: int| 0 <= i < bare.len() implies bare_before[i] =~= bare.update(
                j,
                bare[j].drop_last(),
            )[i] by {}
        }
        assert(on_top(bare, j, tasks.last())) by {
            assert(bare[j].last() == bins[j].last().0);
            assert(with_pipe.last().0 == tasks.last());
        }
    }
}

/// A sample of at least one item can be drawn on any pool on which every
/// thread that has tasks has enough items, if the number of the items is a
/// number.
pub proof fn lemma_sample_runs_on_pool<T: StreamTask<Item = u64>>(
    tasks: Seq<T>,
    processes: int,
    threads: int,
    samples: usize,
)
    requires
        tasks_inv(tasks),
        0 < samples <= max_samples(),
        enough_on_pool(tasks, processes, threads, samples),
        tasks_items(tasks).len() <= usize::MAX,
    ensures
        dist_pipe_runs(
            tasks,
            processes,
            threads,
            SampleUnstable::<Identity>::of(Identity, samples),
        ),
{
    let sink = SampleUnstable::<Identity>::of(Identity, samples);
    assert forall|
        pipe: Identity,
        a: SampleUnstableReduceFactory<u64>,
        b: SumReducerFactory<Reservoir, Reservoir>,
        c: SumReducer<Reservoir, Reservoir>,
    | #[trigger]
        DistributedSink::<u64>::splits(sink, pipe, a, b, c) implies dist_runs(
        connected::<T, u64, Identity>(tasks, pipe),
        processes,
        threads,
        Lowering(a),
        Lowering(b),
        c.lowered(),
    ) by {
        let with_pipe = connected::<T, u64, Identity>(tasks, pipe);
        lemma_connected_identity_inv(tasks);
        lemma_connected_identity(tasks);
        assert forall|bins: Seq<Seq<ConnectTask<T, IdentityTask>>>| #[trigger]
            evenly_dealt(with_pipe, processes, bins) implies procs_run(
            Lowering(a),
            Lowering(b),
            threads,
            bins,
        ) by {
            lemma_dealt_inv(with_pipe, bins);
            let bare = lemma_bare_evenly(tasks, processes, bins);
            assert forall|i: int| 0 <= i < bins.len() && (#[trigger] bins[i]).len() > 0 implies proc_runs(
                Lowering(a),
                Lowering(b),
                threads,
                bins[i],
            ) by {
                lemma_bin_items_within(with_pipe, bins, i);
                assert(enough_on_threads(bare[i], threads, samples));
                lemma_enough_connected(bare[i], threads, samples);
                assert forall|reduce_b: SumReducer<Reservoir, Reservoir>| #[trigger]
                    Lowering(b).makes(reduce_b) implies par_runs(
                    bins[i],
                    threads,
                    Lowering(a),
                    reduce_b,
                ) by {
                    lemma_sample_par_runs::<ConnectTask<T, IdentityTask>>(
                        bins[i],
                        threads,
                        a,
                        reduce_b,
                    );
                }
            }
        }
        assert forall|bins: Seq<Seq<ConnectTask<T, IdentityTask>>>, outs: Seq<Reservoir>|
            evenly_dealt(with_pipe, processes, bins) && #[trigger] procs_reduce(
                Lowering(a),
                Lowering(b),
                threads,
                bins,
                outs,
            ) implies runs_on(c.lowered(), outs) by {
            let bare = lemma_bare_evenly(tasks, processes, bins);
            assert forall|j: int| 0 <= j < outs.len() implies full(samples, #[trigger] outs[j]) by {
                let i = lemma_procs_reduce_each(Lowering(a), Lowering(b), threads, bins, outs, j);
                assert(enough_on_threads(bare[i], threads, samples));
                lemma_enough_connected(bare[i], threads, samples);
                let reduce_b = choose|reduce_b: SumReducer<Reservoir, Reservoir>| #[trigger]
                    Lowering(b).makes(reduce_b) && par_reduces(
                        bins[i],
                        threads,
                        Lowering(a),
                        reduce_b,
                        outs[j],
                    );
                let (inner, mids) = choose|
                    inner: Seq<Seq<ConnectTask<T, IdentityTask>>>,
                    mids: Seq<Reservoir>,
                |
                    evenly_dealt(bins[i], threads, inner) && #[trigger] bins_reduce(
                        Lowering(a),
                        inner,
                        mids,
                    ) && reduces(reduce_b, mids, outs[j]);
                lemma_sample_bins(a, bins[i], threads, inner, mids);
                let end = choose|end: SumReducer<Reservoir, Reservoir>|
                    offered(reduce_b, mids, end) && #[trigger] end.yields(outs[j]);
                lemma_samples_merged(reduce_b, mids, end, samples);
            }
            lemma_sample_visited(a, b, c);
            lemma_procs_reduce_within::<
                Visited,
                ConnectTask<T, IdentityTask>,
                Lowering<SampleUnstableReduceFactory<u64>>,
                Lowering<SumReducerFactory<Reservoir, Reservoir>>,
            >(Visited(samples), Lowering(a), Lowering(b), threads, bins, outs);
            lemma_dealt_tally::<Visited, ConnectTask<T, IdentityTask>>(
                Visited(samples),
                with_pipe,
                bins,
            );
            lemma_merged_same(Visited(samples), outs);
            lemma_samples_merge_runs(c, outs, samples);
        }
    }
}

/// Whether every task hands out one item.
pub open spec fn single<T: StreamTask>(tasks: Seq<T>) -> bool {
    forall|k: int| 0 <= k < tasks.len() ==> (#[trigger] tasks[k]).items().len() == 1
}

/// Tasks of one item each hand out as many items as there are tasks.
pub proof fn lemma_single_items<T: StreamTask>(tasks: Seq<T>)
    requires
        single(tasks),
    ensures
        tasks_items(tasks).len() == tasks.len(),
    decreases tasks.len(),
{
    if tasks.len() > 0 {
        assert forall|k: int| 0 <= k < tasks.drop_last().len() implies (
        #[trigger] tasks.drop_last()[k]).items().len() == 1 by {
            assert(tasks.drop_last()[k] == tasks[k]);
        }
        lemma_single_items(tasks.drop_last());
        assert(tasks[tasks.len() - 1].items().len() == 1);
    }
}

/// Where every task hands out one item and the tasks divided by the threads
/// are at least `samples`, every thread has enough items.
pub proof fn lemma_enough_single<T: StreamTask>(tasks: Seq<T>, threads: int, samples: usize)
    requires
        single(tasks),
        0 < threads,
        (tasks.len() as int) / threads >= samples,
    ensures
        enough_on_threads(tasks, threads, samples),
{
    assert forall|bins: Seq<Seq<T>>| #[trigger] evenly_dealt(tasks, threads, bins) implies enough(
        bins,
        samples,
    ) by {
        assert forall|i: int| 0 <= i < bins.len() && (#[trigger] bins[i]).len() > 0 implies tasks_items(
            bins[i],
        ).len() >= samples by {
            assert forall|k: int| 0 <= k < bins[i].len() implies (#[trigger] bins[i][k]).items().len()
                == 1 by {
                let m = lemma_dealt_member(tasks, bins, i, k);
            }
            lemma_single_items(bins[i]);
            assert(bins[i].len() == share(tasks.len() as int, threads, i));
        }
    }
}

/// Where every task hands out one item and the tasks divided by the
/// processes and then by the threads are at least `samples`, every thread of
/// every process has enough items.
pub proof fn lemma_enough_single_on_pool<T: StreamTask>(
    tasks: Seq<T>,
    processes: int,
    threads: int,
    samples: usize,
)
    requires
        single(tasks),
        0 < processes,
        0 < threads,
        ((tasks.len() as int) / processes) / threads >= samples,
    ensures
        enough_on_pool(tasks, processes, threads, samples),
{
    assert forall|bins: Seq<Seq<T>>, i: int| #[trigger]
        evenly_dealt(tasks, processes, bins) && 0 <= i < bins.len() implies enough_on_threads(
        #[trigger] bins[i],
        threads,
        samples,
    ) by {
        assert forall|k: int| 0 <= k < bins[i].len() implies (#[trigger] bins[i][k]).items().len()
            == 1 by {
            let m = lemma_dealt_member(tasks, bins, i, k);
        }
        assert(bins[i].len() == share(tasks.len() as int, processes, i));
        lemma_div_is_ordered((tasks.len() as int) / processes, bins[i].len() as int, threads);
        lemma_enough_single(bins[i], threads, samples);
    }
}

} // verus!
