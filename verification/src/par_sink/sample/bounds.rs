//! What holds of a sample whatever the chance: it holds no item more often
//! than the stream handed it out, it is not larger than asked for, and every
//! item of the stream was visited.

use vstd::prelude::*;
use crate::par_pipe::identity::{Identity, IdentityTask};
use crate::par_sink::reservoir::{
    merges_into, Reservoir, sample_capacity, sample_items, sample_seen, visits,
};
use crate::par_sink::sample::{SampleUnstable, SampleUnstableReduceFactory, SampleUnstableReducer};
use crate::par_sink::sum::{Accumulate, SumReducer, SumReducerFactory};
use crate::par_sink::{reduces, DistributedSink, Factory, Lowering, ParallelSink, Reducer, ReducerAsync};
use crate::par_stream::pipe::{
    connected, dist_pipe_reduces, lemma_connected_identity, par_pipe_reduces, ConnectTask,
};
use crate::par_stream::reduce::{dist_reduces, par_reduces, tasks_items};
use crate::par_stream::tally::{
    bounded_a, bounded_b, bounded_c, bounded_top, lemma_dist_within, lemma_par_within, merged_a,
    merged_b, Tally,
};
use crate::par_stream::StreamTask;
use crate::sink::{moved, offered};
use crate::stream::{
    lemma_occurrences_bounds, lemma_occurrences_concat, lemma_occurrences_update, occurrences,
};

verus! {

/// A reservoir that visits an item holds it at most once more than before,
/// and any other item at most as often as before.
pub proof fn lemma_visit_holds(before: Reservoir, item: u64, after: Reservoir, key: u64)
    requires
        visits(before, item, after),
    ensures
        occurrences(sample_items(after), key) <= occurrences(sample_items(before), key) + if item
            == key {
            1int
        } else {
            0int
        },
        sample_items(before).len() <= sample_capacity(before) ==> sample_items(after).len()
            <= sample_capacity(after),
{
    let held = sample_items(before);
    if held.len() < sample_capacity(before) {
        assert(held.push(item).drop_last() =~= held);
    } else if sample_items(after) != held {
        let i = choose|i: int|
            0 <= i < held.len() && sample_items(after) == #[trigger] held.update(i, item);
        lemma_occurrences_update(held, i, item, key);
    }
}

/// A reducer that samples has, after a run of items, visited each of them, and
/// holds no item more often than it held it before and the run has it.
pub proof fn lemma_sample_offered(
    start: SampleUnstableReducer,
    items: Seq<u64>,
    end: SampleUnstableReducer,
    key: u64,
)
    requires
        start.0 is Some,
        offered(start, items, end),
    ensures
        end.0 is Some,
        sample_capacity(end.0->0) == sample_capacity(start.0->0),
        sample_seen(end.0->0) == sample_seen(start.0->0) + items.len(),
        sample_items(start.0->0).len() <= sample_capacity(start.0->0) ==> sample_items(
            end.0->0,
        ).len() <= sample_capacity(end.0->0),
        occurrences(sample_items(end.0->0), key) <= occurrences(sample_items(start.0->0), key)
            + occurrences(items, key),
    decreases items.len(),
{
    if items.len() > 0 {
        let mid = choose|mid: SampleUnstableReducer|
            offered(start, items.drop_last(), mid) && #[trigger] moved(mid, items.last(), end);
        lemma_sample_offered(start, items.drop_last(), mid, key);
        lemma_visit_holds(mid.0->0, items.last(), end.0->0, key);
    }
}

/// How often `.0` is held: in a run of items it is how often the item occurs,
/// in a reservoir how often the reservoir holds it. A value is within another
/// if it is not larger.
pub struct Held(pub u64);

impl Tally for Held {
    type Item = u64;

    type Value = int;

    type A = Reservoir;

    type B = Reservoir;

    type C = Reservoir;

    open spec fn lawful(&self) -> bool {
        true
    }

    open spec fn of(&self, items: Seq<u64>) -> int {
        occurrences(items, self.0)
    }

    open spec fn merge(&self, a: int, b: int) -> int {
        a + b
    }

    open spec fn of_a(&self, out: Reservoir) -> int {
        occurrences(sample_items(out), self.0)
    }

    open spec fn of_b(&self, out: Reservoir) -> int {
        occurrences(sample_items(out), self.0)
    }

    open spec fn of_c(&self, out: Reservoir) -> int {
        occurrences(sample_items(out), self.0)
    }

    proof fn lemma_of_concat(&self, first: Seq<u64>, second: Seq<u64>) {
        lemma_occurrences_concat(first, second, self.0);
    }

    proof fn lemma_merge_commutes(&self, a: int, b: int) {
    }

    proof fn lemma_merge_associates(&self, a: int, b: int, c: int) {
    }

    proof fn lemma_merge_none(&self, a: int) {
    }

    open spec fn within(&self, a: int, b: int) -> bool {
        a <= b
    }

    proof fn lemma_within_itself(&self, a: int) {
    }

    proof fn lemma_within_chain(&self, a: int, b: int, c: int) {
    }

    proof fn lemma_merge_within(&self, a: int, b: int, c: int, d: int) {
    }
}

/// A reducer that merges reservoirs holds no item more often than it held it
/// before and the reservoirs it was handed held it together.
pub proof fn lemma_merged_holds(
    start: SumReducer<Reservoir, Reservoir>,
    outs: Seq<Reservoir>,
    end: SumReducer<Reservoir, Reservoir>,
    key: u64,
)
    requires
        offered(start, outs, end),
    ensures
        0 <= merged_a::<Held>(Held(key), outs) == merged_b::<Held>(Held(key), outs),
        occurrences(sample_items(end.0), key) <= occurrences(sample_items(start.0), key)
            + merged_a::<Held>(Held(key), outs),
    decreases outs.len(),
{
    if outs.len() > 0 {
        let mid = choose|mid: SumReducer<Reservoir, Reservoir>|
            offered(start, outs.drop_last(), mid) && #[trigger] moved(mid, outs.last(), end);
        lemma_merged_holds(start, outs.drop_last(), mid, key);
        lemma_occurrences_bounds(sample_items(outs.last()), key);
        lemma_occurrences_bounds(sample_items(mid.0), key);
        assert(merges_into(mid.0, outs.last(), end.0));
    }
}

/// The reducers of every level of a sample hold no item more often than what
/// they were handed holds it.
pub proof fn lemma_sample_bounded(
    a: SampleUnstableReduceFactory<u64>,
    b: SumReducerFactory<Reservoir, Reservoir>,
    c: SumReducer<Reservoir, Reservoir>,
    key: u64,
)
    requires
        sample_items(c.0) == Seq::<u64>::empty(),
    ensures
        bounded_a::<Held, Lowering<SampleUnstableReduceFactory<u64>>>(Held(key), Lowering(a)),
        bounded_b::<Held, Lowering<SumReducerFactory<Reservoir, Reservoir>>>(
            Held(key),
            Lowering(b),
        ),
        bounded_c::<Held, SumReducer<Reservoir, Reservoir>>(Held(key), c),
        bounded_top::<Held, SumReducer<Reservoir, Reservoir>>(Held(key), c),
{
    assert forall|r: SampleUnstableReducer, items: Seq<u64>, out: Reservoir|
        Lowering(a).makes(r) && #[trigger] reduces(r, items, out) implies occurrences(
        sample_items(out),
        key,
    ) <= occurrences(items, key) by {
        let end = choose|end: SampleUnstableReducer|
            offered(r, items, end) && #[trigger] end.yields(out);
        lemma_sample_offered(r, items, end, key);
    }
    assert forall|r: SumReducer<Reservoir, Reservoir>, outs: Seq<Reservoir>, out: Reservoir|
        Lowering(b).makes(r) && #[trigger] reduces(r, outs, out) implies occurrences(
        sample_items(out),
        key,
    ) <= merged_a::<Held>(Held(key), outs) by {
        let end = choose|end: SumReducer<Reservoir, Reservoir>|
            offered(r, outs, end) && #[trigger] end.yields(out);
        lemma_merged_holds(r, outs, end, key);
    }
    assert forall|outs: Seq<Reservoir>, out: Reservoir| #[trigger]
        reduces(c, outs, out) implies occurrences(sample_items(out), key) <= merged_a::<Held>(
        Held(key),
        outs,
    ) && occurrences(sample_items(out), key) <= merged_b::<Held>(Held(key), outs) by {
        let end = choose|end: SumReducer<Reservoir, Reservoir>|
            offered(c, outs, end) && #[trigger] end.yields(out);
        lemma_merged_holds(c, outs, end, key);
    }
}

/// A sample drawn on a pool of processes holds no item more often than the
/// stream hands it out, whatever the number of processes and of threads and
/// whatever the chance: it is made of items of the stream, each taken at most
/// once.
pub proof fn lemma_sample_on_pool<T: StreamTask<Item = u64>>(
    tasks: Seq<T>,
    processes: int,
    threads: int,
    samples: usize,
    out: Reservoir,
    key: u64,
)
    requires
        dist_pipe_reduces(
            tasks,
            processes,
            threads,
            SampleUnstable::<Identity>::of(Identity, samples),
            out,
        ),
    ensures
        occurrences(sample_items(out), key) <= occurrences(tasks_items(tasks), key),
{
    let sink = SampleUnstable::<Identity>::of(Identity, samples);
    let (pipe, a, b, c) = choose|
        pipe: Identity,
        a: SampleUnstableReduceFactory<u64>,
        b: SumReducerFactory<Reservoir, Reservoir>,
        c: SumReducer<Reservoir, Reservoir>,
    | #[trigger]
        DistributedSink::<u64>::splits(sink, pipe, a, b, c) && dist_reduces(
            connected::<T, u64, Identity>(tasks, pipe),
            processes,
            threads,
            Lowering(a),
            Lowering(b),
            c.lowered(),
            out,
        );
    lemma_sample_bounded(a, b, c, key);
    lemma_dist_within::<
        Held,
        ConnectTask<T, IdentityTask>,
        Lowering<SampleUnstableReduceFactory<u64>>,
        Lowering<SumReducerFactory<Reservoir, Reservoir>>,
        SumReducer<Reservoir, Reservoir>,
    >(
        Held(key),
        connected::<T, u64, Identity>(tasks, pipe),
        processes,
        threads,
        Lowering(a),
        Lowering(b),
        c.lowered(),
        out,
    );
    lemma_connected_identity(tasks);
}

/// A sample drawn on the threads of one process holds no item more often than
/// the stream hands it out.
pub proof fn lemma_sample_on_threads<T: StreamTask<Item = u64>>(
    tasks: Seq<T>,
    threads: int,
    samples: usize,
    out: Reservoir,
    key: u64,
)
    requires
        par_pipe_reduces(tasks, threads, SampleUnstable::<Identity>::of(Identity, samples), out),
    ensures
        occurrences(sample_items(out), key) <= occurrences(tasks_items(tasks), key),
{
    let sink = SampleUnstable::<Identity>::of(Identity, samples);
    let (pipe, a, c) = choose|
        pipe: Identity,
        a: SampleUnstableReduceFactory<u64>,
        c: SumReducer<Reservoir, Reservoir>,
    | #[trigger]
        ParallelSink::<u64>::splits(sink, pipe, a, c) && par_reduces(
            connected::<T, u64, Identity>(tasks, pipe),
            threads,
            Lowering(a),
            c.lowered(),
            out,
        );
    let b: SumReducerFactory<Reservoir, Reservoir> = arbitrary();
    lemma_sample_bounded(a, b, c, key);
    lemma_par_within::<
        Held,
        ConnectTask<T, IdentityTask>,
        Lowering<SampleUnstableReduceFactory<u64>>,
        SumReducer<Reservoir, Reservoir>,
    >(
        Held(key),
        connected::<T, u64, Identity>(tasks, pipe),
        threads,
        Lowering(a),
        c.lowered(),
        out,
    );
    lemma_connected_identity(tasks);
}

/// Whether a reservoir is one for `samples` items that holds no more, or one
/// that was made to hold nothing and has visited nothing.
pub open spec fn sized(samples: usize, reservoir: Reservoir) -> bool {
    ||| sample_capacity(reservoir) == samples && sample_items(reservoir).len() <= samples
    ||| reservoir.is_zero()
}

/// The number of items visited, by reservoirs for `.0` items: in a run of
/// items it is the length of the run, in such a reservoir the number of items
/// that it has visited; any other reservoir has no value. A value is within
/// another if the other is no value, or the same.
pub struct Visited(pub usize);

impl Tally for Visited {
    type Item = u64;

    type Value = Option<int>;

    type A = Reservoir;

    type B = Reservoir;

    type C = Reservoir;

    open spec fn lawful(&self) -> bool {
        true
    }

    open spec fn of(&self, items: Seq<u64>) -> Option<int> {
        Some(items.len() as int)
    }

    open spec fn merge(&self, a: Option<int>, b: Option<int>) -> Option<int> {
        match (a, b) {
            (Some(m), Some(n)) => Some(m + n),
            _ => None,
        }
    }

    open spec fn of_a(&self, out: Reservoir) -> Option<int> {
        if sized(self.0, out) {
            Some(sample_seen(out) as int)
        } else {
            None
        }
    }

    open spec fn of_b(&self, out: Reservoir) -> Option<int> {
        self.of_a(out)
    }

    open spec fn of_c(&self, out: Reservoir) -> Option<int> {
        self.of_a(out)
    }

    proof fn lemma_of_concat(&self, first: Seq<u64>, second: Seq<u64>) {
    }

    proof fn lemma_merge_commutes(&self, a: Option<int>, b: Option<int>) {
    }

    proof fn lemma_merge_associates(&self, a: Option<int>, b: Option<int>, c: Option<int>) {
    }

    proof fn lemma_merge_none(&self, a: Option<int>) {
    }

    open spec fn within(&self, a: Option<int>, b: Option<int>) -> bool {
        b is None || a == b
    }

    proof fn lemma_within_itself(&self, a: Option<int>) {
    }

    proof fn lemma_within_chain(&self, a: Option<int>, b: Option<int>, c: Option<int>) {
    }

    proof fn lemma_merge_within(
        &self,
        a: Option<int>,
        b: Option<int>,
        c: Option<int>,
        d: Option<int>,
    ) {
    }
}

/// A reducer that merges reservoirs for `samples` items into one of them has
/// visited what it had visited before and what they have visited.
pub proof fn lemma_merged_visited(
    start: SumReducer<Reservoir, Reservoir>,
    outs: Seq<Reservoir>,
    end: SumReducer<Reservoir, Reservoir>,
    samples: usize,
)
    requires
        samples > 0,
        sized(samples, start.0),
        offered(start, outs, end),
        merged_a::<Visited>(Visited(samples), outs) is Some,
    ensures
        merged_b::<Visited>(Visited(samples), outs) == merged_a::<Visited>(Visited(samples), outs),
        sized(samples, end.0),
        sample_seen(end.0) == sample_seen(start.0) + merged_a::<Visited>(Visited(samples), outs)->0,
    decreases outs.len(),
{
    if outs.len() > 0 {
        let mid = choose|mid: SumReducer<Reservoir, Reservoir>|
            offered(start, outs.drop_last(), mid) && #[trigger] moved(mid, outs.last(), end);
        lemma_merged_visited(start, outs.drop_last(), mid, samples);
        assert(merges_into(mid.0, outs.last(), end.0));
    }
}

/// The reducers of every level of a sample of at least one item have visited
/// what the reducers that they were handed have visited, and hold no more
/// than was asked for.
pub proof fn lemma_sample_visited(
    a: SampleUnstableReduceFactory<u64>,
    b: SumReducerFactory<Reservoir, Reservoir>,
    c: SumReducer<Reservoir, Reservoir>,
)
    requires
        a.0 > 0,
        sample_items(c.0) == Seq::<u64>::empty(),
        sample_seen(c.0) == 0,
        sample_capacity(c.0) == a.0,
    ensures
        bounded_a::<Visited, Lowering<SampleUnstableReduceFactory<u64>>>(Visited(a.0), Lowering(a)),
        bounded_b::<Visited, Lowering<SumReducerFactory<Reservoir, Reservoir>>>(
            Visited(a.0),
            Lowering(b),
        ),
        bounded_c::<Visited, SumReducer<Reservoir, Reservoir>>(Visited(a.0), c),
        bounded_top::<Visited, SumReducer<Reservoir, Reservoir>>(Visited(a.0), c),
{
    let tally = Visited(a.0);
    assert forall|r: SampleUnstableReducer, items: Seq<u64>, out: Reservoir|
        Lowering(a).makes(r) && #[trigger] reduces(r, items, out) implies tally.within(
        tally.of_a(out),
        tally.of(items),
    ) by {
        let end = choose|end: SampleUnstableReducer|
            offered(r, items, end) && #[trigger] end.yields(out);
        lemma_sample_offered(r, items, end, 0);
    }
    assert forall|r: SumReducer<Reservoir, Reservoir>, outs: Seq<Reservoir>, out: Reservoir|
        Lowering(b).makes(r) && #[trigger] reduces(r, outs, out) implies tally.within(
        tally.of_b(out),
        merged_a::<Visited>(tally, outs),
    ) by {
        let end = choose|end: SumReducer<Reservoir, Reservoir>|
            offered(r, outs, end) && #[trigger] end.yields(out);
        if merged_a::<Visited>(tally, outs) is Some {
            lemma_merged_visited(r, outs, end, a.0);
        }
    }
    assert forall|outs: Seq<Reservoir>, out: Reservoir| #[trigger]
        reduces(
            c,
            outs,
            out,
        ) implies tally.within(tally.of_c(out), merged_b::<Visited>(tally, outs))
        && tally.within(tally.of_b(out), merged_a::<Visited>(tally, outs)) by {
        let end = choose|end: SumReducer<Reservoir, Reservoir>|
            offered(c, outs, end) && #[trigger] end.yields(out);
        lemma_merged_same(tally, outs);
        if merged_a::<Visited>(tally, outs) is Some {
            lemma_merged_visited(c, outs, end, a.0);
        }
    }
}

/// The merge of the values of reservoirs is the same on every level.
pub proof fn lemma_merged_same(tally: Visited, outs: Seq<Reservoir>)
    ensures
        merged_b::<Visited>(tally, outs) == merged_a::<Visited>(tally, outs),
    decreases outs.len(),
{
    if outs.len() > 0 {
        lemma_merged_same(tally, outs.drop_last());
    }
}

/// A sample of at least one item, drawn on a pool of processes, has visited
/// every item of the stream and holds no more items than were asked for,
/// whatever the number of processes and of threads and whatever the chance.
pub proof fn lemma_sample_size_on_pool<T: StreamTask<Item = u64>>(
    tasks: Seq<T>,
    processes: int,
    threads: int,
    samples: usize,
    out: Reservoir,
)
    requires
        samples > 0,
        dist_pipe_reduces(
            tasks,
            processes,
            threads,
            SampleUnstable::<Identity>::of(Identity, samples),
            out,
        ),
    ensures
        sample_seen(out) == tasks_items(tasks).len(),
        sample_items(out).len() <= samples,
{
    let sink = SampleUnstable::<Identity>::of(Identity, samples);
    let (pipe, a, b, c) = choose|
        pipe: Identity,
        a: SampleUnstableReduceFactory<u64>,
        b: SumReducerFactory<Reservoir, Reservoir>,
        c: SumReducer<Reservoir, Reservoir>,
    | #[trigger]
        DistributedSink::<u64>::splits(sink, pipe, a, b, c) && dist_reduces(
            connected::<T, u64, Identity>(tasks, pipe),
            processes,
            threads,
            Lowering(a),
            Lowering(b),
            c.lowered(),
            out,
        );
    lemma_sample_visited(a, b, c);
    lemma_dist_within::<
        Visited,
        ConnectTask<T, IdentityTask>,
        Lowering<SampleUnstableReduceFactory<u64>>,
        Lowering<SumReducerFactory<Reservoir, Reservoir>>,
        SumReducer<Reservoir, Reservoir>,
    >(
        Visited(samples),
        connected::<T, u64, Identity>(tasks, pipe),
        processes,
        threads,
        Lowering(a),
        Lowering(b),
        c.lowered(),
        out,
    );
    lemma_connected_identity(tasks);
}

/// A sample of at least one item, drawn on the threads of one process, has
/// visited every item of the stream and holds no more items than were asked
/// for.
pub proof fn lemma_sample_size_on_threads<T: StreamTask<Item = u64>>(
    tasks: Seq<T>,
    threads: int,
    samples: usize,
    out: Reservoir,
)
    requires
        samples > 0,
        par_pipe_reduces(tasks, threads, SampleUnstable::<Identity>::of(Identity, samples), out),
    ensures
        sample_seen(out) == tasks_items(tasks).len(),
        sample_items(out).len() <= samples,
{
    let sink = SampleUnstable::<Identity>::of(Identity, samples);
    let (pipe, a, c) = choose|
        pipe: Identity,
        a: SampleUnstableReduceFactory<u64>,
        c: SumReducer<Reservoir, Reservoir>,
    | #[trigger]
        ParallelSink::<u64>::splits(sink, pipe, a, c) && par_reduces(
            connected::<T, u64, Identity>(tasks, pipe),
            threads,
            Lowering(a),
            c.lowered(),
            out,
        );
    let b: SumReducerFactory<Reservoir, Reservoir> = arbitrary();
    lemma_sample_visited(a, b, c);
    lemma_par_within::<
        Visited,
        ConnectTask<T, IdentityTask>,
        Lowering<SampleUnstableReduceFactory<u64>>,
        SumReducer<Reservoir, Reservoir>,
    >(
        Visited(samples),
        connected::<T, u64, Identity>(tasks, pipe),
        threads,
        Lowering(a),
        c.lowered(),
        out,
    );
    lemma_connected_identity(tasks);
}

} // verus!
