//! Why the result of a reduction does not depend on the pool.
//!
//! Where what the reducers compute is a tally, a value of a run of items that
//! can be had from the values of the run's pieces, merged in any order, the
//! tree of reducers gives the tally of all the items, however many processes
//! and threads there are and however the tasks are dealt to them.

use vstd::prelude::*;
use crate::par_sink::{reduces, Factory, ReducerAsync};
use crate::par_stream::partition::{dealt, on_top};
use crate::par_stream::reduce::{
    bins_reduce, dist_reduces, evenly_dealt, par_reduces, procs_reduce, tasks_items,
};
use crate::par_stream::StreamTask;

verus! {

/// A value of runs of items that can be had piece by piece: the value of two
/// runs together is the merge of the values of each, and merging neither
/// depends on the order of the pieces nor on how they are grouped.
///
/// `A`, `B` and `C` are the outputs of the reducers of the three levels, each
/// read as a value.
pub trait Tally: Sized {
    type Item;

    type Value;

    type A;

    type B;

    type C;

    /// Whether this is a tally: whether the laws below hold of it.
    spec fn lawful(&self) -> bool;

    /// The value of a run of items.
    spec fn of(&self, items: Seq<Self::Item>) -> Self::Value;

    /// The value of two pieces together.
    spec fn merge(&self, a: Self::Value, b: Self::Value) -> Self::Value;

    /// The value that an output of the first level stands for.
    spec fn of_a(&self, out: Self::A) -> Self::Value;

    /// The value that an output of the second level stands for.
    spec fn of_b(&self, out: Self::B) -> Self::Value;

    /// The value that an output of the third level stands for.
    spec fn of_c(&self, out: Self::C) -> Self::Value;

    proof fn lemma_of_concat(&self, first: Seq<Self::Item>, second: Seq<Self::Item>)
        requires
            self.lawful(),
        ensures
            self.of(first + second) == self.merge(self.of(first), self.of(second)),
    ;

    proof fn lemma_merge_commutes(&self, a: Self::Value, b: Self::Value)
        requires
            self.lawful(),
        ensures
            self.merge(a, b) == self.merge(b, a),
    ;

    proof fn lemma_merge_associates(&self, a: Self::Value, b: Self::Value, c: Self::Value)
        requires
            self.lawful(),
        ensures
            self.merge(self.merge(a, b), c) == self.merge(a, self.merge(b, c)),
    ;

    proof fn lemma_merge_none(&self, a: Self::Value)
        requires
            self.lawful(),
        ensures
            self.merge(a, self.of(Seq::empty())) == a,
    ;

    /// Whether the value `a` is within the value `b`. Where values are only
    /// ever compared for being the same, this is being the same.
    spec fn within(&self, a: Self::Value, b: Self::Value) -> bool;

    proof fn lemma_within_itself(&self, a: Self::Value)
        requires
            self.lawful(),
        ensures
            self.within(a, a),
    ;

    proof fn lemma_within_chain(&self, a: Self::Value, b: Self::Value, c: Self::Value)
        requires
            self.lawful(),
            self.within(a, b),
            self.within(b, c),
        ensures
            self.within(a, c),
    ;

    proof fn lemma_merge_within(
        &self,
        a: Self::Value,
        b: Self::Value,
        c: Self::Value,
        d: Self::Value,
    )
        requires
            self.lawful(),
            self.within(a, c),
            self.within(b, d),
        ensures
            self.within(self.merge(a, b), self.merge(c, d)),
    ;
}

/// The merge of the values that the outputs of the first level stand for.
pub open spec fn merged_a<L: Tally>(tally: L, outs: Seq<L::A>) -> L::Value
    decreases outs.len(),
{
    if outs.len() == 0 {
        tally.of(Seq::empty())
    } else {
        tally.merge(merged_a::<L>(tally, outs.drop_last()), tally.of_a(outs.last()))
    }
}

/// The merge of the values that the outputs of the second level stand for.
pub open spec fn merged_b<L: Tally>(tally: L, outs: Seq<L::B>) -> L::Value
    decreases outs.len(),
{
    if outs.len() == 0 {
        tally.of(Seq::empty())
    } else {
        tally.merge(merged_b::<L>(tally, outs.drop_last()), tally.of_b(outs.last()))
    }
}

/// The merge of the values of the items of the first `k` bins.
pub open spec fn bins_tally<L: Tally, T: StreamTask<Item = L::Item>>(
    tally: L,
    bins: Seq<Seq<T>>,
    k: int,
) -> L::Value
    decreases k,
{
    if k <= 0 {
        tally.of(Seq::empty())
    } else {
        tally.merge(bins_tally::<L, T>(tally, bins, k - 1), tally.of(tasks_items(bins[k - 1])))
    }
}

/// Whether the reducers of `factory` give the value of their items.
pub open spec fn exact_a<L: Tally, F: Factory>(tally: L, factory: F) -> bool where
    F::Item: ReducerAsync<Item = L::Item, Output = L::A>,
 {
    forall|r: F::Item, items: Seq<L::Item>, out: L::A|
        factory.makes(r) && #[trigger] reduces(r, items, out) ==> tally.of_a(out) == tally.of(items)
}

/// Whether the reducers of `factory` give the merge of the values of the
/// outputs of the first level that they are handed.
pub open spec fn exact_b<L: Tally, F: Factory>(tally: L, factory: F) -> bool where
    F::Item: ReducerAsync<Item = L::A, Output = L::B>,
 {
    forall|r: F::Item, outs: Seq<L::A>, out: L::B|
        factory.makes(r) && #[trigger] reduces(
            r,
            outs,
            out,
        ) ==> tally.of_b(out) == merged_a::<L>(tally, outs)
}

/// Whether `reducer` gives the merge of the values of the outputs of the
/// second level that it is handed.
pub open spec fn exact_c<L: Tally, C: ReducerAsync<Item = L::B, Output = L::C>>(
    tally: L,
    reducer: C,
) -> bool {
    forall|outs: Seq<L::B>, out: L::C| #[trigger]
        reduces(reducer, outs, out) ==> tally.of_c(out) == merged_b::<L>(tally, outs)
}

/// Whether `reducer`, on the threads' outputs, gives the merge of their
/// values: the last level of a reduction on the threads of one process.
pub open spec fn exact_top<L: Tally, C: ReducerAsync<Item = L::A, Output = L::B>>(
    tally: L,
    reducer: C,
) -> bool {
    forall|outs: Seq<L::A>, out: L::B| #[trigger]
        reduces(reducer, outs, out) ==> tally.of_b(out) == merged_a::<L>(tally, outs)
}

proof fn lemma_bins_tally_same<L: Tally, T: StreamTask<Item = L::Item>>(
    tally: L,
    bins: Seq<Seq<T>>,
    others: Seq<Seq<T>>,
    k: int,
)
    requires
        tally.lawful(),
        0 <= k <= bins.len(),
        k <= others.len(),
        forall|i: int| 0 <= i < k ==> bins[i] == others[i],
    ensures
        bins_tally::<L, T>(tally, bins, k) == bins_tally::<L, T>(tally, others, k),
    decreases k,
{
    if k > 0 {
        lemma_bins_tally_same::<L, T>(tally, bins, others, k - 1);
    }
}

/// Bins without tasks have the value of no items.
proof fn lemma_bins_tally_empty<L: Tally, T: StreamTask<Item = L::Item>>(
    tally: L,
    bins: Seq<Seq<T>>,
    k: int,
)
    requires
        tally.lawful(),
        0 <= k <= bins.len(),
        forall|i: int| 0 <= i < bins.len() ==> (#[trigger] bins[i]).len() == 0,
    ensures
        bins_tally::<L, T>(tally, bins, k) == tally.of(Seq::empty()),
    decreases k,
{
    if k > 0 {
        lemma_bins_tally_empty::<L, T>(tally, bins, k - 1);
        assert(bins[k - 1].len() == 0);
        assert(tasks_items(bins[k - 1]) =~= Seq::<L::Item>::empty());
        tally.lemma_merge_none(tally.of(Seq::empty()));
    }
}

/// One task more on bin `j` merges the value of its items into the value of
/// the first `k` bins, if bin `j` is among them.
proof fn lemma_bins_tally_push<L: Tally, T: StreamTask<Item = L::Item>>(
    tally: L,
    bins: Seq<Seq<T>>,
    j: int,
    task: T,
    k: int,
)
    requires
        tally.lawful(),
        0 <= j < bins.len(),
        0 <= k <= bins.len(),
    ensures
        bins_tally::<L, T>(tally, bins.update(j, bins[j].push(task)), k) == if j < k {
            tally.merge(bins_tally::<L, T>(tally, bins, k), tally.of(task.items()))
        } else {
            bins_tally::<L, T>(tally, bins, k)
        },
    decreases k,
{
    let more = bins.update(j, bins[j].push(task));
    if k > 0 {
        lemma_bins_tally_push::<L, T>(tally, bins, j, task, k - 1);
        let before = bins_tally::<L, T>(tally, bins, k - 1);
        let here = tally.of(tasks_items(bins[k - 1]));
        let extra = tally.of(task.items());
        if j == k - 1 {
            assert(more[j].drop_last() =~= bins[j]);
            assert(tasks_items(more[j]) == tasks_items(bins[j]) + task.items());
            tally.lemma_of_concat(tasks_items(bins[j]), task.items());
            tally.lemma_merge_associates(before, here, extra);
        } else if j < k - 1 {
            assert(more[k - 1] == bins[k - 1]);
            tally.lemma_merge_associates(before, extra, here);
            tally.lemma_merge_commutes(extra, here);
            tally.lemma_merge_associates(before, here, extra);
        } else {
            assert(more[k - 1] == bins[k - 1]);
        }
    }
}

/// However tasks are dealt to bins, the merge of the values of the bins is
/// the value of all the items.
pub proof fn lemma_dealt_tally<L: Tally, T: StreamTask<Item = L::Item>>(
    tally: L,
    tasks: Seq<T>,
    bins: Seq<Seq<T>>,
)
    requires
        tally.lawful(),
        dealt(tasks, bins),
    ensures
        bins_tally::<L, T>(tally, bins, bins.len() as int) == tally.of(tasks_items(tasks)),
    decreases tasks.len(),
{
    if tasks.len() == 0 {
        lemma_bins_tally_empty::<L, T>(tally, bins, bins.len() as int);
    } else {
        let j = choose|j: int| #[trigger]
            on_top(bins, j, tasks.last()) && dealt(
                tasks.drop_last(),
                bins.update(j, bins[j].drop_last()),
            );
        let before = bins.update(j, bins[j].drop_last());
        lemma_dealt_tally::<L, T>(tally, tasks.drop_last(), before);
        lemma_bins_tally_push::<L, T>(tally, before, j, tasks.last(), bins.len() as int);
        assert(before[j].push(tasks.last()) =~= bins[j]);
        assert(before.update(j, before[j].push(tasks.last())) =~= bins);
        tally.lemma_of_concat(tasks_items(tasks.drop_last()), tasks.last().items());
    }
}

/// The outputs of workers whose reducers give the value of their items stand
/// for the values of the bins.
pub proof fn lemma_bins_reduce_tally<L: Tally, T: StreamTask<Item = L::Item>, F: Factory>(
    tally: L,
    factory: F,
    bins: Seq<Seq<T>>,
    outs: Seq<L::A>,
)
    where F::Item: ReducerAsync<Item = L::Item, Output = L::A>
    requires
        tally.lawful(),
        bins_reduce(factory, bins, outs),
        exact_a::<L, F>(tally, factory),
    ensures
        merged_a::<L>(tally, outs) == bins_tally::<L, T>(tally, bins, bins.len() as int),
    decreases bins.len(),
{
    if bins.len() > 0 {
        let k = bins.len() as int;
        lemma_bins_tally_same::<L, T>(tally, bins, bins.drop_last(), k - 1);
        if bins.last().len() == 0 {
            lemma_bins_reduce_tally::<L, T, F>(tally, factory, bins.drop_last(), outs);
            assert(tasks_items(bins[k - 1]) =~= Seq::<L::Item>::empty());
            tally.lemma_merge_none(bins_tally::<L, T>(tally, bins, k - 1));
        } else {
            lemma_bins_reduce_tally::<L, T, F>(tally, factory, bins.drop_last(), outs.drop_last());
            let r = choose|r: F::Item| #[trigger]
                factory.makes(r) && reduces(r, tasks_items(bins.last()), outs.last());
            assert(reduces(r, tasks_items(bins.last()), outs.last()));
        }
    }
}

/// On the threads of one process, reducers that give the value of what they
/// are handed give the value of all the items, whatever the number of
/// threads.
pub proof fn lemma_par_tally<L: Tally, T: StreamTask<Item = L::Item>, F: Factory, C: ReducerAsync>(
    tally: L,
    tasks: Seq<T>,
    threads: int,
    factory: F,
    reduce_c: C,
    out: L::B,
)
    where
        F::Item: ReducerAsync<Item = L::Item, Output = L::A>,
        C: ReducerAsync<Item = L::A, Output = L::B>,

    requires
        tally.lawful(),
        par_reduces(tasks, threads, factory, reduce_c, out),
        exact_a::<L, F>(tally, factory),
        exact_top::<L, C>(tally, reduce_c),
    ensures
        tally.of_b(out) == tally.of(tasks_items(tasks)),
{
    let (bins, outs) = choose|bins: Seq<Seq<T>>, outs: Seq<L::A>|
        evenly_dealt(tasks, threads, bins) && #[trigger] bins_reduce(factory, bins, outs)
            && reduces(reduce_c, outs, out);
    lemma_bins_reduce_tally::<L, T, F>(tally, factory, bins, outs);
    lemma_dealt_tally::<L, T>(tally, tasks, bins);
    assert(reduces(reduce_c, outs, out));
}

/// The outputs of processes whose reducers give the value of what they are
/// handed stand for the values of the bins.
pub proof fn lemma_procs_reduce_tally<
    L: Tally,
    T: StreamTask<Item = L::Item>,
    FA: Factory,
    FB: Factory,
>(tally: L, factory_a: FA, factory_b: FB, threads: int, bins: Seq<Seq<T>>, outs: Seq<L::B>)
    where
        FA::Item: ReducerAsync<Item = L::Item, Output = L::A>,
        FB::Item: ReducerAsync<Item = L::A, Output = L::B>,

    requires
        tally.lawful(),
        procs_reduce(factory_a, factory_b, threads, bins, outs),
        exact_a::<L, FA>(tally, factory_a),
        exact_b::<L, FB>(tally, factory_b),
    ensures
        merged_b::<L>(tally, outs) == bins_tally::<L, T>(tally, bins, bins.len() as int),
    decreases bins.len(),
{
    if bins.len() > 0 {
        let k = bins.len() as int;
        lemma_bins_tally_same::<L, T>(tally, bins, bins.drop_last(), k - 1);
        if bins.last().len() == 0 {
            lemma_procs_reduce_tally::<L, T, FA, FB>(
                tally,
                factory_a,
                factory_b,
                threads,
                bins.drop_last(),
                outs,
            );
            assert(tasks_items(bins[k - 1]) =~= Seq::<L::Item>::empty());
            tally.lemma_merge_none(bins_tally::<L, T>(tally, bins, k - 1));
        } else {
            lemma_procs_reduce_tally::<L, T, FA, FB>(
                tally,
                factory_a,
                factory_b,
                threads,
                bins.drop_last(),
                outs.drop_last(),
            );
            let reduce_b = choose|reduce_b: FB::Item| #[trigger]
                factory_b.makes(reduce_b) && par_reduces(
                    bins.last(),
                    threads,
                    factory_a,
                    reduce_b,
                    outs.last(),
                );
            assert forall|oas: Seq<L::A>, ob: L::B| #[trigger]
                reduces(reduce_b, oas, ob) implies tally.of_b(ob) == merged_a::<L>(tally, oas) by {}
            lemma_par_tally::<L, T, FA, FB::Item>(
                tally,
                bins.last(),
                threads,
                factory_a,
                reduce_b,
                outs.last(),
            );
        }
    }
}

/// On a pool of processes, reducers that give the value of what they are
/// handed give the value of all the items, whatever the number of processes
/// and of threads.
pub proof fn lemma_dist_tally<
    L: Tally,
    T: StreamTask<Item = L::Item>,
    FA: Factory,
    FB: Factory,
    C: ReducerAsync,
>(
    tally: L,
    tasks: Seq<T>,
    processes: int,
    threads: int,
    factory_a: FA,
    factory_b: FB,
    reduce_c: C,
    out: L::C,
)
    where
        FA::Item: ReducerAsync<Item = L::Item, Output = L::A>,
        FB::Item: ReducerAsync<Item = L::A, Output = L::B>,
        C: ReducerAsync<Item = L::B, Output = L::C>,

    requires
        tally.lawful(),
        dist_reduces(tasks, processes, threads, factory_a, factory_b, reduce_c, out),
        exact_a::<L, FA>(tally, factory_a),
        exact_b::<L, FB>(tally, factory_b),
        exact_c::<L, C>(tally, reduce_c),
    ensures
        tally.of_c(out) == tally.of(tasks_items(tasks)),
{
    let (bins, outs) = choose|bins: Seq<Seq<T>>, outs: Seq<L::B>|
        evenly_dealt(tasks, processes, bins) && #[trigger] procs_reduce(
            factory_a,
            factory_b,
            threads,
            bins,
            outs,
        ) && reduces(reduce_c, outs, out);
    lemma_procs_reduce_tally::<L, T, FA, FB>(tally, factory_a, factory_b, threads, bins, outs);
    lemma_dealt_tally::<L, T>(tally, tasks, bins);
    assert(reduces(reduce_c, outs, out));
}

/// Whether what the reducers of `factory` give is within the value of their
/// items.
pub open spec fn bounded_a<L: Tally, F: Factory>(tally: L, factory: F) -> bool where
    F::Item: ReducerAsync<Item = L::Item, Output = L::A>,
 {
    forall|r: F::Item, items: Seq<L::Item>, out: L::A|
        factory.makes(r) && #[trigger] reduces(r, items, out) ==> tally.within(
            tally.of_a(out),
            tally.of(items),
        )
}

/// Whether what the reducers of `factory` give is within the merge of the
/// values of the outputs of the first level that they are handed.
pub open spec fn bounded_b<L: Tally, F: Factory>(tally: L, factory: F) -> bool where
    F::Item: ReducerAsync<Item = L::A, Output = L::B>,
 {
    forall|r: F::Item, outs: Seq<L::A>, out: L::B|
        factory.makes(r) && #[trigger] reduces(r, outs, out) ==> tally.within(
            tally.of_b(out),
            merged_a::<L>(tally, outs),
        )
}

/// Whether what `reducer` gives is within the merge of the values of the
/// outputs of the second level that it is handed.
pub open spec fn bounded_c<L: Tally, C: ReducerAsync<Item = L::B, Output = L::C>>(
    tally: L,
    reducer: C,
) -> bool {
    forall|outs: Seq<L::B>, out: L::C| #[trigger]
        reduces(reducer, outs, out) ==> tally.within(tally.of_c(out), merged_b::<L>(tally, outs))
}

/// Whether what `reducer` gives, on the threads' outputs, is within the merge
/// of their values.
pub open spec fn bounded_top<L: Tally, C: ReducerAsync<Item = L::A, Output = L::B>>(
    tally: L,
    reducer: C,
) -> bool {
    forall|outs: Seq<L::A>, out: L::B| #[trigger]
        reduces(reducer, outs, out) ==> tally.within(tally.of_b(out), merged_a::<L>(tally, outs))
}

/// The outputs of workers whose reducers stay within the value of their items
/// stand for values within those of the bins.
pub proof fn lemma_bins_reduce_within<L: Tally, T: StreamTask<Item = L::Item>, F: Factory>(
    tally: L,
    factory: F,
    bins: Seq<Seq<T>>,
    outs: Seq<L::A>,
)
    where F::Item: ReducerAsync<Item = L::Item, Output = L::A>
    requires
        tally.lawful(),
        bins_reduce(factory, bins, outs),
        bounded_a::<L, F>(tally, factory),
    ensures
        tally.within(
            merged_a::<L>(tally, outs),
            bins_tally::<L, T>(tally, bins, bins.len() as int),
        ),
    decreases bins.len(),
{
    if bins.len() > 0 {
        let k = bins.len() as int;
        lemma_bins_tally_same::<L, T>(tally, bins, bins.drop_last(), k - 1);
        if bins.last().len() == 0 {
            lemma_bins_reduce_within::<L, T, F>(tally, factory, bins.drop_last(), outs);
            assert(tasks_items(bins[k - 1]) =~= Seq::<L::Item>::empty());
            tally.lemma_merge_none(bins_tally::<L, T>(tally, bins, k - 1));
        } else {
            lemma_bins_reduce_within::<L, T, F>(tally, factory, bins.drop_last(), outs.drop_last());
            let r = choose|r: F::Item| #[trigger]
                factory.makes(r) && reduces(r, tasks_items(bins.last()), outs.last());
            assert(reduces(r, tasks_items(bins.last()), outs.last()));
            tally.lemma_merge_within(
                merged_a::<L>(tally, outs.drop_last()),
                tally.of_a(outs.last()),
                bins_tally::<L, T>(tally, bins, k - 1),
                tally.of(tasks_items(bins.last())),
            );
        }
    } else {
        tally.lemma_within_itself(tally.of(Seq::empty()));
    }
}

/// On the threads of one process, reducers that stay within the value of what
/// they are handed give a value within that of all the items, whatever the
/// number of threads.
pub proof fn lemma_par_within<L: Tally, T: StreamTask<Item = L::Item>, F: Factory, C: ReducerAsync>(
    tally: L,
    tasks: Seq<T>,
    threads: int,
    factory: F,
    reduce_c: C,
    out: L::B,
)
    where
        F::Item: ReducerAsync<Item = L::Item, Output = L::A>,
        C: ReducerAsync<Item = L::A, Output = L::B>,

    requires
        tally.lawful(),
        par_reduces(tasks, threads, factory, reduce_c, out),
        bounded_a::<L, F>(tally, factory),
        bounded_top::<L, C>(tally, reduce_c),
    ensures
        tally.within(tally.of_b(out), tally.of(tasks_items(tasks))),
{
    let (bins, outs) = choose|bins: Seq<Seq<T>>, outs: Seq<L::A>|
        evenly_dealt(tasks, threads, bins) && #[trigger] bins_reduce(factory, bins, outs)
            && reduces(reduce_c, outs, out);
    lemma_bins_reduce_within::<L, T, F>(tally, factory, bins, outs);
    lemma_dealt_tally::<L, T>(tally, tasks, bins);
    assert(reduces(reduce_c, outs, out));
    tally.lemma_within_chain(
        tally.of_b(out),
        merged_a::<L>(tally, outs),
        tally.of(tasks_items(tasks)),
    );
}

/// The outputs of processes whose reducers stay within the value of what they
/// are handed stand for values within those of the bins.
pub proof fn lemma_procs_reduce_within<
    L: Tally,
    T: StreamTask<Item = L::Item>,
    FA: Factory,
    FB: Factory,
>(tally: L, factory_a: FA, factory_b: FB, threads: int, bins: Seq<Seq<T>>, outs: Seq<L::B>)
    where
        FA::Item: ReducerAsync<Item = L::Item, Output = L::A>,
        FB::Item: ReducerAsync<Item = L::A, Output = L::B>,

    requires
        tally.lawful(),
        procs_reduce(factory_a, factory_b, threads, bins, outs),
        bounded_a::<L, FA>(tally, factory_a),
        bounded_b::<L, FB>(tally, factory_b),
    ensures
        tally.within(
            merged_b::<L>(tally, outs),
            bins_tally::<L, T>(tally, bins, bins.len() as int),
        ),
    decreases bins.len(),
{
    if bins.len() > 0 {
        let k = bins.len() as int;
        lemma_bins_tally_same::<L, T>(tally, bins, bins.drop_last(), k - 1);
        if bins.last().len() == 0 {
            lemma_procs_reduce_within::<L, T, FA, FB>(
                tally,
                factory_a,
                factory_b,
                threads,
                bins.drop_last(),
                outs,
            );
            assert(tasks_items(bins[k - 1]) =~= Seq::<L::Item>::empty());
            tally.lemma_merge_none(bins_tally::<L, T>(tally, bins, k - 1));
        } else {
            lemma_procs_reduce_within::<L, T, FA, FB>(
                tally,
                factory_a,
                factory_b,
                threads,
                bins.drop_last(),
                outs.drop_last(),
            );
            let reduce_b = choose|reduce_b: FB::Item| #[trigger]
                factory_b.makes(reduce_b) && par_reduces(
                    bins.last(),
                    threads,
                    factory_a,
                    reduce_b,
                    outs.last(),
                );
            assert forall|oas: Seq<L::A>, ob: L::B| #[trigger]
                reduces(reduce_b, oas, ob) implies tally.within(
                tally.of_b(ob),
                merged_a::<L>(tally, oas),
            ) by {}
            lemma_par_within::<L, T, FA, FB::Item>(
                tally,
                bins.last(),
                threads,
                factory_a,
                reduce_b,
                outs.last(),
            );
            tally.lemma_merge_within(
                merged_b::<L>(tally, outs.drop_last()),
                tally.of_b(outs.last()),
                bins_tally::<L, T>(tally, bins, k - 1),
                tally.of(tasks_items(bins.last())),
            );
        }
    } else {
        tally.lemma_within_itself(tally.of(Seq::empty()));
    }
}

/// On a pool of processes, reducers that stay within the value of what they
/// are handed give a value within that of all the items, whatever the number
/// of processes and of threads.
pub proof fn lemma_dist_within<
    L: Tally,
    T: StreamTask<Item = L::Item>,
    FA: Factory,
    FB: Factory,
    C: ReducerAsync,
>(
    tally: L,
    tasks: Seq<T>,
    processes: int,
    threads: int,
    factory_a: FA,
    factory_b: FB,
    reduce_c: C,
    out: L::C,
)
    where
        FA::Item: ReducerAsync<Item = L::Item, Output = L::A>,
        FB::Item: ReducerAsync<Item = L::A, Output = L::B>,
        C: ReducerAsync<Item = L::B, Output = L::C>,

    requires
        tally.lawful(),
        dist_reduces(tasks, processes, threads, factory_a, factory_b, reduce_c, out),
        bounded_a::<L, FA>(tally, factory_a),
        bounded_b::<L, FB>(tally, factory_b),
        bounded_c::<L, C>(tally, reduce_c),
    ensures
        tally.within(tally.of_c(out), tally.of(tasks_items(tasks))),
{
    let (bins, outs) = choose|bins: Seq<Seq<T>>, outs: Seq<L::B>|
        evenly_dealt(tasks, processes, bins) && #[trigger] procs_reduce(
            factory_a,
            factory_b,
            threads,
            bins,
            outs,
        ) && reduces(reduce_c, outs, out);
    lemma_procs_reduce_within::<L, T, FA, FB>(tally, factory_a, factory_b, threads, bins, outs);
    lemma_dealt_tally::<L, T>(tally, tasks, bins);
    assert(reduces(reduce_c, outs, out));
    tally.lemma_within_chain(
        tally.of_c(out),
        merged_b::<L>(tally, outs),
        tally.of(tasks_items(tasks)),
    );
}

} // verus!
