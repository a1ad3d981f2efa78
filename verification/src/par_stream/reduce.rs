//! Running tasks through reducers: one reducer per thread, one per process
//! over the outputs of its threads, one on the driver over the outputs of
//! the processes.

use vstd::prelude::*;
use crate::par_sink::{reduces, runs_on, Factory, ReducerAsync};
use crate::par_stream::partition::{
    bins_view, dealt, lemma_dealt_member, lemma_share_at_most, partition, share,
};
use crate::par_stream::{TaskStream, StreamTask, StreamTaskAsync};
use crate::sink::{
    admits_all, lemma_admits_prefix, lemma_admits_rest, lemma_offered_closed, lemma_offered_concat,
    offered, Intake, Sink,
};
use crate::stream::{
    leaves, lemma_leaves_same, lemma_leaves_twice, lemma_taken_then_left, reversed, taken, Poll,
    Scripted, Stream,
};

verus! {

/// The items of a run of tasks: the items of each task, one task after the
/// other.
pub open spec fn tasks_items<T: StreamTask>(tasks: Seq<T>) -> Seq<T::Item>
    decreases tasks.len(),
{
    if tasks.len() == 0 {
        Seq::empty()
    } else {
        tasks_items(tasks.drop_last()) + tasks.last().items()
    }
}

/// Whether every task of a run is well-formed.
pub open spec fn tasks_inv<T: StreamTask>(tasks: Seq<T>) -> bool {
    forall|i: int| 0 <= i < tasks.len() ==> (#[trigger] tasks[i]).inv()
}

/// The items of the first `k + 1` tasks are those of the first `k` followed
/// by those of task `k`.
pub proof fn lemma_tasks_items_next<T: StreamTask>(tasks: Seq<T>, k: int)
    requires
        0 <= k < tasks.len(),
    ensures
        tasks_items(tasks.take(k + 1)) == tasks_items(tasks.take(k)) + tasks[k].items(),
{
    assert(tasks.take(k + 1).drop_last() =~= tasks.take(k));
}

/// The items of two runs of tasks, one after the other.
pub proof fn lemma_tasks_items_concat<T: StreamTask>(first: Seq<T>, second: Seq<T>)
    ensures
        tasks_items(first + second) == tasks_items(first) + tasks_items(second),
    decreases second.len(),
{
    if second.len() == 0 {
        assert(first + second =~= first);
        assert(tasks_items(first) + tasks_items(second) =~= tasks_items(first));
    } else {
        lemma_tasks_items_concat(first, second.drop_last());
        assert((first + second).drop_last() =~= first + second.drop_last());
        assert(tasks_items(first + second) =~= tasks_items(first) + tasks_items(second));
    }
}

/// Runs `task` into `sink` until the task is exhausted or the sink wants no
/// more.
pub fn run_to_end<A: StreamTaskAsync, K: Sink<Item = A::Item>>(task: &mut A, sink: &mut K)
    requires
        old(task).inv(),
        old(sink).inv(),
        admits_all(*old(sink), old(task).rest()),
    ensures
        final(task).inv(),
        final(sink).inv(),
        leaves(old(task).rest(), final(task).rest()),
        offered(*old(sink), taken(old(task).rest(), final(task).rest()), *final(sink)),
        offered(*old(sink), old(task).rest(), *final(sink)),
        final(task).rest().len() == 0 || !final(sink).wants(),
{
    proof {
        lemma_leaves_same(task.rest());
    }
    loop
        invariant
            sink.inv(),
            task.inv(),
            admits_all(*old(sink), old(task).rest()),
            leaves(old(task).rest(), task.rest()),
            offered(*old(sink), taken(old(task).rest(), task.rest()), *sink),
        ensures
            sink.inv(),
            task.inv(),
            leaves(old(task).rest(), task.rest()),
            offered(*old(sink), taken(old(task).rest(), task.rest()), *sink),
            task.rest().len() == 0 || !sink.wants(),
        decreases task.stalls(),
    {
        let ghost sink_before = *sink;
        let ghost rest_before = task.rest();
        proof {
            lemma_taken_then_left(old(task).rest(), rest_before);
            lemma_admits_rest(
                *old(sink),
                taken(old(task).rest(), rest_before),
                sink_before,
                rest_before,
            );
        }
        let r = task.poll_run(sink);
        proof {
            lemma_leaves_twice(old(task).rest(), rest_before, task.rest());
            lemma_offered_concat(
                *old(sink),
                taken(old(task).rest(), rest_before),
                sink_before,
                taken(rest_before, task.rest()),
                *sink,
            );
        }
        if r.is_ready() {
            break ;
        }
    }
    proof {
        let whole = old(task).rest();
        lemma_taken_then_left(whole, task.rest());
        if task.rest().len() == 0 {
            assert(taken(whole, task.rest()) + task.rest() =~= taken(whole, task.rest()));
        } else {
            lemma_offered_closed(*sink, task.rest());
            lemma_offered_concat(*old(sink), taken(whole, task.rest()), *sink, task.rest(), *sink);
        }
    }
}

/// What one thread does: runs its tasks, in order, into its reducer and then
/// asks the reducer for its output.
pub fn run_tasks<T: StreamTask, R: ReducerAsync<Item = T::Item>>(tasks: Vec<T>, reducer: R) -> (out:
    R::Output)
    requires
        tasks_inv(tasks@),
        runs_on(reducer, tasks_items(tasks@)),
    ensures
        reduces(reducer, tasks_items(tasks@), out),
{
    let ghost start = reducer;
    let ghost whole = tasks@;
    let mut reducer = reducer;
    let mut queue = reversed(tasks);
    let ghost mut done: int = 0;
    proof {
        assert(whole.take(0) =~= Seq::<T>::empty());
        assert(whole.skip(0) =~= whole);
    }
    while queue.len() > 0
        invariant
            reducer.inv(),
            tasks_inv(whole),
            runs_on(start, tasks_items(whole)),
            0 <= done <= whole.len(),
            queue@ == whole.skip(done).reverse(),
            offered(start, tasks_items(whole.take(done)), reducer),
        decreases queue.len(),
    {
        let task = queue.pop().unwrap();
        proof {
            assert(whole.skip(done).reverse().last() == whole[done]);
            assert(queue@ =~= whole.skip(done + 1).reverse());
            lemma_tasks_items_next(whole, done);
            assert(whole =~= whole.take(done + 1) + whole.skip(done + 1));
            lemma_tasks_items_concat(whole.take(done + 1), whole.skip(done + 1));
            let before = tasks_items(whole.take(done));
            let here = whole[done].items();
            let after = tasks_items(whole.skip(done + 1));
            assert(tasks_items(whole) =~= before + (here + after));
            lemma_admits_rest(start, before, reducer, here + after);
            lemma_admits_prefix(reducer, here, after);
        }
        let ghost reducer_before = reducer;
        let mut running = task.into_async();
        run_to_end(&mut running, &mut reducer);
        proof {
            lemma_offered_concat(
                start,
                tasks_items(whole.take(done)),
                reducer_before,
                whole[done].items(),
                reducer,
            );
            done = done + 1;
        }
    }
    proof {
        assert(whole.take(whole.len() as int) =~= whole);
    }
    match reducer.poll_output() {
        Poll::Ready(out) => out,
        Poll::Pending => vstd::pervasive::unreached(),
    }
}

/// What the level above a set of workers does: hands their outputs, in
/// order, to its reducer and then asks the reducer for its output.
pub fn reduce_outputs<R: ReducerAsync>(outputs: Vec<R::Item>, reducer: R) -> (out: R::Output)
    requires
        runs_on(reducer, outputs@),
    ensures
        reduces(reducer, outputs@, out),
{
    let ghost start = reducer;
    let mut reducer = reducer;
    let mut stream = Scripted::of_items(outputs);
    crate::sink::forward_all(&mut reducer, &mut stream);
    match reducer.poll_output() {
        Poll::Ready(out) => out,
        Poll::Pending => vstd::pervasive::unreached(),
    }
}

/// Whether a fresh reducer of `factory` that is handed `items` may end in the
/// output `out`.
pub open spec fn made_reduces<F: Factory>(
    factory: F,
    items: Seq<<F::Item as Intake>::Item>,
    out: <F::Item as ReducerAsync>::Output,
) -> bool where F::Item: ReducerAsync {
    exists|r: F::Item| #[trigger] factory.makes(r) && reduces(r, items, out)
}

/// Whether every fresh reducer of `factory` can be handed `items` and then be
/// asked for its output.
pub open spec fn made_runs_on<F: Factory>(
    factory: F,
    items: Seq<<F::Item as Intake>::Item>,
) -> bool where F::Item: ReducerAsync {
    forall|r: F::Item| #[trigger] factory.makes(r) ==> runs_on(r, items)
}

/// Whether `outs` may be the outputs of the workers that run `bins`: one
/// output for each bin that is not empty, in the order of the bins, each from
/// a fresh reducer of `factory` that was handed the items of the bin's tasks.
/// Empty bins get no worker.
pub open spec fn bins_reduce<T: StreamTask, F: Factory>(
    factory: F,
    bins: Seq<Seq<T>>,
    outs: Seq<<F::Item as ReducerAsync>::Output>,
) -> bool where F::Item: ReducerAsync<Item = T::Item>
    decreases bins.len(),
{
    if bins.len() == 0 {
        outs.len() == 0
    } else if bins.last().len() == 0 {
        bins_reduce(factory, bins.drop_last(), outs)
    } else {
        &&& outs.len() > 0
        &&& bins_reduce(factory, bins.drop_last(), outs.drop_last())
        &&& made_reduces(factory, tasks_items(bins.last()), outs.last())
    }
}

/// Whether workers with fresh reducers of `factory` can run `bins`.
pub open spec fn bins_run<T: StreamTask, F: Factory>(factory: F, bins: Seq<Seq<T>>) -> bool where
    F::Item: ReducerAsync<Item = T::Item>,
 {
    forall|i: int|
        0 <= i < bins.len() && (#[trigger] bins[i]).len() > 0 ==> made_runs_on(
            factory,
            tasks_items(bins[i]),
        )
}

/// Whether every task in every bin is well-formed.
pub open spec fn bins_inv<T: StreamTask>(bins: Seq<Seq<T>>) -> bool {
    forall|i: int| 0 <= i < bins.len() ==> tasks_inv(#[trigger] bins[i])
}

/// The bins of a dealing of well-formed tasks hold well-formed tasks.
pub proof fn lemma_dealt_inv<T: StreamTask>(tasks: Seq<T>, bins: Seq<Seq<T>>)
    requires
        dealt(tasks, bins),
        tasks_inv(tasks),
    ensures
        bins_inv(bins),
{
    assert forall|i: int| 0 <= i < bins.len() implies tasks_inv(#[trigger] bins[i]) by {
        assert forall|k: int| 0 <= k < bins[i].len() implies (#[trigger] bins[i][k]).inv() by {
            let m = lemma_dealt_member(tasks, bins, i, k);
        }
    }
}

/// Runs each bin that is not empty on a worker of its own, with a fresh
/// reducer of `factory`, and collects the workers' outputs in the order of the
/// bins.
pub fn reduce_bins<T: StreamTask, F: Factory>(bins: Vec<Vec<T>>, factory: &F) -> (outs: Vec<
    <F::Item as ReducerAsync>::Output,
>) where F::Item: ReducerAsync<Item = T::Item>
    requires
        factory.inv(),
        bins_inv(bins_view(bins)),
        bins_run(*factory, bins_view(bins)),
    ensures
        bins_reduce(*factory, bins_view(bins), outs@),
{
    let ghost whole = bins_view(bins);
    let ghost bins_before = bins@;
    let mut queue = reversed(bins);
    let mut outs: Vec<<F::Item as ReducerAsync>::Output> = Vec::new();
    let ghost mut done: int = 0;
    proof {
        assert(whole.take(0) =~= Seq::<Seq<T>>::empty());
        assert(bins_before.skip(0) =~= bins_before);
    }
    while queue.len() > 0
        invariant
            factory.inv(),
            whole == bins_before.map_values(|bin: Vec<T>| bin@),
            bins_inv(whole),
            bins_run(*factory, whole),
            0 <= done <= whole.len(),
            queue@ == bins_before.skip(done).reverse(),
            bins_reduce(*factory, whole.take(done), outs@),
        decreases queue.len(),
    {
        let tasks = queue.pop().unwrap();
        proof {
            assert(bins_before.skip(done).reverse().last() == bins_before[done]);
            assert(queue@ =~= bins_before.skip(done + 1).reverse());
            assert(tasks@ == whole[done]);
            assert(whole.take(done + 1).drop_last() =~= whole.take(done));
            assert(whole.take(done + 1).last() == whole[done]);
        }
        if tasks.len() > 0 {
            let reducer = factory.make();
            let ghost outs_before = outs@;
            let out = run_tasks(tasks, reducer);
            outs.push(out);
            proof {
                assert(outs@.drop_last() =~= outs_before);
                assert(made_reduces(*factory, tasks_items(whole[done]), out));
            }
        }
        proof {
            done = done + 1;
        }
    }
    proof {
        assert(whole.take(whole.len() as int) =~= whole);
    }
    outs
}

/// Tasks that are already at hand, as a stream of tasks. Its lower bound is
/// exact.
pub struct TaskList<T> {
    /// The tasks still to hand out, last one first.
    pub reversed: Vec<T>,
}

impl<T: StreamTask> TaskList<T> {
    /// The stream that hands out `tasks` from the first one on.
    pub fn new(tasks: Vec<T>) -> (list: Self)
        ensures
            list.tasks() == tasks@,
            list.inv(),
    {
        let list = TaskList { reversed: reversed(tasks) };
        proof {
            assert(tasks@.reverse().reverse() =~= tasks@);
        }
        list
    }
}

impl<T: StreamTask> TaskStream for TaskList<T> {
    type Item = T::Item;

    type Task = T;

    open spec fn inv(&self) -> bool {
        true
    }

    open spec fn tasks(&self) -> Seq<T> {
        self.reversed@.reverse()
    }

    open spec fn hint(&self) -> (usize, Option<usize>) {
        (self.reversed.len(), Some(self.reversed.len()))
    }

    fn size_hint(&self) -> (r: (usize, Option<usize>)) {
        (self.reversed.len(), Some(self.reversed.len()))
    }

    fn next_task(&mut self) -> (r: Option<T>) {
        let ghost before = self.tasks();
        let r = self.reversed.pop();
        proof {
            if r.is_some() {
                assert(before.len() > 0);
                assert(before[0] == r.unwrap());
                assert(self.tasks() =~= before.drop_first());
            }
        }
        r
    }
}

/// Whether `bins` is an even dealing of `tasks` to `count` bins.
pub open spec fn evenly_dealt<T>(tasks: Seq<T>, count: int, bins: Seq<Seq<T>>) -> bool {
    &&& bins.len() == count
    &&& dealt(tasks, bins)
    &&& forall|i: int|
        0 <= i < count ==> (#[trigger] bins[i]).len() == share(
            tasks.len() as int,
            count,
            i,
        )
}

/// Whether `out` may come of reducing `tasks` on `threads` threads: the tasks
/// are dealt evenly to the threads, every thread that has tasks runs them into
/// a fresh reducer of `factory`, and `reduce_c` is handed the threads'
/// outputs.
pub open spec fn par_reduces<T: StreamTask, F: Factory, C: ReducerAsync>(
    tasks: Seq<T>,
    threads: int,
    factory: F,
    reduce_c: C,
    out: C::Output,
) -> bool where
    F::Item: ReducerAsync<Item = T::Item>,
    C: ReducerAsync<Item = <F::Item as ReducerAsync>::Output>,
 {
    exists|bins: Seq<Seq<T>>, outs: Seq<C::Item>|
        evenly_dealt(tasks, threads, bins) && #[trigger] bins_reduce(factory, bins, outs)
            && reduces(reduce_c, outs, out)
}

/// Whether `tasks` can be reduced on `threads` threads: however they are
/// dealt, the threads' reducers can take the items of their tasks, and
/// `reduce_c` can take whatever outputs come of them.
pub open spec fn par_runs<T: StreamTask, F: Factory, C: ReducerAsync>(
    tasks: Seq<T>,
    threads: int,
    factory: F,
    reduce_c: C,
) -> bool where
    F::Item: ReducerAsync<Item = T::Item>,
    C: ReducerAsync<Item = <F::Item as ReducerAsync>::Output>,
 {
    &&& tasks_inv(tasks)
    &&& forall|bins: Seq<Seq<T>>| #[trigger]
        evenly_dealt(tasks, threads, bins) ==> bins_run(factory, bins)
    &&& forall|bins: Seq<Seq<T>>, outs: Seq<C::Item>|
        evenly_dealt(tasks, threads, bins) && #[trigger] bins_reduce(factory, bins, outs)
            ==> runs_on(reduce_c, outs)
}

/// Reduces a stream of tasks on `threads` threads.
///
/// The tasks are dealt evenly to the threads. Every thread that has tasks
/// runs them, in order, into a fresh reducer of `factory`; `reduce_c` is
/// handed the threads' outputs and gives the result.
pub fn par_reduce<S: TaskStream, F: Factory, C: ReducerAsync>(
    stream: S,
    threads: usize,
    factory: &F,
    reduce_c: C,
) -> (out: C::Output) where
    F::Item: ReducerAsync<Item = S::Item>,
    C: ReducerAsync<Item = <F::Item as ReducerAsync>::Output>,

    requires
        stream.inv(),
        factory.inv(),
        0 < threads,
        stream.tasks().len() < usize::MAX,
        par_runs(stream.tasks(), threads as int, *factory, reduce_c),
    ensures
        par_reduces(stream.tasks(), threads as int, *factory, reduce_c, out),
{
    let mut stream = stream;
    let ghost tasks = stream.tasks();
    let bins = partition(&mut stream, threads);
    let ghost dealing = bins_view(bins);
    proof {
        assert forall|i: int| 0 <= i < threads implies (#[trigger] dealing[i]).len()
            == share(tasks.len() as int, threads as int, i) by {
            assert(dealing[i] == bins[i]@);
        }
        assert(evenly_dealt(tasks, threads as int, dealing));
        lemma_dealt_inv(tasks, dealing);
    }
    let outs = reduce_bins(bins, factory);
    reduce_outputs(outs, reduce_c)
}

/// Whether `out` may be the output of one process that reduces `tasks` on
/// `threads` threads: its reducer is a fresh one of `factory_b`, and it is
/// handed the outputs of the process's threads.
pub open spec fn proc_reduces<T: StreamTask, FA: Factory, FB: Factory>(
    factory_a: FA,
    factory_b: FB,
    threads: int,
    tasks: Seq<T>,
    out: <FB::Item as ReducerAsync>::Output,
) -> bool where
    FA::Item: ReducerAsync<Item = T::Item>,
    FB::Item: ReducerAsync<Item = <FA::Item as ReducerAsync>::Output>,
 {
    exists|reduce_b: FB::Item| #[trigger]
        factory_b.makes(reduce_b) && par_reduces(tasks, threads, factory_a, reduce_b, out)
}

/// Whether one process can reduce `tasks` on `threads` threads with any fresh
/// reducer of `factory_b`.
pub open spec fn proc_runs<T: StreamTask, FA: Factory, FB: Factory>(
    factory_a: FA,
    factory_b: FB,
    threads: int,
    tasks: Seq<T>,
) -> bool where
    FA::Item: ReducerAsync<Item = T::Item>,
    FB::Item: ReducerAsync<Item = <FA::Item as ReducerAsync>::Output>,
 {
    forall|reduce_b: FB::Item| #[trigger]
        factory_b.makes(reduce_b) ==> par_runs(tasks, threads, factory_a, reduce_b)
}

/// Whether `outs` may be the outputs of the processes that reduce `bins`: one
/// output for each bin that is not empty, in the order of the bins. Empty
/// bins get no process.
pub open spec fn procs_reduce<T: StreamTask, FA: Factory, FB: Factory>(
    factory_a: FA,
    factory_b: FB,
    threads: int,
    bins: Seq<Seq<T>>,
    outs: Seq<<FB::Item as ReducerAsync>::Output>,
) -> bool where
    FA::Item: ReducerAsync<Item = T::Item>,
    FB::Item: ReducerAsync<Item = <FA::Item as ReducerAsync>::Output>,

    decreases bins.len(),
{
    if bins.len() == 0 {
        outs.len() == 0
    } else if bins.last().len() == 0 {
        procs_reduce(factory_a, factory_b, threads, bins.drop_last(), outs)
    } else {
        &&& outs.len() > 0
        &&& procs_reduce(factory_a, factory_b, threads, bins.drop_last(), outs.drop_last())
        &&& proc_reduces(factory_a, factory_b, threads, bins.last(), outs.last())
    }
}

/// Whether processes can reduce `bins`.
pub open spec fn procs_run<T: StreamTask, FA: Factory, FB: Factory>(
    factory_a: FA,
    factory_b: FB,
    threads: int,
    bins: Seq<Seq<T>>,
) -> bool where
    FA::Item: ReducerAsync<Item = T::Item>,
    FB::Item: ReducerAsync<Item = <FA::Item as ReducerAsync>::Output>,
 {
    forall|i: int|
        0 <= i < bins.len() && (#[trigger] bins[i]).len() > 0 ==> proc_runs(
            factory_a,
            factory_b,
            threads,
            bins[i],
        )
}

/// Reduces each bin that is not empty on a process of its own, which in turn
/// reduces it on `threads` threads, and collects the processes' outputs in the
/// order of the bins.
pub fn reduce_procs<T: StreamTask, FA: Factory, FB: Factory>(
    bins: Vec<Vec<T>>,
    threads: usize,
    factory_a: &FA,
    factory_b: &FB,
) -> (outs: Vec<<FB::Item as ReducerAsync>::Output>) where
    FA::Item: ReducerAsync<Item = T::Item>,
    FB::Item: ReducerAsync<Item = <FA::Item as ReducerAsync>::Output>,

    requires
        0 < threads,
        factory_a.inv(),
        factory_b.inv(),
        bins_inv(bins_view(bins)),
        forall|i: int| 0 <= i < bins.len() ==> (#[trigger] bins[i]).len() < usize::MAX,
        procs_run(*factory_a, *factory_b, threads as int, bins_view(bins)),
    ensures
        procs_reduce(*factory_a, *factory_b, threads as int, bins_view(bins), outs@),
{
    let ghost whole = bins_view(bins);
    let ghost bins_before = bins@;
    let mut queue = reversed(bins);
    let mut outs: Vec<<FB::Item as ReducerAsync>::Output> = Vec::new();
    let ghost mut done: int = 0;
    proof {
        assert(whole.take(0) =~= Seq::<Seq<T>>::empty());
        assert(bins_before.skip(0) =~= bins_before);
    }
    while queue.len() > 0
        invariant
            0 < threads,
            factory_a.inv(),
            factory_b.inv(),
            whole == bins_before.map_values(|bin: Vec<T>| bin@),
            bins_inv(whole),
            forall|i: int| 0 <= i < bins_before.len() ==> (#[trigger] bins_before[i]).len() < usize::MAX,
            procs_run(*factory_a, *factory_b, threads as int, whole),
            0 <= done <= whole.len(),
            queue@ == bins_before.skip(done).reverse(),
            procs_reduce(*factory_a, *factory_b, threads as int, whole.take(done), outs@),
        decreases queue.len(),
    {
        let tasks = queue.pop().unwrap();
        proof {
            assert(bins_before.skip(done).reverse().last() == bins_before[done]);
            assert(queue@ =~= bins_before.skip(done + 1).reverse());
            assert(tasks@ == whole[done]);
            assert(whole.take(done + 1).drop_last() =~= whole.take(done));
            assert(whole.take(done + 1).last() == whole[done]);
        }
        if tasks.len() > 0 {
            let reduce_b = factory_b.make();
            let ghost outs_before = outs@;
            let list = TaskList::new(tasks);
            let out = par_reduce(list, threads, factory_a, reduce_b);
            outs.push(out);
            proof {
                assert(outs@.drop_last() =~= outs_before);
                assert(proc_reduces(*factory_a, *factory_b, threads as int, whole[done], out));
            }
        }
        proof {
            done = done + 1;
        }
    }
    proof {
        assert(whole.take(whole.len() as int) =~= whole);
    }
    outs
}

/// Whether `out` may come of reducing `tasks` on `processes` processes of
/// `threads` threads each: the tasks are dealt evenly to the processes, every
/// process that has tasks reduces them on its threads with reducers of
/// `factory_a` and a reducer of `factory_b`, and `reduce_c` is handed the
/// processes' outputs.
pub open spec fn dist_reduces<T: StreamTask, FA: Factory, FB: Factory, C: ReducerAsync>(
    tasks: Seq<T>,
    processes: int,
    threads: int,
    factory_a: FA,
    factory_b: FB,
    reduce_c: C,
    out: C::Output,
) -> bool where
    FA::Item: ReducerAsync<Item = T::Item>,
    FB::Item: ReducerAsync<Item = <FA::Item as ReducerAsync>::Output>,
    C: ReducerAsync<Item = <FB::Item as ReducerAsync>::Output>,
 {
    exists|bins: Seq<Seq<T>>, outs: Seq<C::Item>|
        evenly_dealt(tasks, processes, bins) && #[trigger] procs_reduce(
            factory_a,
            factory_b,
            threads,
            bins,
            outs,
        ) && reduces(reduce_c, outs, out)
}

/// Whether `tasks` can be reduced on `processes` processes of `threads`
/// threads each: however the tasks are dealt, every reducer can take what it
/// is handed.
pub open spec fn dist_runs<T: StreamTask, FA: Factory, FB: Factory, C: ReducerAsync>(
    tasks: Seq<T>,
    processes: int,
    threads: int,
    factory_a: FA,
    factory_b: FB,
    reduce_c: C,
) -> bool where
    FA::Item: ReducerAsync<Item = T::Item>,
    FB::Item: ReducerAsync<Item = <FA::Item as ReducerAsync>::Output>,
    C: ReducerAsync<Item = <FB::Item as ReducerAsync>::Output>,
 {
    &&& tasks_inv(tasks)
    &&& forall|bins: Seq<Seq<T>>| #[trigger]
        evenly_dealt(tasks, processes, bins) ==> procs_run(factory_a, factory_b, threads, bins)
    &&& forall|bins: Seq<Seq<T>>, outs: Seq<C::Item>|
        evenly_dealt(tasks, processes, bins) && #[trigger] procs_reduce(
            factory_a,
            factory_b,
            threads,
            bins,
            outs,
        ) ==> runs_on(reduce_c, outs)
}

/// Reduces a stream of tasks on `processes` processes of `threads` threads
/// each.
///
/// The tasks are dealt evenly to the processes, and inside each process that
/// has tasks, evenly to its threads. Every thread that has tasks runs them, in
/// order, into a fresh reducer of `factory_a`. A fresh reducer of `factory_b`
/// is handed the outputs of the threads of one process, and `reduce_c` the
/// outputs of the processes.
pub fn dist_reduce<S: TaskStream, FA: Factory, FB: Factory, C: ReducerAsync>(
    stream: S,
    processes: usize,
    threads: usize,
    factory_a: &FA,
    factory_b: &FB,
    reduce_c: C,
) -> (out: C::Output) where
    FA::Item: ReducerAsync<Item = S::Item>,
    FB::Item: ReducerAsync<Item = <FA::Item as ReducerAsync>::Output>,
    C: ReducerAsync<Item = <FB::Item as ReducerAsync>::Output>,

    requires
        stream.inv(),
        factory_a.inv(),
        factory_b.inv(),
        0 < processes,
        0 < threads,
        stream.tasks().len() < usize::MAX,
        dist_runs(
            stream.tasks(),
            processes as int,
            threads as int,
            *factory_a,
            *factory_b,
            reduce_c,
        ),
    ensures
        dist_reduces(
            stream.tasks(),
            processes as int,
            threads as int,
            *factory_a,
            *factory_b,
            reduce_c,
            out,
        ),
{
    let mut stream = stream;
    let ghost tasks = stream.tasks();
    let bins = partition(&mut stream, processes);
    let ghost dealing = bins_view(bins);
    proof {
        assert forall|i: int| 0 <= i < processes implies (#[trigger] dealing[i]).len() == share(
            tasks.len() as int,
            processes as int,
            i,
        ) by {
            assert(dealing[i] == bins[i]@);
        }
        assert(evenly_dealt(tasks, processes as int, dealing));
        lemma_dealt_inv(tasks, dealing);
        assert forall|i: int| 0 <= i < bins.len() implies (#[trigger] bins[i]).len()
            < usize::MAX by {
            lemma_share_at_most(tasks.len() as int, processes as int, i);
        }
    }
    let outs = reduce_procs(bins, threads, factory_a, factory_b);
    reduce_outputs(outs, reduce_c)
}

/// Whether reducers of type `R` take any item in any state and can be asked
/// for their output in any state.
pub open spec fn unconditional<R: ReducerAsync>() -> bool {
    &&& forall|r: R, item: R::Item| #[trigger] r.admits(item)
    &&& forall|r: R| #[trigger] r.ripe()
}

/// A well-formed reducer of an unconditional type can be handed any items.
pub proof fn lemma_runs_on_unconditional<R: ReducerAsync>(start: R, items: Seq<R::Item>)
    requires
        start.inv(),
        unconditional::<R>(),
    ensures
        runs_on(start, items),
{
}

/// With unconditional reducers any tasks can be reduced on any number of
/// threads.
pub proof fn lemma_par_runs_unconditional<T: StreamTask, F: Factory, C: ReducerAsync>(
    tasks: Seq<T>,
    threads: int,
    factory: F,
    reduce_c: C,
)
    where
        F::Item: ReducerAsync<Item = T::Item>,
        C: ReducerAsync<Item = <F::Item as ReducerAsync>::Output>,

    requires
        tasks_inv(tasks),
        unconditional::<F::Item>(),
        unconditional::<C>(),
        reduce_c.inv(),
        forall|r: F::Item| #[trigger] factory.makes(r) ==> r.inv(),
    ensures
        par_runs(tasks, threads, factory, reduce_c),
{
    assert forall|bins: Seq<Seq<T>>| #[trigger] evenly_dealt(tasks, threads, bins) implies bins_run(
        factory,
        bins,
    ) by {
        assert forall|i: int| 0 <= i < bins.len() && (#[trigger] bins[i]).len() > 0 implies made_runs_on(
            factory,
            tasks_items(bins[i]),
        ) by {
            assert forall|r: F::Item| #[trigger] factory.makes(r) implies runs_on(
                r,
                tasks_items(bins[i]),
            ) by {
                lemma_runs_on_unconditional(r, tasks_items(bins[i]));
            }
        }
    }
    assert forall|bins: Seq<Seq<T>>, outs: Seq<C::Item>|
        evenly_dealt(tasks, threads, bins) && #[trigger] bins_reduce(
            factory,
            bins,
            outs,
        ) implies runs_on(reduce_c, outs) by {
        lemma_runs_on_unconditional(reduce_c, outs);
    }
}

/// With unconditional reducers any tasks can be reduced on any number of
/// processes and threads.
pub proof fn lemma_dist_runs_unconditional<
    T: StreamTask,
    FA: Factory,
    FB: Factory,
    C: ReducerAsync,
>(tasks: Seq<T>, processes: int, threads: int, factory_a: FA, factory_b: FB, reduce_c: C)
    where
        FA::Item: ReducerAsync<Item = T::Item>,
        FB::Item: ReducerAsync<Item = <FA::Item as ReducerAsync>::Output>,
        C: ReducerAsync<Item = <FB::Item as ReducerAsync>::Output>,

    requires
        tasks_inv(tasks),
        unconditional::<FA::Item>(),
        unconditional::<FB::Item>(),
        unconditional::<C>(),
        reduce_c.inv(),
        forall|r: FA::Item| #[trigger] factory_a.makes(r) ==> r.inv(),
        forall|r: FB::Item| #[trigger] factory_b.makes(r) ==> r.inv(),
    ensures
        dist_runs(tasks, processes, threads, factory_a, factory_b, reduce_c),
{
    assert forall|bins: Seq<Seq<T>>| #[trigger]
        evenly_dealt(tasks, processes, bins) implies procs_run(
        factory_a,
        factory_b,
        threads,
        bins,
    ) by {
        lemma_dealt_inv(tasks, bins);
        assert forall|i: int| 0 <= i < bins.len() && (#[trigger] bins[i]).len() > 0 implies proc_runs(
            factory_a,
            factory_b,
            threads,
            bins[i],
        ) by {
            assert forall|reduce_b: FB::Item| #[trigger] factory_b.makes(reduce_b) implies par_runs(
                bins[i],
                threads,
                factory_a,
                reduce_b,
            ) by {
                lemma_par_runs_unconditional(bins[i], threads, factory_a, reduce_b);
            }
        }
    }
    assert forall|bins: Seq<Seq<T>>, outs: Seq<C::Item>|
        evenly_dealt(tasks, processes, bins) && #[trigger] procs_reduce(
            factory_a,
            factory_b,
            threads,
            bins,
            outs,
        ) implies runs_on(reduce_c, outs) by {
        lemma_runs_on_unconditional(reduce_c, outs);
    }
}

/// Every output of the workers comes of a bin that is not empty: of a fresh
/// reducer that was handed the items of the bin's tasks.
pub proof fn lemma_bins_reduce_each<T: StreamTask, F: Factory>(
    factory: F,
    bins: Seq<Seq<T>>,
    outs: Seq<<F::Item as ReducerAsync>::Output>,
    j: int,
) -> (i: int) where F::Item: ReducerAsync<Item = T::Item>
    requires
        bins_reduce(factory, bins, outs),
        0 <= j < outs.len(),
    ensures
        0 <= i < bins.len(),
        bins[i].len() > 0,
        made_reduces(factory, tasks_items(bins[i]), outs[j]),
    decreases bins.len(),
{
    if bins.last().len() == 0 {
        lemma_bins_reduce_each(factory, bins.drop_last(), outs, j)
    } else if j == outs.len() - 1 {
        bins.len() - 1
    } else {
        lemma_bins_reduce_each(factory, bins.drop_last(), outs.drop_last(), j)
    }
}

/// Every output of the processes comes of a bin that is not empty: of the
/// process that reduced the bin's tasks.
pub proof fn lemma_procs_reduce_each<T: StreamTask, FA: Factory, FB: Factory>(
    factory_a: FA,
    factory_b: FB,
    threads: int,
    bins: Seq<Seq<T>>,
    outs: Seq<<FB::Item as ReducerAsync>::Output>,
    j: int,
) -> (i: int) where
    FA::Item: ReducerAsync<Item = T::Item>,
    FB::Item: ReducerAsync<Item = <FA::Item as ReducerAsync>::Output>,

    requires
        procs_reduce(factory_a, factory_b, threads, bins, outs),
        0 <= j < outs.len(),
    ensures
        0 <= i < bins.len(),
        bins[i].len() > 0,
        proc_reduces(factory_a, factory_b, threads, bins[i], outs[j]),
    decreases bins.len(),
{
    if bins.last().len() == 0 {
        lemma_procs_reduce_each(factory_a, factory_b, threads, bins.drop_last(), outs, j)
    } else if j == outs.len() - 1 {
        bins.len() - 1
    } else {
        lemma_procs_reduce_each(
            factory_a,
            factory_b,
            threads,
            bins.drop_last(),
            outs.drop_last(),
            j,
        )
    }
}

/// Where a bin is not empty, the workers give an output.
pub proof fn lemma_bins_reduce_some<T: StreamTask, F: Factory>(
    factory: F,
    bins: Seq<Seq<T>>,
    outs: Seq<<F::Item as ReducerAsync>::Output>,
    i: int,
) where F::Item: ReducerAsync<Item = T::Item>
    requires
        bins_reduce(factory, bins, outs),
        0 <= i < bins.len(),
        bins[i].len() > 0,
    ensures
        outs.len() > 0,
    decreases bins.len(),
{
    if bins.last().len() == 0 {
        lemma_bins_reduce_some(factory, bins.drop_last(), outs, i);
    }
}

} // verus!
