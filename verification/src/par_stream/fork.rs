//! Feeding one stream to two sinks at once.
//!
//! Every item of the source is handed to the pipe of the second sink first
//! and to the pipe of the first sink after that. The pipes' outputs come out
//! as one stream, each tagged with its side; a pair of reducers takes them
//! apart again.

use vstd::prelude::*;
use crate::par_pipe::{ParallelPipe, PipeTask, PipeTaskAsync};
use crate::par_sink::tuple::{
    firsts, lemma_pair_halves, lemma_pair_sides, lemma_side_a_concat, lemma_side_b_concat,
    seconds, side_a, side_b, ReduceA2, ReduceA2Async, ReduceA2Factory, ReduceC2, ReduceC2Async,
    ReduceC2Factory, Sum2,
};
use crate::par_sink::{reduces, ReducerAsync};
use crate::par_stream::partition::{bins_map, lemma_dealt_map};
use crate::par_stream::pipe::{connected, dist_pipe_reduces, par_pipe_reduces, ConnectTask};
use crate::par_stream::reduce::{
    bins_reduce, evenly_dealt, made_reduces, proc_reduces, procs_reduce, tasks_items,
};
use crate::sink::offered;
use crate::par_sink::{DistributedSink, Factory, Lowering, ParallelSink, Reducer};
use crate::par_stream::reduce::{dist_reduce, dist_reduces, dist_runs, par_reduce, par_reduces, par_runs};
use crate::par_stream::{StreamTask, StreamTaskAsync, TaskStream};
use crate::stream::{Once, Poll, Stream};

verus! {

/// `items`, each tagged for the first side.
pub open spec fn tag_a<A, B>(items: Seq<A>) -> Seq<Sum2<A, B>> {
    items.map_values(|a: A| Sum2::<A, B>::A(a))
}

/// `items`, each tagged for the second side.
pub open spec fn tag_b<A, B>(items: Seq<B>) -> Seq<Sum2<A, B>> {
    items.map_values(|b: B| Sum2::<A, B>::B(b))
}

/// What the pipes `pipe_a` and `pipe_b` make of one item: what the second
/// pipe makes of it, tagged for the second side, followed by what the first
/// pipe makes of it, tagged for the first side.
pub open spec fn forked_one<T, PA: PipeTaskAsync<T>, PB: PipeTaskAsync<T>>(
    pipe_a: PA,
    pipe_b: PB,
    item: T,
) -> Seq<Sum2<PA::Item, PB::Item>> {
    tag_b::<PA::Item, PB::Item>(pipe_b.pending(seq![item])) + tag_a::<PA::Item, PB::Item>(
        pipe_a.pending(seq![item]),
    )
}

/// What the pipes `pipe_a` and `pipe_b` make of `items`: item by item, what
/// they make of each.
pub open spec fn forked<T, PA: PipeTaskAsync<T>, PB: PipeTaskAsync<T>>(
    pipe_a: PA,
    pipe_b: PB,
    items: Seq<T>,
) -> Seq<Sum2<PA::Item, PB::Item>>
    decreases items.len(),
{
    if items.len() == 0 {
        Seq::empty()
    } else {
        forked_one(pipe_a, pipe_b, items[0]) + forked(pipe_a, pipe_b, items.drop_first())
    }
}

/// Whether both pipes can work on every one of `items`.
pub open spec fn forks<T, PA: PipeTaskAsync<T>, PB: PipeTaskAsync<T>>(
    pipe_a: PA,
    pipe_b: PB,
    items: Seq<T>,
) -> bool {
    forall|i: int|
        0 <= i < items.len() ==> pipe_a.takes(seq![#[trigger] items[i]]) && pipe_b.takes(
            seq![items[i]],
        )
}

/// A stream that is fed to two pipes at once.
///
/// It holds the item that is being handed out twice: once for the second
/// pipe, `lend`, and once for the first, `give`. The second pipe is asked
/// first. Only when neither pipe has anything left of the item is the next
/// one pulled from the stream.
pub struct Fork<S, PA, PB, T> {
    pub stream: S,
    pub pipe_a: PA,
    pub pipe_b: PB,
    pub lend: Once<T>,
    pub give: Once<T>,
}

impl<T: Copy, S: Stream<Item = T>, PA: PipeTaskAsync<T>, PB: PipeTaskAsync<T>> Stream for Fork<
    S,
    PA,
    PB,
    T,
> {
    type Item = Sum2<PA::Item, PB::Item>;

    open spec fn inv(&self) -> bool {
        &&& self.stream.inv()
        &&& self.pipe_a.inv()
        &&& self.pipe_b.inv()
        &&& self.pipe_a.takes(self.give.rest())
        &&& self.pipe_b.takes(self.lend.rest())
        &&& forks(self.pipe_a, self.pipe_b, self.stream.rest())
    }

    open spec fn rest(&self) -> Seq<Sum2<PA::Item, PB::Item>> {
        tag_b::<PA::Item, PB::Item>(self.pipe_b.pending(self.lend.rest())) + tag_a::<
            PA::Item,
            PB::Item,
        >(self.pipe_a.pending(self.give.rest())) + forked(
            self.pipe_a,
            self.pipe_b,
            self.stream.rest(),
        )
    }

    open spec fn stalls(&self) -> nat {
        self.stream.stalls()
    }

    fn poll_next(&mut self) -> (r: Poll<Option<Sum2<PA::Item, PB::Item>>>) {
        loop
            invariant
                self.inv(),
                self.rest() == old(self).rest(),
                self.stalls() <= old(self).stalls(),
            decreases self.stream.rest().len(),
        {
            let ghost b_before = self.pipe_b.pending(self.lend.rest());
            let ghost a_before = self.pipe_a.pending(self.give.rest());
            let ghost later = forked(self.pipe_a, self.pipe_b, self.stream.rest());
            match self.pipe_b.poll_next(&mut self.lend) {
                Poll::Ready(Some(y)) => {
                    proof {
                        let b_after = self.pipe_b.pending(self.lend.rest());
                        assert(tag_b::<PA::Item, PB::Item>(b_after) =~= tag_b::<PA::Item, PB::Item>(
                            b_before,
                        ).drop_first());
                        assert(self.rest() =~= old(self).rest().drop_first());
                    }
                    return Poll::Ready(Some(Sum2::B(y)));
                },
                Poll::Ready(None) => {},
                Poll::Pending => {},
            }
            proof {
                let b_after = self.pipe_b.pending(self.lend.rest());
                assert(b_before.len() == 0);
                assert(b_after.len() == 0);
                assert(tag_b::<PA::Item, PB::Item>(b_before) =~= tag_b::<PA::Item, PB::Item>(
                    b_after,
                ));
            }
            match self.pipe_a.poll_next(&mut self.give) {
                Poll::Ready(Some(y)) => {
                    proof {
                        let a_after = self.pipe_a.pending(self.give.rest());
                        assert(tag_a::<PA::Item, PB::Item>(a_after) =~= tag_a::<PA::Item, PB::Item>(
                            a_before,
                        ).drop_first());
                        assert(self.rest() =~= old(self).rest().drop_first());
                    }
                    return Poll::Ready(Some(Sum2::A(y)));
                },
                Poll::Ready(None) => {},
                Poll::Pending => {},
            }
            proof {
                let a_after = self.pipe_a.pending(self.give.rest());
                assert(a_before.len() == 0);
                assert(a_after.len() == 0);
                assert(tag_a::<PA::Item, PB::Item>(a_before) =~= tag_a::<PA::Item, PB::Item>(
                    a_after,
                ));
            }
            let ghost upstream = self.stream.rest();
            match self.stream.poll_next() {
                Poll::Ready(Some(x)) => {
                    self.lend = Once::new(x);
                    self.give = Once::new(x);
                    proof {
                        assert(upstream[0] == x);
                        assert(forks(self.pipe_a, self.pipe_b, upstream));
                        assert forall|i: int| 0 <= i < self.stream.rest().len() implies self.pipe_a.takes(
                            seq![#[trigger] self.stream.rest()[i]],
                        ) && self.pipe_b.takes(seq![self.stream.rest()[i]]) by {
                            assert(self.stream.rest()[i] == upstream[i + 1]);
                        }
                        assert(self.rest() =~= old(self).rest());
                    }
                },
                Poll::Ready(None) => {
                    proof {
                        assert(self.rest() =~= Seq::<Sum2<PA::Item, PB::Item>>::empty());
                    }
                    return Poll::Ready(None);
                },
                Poll::Pending => {
                    proof {
                        assert(self.rest() =~= old(self).rest());
                    }
                    return Poll::Pending;
                },
            }
        }
    }
}

impl<T: Copy, S: Stream<Item = T>, PA: PipeTaskAsync<T>, PB: PipeTaskAsync<T>> StreamTaskAsync for Fork<
    S,
    PA,
    PB,
    T,
> {

}

/// A task that is fed to two pipes at once.
pub struct ForkTask<A, B, C>(pub A, pub B, pub C);

impl<T: StreamTask, PA: PipeTask<T::Item>, PB: PipeTask<T::Item>> StreamTask for ForkTask<
    T,
    PA,
    PB,
> where T::Item: Copy {
    type Item = Sum2<PA::Item, PB::Item>;

    type Async = Fork<T::Async, PA::Async, PB::Async, T::Item>;

    open spec fn inv(&self) -> bool {
        &&& self.0.inv()
        &&& self.1.inv()
        &&& self.2.inv()
        &&& forks(self.1.lowered(), self.2.lowered(), self.0.items())
        &&& self.1.lowered().takes(Seq::<T::Item>::empty())
        &&& self.2.lowered().takes(Seq::<T::Item>::empty())
        &&& self.1.lowered().pending(Seq::<T::Item>::empty()).len() == 0
        &&& self.2.lowered().pending(Seq::<T::Item>::empty()).len() == 0
    }

    open spec fn items(&self) -> Seq<Sum2<PA::Item, PB::Item>> {
        forked(self.1.lowered(), self.2.lowered(), self.0.items())
    }

    fn into_async(self) -> (a: Fork<T::Async, PA::Async, PB::Async, T::Item>) {
        let a = Fork {
            stream: self.0.into_async(),
            pipe_a: self.1.into_async(),
            pipe_b: self.2.into_async(),
            lend: Once { item: None },
            give: Once { item: None },
        };
        proof {
            assert(a.lend.rest() =~= Seq::<T::Item>::empty());
            assert(a.give.rest() =~= Seq::<T::Item>::empty());
            assert(a.inv());
            assert(a.rest() =~= self.items());
        }
        a
    }
}

/// A stream of tasks, each fed to two pipes at once.
pub struct ForkConnect<A, B, C>(pub A, pub B, pub C);

/// `tasks`, each with the pipes that `pipe_a` and `pipe_b` make.
pub open spec fn fork_connected<T, Source, PA: ParallelPipe<Source>, PB: ParallelPipe<Source>>(
    tasks: Seq<T>,
    pipe_a: PA,
    pipe_b: PB,
) -> Seq<ForkTask<T, PA::Task, PB::Task>> {
    tasks.map_values(|task: T| ForkTask(task, pipe_a.made_task(), pipe_b.made_task()))
}

impl<A: TaskStream, PA: ParallelPipe<A::Item>, PB: ParallelPipe<A::Item>> TaskStream for ForkConnect<
    A,
    PA,
    PB,
> where A::Item: Copy {
    type Item = Sum2<PA::Item, PB::Item>;

    type Task = ForkTask<A::Task, PA::Task, PB::Task>;

    open spec fn inv(&self) -> bool {
        self.0.inv() && self.1.inv() && self.2.inv()
    }

    open spec fn tasks(&self) -> Seq<ForkTask<A::Task, PA::Task, PB::Task>> {
        fork_connected(self.0.tasks(), self.1, self.2)
    }

    open spec fn hint(&self) -> (usize, Option<usize>) {
        self.0.hint()
    }

    fn size_hint(&self) -> (r: (usize, Option<usize>)) {
        self.0.size_hint()
    }

    fn next_task(&mut self) -> (r: Option<ForkTask<A::Task, PA::Task, PB::Task>>) {
        match self.0.next_task() {
            Some(task) => {
                proof {
                    assert(self.tasks() =~= old(self).tasks().drop_first());
                }
                Some(ForkTask(task, self.1.task(), self.2.task()))
            },
            None => None,
        }
    }
}

/// Whether `out` may come of feeding `tasks` to the two terminal operators
/// `sink_a` and `sink_b` on `threads` threads: every task is fed to the pipes
/// of both, the threads run a reducer of each side by side, and the last
/// reducers of both are handed the two halves of the threads' outputs.
pub open spec fn par_fork_reduces<T: StreamTask, KA: ParallelSink<T::Item>, KB: ParallelSink<T::Item>>(
    tasks: Seq<T>,
    threads: int,
    sink_a: KA,
    sink_b: KB,
    out: (KA::Output, KB::Output),
) -> bool where T::Item: Copy {
    exists|
        pipe_a: KA::Pipe,
        a_a: KA::ReduceAFactory,
        a_c: KA::ReduceC,
        pipe_b: KB::Pipe,
        b_a: KB::ReduceAFactory,
        b_c: KB::ReduceC,
    |
        sink_a.splits(
            pipe_a,
            a_a,
            a_c,
        ) && sink_b.splits(pipe_b, b_a, b_c) && #[trigger] par_reduces(
            fork_connected(tasks, pipe_a, pipe_b),
            threads,
            Lowering(ReduceA2Factory(a_a, b_a)),
            ReduceC2 { a: a_c, b: b_c }.lowered(),
            out,
        )
}

/// Whether `tasks` can be fed to the two terminal operators on `threads`
/// threads.
pub open spec fn par_fork_runs<T: StreamTask, KA: ParallelSink<T::Item>, KB: ParallelSink<T::Item>>(
    tasks: Seq<T>,
    threads: int,
    sink_a: KA,
    sink_b: KB,
) -> bool where T::Item: Copy {
    forall|
        pipe_a: KA::Pipe,
        a_a: KA::ReduceAFactory,
        a_c: KA::ReduceC,
        pipe_b: KB::Pipe,
        b_a: KB::ReduceAFactory,
        b_c: KB::ReduceC,
    |
        sink_a.splits(pipe_a, a_a, a_c) && sink_b.splits(pipe_b, b_a, b_c) ==> #[trigger] par_runs(
            fork_connected(tasks, pipe_a, pipe_b),
            threads,
            Lowering(ReduceA2Factory(a_a, b_a)),
            ReduceC2 { a: a_c, b: b_c }.lowered(),
        )
}

/// Feeds a stream of tasks to two terminal operators at once, on `threads`
/// threads, and gives the outputs of both.
pub fn par_fork<S: TaskStream, KA: ParallelSink<S::Item>, KB: ParallelSink<S::Item>>(
    stream: S,
    threads: usize,
    sink_a: KA,
    sink_b: KB,
) -> (out: (KA::Output, KB::Output)) where S::Item: Copy
    requires
        stream.inv(),
        sink_a.inv(),
        sink_b.inv(),
        0 < threads,
        stream.tasks().len() < usize::MAX,
        par_fork_runs(stream.tasks(), threads as int, sink_a, sink_b),
    ensures
        par_fork_reduces(stream.tasks(), threads as int, sink_a, sink_b, out),
{
    let (pipe_a, a_a, a_c) = sink_a.reducers();
    let (pipe_b, b_a, b_c) = sink_b.reducers();
    let lowering = Lowering(ReduceA2Factory(a_a, b_a));
    assert(lowering.inv());
    let reduce_c = ReduceC2::new(a_c, b_c);
    par_reduce(ForkConnect(stream, pipe_a, pipe_b), threads, &lowering, reduce_c.into_async())
}

/// Whether `out` may come of feeding `tasks` to the two terminal operators on
/// `processes` processes of `threads` threads each.
pub open spec fn dist_fork_reduces<
    T: StreamTask,
    KA: DistributedSink<T::Item>,
    KB: DistributedSink<T::Item>,
>(
    tasks: Seq<T>,
    processes: int,
    threads: int,
    sink_a: KA,
    sink_b: KB,
    out: (KA::Output, KB::Output),
) -> bool where
    T::Item: Copy,
 {
    exists|
        pipe_a: KA::Pipe,
        a_a: KA::ReduceAFactory,
        a_b: KA::ReduceBFactory,
        a_c: KA::ReduceC,
        pipe_b: KB::Pipe,
        b_a: KB::ReduceAFactory,
        b_b: KB::ReduceBFactory,
        b_c: KB::ReduceC,
    |
        sink_a.splits(pipe_a, a_a, a_b, a_c) && sink_b.splits(pipe_b, b_a, b_b, b_c)
            && #[trigger] dist_reduces(
            fork_connected(tasks, pipe_a, pipe_b),
            processes,
            threads,
            Lowering(ReduceA2Factory(a_a, b_a)),
            Lowering(ReduceC2Factory(a_b, b_b)),
            ReduceC2 { a: a_c, b: b_c }.lowered(),
            out,
        )
}

/// Whether `tasks` can be fed to the two terminal operators on `processes`
/// processes of `threads` threads each.
pub open spec fn dist_fork_runs<
    T: StreamTask,
    KA: DistributedSink<T::Item>,
    KB: DistributedSink<T::Item>,
>(tasks: Seq<T>, processes: int, threads: int, sink_a: KA, sink_b: KB) -> bool where T::Item: Copy {
    forall|
        pipe_a: KA::Pipe,
        a_a: KA::ReduceAFactory,
        a_b: KA::ReduceBFactory,
        a_c: KA::ReduceC,
        pipe_b: KB::Pipe,
        b_a: KB::ReduceAFactory,
        b_b: KB::ReduceBFactory,
        b_c: KB::ReduceC,
    |
        sink_a.splits(pipe_a, a_a, a_b, a_c) && sink_b.splits(pipe_b, b_a, b_b, b_c)
            ==> #[trigger] dist_runs(
            fork_connected(tasks, pipe_a, pipe_b),
            processes,
            threads,
            Lowering(ReduceA2Factory(a_a, b_a)),
            Lowering(ReduceC2Factory(a_b, b_b)),
            ReduceC2 { a: a_c, b: b_c }.lowered(),
        )
}

/// Feeds a stream of tasks to two terminal operators at once, on `processes`
/// processes of `threads` threads each, and gives the outputs of both.
pub fn dist_fork<S: TaskStream, KA: DistributedSink<S::Item>, KB: DistributedSink<S::Item>>(
    stream: S,
    processes: usize,
    threads: usize,
    sink_a: KA,
    sink_b: KB,
) -> (out: (KA::Output, KB::Output)) where S::Item: Copy
    requires
        stream.inv(),
        sink_a.inv(),
        sink_b.inv(),
        0 < processes,
        0 < threads,
        stream.tasks().len() < usize::MAX,
        dist_fork_runs(stream.tasks(), processes as int, threads as int, sink_a, sink_b),
    ensures
        dist_fork_reduces(stream.tasks(), processes as int, threads as int, sink_a, sink_b, out),
{
    let (pipe_a, a_a, a_b, a_c) = sink_a.reducers();
    let (pipe_b, b_a, b_b, b_c) = sink_b.reducers();
    let lowering_a = Lowering(ReduceA2Factory(a_a, b_a));
    let lowering_b = Lowering(ReduceC2Factory(a_b, b_b));
    assert(lowering_a.inv());
    assert(lowering_b.inv());
    let reduce_c = ReduceC2::new(a_c, b_c);
    dist_reduce(
        ForkConnect(stream, pipe_a, pipe_b),
        processes,
        threads,
        &lowering_a,
        &lowering_b,
        reduce_c.into_async(),
    )
}

/// Tagging for the first side and reading the sides back.
pub proof fn lemma_tag_a_sides<A, B>(items: Seq<A>)
    ensures
        side_a(tag_a::<A, B>(items)) == items,
        side_b(tag_a::<A, B>(items)) == Seq::<B>::empty(),
    decreases items.len(),
{
    let tagged = tag_a::<A, B>(items);
    if items.len() == 0 {
        assert(side_a(tagged) =~= items);
    } else {
        lemma_tag_a_sides::<A, B>(items.drop_last());
        assert(tagged.drop_last() =~= tag_a::<A, B>(items.drop_last()));
        assert(tagged.last() == Sum2::<A, B>::A(items.last()));
        assert(side_a(tagged) =~= items);
    }
}

/// Tagging for the second side and reading the sides back.
pub proof fn lemma_tag_b_sides<A, B>(items: Seq<B>)
    ensures
        side_b(tag_b::<A, B>(items)) == items,
        side_a(tag_b::<A, B>(items)) == Seq::<A>::empty(),
    decreases items.len(),
{
    let tagged = tag_b::<A, B>(items);
    if items.len() == 0 {
        assert(side_b(tagged) =~= items);
    } else {
        lemma_tag_b_sides::<A, B>(items.drop_last());
        assert(tagged.drop_last() =~= tag_b::<A, B>(items.drop_last()));
        assert(tagged.last() == Sum2::<A, B>::B(items.last()));
        assert(side_b(tagged) =~= items);
    }
}

/// A pipe hands out nothing where nothing comes down the stream.
pub proof fn lemma_pending_none<T, P: PipeTaskAsync<T>>(pipe: P)
    ensures
        pipe.pending(Seq::<T>::empty()) == Seq::<P::Item>::empty(),
{
    let none = Seq::<T>::empty();
    pipe.lemma_pending_concat(none, none);
    assert(none + none =~= none);
    assert(pipe.pending(none).len() == 0);
    assert(pipe.pending(none) =~= Seq::<P::Item>::empty());
}

/// Of what two pipes make of a run of items, the items for the first side
/// are what the first pipe makes of the run, and the items for the second side
/// are what the second pipe makes of it: neither side loses an item, gets one
/// twice, or gets them out of order.
pub proof fn lemma_forked_sides<T, PA: PipeTaskAsync<T>, PB: PipeTaskAsync<T>>(
    pipe_a: PA,
    pipe_b: PB,
    items: Seq<T>,
)
    ensures
        side_a(forked(pipe_a, pipe_b, items)) == pipe_a.pending(items),
        side_b(forked(pipe_a, pipe_b, items)) == pipe_b.pending(items),
    decreases items.len(),
{
    if items.len() == 0 {
        lemma_pending_none(pipe_a);
        lemma_pending_none(pipe_b);
        assert(items =~= Seq::<T>::empty());
    } else {
        let first = seq![items[0]];
        let others = items.drop_first();
        lemma_forked_sides(pipe_a, pipe_b, others);
        pipe_a.lemma_pending_concat(first, others);
        pipe_b.lemma_pending_concat(first, others);
        assert(first + others =~= items);
        let from_b = tag_b::<PA::Item, PB::Item>(pipe_b.pending(first));
        let from_a = tag_a::<PA::Item, PB::Item>(pipe_a.pending(first));
        lemma_tag_a_sides::<PA::Item, PB::Item>(pipe_a.pending(first));
        lemma_tag_b_sides::<PA::Item, PB::Item>(pipe_b.pending(first));
        lemma_side_a_concat(from_b, from_a);
        lemma_side_b_concat(from_b, from_a);
        lemma_side_a_concat(from_b + from_a, forked(pipe_a, pipe_b, others));
        lemma_side_b_concat(from_b + from_a, forked(pipe_a, pipe_b, others));
        assert(side_a(from_b + from_a) =~= pipe_a.pending(first));
        assert(side_b(from_b + from_a) =~= pipe_b.pending(first));
    }
}

/// Two reducers side by side that have been handed what two pipes make of a
/// run of items: the first has been handed exactly what the first pipe makes
/// of the run, in order, and the second exactly what the second pipe makes of
/// it. With pipes that forward their items untouched, each has been handed
/// every item of the run once.
pub proof fn lemma_fork_fidelity<
    T,
    PA: PipeTaskAsync<T>,
    PB: PipeTaskAsync<T>,
    RA: ReducerAsync<Item = PA::Item>,
    RB: ReducerAsync<Item = PB::Item>,
>(
    pipe_a: PA,
    pipe_b: PB,
    items: Seq<T>,
    start: ReduceA2Async<RA, RB>,
    end: ReduceA2Async<RA, RB>,
)
    requires
        offered(start, forked(pipe_a, pipe_b, items), end),
    ensures
        offered(start.a, pipe_a.pending(items), end.a),
        offered(start.b, pipe_b.pending(items), end.b),
{
    lemma_pair_sides(start, forked(pipe_a, pipe_b, items), end);
    lemma_forked_sides(pipe_a, pipe_b, items);
}

/// A task that is fed to two pipes, as a task with the first of the pipes
/// on it.
pub open spec fn only_a<T, PA, PB>(task: ForkTask<T, PA, PB>) -> ConnectTask<T, PA> {
    ConnectTask(task.0, task.1)
}

/// The items for the first side of tasks that are fed to two pipes are the
/// items of the tasks with the first pipe on them.
pub proof fn lemma_fork_items_a<T: StreamTask, PA: PipeTask<T::Item>, PB: PipeTask<T::Item>>(
    tasks: Seq<ForkTask<T, PA, PB>>,
)
    where T::Item: Copy
    ensures
        side_a(tasks_items(tasks)) == tasks_items(
            tasks.map_values(|task: ForkTask<T, PA, PB>| only_a(task)),
        ),
    decreases tasks.len(),
{
    let with_pipe = tasks.map_values(|task: ForkTask<T, PA, PB>| only_a(task));
    if tasks.len() == 0 {
        assert(side_a(tasks_items(tasks)) =~= tasks_items(with_pipe));
    } else {
        lemma_fork_items_a(tasks.drop_last());
        assert(with_pipe.drop_last() =~= tasks.drop_last().map_values(
            |task: ForkTask<T, PA, PB>| only_a(task),
        ));
        let last = tasks.last();
        lemma_side_a_concat(tasks_items(tasks.drop_last()), last.items());
        lemma_forked_sides(last.1.lowered(), last.2.lowered(), last.0.items());
        assert(with_pipe.last().items() == last.1.lowered().pending(last.0.items()));
    }
}

/// The outputs of threads that run two reducers side by side hold, in their
/// first halves, outputs of threads that run the first reducer alone on
/// the tasks with the first pipe on them.
pub proof fn lemma_fork_bins_a<
    T: StreamTask,
    PA: PipeTask<T::Item>,
    PB: PipeTask<T::Item>,
    FA: Factory,
    FB: Factory,
>(
    factory_a: FA,
    factory_b: FB,
    bins: Seq<Seq<ForkTask<T, PA, PB>>>,
    outs: Seq<(<FA::Item as Reducer>::Output, <FB::Item as Reducer>::Output)>,
)
    where
        T::Item: Copy,
        FA::Item: Reducer<Item = PA::Item>,
        FB::Item: Reducer<Item = PB::Item>,

    requires
        bins_reduce(Lowering(ReduceA2Factory(factory_a, factory_b)), bins, outs),
    ensures
        bins_reduce(
            Lowering(factory_a),
            bins_map(bins, |task: ForkTask<T, PA, PB>| only_a(task)),
            firsts(outs),
        ),
    decreases bins.len(),
{
    let f = |task: ForkTask<T, PA, PB>| only_a(task);
    let bins_a = bins_map(bins, f);
    let outs_a = firsts(outs);
    if bins.len() > 0 {
        assert(bins_a.drop_last() =~= bins_map(bins.drop_last(), f));
        assert(bins_a.last() == bins.last().map_values(f));
        if bins.last().len() == 0 {
            lemma_fork_bins_a::<T, PA, PB, FA, FB>(factory_a, factory_b, bins.drop_last(), outs);
        } else {
            lemma_fork_bins_a::<T, PA, PB, FA, FB>(
                factory_a,
                factory_b,
                bins.drop_last(),
                outs.drop_last(),
            );
            assert(outs_a.drop_last() =~= firsts(outs.drop_last()));
            let pair = choose|pair: ReduceA2Async<<FA::Item as Reducer>::Async, <FB::Item as Reducer>::Async>| #[trigger]
                Lowering(ReduceA2Factory(factory_a, factory_b)).makes(pair) && reduces(
                    pair,
                    tasks_items(bins.last()),
                    outs.last(),
                );
            let made = choose|made: ReduceA2<FA::Item, FB::Item>| #[trigger]
                ReduceA2Factory(factory_a, factory_b).makes(made) && pair == made.lowered();
            let end = choose|end: ReduceA2Async<<FA::Item as Reducer>::Async, <FB::Item as Reducer>::Async>|
                offered(pair, tasks_items(bins.last()), end) && #[trigger] end.yields(outs.last());
            lemma_pair_sides(pair, tasks_items(bins.last()), end);
            lemma_fork_items_a(bins.last());
            assert(factory_a.makes(made.a));
            assert(Lowering(factory_a).makes(pair.a));
            assert(end.a.yields(outs.last().0));
            assert(reduces(pair.a, tasks_items(bins_a.last()), outs_a.last()));
            assert(made_reduces(Lowering(factory_a), tasks_items(bins_a.last()), outs_a.last()));
        }
    } else {
        assert(outs_a =~= Seq::empty());
    }
}

/// A task that is fed to two pipes, as a task with the second of the pipes
/// on it.
pub open spec fn only_b<T, PA, PB>(task: ForkTask<T, PA, PB>) -> ConnectTask<T, PB> {
    ConnectTask(task.0, task.2)
}

/// The items for the second side of tasks that are fed to two pipes are the
/// items of the tasks with the second pipe on them.
pub proof fn lemma_fork_items_b<T: StreamTask, PA: PipeTask<T::Item>, PB: PipeTask<T::Item>>(
    tasks: Seq<ForkTask<T, PA, PB>>,
)
    where T::Item: Copy
    ensures
        side_b(tasks_items(tasks)) == tasks_items(
            tasks.map_values(|task: ForkTask<T, PA, PB>| only_b(task)),
        ),
    decreases tasks.len(),
{
    let with_pipe = tasks.map_values(|task: ForkTask<T, PA, PB>| only_b(task));
    if tasks.len() == 0 {
        assert(side_b(tasks_items(tasks)) =~= tasks_items(with_pipe));
    } else {
        lemma_fork_items_b(tasks.drop_last());
        assert(with_pipe.drop_last() =~= tasks.drop_last().map_values(
            |task: ForkTask<T, PA, PB>| only_b(task),
        ));
        let last = tasks.last();
        lemma_side_b_concat(tasks_items(tasks.drop_last()), last.items());
        lemma_forked_sides(last.1.lowered(), last.2.lowered(), last.0.items());
        assert(with_pipe.last().items() == last.2.lowered().pending(last.0.items()));
    }
}

/// The outputs of threads that run two reducers side by side hold, in their
/// second halves, outputs of threads that run the second reducer alone on
/// the tasks with the second pipe on them.
pub proof fn lemma_fork_bins_b<
    T: StreamTask,
    PA: PipeTask<T::Item>,
    PB: PipeTask<T::Item>,
    FA: Factory,
    FB: Factory,
>(
    factory_a: FA,
    factory_b: FB,
    bins: Seq<Seq<ForkTask<T, PA, PB>>>,
    outs: Seq<(<FA::Item as Reducer>::Output, <FB::Item as Reducer>::Output)>,
)
    where
        T::Item: Copy,
        FA::Item: Reducer<Item = PA::Item>,
        FB::Item: Reducer<Item = PB::Item>,

    requires
        bins_reduce(Lowering(ReduceA2Factory(factory_a, factory_b)), bins, outs),
    ensures
        bins_reduce(
            Lowering(factory_b),
            bins_map(bins, |task: ForkTask<T, PA, PB>| only_b(task)),
            seconds(outs),
        ),
    decreases bins.len(),
{
    let f = |task: ForkTask<T, PA, PB>| only_b(task);
    let bins_b = bins_map(bins, f);
    let outs_b = seconds(outs);
    if bins.len() > 0 {
        assert(bins_b.drop_last() =~= bins_map(bins.drop_last(), f));
        assert(bins_b.last() == bins.last().map_values(f));
        if bins.last().len() == 0 {
            lemma_fork_bins_b::<T, PA, PB, FA, FB>(factory_a, factory_b, bins.drop_last(), outs);
        } else {
            lemma_fork_bins_b::<T, PA, PB, FA, FB>(
                factory_a,
                factory_b,
                bins.drop_last(),
                outs.drop_last(),
            );
            assert(outs_b.drop_last() =~= seconds(outs.drop_last()));
            let pair = choose|pair: ReduceA2Async<<FA::Item as Reducer>::Async, <FB::Item as Reducer>::Async>| #[trigger]
                Lowering(ReduceA2Factory(factory_a, factory_b)).makes(pair) && reduces(
                    pair,
                    tasks_items(bins.last()),
                    outs.last(),
                );
            let made = choose|made: ReduceA2<FA::Item, FB::Item>| #[trigger]
                ReduceA2Factory(factory_a, factory_b).makes(made) && pair == made.lowered();
            let end = choose|end: ReduceA2Async<<FA::Item as Reducer>::Async, <FB::Item as Reducer>::Async>|
                offered(pair, tasks_items(bins.last()), end) && #[trigger] end.yields(outs.last());
            lemma_pair_sides(pair, tasks_items(bins.last()), end);
            lemma_fork_items_b(bins.last());
            assert(factory_b.makes(made.b));
            assert(Lowering(factory_b).makes(pair.b));
            assert(end.b.yields(outs.last().1));
            assert(reduces(pair.b, tasks_items(bins_b.last()), outs_b.last()));
            assert(made_reduces(Lowering(factory_b), tasks_items(bins_b.last()), outs_b.last()));
        }
    } else {
        assert(outs_b =~= Seq::empty());
    }
}

/// What threads that run two reducers side by side give, with a pair of
/// reducers above them, holds in its first half what the first reducers
/// alone give on the tasks with the first pipe on them.
pub proof fn lemma_fork_threads_a<
    T: StreamTask,
    PA: PipeTask<T::Item>,
    PB: PipeTask<T::Item>,
    FA: Factory,
    FB: Factory,
    CA: ReducerAsync,
    CB: ReducerAsync,
>(
    tasks: Seq<ForkTask<T, PA, PB>>,
    threads: int,
    factory_a: FA,
    factory_b: FB,
    top: ReduceC2Async<CA, CB>,
    out: (CA::Output, CB::Output),
)
    where
        T::Item: Copy,
        FA::Item: Reducer<Item = PA::Item>,
        FB::Item: Reducer<Item = PB::Item>,
        CA: ReducerAsync<Item = <FA::Item as Reducer>::Output>,
        CB: ReducerAsync<Item = <FB::Item as Reducer>::Output>,

    requires
        par_reduces(tasks, threads, Lowering(ReduceA2Factory(factory_a, factory_b)), top, out),
    ensures
        par_reduces(
            tasks.map_values(|task: ForkTask<T, PA, PB>| only_a(task)),
            threads,
            Lowering(factory_a),
            top.a,
            out.0,
        ),
{
    let (bins, outs) = choose|
        bins: Seq<Seq<ForkTask<T, PA, PB>>>,
        outs: Seq<(<FA::Item as Reducer>::Output, <FB::Item as Reducer>::Output)>,
    |
        evenly_dealt(tasks, threads, bins) && #[trigger] bins_reduce(
            Lowering(ReduceA2Factory(factory_a, factory_b)),
            bins,
            outs,
        ) && reduces(top, outs, out);
    let end = choose|end: ReduceC2Async<CA, CB>| offered(top, outs, end) && #[trigger] end.yields(out);
    lemma_pair_halves(top, outs, end);
    let f = |task: ForkTask<T, PA, PB>| only_a(task);
    lemma_dealt_map(tasks, bins, f);
    lemma_fork_bins_a::<T, PA, PB, FA, FB>(factory_a, factory_b, bins, outs);
    let bins_a = bins_map(bins, f);
    assert(evenly_dealt(tasks.map_values(f), threads, bins_a)) by {
        assert forall|i: int| 0 <= i < threads implies (#[trigger] bins_a[i]).len()
            == bins[i].len() by {}
    }
    assert(end.a.yields(out.0));
    assert(reduces(top.a, firsts(outs), out.0));
}

/// What processes that run two reducers side by side give holds in its
/// first halves what the first reducers alone give on the tasks with the
/// first pipe on them.
pub proof fn lemma_fork_procs_a<
    T: StreamTask,
    PA: PipeTask<T::Item>,
    PB: PipeTask<T::Item>,
    FA: Factory,
    FB: Factory,
    GA: Factory,
    GB: Factory,
>(
    factory_a: FA,
    factory_b: FB,
    above_a: GA,
    above_b: GB,
    threads: int,
    bins: Seq<Seq<ForkTask<T, PA, PB>>>,
    outs: Seq<(<GA::Item as Reducer>::Output, <GB::Item as Reducer>::Output)>,
)
    where
        T::Item: Copy,
        FA::Item: Reducer<Item = PA::Item>,
        FB::Item: Reducer<Item = PB::Item>,
        GA::Item: Reducer<Item = <FA::Item as Reducer>::Output>,
        GB::Item: Reducer<Item = <FB::Item as Reducer>::Output>,

    requires
        procs_reduce(
            Lowering(ReduceA2Factory(factory_a, factory_b)),
            Lowering(ReduceC2Factory(above_a, above_b)),
            threads,
            bins,
            outs,
        ),
    ensures
        procs_reduce(
            Lowering(factory_a),
            Lowering(above_a),
            threads,
            bins_map(bins, |task: ForkTask<T, PA, PB>| only_a(task)),
            firsts(outs),
        ),
    decreases bins.len(),
{
    let f = |task: ForkTask<T, PA, PB>| only_a(task);
    let bins_a = bins_map(bins, f);
    let outs_a = firsts(outs);
    if bins.len() > 0 {
        assert(bins_a.drop_last() =~= bins_map(bins.drop_last(), f));
        assert(bins_a.last() == bins.last().map_values(f));
        if bins.last().len() == 0 {
            lemma_fork_procs_a::<T, PA, PB, FA, FB, GA, GB>(
                factory_a,
                factory_b,
                above_a,
                above_b,
                threads,
                bins.drop_last(),
                outs,
            );
        } else {
            lemma_fork_procs_a::<T, PA, PB, FA, FB, GA, GB>(
                factory_a,
                factory_b,
                above_a,
                above_b,
                threads,
                bins.drop_last(),
                outs.drop_last(),
            );
            assert(outs_a.drop_last() =~= firsts(outs.drop_last()));
            let pair = choose|pair: ReduceC2Async<<GA::Item as Reducer>::Async, <GB::Item as Reducer>::Async>| #[trigger]
                Lowering(ReduceC2Factory(above_a, above_b)).makes(pair) && par_reduces(
                    bins.last(),
                    threads,
                    Lowering(ReduceA2Factory(factory_a, factory_b)),
                    pair,
                    outs.last(),
                );
            let made = choose|made: ReduceC2<GA::Item, GB::Item>| #[trigger]
                ReduceC2Factory(above_a, above_b).makes(made) && pair == made.lowered();
            lemma_fork_threads_a::<
                T,
                PA,
                PB,
                FA,
                FB,
                <GA::Item as Reducer>::Async,
                <GB::Item as Reducer>::Async,
            >(bins.last(), threads, factory_a, factory_b, pair, outs.last());
            assert(above_a.makes(made.a));
            assert(Lowering(above_a).makes(pair.a));
            assert(proc_reduces(
                Lowering(factory_a),
                Lowering(above_a),
                threads,
                bins_a.last(),
                outs_a.last(),
            ));
        }
    } else {
        assert(outs_a =~= Seq::empty());
    }
}

/// What threads that run two reducers side by side give, with a pair of
/// reducers above them, holds in its second half what the second reducers
/// alone give on the tasks with the second pipe on them.
pub proof fn lemma_fork_threads_b<
    T: StreamTask,
    PA: PipeTask<T::Item>,
    PB: PipeTask<T::Item>,
    FA: Factory,
    FB: Factory,
    CA: ReducerAsync,
    CB: ReducerAsync,
>(
    tasks: Seq<ForkTask<T, PA, PB>>,
    threads: int,
    factory_a: FA,
    factory_b: FB,
    top: ReduceC2Async<CA, CB>,
    out: (CA::Output, CB::Output),
)
    where
        T::Item: Copy,
        FA::Item: Reducer<Item = PA::Item>,
        FB::Item: Reducer<Item = PB::Item>,
        CA: ReducerAsync<Item = <FA::Item as Reducer>::Output>,
        CB: ReducerAsync<Item = <FB::Item as Reducer>::Output>,

    requires
        par_reduces(tasks, threads, Lowering(ReduceA2Factory(factory_a, factory_b)), top, out),
    ensures
        par_reduces(
            tasks.map_values(|task: ForkTask<T, PA, PB>| only_b(task)),
            threads,
            Lowering(factory_b),
            top.b,
            out.1,
        ),
{
    let (bins, outs) = choose|
        bins: Seq<Seq<ForkTask<T, PA, PB>>>,
        outs: Seq<(<FA::Item as Reducer>::Output, <FB::Item as Reducer>::Output)>,
    |
        evenly_dealt(tasks, threads, bins) && #[trigger] bins_reduce(
            Lowering(ReduceA2Factory(factory_a, factory_b)),
            bins,
            outs,
        ) && reduces(top, outs, out);
    let end = choose|end: ReduceC2Async<CA, CB>| offered(top, outs, end) && #[trigger] end.yields(out);
    lemma_pair_halves(top, outs, end);
    let f = |task: ForkTask<T, PA, PB>| only_b(task);
    lemma_dealt_map(tasks, bins, f);
    lemma_fork_bins_b::<T, PA, PB, FA, FB>(factory_a, factory_b, bins, outs);
    let bins_b = bins_map(bins, f);
    assert(evenly_dealt(tasks.map_values(f), threads, bins_b)) by {
        assert forall|i: int| 0 <= i < threads implies (#[trigger] bins_b[i]).len()
            == bins[i].len() by {}
    }
    assert(end.b.yields(out.1));
    assert(reduces(top.b, seconds(outs), out.1));
}

/// What processes that run two reducers side by side give holds in its
/// second halves what the second reducers alone give on the tasks with the
/// second pipe on them.
pub proof fn lemma_fork_procs_b<
    T: StreamTask,
    PA: PipeTask<T::Item>,
    PB: PipeTask<T::Item>,
    FA: Factory,
    FB: Factory,
    GA: Factory,
    GB: Factory,
>(
    factory_a: FA,
    factory_b: FB,
    above_a: GA,
    above_b: GB,
    threads: int,
    bins: Seq<Seq<ForkTask<T, PA, PB>>>,
    outs: Seq<(<GA::Item as Reducer>::Output, <GB::Item as Reducer>::Output)>,
)
    where
        T::Item: Copy,
        FA::Item: Reducer<Item = PA::Item>,
        FB::Item: Reducer<Item = PB::Item>,
        GA::Item: Reducer<Item = <FA::Item as Reducer>::Output>,
        GB::Item: Reducer<Item = <FB::Item as Reducer>::Output>,

    requires
        procs_reduce(
            Lowering(ReduceA2Factory(factory_a, factory_b)),
            Lowering(ReduceC2Factory(above_a, above_b)),
            threads,
            bins,
            outs,
        ),
    ensures
        procs_reduce(
            Lowering(factory_b),
            Lowering(above_b),
            threads,
            bins_map(bins, |task: ForkTask<T, PA, PB>| only_b(task)),
            seconds(outs),
        ),
    decreases bins.len(),
{
    let f = |task: ForkTask<T, PA, PB>| only_b(task);
    let bins_b = bins_map(bins, f);
    let outs_b = seconds(outs);
    if bins.len() > 0 {
        assert(bins_b.drop_last() =~= bins_map(bins.drop_last(), f));
        assert(bins_b.last() == bins.last().map_values(f));
        if bins.last().len() == 0 {
            lemma_fork_procs_b::<T, PA, PB, FA, FB, GA, GB>(
                factory_a,
                factory_b,
                above_a,
                above_b,
                threads,
                bins.drop_last(),
                outs,
            );
        } else {
            lemma_fork_procs_b::<T, PA, PB, FA, FB, GA, GB>(
                factory_a,
                factory_b,
                above_a,
                above_b,
                threads,
                bins.drop_last(),
                outs.drop_last(),
            );
            assert(outs_b.drop_last() =~= seconds(outs.drop_last()));
            let pair = choose|pair: ReduceC2Async<<GA::Item as Reducer>::Async, <GB::Item as Reducer>::Async>| #[trigger]
                Lowering(ReduceC2Factory(above_a, above_b)).makes(pair) && par_reduces(
                    bins.last(),
                    threads,
                    Lowering(ReduceA2Factory(factory_a, factory_b)),
                    pair,
                    outs.last(),
                );
            let made = choose|made: ReduceC2<GA::Item, GB::Item>| #[trigger]
                ReduceC2Factory(above_a, above_b).makes(made) && pair == made.lowered();
            lemma_fork_threads_b::<
                T,
                PA,
                PB,
                FA,
                FB,
                <GA::Item as Reducer>::Async,
                <GB::Item as Reducer>::Async,
            >(bins.last(), threads, factory_a, factory_b, pair, outs.last());
            assert(above_b.makes(made.b));
            assert(Lowering(above_b).makes(pair.b));
            assert(proc_reduces(
                Lowering(factory_b),
                Lowering(above_b),
                threads,
                bins_b.last(),
                outs_b.last(),
            ));
        }
    } else {
        assert(outs_b =~= Seq::empty());
    }
}

/// Feeding a stream to two terminal operators at once, on the threads of one
/// process, gives what reducing it through each of them gives: each sink is
/// handed every item that its own pipe makes of the source, once and in
/// order, on the same dealing of the tasks.
pub proof fn lemma_par_fork_is_two_pipes<
    T: StreamTask,
    KA: ParallelSink<T::Item>,
    KB: ParallelSink<T::Item>,
>(tasks: Seq<T>, threads: int, sink_a: KA, sink_b: KB, out: (KA::Output, KB::Output))
    where T::Item: Copy
    requires
        par_fork_reduces(tasks, threads, sink_a, sink_b, out),
    ensures
        par_pipe_reduces(tasks, threads, sink_a, out.0),
        par_pipe_reduces(tasks, threads, sink_b, out.1),
{
    let (pipe_a, a_a, a_c, pipe_b, b_a, b_c) = choose|
        pipe_a: KA::Pipe,
        a_a: KA::ReduceAFactory,
        a_c: KA::ReduceC,
        pipe_b: KB::Pipe,
        b_a: KB::ReduceAFactory,
        b_c: KB::ReduceC,
    |
        sink_a.splits(
            pipe_a,
            a_a,
            a_c,
        ) && sink_b.splits(pipe_b, b_a, b_c) && #[trigger] par_reduces(
            fork_connected(tasks, pipe_a, pipe_b),
            threads,
            Lowering(ReduceA2Factory(a_a, b_a)),
            ReduceC2 { a: a_c, b: b_c }.lowered(),
            out,
        );
    let forked_tasks = fork_connected(tasks, pipe_a, pipe_b);
    let top = ReduceC2 { a: a_c, b: b_c }.lowered();
    lemma_fork_threads_a::<
        T,
        <KA::Pipe as ParallelPipe<T::Item>>::Task,
        <KB::Pipe as ParallelPipe<T::Item>>::Task,
        KA::ReduceAFactory,
        KB::ReduceAFactory,
        <KA::ReduceC as Reducer>::Async,
        <KB::ReduceC as Reducer>::Async,
    >(forked_tasks, threads, a_a, b_a, top, out);
    lemma_fork_threads_b::<
        T,
        <KA::Pipe as ParallelPipe<T::Item>>::Task,
        <KB::Pipe as ParallelPipe<T::Item>>::Task,
        KA::ReduceAFactory,
        KB::ReduceAFactory,
        <KA::ReduceC as Reducer>::Async,
        <KB::ReduceC as Reducer>::Async,
    >(forked_tasks, threads, a_a, b_a, top, out);
    assert(forked_tasks.map_values(
        |
            task: ForkTask<
                T,
                <KA::Pipe as ParallelPipe<T::Item>>::Task,
                <KB::Pipe as ParallelPipe<T::Item>>::Task,
            >,
        | only_a(task),
    ) =~= connected::<T, T::Item, KA::Pipe>(tasks, pipe_a));
    assert(forked_tasks.map_values(
        |
            task: ForkTask<
                T,
                <KA::Pipe as ParallelPipe<T::Item>>::Task,
                <KB::Pipe as ParallelPipe<T::Item>>::Task,
            >,
        | only_b(task),
    ) =~= connected::<T, T::Item, KB::Pipe>(tasks, pipe_b));
    assert(sink_a.splits(pipe_a, a_a, a_c));
    assert(sink_b.splits(pipe_b, b_a, b_c));
}

/// Feeding a stream to two terminal operators at once, on a pool of
/// processes, gives what reducing it through each of them gives.
pub proof fn lemma_dist_fork_is_two_pipes<
    T: StreamTask,
    KA: DistributedSink<T::Item>,
    KB: DistributedSink<T::Item>,
>(
    tasks: Seq<T>,
    processes: int,
    threads: int,
    sink_a: KA,
    sink_b: KB,
    out: (KA::Output, KB::Output),
)
    where T::Item: Copy
    requires
        dist_fork_reduces(tasks, processes, threads, sink_a, sink_b, out),
    ensures
        dist_pipe_reduces(tasks, processes, threads, sink_a, out.0),
        dist_pipe_reduces(tasks, processes, threads, sink_b, out.1),
{
    let (pipe_a, a_a, a_b, a_c, pipe_b, b_a, b_b, b_c) = choose|
        pipe_a: KA::Pipe,
        a_a: KA::ReduceAFactory,
        a_b: KA::ReduceBFactory,
        a_c: KA::ReduceC,
        pipe_b: KB::Pipe,
        b_a: KB::ReduceAFactory,
        b_b: KB::ReduceBFactory,
        b_c: KB::ReduceC,
    |
        sink_a.splits(pipe_a, a_a, a_b, a_c) && sink_b.splits(pipe_b, b_a, b_b, b_c)
            && #[trigger] dist_reduces(
            fork_connected(tasks, pipe_a, pipe_b),
            processes,
            threads,
            Lowering(ReduceA2Factory(a_a, b_a)),
            Lowering(ReduceC2Factory(a_b, b_b)),
            ReduceC2 { a: a_c, b: b_c }.lowered(),
            out,
        );
    let forked_tasks = fork_connected(tasks, pipe_a, pipe_b);
    let top = ReduceC2 { a: a_c, b: b_c }.lowered();
    let (bins, outs) = choose|
        bins: Seq<
            Seq<
                ForkTask<
                    T,
                    <KA::Pipe as ParallelPipe<T::Item>>::Task,
                    <KB::Pipe as ParallelPipe<T::Item>>::Task,
                >,
            >,
        >,
        outs: Seq<(<KA::ReduceB as Reducer>::Output, <KB::ReduceB as Reducer>::Output)>,
    |
        evenly_dealt(forked_tasks, processes, bins) && #[trigger] procs_reduce(
            Lowering(ReduceA2Factory(a_a, b_a)),
            Lowering(ReduceC2Factory(a_b, b_b)),
            threads,
            bins,
            outs,
        ) && reduces(top, outs, out);
    let end = choose|end: ReduceC2Async<<KA::ReduceC as Reducer>::Async, <KB::ReduceC as Reducer>::Async>|
        offered(top, outs, end) && #[trigger] end.yields(out);
    lemma_pair_halves(top, outs, end);
    let to_a = |
        task: ForkTask<
            T,
            <KA::Pipe as ParallelPipe<T::Item>>::Task,
            <KB::Pipe as ParallelPipe<T::Item>>::Task,
        >,
    | only_a(task);
    let to_b = |
        task: ForkTask<
            T,
            <KA::Pipe as ParallelPipe<T::Item>>::Task,
            <KB::Pipe as ParallelPipe<T::Item>>::Task,
        >,
    | only_b(task);
    lemma_dealt_map(forked_tasks, bins, to_a);
    lemma_dealt_map(forked_tasks, bins, to_b);
    lemma_fork_procs_a::<
        T,
        <KA::Pipe as ParallelPipe<T::Item>>::Task,
        <KB::Pipe as ParallelPipe<T::Item>>::Task,
        KA::ReduceAFactory,
        KB::ReduceAFactory,
        KA::ReduceBFactory,
        KB::ReduceBFactory,
    >(a_a, b_a, a_b, b_b, threads, bins, outs);
    lemma_fork_procs_b::<
        T,
        <KA::Pipe as ParallelPipe<T::Item>>::Task,
        <KB::Pipe as ParallelPipe<T::Item>>::Task,
        KA::ReduceAFactory,
        KB::ReduceAFactory,
        KA::ReduceBFactory,
        KB::ReduceBFactory,
    >(a_a, b_a, a_b, b_b, threads, bins, outs);
    let bins_a = bins_map(bins, to_a);
    let bins_b = bins_map(bins, to_b);
    assert(forked_tasks.map_values(to_a) =~= connected::<T, T::Item, KA::Pipe>(tasks, pipe_a));
    assert(forked_tasks.map_values(to_b) =~= connected::<T, T::Item, KB::Pipe>(tasks, pipe_b));
    assert(evenly_dealt(connected::<T, T::Item, KA::Pipe>(tasks, pipe_a), processes, bins_a)) by {
        assert forall|i: int| 0 <= i < processes implies (#[trigger] bins_a[i]).len()
            == bins[i].len() by {}
    }
    assert(evenly_dealt(connected::<T, T::Item, KB::Pipe>(tasks, pipe_b), processes, bins_b)) by {
        assert forall|i: int| 0 <= i < processes implies (#[trigger] bins_b[i]).len()
            == bins[i].len() by {}
    }
    assert(end.a.yields(out.0));
    assert(end.b.yields(out.1));
    assert(reduces(a_c.lowered(), firsts(outs), out.0));
    assert(reduces(b_c.lowered(), seconds(outs), out.1));
    assert(dist_reduces(
        connected::<T, T::Item, KA::Pipe>(tasks, pipe_a),
        processes,
        threads,
        Lowering(a_a),
        Lowering(a_b),
        a_c.lowered(),
        out.0,
    ));
    assert(dist_reduces(
        connected::<T, T::Item, KB::Pipe>(tasks, pipe_b),
        processes,
        threads,
        Lowering(b_a),
        Lowering(b_b),
        b_c.lowered(),
        out.1,
    ));
    assert(sink_a.splits(pipe_a, a_a, a_b, a_c));
    assert(sink_b.splits(pipe_b, b_a, b_b, b_c));
}

} // verus!
