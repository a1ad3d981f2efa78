//! Streams with a pipe on them, and reducing a stream through a terminal
//! operator.

use vstd::prelude::*;
use crate::par_pipe::{piped, pipes, ParallelPipe, PipeTask, PipeTaskAsync, Piped};
use crate::par_sink::{DistributedSink, Lowering, ParallelSink, Reducer};
use crate::par_stream::reduce::{
    dist_reduce, dist_reduces, dist_runs, par_reduce, par_reduces, par_runs, tasks_inv,
    tasks_items,
};
use crate::par_pipe::identity::Identity;
use crate::par_stream::{DistributedStream, ParallelStream, StreamTask, StreamTaskAsync, TaskStream};
use crate::stream::Stream;

verus! {

/// A stream of tasks with a pipe on each task.
pub struct Connect<A, B>(pub A, pub B);

/// A task with a pipe on it.
pub struct ConnectTask<A, B>(pub A, pub B);

/// `tasks`, each with the pipe that `pipe` makes.
pub open spec fn connected<T, Source, B: ParallelPipe<Source>>(tasks: Seq<T>, pipe: B) -> Seq<
    ConnectTask<T, B::Task>,
> {
    tasks.map_values(|task: T| ConnectTask(task, pipe.made_task()))
}

impl<A: TaskStream, B: ParallelPipe<A::Item>> TaskStream for Connect<A, B> {
    type Item = B::Item;

    type Task = ConnectTask<A::Task, B::Task>;

    open spec fn inv(&self) -> bool {
        self.0.inv() && self.1.inv()
    }

    open spec fn tasks(&self) -> Seq<ConnectTask<A::Task, B::Task>> {
        connected(self.0.tasks(), self.1)
    }

    open spec fn hint(&self) -> (usize, Option<usize>) {
        self.0.hint()
    }

    fn size_hint(&self) -> (r: (usize, Option<usize>)) {
        self.0.size_hint()
    }

    fn next_task(&mut self) -> (r: Option<ConnectTask<A::Task, B::Task>>) {
        match self.0.next_task() {
            Some(task) => {
                proof {
                    assert(self.tasks() =~= old(self).tasks().drop_first());
                }
                Some(ConnectTask(task, self.1.task()))
            },
            None => None,
        }
    }
}

impl<A: ParallelStream, B: ParallelPipe<A::Item>> ParallelStream for Connect<A, B> {

}

impl<A: DistributedStream, B: ParallelPipe<A::Item>> DistributedStream for Connect<A, B> {

}

impl<T: StreamTask, P: PipeTask<T::Item>> StreamTask for ConnectTask<T, P> {
    type Item = P::Item;

    type Async = Piped<T::Async, P::Async>;

    open spec fn inv(&self) -> bool {
        self.0.inv() && pipes(self.1, self.0.items())
    }

    open spec fn items(&self) -> Seq<P::Item> {
        piped(self.1, self.0.items())
    }

    fn into_async(self) -> (a: Piped<T::Async, P::Async>) {
        let a = Piped { stream: self.0.into_async(), pipe: self.1.into_async() };
        assert(a.inv());
        assert(a.rest() == self.items());
        a
    }
}

impl<S: Stream, P: PipeTaskAsync<S::Item>> StreamTaskAsync for Piped<S, P> {

}

/// Whether `out` may come of reducing `tasks` through `sink` on `threads`
/// threads: every task gets the sink's pipe, the threads run reducers of the
/// sink's factory, and the sink's last reducer is handed the threads' outputs.
pub open spec fn par_pipe_reduces<T: StreamTask, K: ParallelSink<T::Item>>(
    tasks: Seq<T>,
    threads: int,
    sink: K,
    out: K::Output,
) -> bool {
    exists|pipe: K::Pipe, a: K::ReduceAFactory, c: K::ReduceC| #[trigger]
        sink.splits(pipe, a, c) && par_reduces(
            connected(tasks, pipe),
            threads,
            Lowering(a),
            c.lowered(),
            out,
        )
}

/// Whether `tasks` can be reduced through `sink` on `threads` threads.
pub open spec fn par_pipe_runs<T: StreamTask, K: ParallelSink<T::Item>>(
    tasks: Seq<T>,
    threads: int,
    sink: K,
) -> bool {
    forall|pipe: K::Pipe, a: K::ReduceAFactory, c: K::ReduceC| #[trigger]
        sink.splits(pipe, a, c) ==> par_runs(
            connected(tasks, pipe),
            threads,
            Lowering(a),
            c.lowered(),
        )
}

/// Reduces a stream of tasks through a terminal operator on `threads`
/// threads.
pub fn par_pipe<S: TaskStream, K: ParallelSink<S::Item>>(
    stream: S,
    threads: usize,
    sink: K,
) -> (out:
    K::Output)
    requires
        stream.inv(),
        sink.inv(),
        0 < threads,
        stream.tasks().len() < usize::MAX,
        par_pipe_runs(stream.tasks(), threads as int, sink),
    ensures
        par_pipe_reduces(stream.tasks(), threads as int, sink, out),
{
    let (pipe, reduce_a_factory, reduce_c) = sink.reducers();
    let lowering = Lowering(reduce_a_factory);
    par_reduce(Connect(stream, pipe), threads, &lowering, reduce_c.into_async())
}

/// Whether `out` may come of reducing `tasks` through `sink` on `processes`
/// processes of `threads` threads each.
pub open spec fn dist_pipe_reduces<T: StreamTask, K: DistributedSink<T::Item>>(
    tasks: Seq<T>,
    processes: int,
    threads: int,
    sink: K,
    out: K::Output,
) -> bool {
    exists|pipe: K::Pipe, a: K::ReduceAFactory, b: K::ReduceBFactory, c: K::ReduceC| #[trigger]
        sink.splits(pipe, a, b, c) && dist_reduces(
            connected(tasks, pipe),
            processes,
            threads,
            Lowering(a),
            Lowering(b),
            c.lowered(),
            out,
        )
}

/// Whether `tasks` can be reduced through `sink` on `processes` processes of
/// `threads` threads each.
pub open spec fn dist_pipe_runs<T: StreamTask, K: DistributedSink<T::Item>>(
    tasks: Seq<T>,
    processes: int,
    threads: int,
    sink: K,
) -> bool {
    forall|pipe: K::Pipe, a: K::ReduceAFactory, b: K::ReduceBFactory, c: K::ReduceC| #[trigger]
        sink.splits(pipe, a, b, c) ==> dist_runs(
            connected(tasks, pipe),
            processes,
            threads,
            Lowering(a),
            Lowering(b),
            c.lowered(),
        )
}

/// Reduces a stream of tasks through a terminal operator on `processes`
/// processes of `threads` threads each.
pub fn dist_pipe<S: TaskStream, K: DistributedSink<S::Item>>(
    stream: S,
    processes: usize,
    threads: usize,
    sink: K,
) -> (out: K::Output)
    requires
        stream.inv(),
        sink.inv(),
        0 < processes,
        0 < threads,
        stream.tasks().len() < usize::MAX,
        dist_pipe_runs(stream.tasks(), processes as int, threads as int, sink),
    ensures
        dist_pipe_reduces(stream.tasks(), processes as int, threads as int, sink, out),
{
    let (pipe, reduce_a_factory, reduce_b_factory, reduce_c) = sink.reducers();
    let lowering_a = Lowering(reduce_a_factory);
    let lowering_b = Lowering(reduce_b_factory);
    dist_reduce(
        Connect(stream, pipe),
        processes,
        threads,
        &lowering_a,
        &lowering_b,
        reduce_c.into_async(),
    )
}

/// Tasks with the pipe on them that forwards its items untouched have the
/// items that they have without it.
pub proof fn lemma_connected_identity<T: StreamTask>(tasks: Seq<T>)
    ensures
        tasks_items(connected::<T, T::Item, Identity>(tasks, Identity)) == tasks_items(tasks),
    decreases tasks.len(),
{
    let with_pipe = connected::<T, T::Item, Identity>(tasks, Identity);
    if tasks.len() > 0 {
        lemma_connected_identity(tasks.drop_last());
        assert(with_pipe.drop_last() =~= connected::<T, T::Item, Identity>(
            tasks.drop_last(),
            Identity,
        ));
        assert(with_pipe.last().items() == tasks.last().items());
    }
}

/// Well-formed tasks stay well-formed with the pipe on them that forwards its
/// items untouched.
pub proof fn lemma_connected_identity_inv<T: StreamTask>(tasks: Seq<T>)
    requires
        tasks_inv(tasks),
    ensures
        tasks_inv(connected::<T, T::Item, Identity>(tasks, Identity)),
{
    let with_pipe = connected::<T, T::Item, Identity>(tasks, Identity);
    assert forall|i: int| 0 <= i < with_pipe.len() implies (#[trigger] with_pipe[i]).inv() by {
        assert(with_pipe[i].0 == tasks[i]);
        assert(tasks[i].inv());
    }
}

} // verus!
