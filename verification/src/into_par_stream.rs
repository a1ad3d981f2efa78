//! Items at hand as a stream of tasks: one task for each item.

use vstd::prelude::*;
use crate::par_stream::{DistributedStream, ParallelStream, StreamTask, StreamTaskAsync, TaskStream};
use crate::par_stream::reduce::{tasks_inv, tasks_items};
use crate::stream::{reversed, Once};

verus! {

/// The task that hands out one item.
pub struct IterStreamTask<T> {
    pub item: T,
}

impl<T> StreamTask for IterStreamTask<T> {
    type Item = T;

    type Async = Once<T>;

    open spec fn inv(&self) -> bool {
        true
    }

    open spec fn items(&self) -> Seq<T> {
        seq![self.item]
    }

    fn into_async(self) -> (a: Once<T>) {
        Once::new(self.item)
    }
}

impl<T> StreamTaskAsync for Once<T> {

}

/// A stream of tasks over items at hand. Its lower bound is exact.
pub struct IterParStream<T> {
    /// The items still to hand out, last one first.
    pub reversed: Vec<T>,
}

impl<T> IterParStream<T> {
    /// The items still to hand out, first one first.
    pub open spec fn items(&self) -> Seq<T> {
        self.reversed@.reverse()
    }

    /// The stream that hands out one task for each of `items`, in order.
    pub fn new(items: Vec<T>) -> (s: Self)
        ensures
            s.items() == items@,
    {
        let s = IterParStream { reversed: reversed(items) };
        proof {
            assert(items@.reverse().reverse() =~= items@);
        }
        s
    }
}

impl<T> TaskStream for IterParStream<T> {
    type Item = T;

    type Task = IterStreamTask<T>;

    open spec fn inv(&self) -> bool {
        true
    }

    open spec fn tasks(&self) -> Seq<IterStreamTask<T>> {
        self.items().map_values(|item: T| IterStreamTask { item })
    }

    open spec fn hint(&self) -> (usize, Option<usize>) {
        (self.reversed.len(), Some(self.reversed.len()))
    }

    fn size_hint(&self) -> (r: (usize, Option<usize>)) {
        (self.reversed.len(), Some(self.reversed.len()))
    }

    fn next_task(&mut self) -> (r: Option<IterStreamTask<T>>) {
        let ghost before = self.items();
        match self.reversed.pop() {
            Some(item) => {
                proof {
                    assert(before[0] == item);
                    assert(self.items() =~= before.drop_first());
                    assert(self.tasks() =~= old(self).tasks().drop_first());
                }
                Some(IterStreamTask { item })
            },
            None => None,
        }
    }
}

impl<T> ParallelStream for IterParStream<T> {

}

impl<T> DistributedStream for IterParStream<T> {

}

/// The items of the tasks of a stream over items at hand are those items, in
/// order, and every task is well-formed.
pub proof fn lemma_source_items<T>(items: Seq<T>)
    ensures
        tasks_items(items.map_values(|item: T| IterStreamTask { item })) == items,
        tasks_inv(items.map_values(|item: T| IterStreamTask { item })),
    decreases items.len(),
{
    let tasks = items.map_values(|item: T| IterStreamTask { item });
    if items.len() > 0 {
        lemma_source_items(items.drop_last());
        assert(tasks.drop_last() =~= items.drop_last().map_values(
            |item: T| IterStreamTask { item },
        ));
        assert(tasks.last().items() == seq![items.last()]);
        assert(tasks_items(tasks) =~= items);
    } else {
        assert(tasks_items(tasks) =~= items);
    }
}

/// Values that turn into a stream of tasks for the threads of one process.
pub trait IntoParallelStream {
    type Item;

    type ParStream: ParallelStream<Item = Self::Item>;

    /// The stream of tasks over this value.
    fn into_par_stream(self) -> (s: Self::ParStream)
        ensures
            s.inv(),
    ;
}

/// Values that turn into a stream of tasks for a pool of processes.
pub trait IntoDistributedStream {
    type Item;

    type DistStream: DistributedStream<Item = Self::Item>;

    /// The stream of tasks over this value.
    fn into_dist_stream(self) -> (s: Self::DistStream)
        ensures
            s.inv(),
    ;
}

impl<T> IntoParallelStream for Vec<T> {
    type Item = T;

    type ParStream = IterParStream<T>;

    fn into_par_stream(self) -> (s: IterParStream<T>)
        ensures
            s.items() == self@,
    {
        IterParStream::new(self)
    }
}

impl<T> IntoDistributedStream for Vec<T> {
    type Item = T;

    type DistStream = IterParStream<T>;

    fn into_dist_stream(self) -> (s: IterParStream<T>)
        ensures
            s.items() == self@,
    {
        IterParStream::new(self)
    }
}

} // verus!
