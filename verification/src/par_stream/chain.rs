//! One stream of tasks after another.

use vstd::prelude::*;
use crate::par_stream::{DistributedStream, ParallelStream, StreamTask, StreamTaskAsync, TaskStream};
use crate::stream::{Poll, Stream};

verus! {

/// The stream that hands out the tasks of `.0` and then those of `.1`.
pub struct Chain<A, B>(pub A, pub B);

/// A task of one of two streams.
pub enum ChainTask<A, B> {
    First(A),
    Second(B),
}

/// A running task of one of two streams.
pub enum ChainTaskAsync<A, B> {
    First(A),
    Second(B),
}

/// The tasks of a chain: those of the first stream, then those of the second.
pub open spec fn chained<A, B>(first: Seq<A>, second: Seq<B>) -> Seq<ChainTask<A, B>> {
    first.map_values(|task: A| ChainTask::<A, B>::First(task)) + second.map_values(
        |task: B| ChainTask::<A, B>::Second(task),
    )
}

/// The sum of two bounds, or the greatest number where the sum is beyond it.
pub fn saturating_sum(a: usize, b: usize) -> (sum: usize)
    ensures
        sum == if a + b <= usize::MAX {
            a + b
        } else {
            usize::MAX as int
        },
{
    if a > usize::MAX - b {
        usize::MAX
    } else {
        a + b
    }
}

/// The sum of two upper bounds, where both are there and the sum is a number.
pub fn checked_sum(a: Option<usize>, b: Option<usize>) -> (sum: Option<usize>)
    ensures
        sum == match (a, b) {
            (Some(x), Some(y)) => if x + y <= usize::MAX {
                Some((x + y) as usize)
            } else {
                None
            },
            _ => None,
        },
{
    match (a, b) {
        (Some(x), Some(y)) => if x > usize::MAX - y {
            None
        } else {
            Some(x + y)
        },
        _ => None,
    }
}

impl<A: TaskStream, B: TaskStream<Item = A::Item>> TaskStream for Chain<A, B> {
    type Item = A::Item;

    type Task = ChainTask<A::Task, B::Task>;

    open spec fn inv(&self) -> bool {
        self.0.inv() && self.1.inv()
    }

    open spec fn tasks(&self) -> Seq<ChainTask<A::Task, B::Task>> {
        chained(self.0.tasks(), self.1.tasks())
    }

    open spec fn hint(&self) -> (usize, Option<usize>) {
        (
            if self.0.hint().0 + self.1.hint().0 <= usize::MAX {
                (self.0.hint().0 + self.1.hint().0) as usize
            } else {
                usize::MAX
            },
            match (self.0.hint().1, self.1.hint().1) {
                (Some(x), Some(y)) => if x + y <= usize::MAX {
                    Some((x + y) as usize)
                } else {
                    None
                },
                _ => None,
            },
        )
    }

    fn size_hint(&self) -> (r: (usize, Option<usize>)) {
        let (a_lower, a_upper) = self.0.size_hint();
        let (b_lower, b_upper) = self.1.size_hint();
        (saturating_sum(a_lower, b_lower), checked_sum(a_upper, b_upper))
    }

    fn next_task(&mut self) -> (r: Option<ChainTask<A::Task, B::Task>>) {
        let ghost first = self.0.tasks();
        let ghost second = self.1.tasks();
        match self.0.next_task() {
            Some(task) => {
                proof {
                    assert(self.tasks() =~= old(self).tasks().drop_first());
                }
                Some(ChainTask::First(task))
            },
            None => match self.1.next_task() {
                Some(task) => {
                    proof {
                        assert(old(self).tasks() =~= second.map_values(
                            |task: B::Task| ChainTask::<A::Task, B::Task>::Second(task),
                        ));
                        assert(self.tasks() =~= old(self).tasks().drop_first());
                    }
                    Some(ChainTask::Second(task))
                },
                None => None,
            },
        }
    }
}

impl<A: ParallelStream, B: ParallelStream<Item = A::Item>> ParallelStream for Chain<A, B> {

}

impl<A: DistributedStream, B: DistributedStream<Item = A::Item>> DistributedStream for Chain<A, B> {

}

impl<A: StreamTask, B: StreamTask<Item = A::Item>> StreamTask for ChainTask<A, B> {
    type Item = A::Item;

    type Async = ChainTaskAsync<A::Async, B::Async>;

    open spec fn inv(&self) -> bool {
        match *self {
            ChainTask::First(task) => task.inv(),
            ChainTask::Second(task) => task.inv(),
        }
    }

    open spec fn items(&self) -> Seq<A::Item> {
        match *self {
            ChainTask::First(task) => task.items(),
            ChainTask::Second(task) => task.items(),
        }
    }

    fn into_async(self) -> (a: ChainTaskAsync<A::Async, B::Async>) {
        let a = match self {
            ChainTask::First(task) => ChainTaskAsync::First(task.into_async()),
            ChainTask::Second(task) => ChainTaskAsync::Second(task.into_async()),
        };
        assert(a.inv());
        assert(a.rest() == self.items());
        a
    }
}

impl<A: Stream, B: Stream<Item = A::Item>> Stream for ChainTaskAsync<A, B> {
    type Item = A::Item;

    open spec fn inv(&self) -> bool {
        match *self {
            ChainTaskAsync::First(task) => task.inv(),
            ChainTaskAsync::Second(task) => task.inv(),
        }
    }

    open spec fn rest(&self) -> Seq<A::Item> {
        match *self {
            ChainTaskAsync::First(task) => task.rest(),
            ChainTaskAsync::Second(task) => task.rest(),
        }
    }

    open spec fn stalls(&self) -> nat {
        match *self {
            ChainTaskAsync::First(task) => task.stalls(),
            ChainTaskAsync::Second(task) => task.stalls(),
        }
    }

    fn poll_next(&mut self) -> (r: Poll<Option<A::Item>>) {
        match self {
            ChainTaskAsync::First(task) => task.poll_next(),
            ChainTaskAsync::Second(task) => task.poll_next(),
        }
    }
}

impl<A: Stream, B: Stream<Item = A::Item>> StreamTaskAsync for ChainTaskAsync<A, B> {

}

} // verus!
