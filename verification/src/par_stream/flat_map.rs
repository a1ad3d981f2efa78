//! The stream that, for every item, hands out the items of the stream that a
//! function makes of it.

use vstd::prelude::*;
use std::sync::Arc;
use crate::func::{result_of, settled, share};
use crate::par_stream::{DistributedStream, ParallelStream, StreamTask, StreamTaskAsync, TaskStream};
use crate::stream::{Poll, Stream};

verus! {

/// The stream of tasks whose tasks hand out, for every item of a task of
/// `i`, the items of the stream that `f` makes of the item.
pub struct FlatMap<I, F> {
    pub i: I,
    pub f: Arc<F>,
}

impl<I, F> FlatMap<I, F> {
    /// The stream as [`new`](FlatMap::new) makes it.
    pub open spec fn of(i: I, f: F) -> Self {
        FlatMap { i, f: Arc::new(f) }
    }

    pub fn new(i: I, f: F) -> (m: Self)
        ensures
            m == Self::of(i, f),
    {
        FlatMap { i, f: Arc::new(f) }
    }
}

/// A task with the function that makes a stream of each of its items.
pub struct FlatMapTask<C, F> {
    pub task: C,
    pub f: Arc<F>,
}

/// A running task with the function that makes a stream of each of its
/// items, and the stream of the item that is being worked on: that stream is
/// drained before the next item is pulled.
pub struct FlatMapTaskAsync<C, F, B> {
    pub task: C,
    pub f: Arc<F>,
    pub inner: Option<B>,
}

/// The items of the streams that `f` makes of `items`, one stream after the
/// other.
pub open spec fn flattened<A, B: Stream, F: Fn(A) -> B>(f: F, items: Seq<A>) -> Seq<B::Item>
    decreases items.len(),
{
    if items.len() == 0 {
        Seq::empty()
    } else {
        result_of(f, items[0]).rest() + flattened(f, items.drop_first())
    }
}

/// How often the streams that `f` makes of `items` may stall, all together.
pub open spec fn flattened_stalls<A, B: Stream, F: Fn(A) -> B>(f: F, items: Seq<A>) -> nat
    decreases items.len(),
{
    if items.len() == 0 {
        0
    } else {
        result_of(f, items[0]).stalls() + flattened_stalls(f, items.drop_first())
    }
}

/// Whether `f` is settled on every one of `items` and makes a well-formed
/// stream of it.
pub open spec fn can_flatten<A, B: Stream, F: Fn(A) -> B>(f: F, items: Seq<A>) -> bool {
    forall|i: int|
        0 <= i < items.len() ==> settled(f, #[trigger] items[i]) && result_of(f, items[i]).inv()
}

impl<I: TaskStream, B: Stream, F: Fn(I::Item) -> B> TaskStream for FlatMap<I, F> {
    type Item = B::Item;

    type Task = FlatMapTask<I::Task, F>;

    open spec fn inv(&self) -> bool {
        self.i.inv()
    }

    open spec fn tasks(&self) -> Seq<FlatMapTask<I::Task, F>> {
        self.i.tasks().map_values(|task: I::Task| FlatMapTask { task, f: self.f })
    }

    open spec fn hint(&self) -> (usize, Option<usize>) {
        self.i.hint()
    }

    fn size_hint(&self) -> (r: (usize, Option<usize>)) {
        self.i.size_hint()
    }

    fn next_task(&mut self) -> (r: Option<FlatMapTask<I::Task, F>>) {
        match self.i.next_task() {
            Some(task) => {
                proof {
                    assert(self.tasks() =~= old(self).tasks().drop_first());
                }
                Some(FlatMapTask { task, f: share(&self.f) })
            },
            None => None,
        }
    }
}

impl<I: ParallelStream, B: Stream, F: Fn(I::Item) -> B> ParallelStream for FlatMap<I, F> {

}

impl<I: DistributedStream, B: Stream, F: Fn(I::Item) -> B> DistributedStream for FlatMap<I, F> {

}

impl<C: StreamTask, B: Stream, F: Fn(C::Item) -> B> StreamTask for FlatMapTask<C, F> {
    type Item = B::Item;

    type Async = FlatMapTaskAsync<C::Async, F, B>;

    open spec fn inv(&self) -> bool {
        self.task.inv() && can_flatten(*self.f, self.task.items())
    }

    open spec fn items(&self) -> Seq<B::Item> {
        flattened(*self.f, self.task.items())
    }

    fn into_async(self) -> (a: FlatMapTaskAsync<C::Async, F, B>) {
        let a = FlatMapTaskAsync { task: self.task.into_async(), f: self.f, inner: None };
        proof {
            assert(a.inv());
            assert(a.rest() =~= self.items());
        }
        a
    }
}

impl<C, F, B: Stream> FlatMapTaskAsync<C, F, B> {
    /// The items still to come of the stream that is being worked on.
    pub open spec fn inner_rest(&self) -> Seq<B::Item> {
        match self.inner {
            Some(inner) => inner.rest(),
            None => Seq::empty(),
        }
    }

    /// How often the stream that is being worked on may still stall.
    pub open spec fn inner_stalls(&self) -> nat {
        match self.inner {
            Some(inner) => inner.stalls(),
            None => 0,
        }
    }
}

impl<C: Stream, B: Stream, F: Fn(C::Item) -> B> Stream for FlatMapTaskAsync<C, F, B> {
    type Item = B::Item;

    open spec fn inv(&self) -> bool {
        &&& self.task.inv()
        &&& can_flatten(*self.f, self.task.rest())
        &&& match self.inner {
            Some(inner) => inner.inv(),
            None => true,
        }
    }

    open spec fn rest(&self) -> Seq<B::Item> {
        self.inner_rest() + flattened(*self.f, self.task.rest())
    }

    open spec fn stalls(&self) -> nat {
        self.inner_stalls() + self.task.stalls() + flattened_stalls(*self.f, self.task.rest())
    }

    fn poll_next(&mut self) -> (r: Poll<Option<B::Item>>) {
        loop
            invariant
                self.inv(),
                self.rest() == old(self).rest(),
                self.stalls() <= old(self).stalls(),
            decreases self.task.rest().len(), self.inner.is_some() as int,
        {
            match self.inner.take() {
                Some(inner) => {
                    let mut inner = inner;
                    let ghost inner_before = inner.rest();
                    match inner.poll_next() {
                        Poll::Ready(Some(y)) => {
                            self.inner = Some(inner);
                            proof {
                                assert(self.rest() =~= old(self).rest().drop_first());
                            }
                            return Poll::Ready(Some(y));
                        },
                        Poll::Ready(None) => {
                            proof {
                                assert(self.rest() =~= old(self).rest());
                            }
                        },
                        Poll::Pending => {
                            self.inner = Some(inner);
                            return Poll::Pending;
                        },
                    }
                },
                None => {},
            }
            let ghost upstream = self.task.rest();
            match self.task.poll_next() {
                Poll::Ready(Some(x)) => {
                    proof {
                        assert(settled(*self.f, upstream[0]));
                        assert forall|i: int| 0 <= i < self.task.rest().len() implies settled(
                            *self.f,
                            #[trigger] self.task.rest()[i],
                        ) && result_of(*self.f, self.task.rest()[i]).inv() by {
                            assert(self.task.rest()[i] == upstream[i + 1]);
                        }
                    }
                    let f: &F = &*self.f;
                    self.inner = Some(f(x));
                    proof {
                        assert(self.rest() =~= old(self).rest());
                    }
                },
                Poll::Ready(None) => {
                    proof {
                        assert(self.task.rest() =~= upstream);
                        assert(self.rest() =~= Seq::<B::Item>::empty());
                    }
                    return Poll::Ready(None);
                },
                Poll::Pending => {
                    return Poll::Pending;
                },
            }
        }
    }
}

impl<C: Stream, B: Stream, F: Fn(C::Item) -> B> StreamTaskAsync for FlatMapTaskAsync<C, F, B> {

}

} // verus!
