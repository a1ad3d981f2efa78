//! The pipe that shows every item to a function and forwards it untouched.

use vstd::prelude::*;
use std::sync::Arc;
use crate::func::share;
use crate::par_pipe::{DistributedPipe, ParallelPipe, PipeTask, PipeTaskAsync};
use crate::stream::{Poll, Stream};

verus! {

/// The description of a pipe that calls `f` on every item of `i`, borrowed,
/// and forwards the item.
pub struct Inspect<I, F> {
    pub i: I,
    pub f: Arc<F>,
}

impl<I, F> Inspect<I, F> {
    /// The description as [`new`](Inspect::new) makes it.
    pub open spec fn of(i: I, f: F) -> Self {
        Inspect { i, f: Arc::new(f) }
    }

    pub fn new(i: I, f: F) -> (m: Self)
        ensures
            m == Self::of(i, f),
    {
        Inspect { i, f: Arc::new(f) }
    }
}

/// The pipe that calls `f` on every item of `task`, borrowed, and forwards
/// the item.
pub struct InspectTask<C, F> {
    pub task: C,
    pub f: Arc<F>,
}

impl<C, F> InspectTask<C, F> {
    /// The function that the pipe calls.
    pub open spec fn func(&self) -> F {
        *self.f
    }
}

/// Whether `f` can be called on every one of `items`, borrowed.
pub open spec fn can_inspect<A, F: Fn(&A)>(f: F, items: Seq<A>) -> bool {
    forall|i: int| 0 <= i < items.len() ==> call_requires(f, (&#[trigger] items[i],))
}

impl<Source, I: ParallelPipe<Source>, F: Fn(&I::Item)> ParallelPipe<Source> for Inspect<I, F> {
    type Item = I::Item;

    type Task = InspectTask<I::Task, F>;

    open spec fn inv(&self) -> bool {
        self.i.inv()
    }

    open spec fn made_task(&self) -> InspectTask<I::Task, F> {
        InspectTask { task: self.i.made_task(), f: self.f }
    }

    fn task(&self) -> (t: InspectTask<I::Task, F>) {
        let t = InspectTask { task: self.i.task(), f: share(&self.f) };
        assert(<InspectTask<I::Task, F> as PipeTask<Source>>::inv(&t));
        t
    }
}

impl<Source, I: DistributedPipe<Source>, F: Fn(&I::Item)> DistributedPipe<Source> for Inspect<I, F> {

}

impl<Source, C: PipeTask<Source>, F: Fn(&C::Item)> PipeTask<Source> for InspectTask<C, F> {
    type Item = C::Item;

    type Async = InspectTask<C::Async, F>;

    open spec fn inv(&self) -> bool {
        self.task.inv()
    }

    open spec fn lowered(self) -> InspectTask<C::Async, F> {
        InspectTask { task: self.task.lowered(), f: self.f }
    }

    fn into_async(self) -> (a: InspectTask<C::Async, F>) {
        let a = InspectTask { task: self.task.into_async(), f: self.f };
        assert(<InspectTask<C::Async, F> as PipeTaskAsync<Source>>::inv(&a));
        a
    }
}

impl<Source, C: PipeTaskAsync<Source>, F: Fn(&C::Item)> PipeTaskAsync<Source> for InspectTask<C, F> {
    type Item = C::Item;

    open spec fn inv(&self) -> bool {
        self.task.inv()
    }

    open spec fn takes(&self, items: Seq<Source>) -> bool {
        &&& self.task.takes(items)
        &&& can_inspect(*self.f, self.task.pending(items))
    }

    open spec fn pending(&self, items: Seq<Source>) -> Seq<C::Item> {
        self.task.pending(items)
    }

    proof fn lemma_pending_concat(&self, first: Seq<Source>, second: Seq<Source>) {
        self.task.lemma_pending_concat(first, second);
        let a = self.task.pending(first);
        let b = self.task.pending(second);
        if can_inspect(self.func(), a + b) {
            assert forall|i: int| 0 <= i < a.len() implies call_requires(
                self.func(),
                (&#[trigger] a[i],),
            ) by {
                assert((a + b)[i] == a[i]);
            }
            assert forall|i: int| 0 <= i < b.len() implies call_requires(
                self.func(),
                (&#[trigger] b[i],),
            ) by {
                assert((a + b)[a.len() + i] == b[i]);
            }
        }
        if can_inspect(self.func(), a) && can_inspect(self.func(), b) {
            assert forall|i: int| 0 <= i < (a + b).len() implies call_requires(
                self.func(),
                (&#[trigger] (a + b)[i],),
            ) by {
                if i < a.len() {
                    assert((a + b)[i] == a[i]);
                } else {
                    assert((a + b)[i] == b[i - a.len()]);
                }
            }
        }
    }

    fn poll_next<S: Stream<Item = Source>>(&mut self, upstream: &mut S) -> (r: Poll<
        Option<C::Item>,
    >) {
        let ghost inner_before = self.task.pending(upstream.rest());
        match self.task.poll_next(upstream) {
            Poll::Ready(Some(x)) => {
                proof {
                    let inner_after = self.task.pending(upstream.rest());
                    assert(call_requires(*self.f, (&inner_before[0],)));
                    assert forall|i: int| 0 <= i < inner_after.len() implies call_requires(
                        *self.f,
                        (&#[trigger] inner_after[i],),
                    ) by {
                        assert(inner_after[i] == inner_before[i + 1]);
                    }
                }
                let f: &F = &*self.f;
                f(&x);
                Poll::Ready(Some(x))
            },
            Poll::Ready(None) => {
                proof {
                    let inner_after = self.task.pending(upstream.rest());
                    assert(forall|i: int| 0 <= i < inner_after.len() ==> call_requires(*self.f, (&#[trigger] inner_after[i],)));
                }
                Poll::Ready(None)
            },
            Poll::Pending => Poll::Pending,
        }
    }
}

} // verus!
