//! The pipe that applies a function to every item.

use vstd::prelude::*;
use std::sync::Arc;
use crate::func::{result_of, settled, settled_on, share};
use crate::par_pipe::{DistributedPipe, ParallelPipe, PipeTask, PipeTaskAsync};
use crate::stream::{Poll, Stream};

verus! {

/// The description of a pipe that applies `f` to every item that `i` hands
/// out.
pub struct MapItems<I, F> {
    pub i: I,
    pub f: Arc<F>,
}

impl<I, F> MapItems<I, F> {
    /// The description as [`new`](MapItems::new) makes it.
    pub open spec fn of(i: I, f: F) -> Self {
        MapItems { i, f: Arc::new(f) }
    }

    pub fn new(i: I, f: F) -> (m: Self)
        ensures
            m == Self::of(i, f),
    {
        MapItems { i, f: Arc::new(f) }
    }
}

/// The pipe that applies `f` to every item that `task` hands out.
pub struct MapTask<C, F> {
    pub task: C,
    pub f: Arc<F>,
}

impl<C, F> MapTask<C, F> {
    /// The function that the pipe applies.
    pub open spec fn func(&self) -> F {
        *self.f
    }
}

/// `f` on every one of `items`.
pub open spec fn mapped<A, B, F: Fn(A) -> B>(f: F, items: Seq<A>) -> Seq<B> {
    items.map_values(|a: A| result_of(f, a))
}

impl<Source, I: ParallelPipe<Source>, B, F: Fn(I::Item) -> B> ParallelPipe<Source> for MapItems<I, F> {
    type Item = B;

    type Task = MapTask<I::Task, F>;

    open spec fn inv(&self) -> bool {
        self.i.inv()
    }

    open spec fn made_task(&self) -> MapTask<I::Task, F> {
        MapTask { task: self.i.made_task(), f: self.f }
    }

    fn task(&self) -> (t: MapTask<I::Task, F>) {
        let t = MapTask { task: self.i.task(), f: share(&self.f) };
        assert(<MapTask<I::Task, F> as PipeTask<Source>>::inv(&t));
        t
    }
}

impl<Source, I: DistributedPipe<Source>, B, F: Fn(I::Item) -> B> DistributedPipe<Source> for MapItems<
    I,
    F,
> {

}

impl<Source, C: PipeTask<Source>, B, F: Fn(C::Item) -> B> PipeTask<Source> for MapTask<C, F> {
    type Item = B;

    type Async = MapTask<C::Async, F>;

    open spec fn inv(&self) -> bool {
        self.task.inv()
    }

    open spec fn lowered(self) -> MapTask<C::Async, F> {
        MapTask { task: self.task.lowered(), f: self.f }
    }

    fn into_async(self) -> (a: MapTask<C::Async, F>) {
        let a = MapTask { task: self.task.into_async(), f: self.f };
        assert(<MapTask<C::Async, F> as PipeTaskAsync<Source>>::inv(&a));
        a
    }
}

impl<Source, C: PipeTaskAsync<Source>, B, F: Fn(C::Item) -> B> PipeTaskAsync<Source> for MapTask<
    C,
    F,
> {
    type Item = B;

    open spec fn inv(&self) -> bool {
        self.task.inv()
    }

    open spec fn takes(&self, items: Seq<Source>) -> bool {
        &&& self.task.takes(items)
        &&& settled_on(*self.f, self.task.pending(items))
    }

    open spec fn pending(&self, items: Seq<Source>) -> Seq<B> {
        mapped(*self.f, self.task.pending(items))
    }

    proof fn lemma_pending_concat(&self, first: Seq<Source>, second: Seq<Source>) {
        self.task.lemma_pending_concat(first, second);
        let a = self.task.pending(first);
        let b = self.task.pending(second);
        assert(mapped(self.func(), a + b) =~= mapped(self.func(), a) + mapped(self.func(), b));
        if settled_on(self.func(), a + b) {
            assert forall|i: int| 0 <= i < a.len() implies settled(self.func(), #[trigger] a[i]) by {
                assert((a + b)[i] == a[i]);
            }
            assert forall|i: int| 0 <= i < b.len() implies settled(self.func(), #[trigger] b[i]) by {
                assert((a + b)[a.len() + i] == b[i]);
            }
        }
        if settled_on(self.func(), a) && settled_on(self.func(), b) {
            assert forall|i: int| 0 <= i < (a + b).len() implies settled(
                self.func(),
                #[trigger] (a + b)[i],
            ) by {
                if i < a.len() {
                    assert((a + b)[i] == a[i]);
                } else {
                    assert((a + b)[i] == b[i - a.len()]);
                }
            }
        }
    }

    fn poll_next<S: Stream<Item = Source>>(&mut self, upstream: &mut S) -> (r: Poll<Option<B>>) {
        let ghost inner_before = self.task.pending(upstream.rest());
        match self.task.poll_next(upstream) {
            Poll::Ready(Some(x)) => {
                let ghost inner_after = self.task.pending(upstream.rest());
                proof {
                    assert(settled(*self.f, inner_before[0]));
                    assert(mapped(*self.f, inner_after) =~= mapped(
                        *self.f,
                        inner_before,
                    ).drop_first());
                    assert forall|i: int| 0 <= i < inner_after.len() implies settled(
                        *self.f,
                        #[trigger] inner_after[i],
                    ) by {
                        assert(inner_after[i] == inner_before[i + 1]);
                    }
                }
                let f: &F = &*self.f;
                Poll::Ready(Some(f(x)))
            },
            Poll::Ready(None) => {
                proof {
                    let inner_after = self.task.pending(upstream.rest());
                    assert(forall|i: int| 0 <= i < inner_after.len() ==> settled(*self.f, #[trigger] inner_after[i]));
                }
                Poll::Ready(None)
            },
            Poll::Pending => Poll::Pending,
        }
    }
}

} // verus!
