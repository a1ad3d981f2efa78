//! The pipe that keeps the items on which a predicate holds.

use vstd::prelude::*;
use std::sync::Arc;
use crate::func::{result_of_ref, settled_on_refs, settled_ref, share};
use crate::par_pipe::{DistributedPipe, ParallelPipe, PipeTask, PipeTaskAsync};
use crate::stream::{Poll, Stream};

verus! {

/// The description of a pipe that keeps the items of `i` on which `f` holds.
pub struct Filter<I, F> {
    pub i: I,
    pub f: Arc<F>,
}

impl<I, F> Filter<I, F> {
    /// The description as [`new`](Filter::new) makes it.
    pub open spec fn of(i: I, f: F) -> Self {
        Filter { i, f: Arc::new(f) }
    }

    pub fn new(i: I, f: F) -> (m: Self)
        ensures
            m == Self::of(i, f),
    {
        Filter { i, f: Arc::new(f) }
    }
}

/// The pipe that keeps the items of `task` on which `f` holds.
pub struct FilterTask<C, F> {
    pub task: C,
    pub f: Arc<F>,
}

impl<C, F> FilterTask<C, F> {
    /// The function that the pipe applies.
    pub open spec fn func(&self) -> F {
        *self.f
    }
}

/// The items of `items` on which `f` holds, in order.
pub open spec fn kept<A, F: Fn(&A) -> bool>(f: F, items: Seq<A>) -> Seq<A>
    decreases items.len(),
{
    if items.len() == 0 {
        Seq::empty()
    } else if result_of_ref(f, items[0]) {
        seq![items[0]] + kept(f, items.drop_first())
    } else {
        kept(f, items.drop_first())
    }
}

/// Keeping distributes over two runs of items.
pub proof fn lemma_kept_concat<A, F: Fn(&A) -> bool>(f: F, first: Seq<A>, second: Seq<A>)
    ensures
        kept(f, first + second) == kept(f, first) + kept(f, second),
    decreases first.len(),
{
    if first.len() == 0 {
        assert(first + second =~= second);
        assert(kept(f, first) + kept(f, second) =~= kept(f, second));
    } else {
        lemma_kept_concat(f, first.drop_first(), second);
        assert((first + second).drop_first() =~= first.drop_first() + second);
        assert((first + second)[0] == first[0]);
        assert(kept(f, first + second) =~= kept(f, first) + kept(f, second));
    }
}

impl<Source, I: ParallelPipe<Source>, F: Fn(&I::Item) -> bool> ParallelPipe<Source> for Filter<
    I,
    F,
> {
    type Item = I::Item;

    type Task = FilterTask<I::Task, F>;

    open spec fn inv(&self) -> bool {
        self.i.inv()
    }

    open spec fn made_task(&self) -> FilterTask<I::Task, F> {
        FilterTask { task: self.i.made_task(), f: self.f }
    }

    fn task(&self) -> (t: FilterTask<I::Task, F>) {
        let t = FilterTask { task: self.i.task(), f: share(&self.f) };
        assert(<FilterTask<I::Task, F> as PipeTask<Source>>::inv(&t));
        t
    }
}

impl<Source, I: DistributedPipe<Source>, F: Fn(&I::Item) -> bool> DistributedPipe<
    Source,
> for Filter<I, F> {

}

impl<Source, C: PipeTask<Source>, F: Fn(&C::Item) -> bool> PipeTask<Source> for FilterTask<C, F> {
    type Item = C::Item;

    type Async = FilterTask<C::Async, F>;

    open spec fn inv(&self) -> bool {
        self.task.inv()
    }

    open spec fn lowered(self) -> FilterTask<C::Async, F> {
        FilterTask { task: self.task.lowered(), f: self.f }
    }

    fn into_async(self) -> (a: FilterTask<C::Async, F>) {
        let a = FilterTask { task: self.task.into_async(), f: self.f };
        assert(<FilterTask<C::Async, F> as PipeTaskAsync<Source>>::inv(&a));
        a
    }
}

impl<Source, C: PipeTaskAsync<Source>, F: Fn(&C::Item) -> bool> PipeTaskAsync<
    Source,
> for FilterTask<C, F> {
    type Item = C::Item;

    open spec fn inv(&self) -> bool {
        self.task.inv()
    }

    open spec fn takes(&self, items: Seq<Source>) -> bool {
        &&& self.task.takes(items)
        &&& settled_on_refs(*self.f, self.task.pending(items))
    }

    open spec fn pending(&self, items: Seq<Source>) -> Seq<C::Item> {
        kept(*self.f, self.task.pending(items))
    }

    proof fn lemma_pending_concat(&self, first: Seq<Source>, second: Seq<Source>) {
        self.task.lemma_pending_concat(first, second);
        let a = self.task.pending(first);
        let b = self.task.pending(second);
        lemma_kept_concat(self.func(), a, b);
        if settled_on_refs(self.func(), a + b) {
            assert forall|i: int| 0 <= i < a.len() implies settled_ref(self.func(), #[trigger] a[i]) by {
                assert((a + b)[i] == a[i]);
            }
            assert forall|i: int| 0 <= i < b.len() implies settled_ref(self.func(), #[trigger] b[i]) by {
                assert((a + b)[a.len() + i] == b[i]);
            }
        }
        if settled_on_refs(self.func(), a) && settled_on_refs(self.func(), b) {
            assert forall|i: int| 0 <= i < (a + b).len() implies settled_ref(
                self.func(),
                #[trigger] (a + b)[i],
            ) by {
                if i < a.len() {
                    assert((a + b)[i] == a[i]);
                } else {
                    assert((a + b)[i] == b[i - a.len()]);
                }
            }
        }
    }

    fn poll_next<S: Stream<Item = Source>>(&mut self, upstream: &mut S) -> (r: Poll<
        Option<C::Item>,
    >) {
        let ghost before = self.pending(upstream.rest());
        loop
            invariant
                *self == *old(self),
                self.task.inv(),
                upstream.inv(),
                self.task.takes(upstream.rest()),
                settled_on_refs(*self.f, self.task.pending(upstream.rest())),
                before == old(self).pending(old(upstream).rest()),
                kept(*self.f, self.task.pending(upstream.rest())) == before,
                upstream.stalls() <= old(upstream).stalls(),
            decreases self.task.pending(upstream.rest()).len(),
        {
            let ghost inner_before = self.task.pending(upstream.rest());
            match self.task.poll_next(upstream) {
                Poll::Ready(Some(x)) => {
                    let ghost inner_after = self.task.pending(upstream.rest());
                    proof {
                        assert(settled_ref(*self.f, inner_before[0]));
                        assert forall|i: int| 0 <= i < inner_after.len() implies settled_ref(
                            *self.f,
                            #[trigger] inner_after[i],
                        ) by {
                            assert(inner_after[i] == inner_before[i + 1]);
                        }
                    }
                    let f: &F = &*self.f;
                    if f(&x) {
                        proof {
                            assert((seq![x] + kept(*self.f, inner_after)).drop_first() =~= kept(
                                *self.f,
                                inner_after,
                            ));
                        }
                        return Poll::Ready(Some(x));
                    }
                },
                Poll::Ready(None) => {
                    proof {
                        let inner_after = self.task.pending(upstream.rest());
                        assert(forall|i: int| 0 <= i < inner_after.len() ==> settled_ref(*self.f, #[trigger] inner_after[i]));
                    }
                    return Poll::Ready(None);
                },
                Poll::Pending => {
                    return Poll::Pending;
                },
            }
        }
    }
}

} // verus!
