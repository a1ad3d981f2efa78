//! Pipes: transformers that stand between a stream and a sink.
//!
//! A pipe pulls from the stream above it and hands out what it makes of the
//! items. Put on a stream it is a stream again: [`Piped`].

use vstd::prelude::*;
use crate::stream::{Poll, Stream};

pub mod ext;
pub mod filter;
pub mod identity;
pub mod inspect;
pub mod map;

verus! {

/// A pipe at work.
pub trait PipeTaskAsync<Source>: Sized {
    type Item;

    /// Well-formedness of the pipe's state.
    spec fn inv(&self) -> bool;

    /// Whether the pipe can work on `items` coming down the stream.
    spec fn takes(&self, items: Seq<Source>) -> bool;

    /// What the pipe, as it stands, will hand out when `items` are what the
    /// stream above it has left.
    spec fn pending(&self, items: Seq<Source>) -> Seq<Self::Item>;

    /// What the pipe hands out on two runs of items is what it hands out on
    /// the first followed by what it hands out on the second, and it can work
    /// on both runs exactly if it can work on each.
    proof fn lemma_pending_concat(&self, first: Seq<Source>, second: Seq<Source>)
        ensures
            self.pending(first + second) == self.pending(first) + self.pending(second),
            self.takes(first + second) == (self.takes(first) && self.takes(second)),
    ;

    /// Pulls from `upstream` until the pipe has an item to hand out.
    ///
    /// `Ready(Some(x))` hands out the first of the pending items,
    /// `Ready(None)` says that none is pending, and `Pending` says that the
    /// stream above stalled; the pending items are then as before. The pipe
    /// itself stays as it is.
    fn poll_next<S: Stream<Item = Source>>(&mut self, upstream: &mut S) -> (r: Poll<
        Option<Self::Item>,
    >)
        requires
            old(self).inv(),
            old(upstream).inv(),
            old(self).takes(old(upstream).rest()),
        ensures
            *final(self) == *old(self),
            final(upstream).inv(),
            final(self).takes(final(upstream).rest()),
            ({
                let before = old(self).pending(old(upstream).rest());
                let after = final(self).pending(final(upstream).rest());
                match r {
                    Poll::Ready(Some(x)) => {
                        &&& before.len() > 0
                        &&& x == before[0]
                        &&& after == before.drop_first()
                        &&& final(upstream).stalls() <= old(upstream).stalls()
                    },
                    Poll::Ready(None) => {
                        &&& before.len() == 0
                        &&& after.len() == 0
                        &&& final(upstream).stalls() <= old(upstream).stalls()
                    },
                    Poll::Pending => {
                        &&& after == before
                        &&& final(upstream).stalls() < old(upstream).stalls()
                    },
                }
            }),
    ;
}

/// A pipe before it is put to work: the form in which it travels to a
/// worker.
pub trait PipeTask<Source>: Sized {
    type Item;

    type Async: PipeTaskAsync<Source, Item = Self::Item>;

    /// Well-formedness of the pipe.
    spec fn inv(&self) -> bool;

    /// The working form of this pipe.
    spec fn lowered(self) -> Self::Async;

    /// Turns the pipe into its working form.
    fn into_async(self) -> (a: Self::Async)
        requires
            self.inv(),
        ensures
            a == self.lowered(),
            a.inv(),
    ;
}

/// A description of a pipe, from which the pipe of each task is made. Its
/// tasks run on the threads of one process.
pub trait ParallelPipe<Source>: Sized {
    type Item;

    type Task: PipeTask<Source, Item = Self::Item>;

    /// Well-formedness of the description.
    spec fn inv(&self) -> bool;

    /// The pipe that [`task`](ParallelPipe::task) makes.
    spec fn made_task(&self) -> Self::Task;

    /// Makes the pipe for one task.
    fn task(&self) -> (t: Self::Task)
        requires
            self.inv(),
        ensures
            t == self.made_task(),
            t.inv(),
    ;
}

/// A description of a pipe whose tasks run on a pool of processes.
pub trait DistributedPipe<Source>: ParallelPipe<Source> {

}

/// What `pipe` hands out when it is put on a stream that has `items` left.
pub open spec fn piped<Source, P: PipeTask<Source>>(pipe: P, items: Seq<Source>) -> Seq<P::Item> {
    pipe.lowered().pending(items)
}

/// Whether `pipe` can be put on a stream that has `items` left.
pub open spec fn pipes<Source, P: PipeTask<Source>>(pipe: P, items: Seq<Source>) -> bool {
    pipe.inv() && pipe.lowered().takes(items)
}

/// A stream with a pipe on it.
pub struct Piped<S, P> {
    pub stream: S,
    pub pipe: P,
}

impl<S: Stream, P: PipeTaskAsync<S::Item>> Stream for Piped<S, P> {
    type Item = P::Item;

    open spec fn inv(&self) -> bool {
        &&& self.stream.inv()
        &&& self.pipe.inv()
        &&& self.pipe.takes(self.stream.rest())
    }

    open spec fn rest(&self) -> Seq<P::Item> {
        self.pipe.pending(self.stream.rest())
    }

    open spec fn stalls(&self) -> nat {
        self.stream.stalls()
    }

    fn poll_next(&mut self) -> (r: Poll<Option<P::Item>>) {
        self.pipe.poll_next(&mut self.stream)
    }
}

} // verus!
