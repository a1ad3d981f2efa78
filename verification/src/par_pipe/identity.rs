//! The pipe that forwards its items untouched.

use vstd::prelude::*;
use crate::par_pipe::{DistributedPipe, ParallelPipe, PipeTask, PipeTaskAsync};
use crate::stream::{Poll, Stream};

verus! {

/// The description of the pipe that forwards its items untouched.
pub struct Identity;

/// The pipe that forwards its items untouched.
pub struct IdentityTask;

impl<Item> ParallelPipe<Item> for Identity {
    type Item = Item;

    type Task = IdentityTask;

    open spec fn inv(&self) -> bool {
        true
    }

    open spec fn made_task(&self) -> IdentityTask {
        IdentityTask
    }

    fn task(&self) -> (t: IdentityTask) {
        let t = IdentityTask;
        assert(<IdentityTask as PipeTask<Item>>::inv(&t));
        t
    }
}

impl<Item> DistributedPipe<Item> for Identity {

}

impl<Item> PipeTask<Item> for IdentityTask {
    type Item = Item;

    type Async = IdentityTask;

    open spec fn inv(&self) -> bool {
        true
    }

    open spec fn lowered(self) -> IdentityTask {
        self
    }

    fn into_async(self) -> (a: IdentityTask) {
        assert(<IdentityTask as PipeTaskAsync<Item>>::inv(&self));
        self
    }
}

impl<Item> PipeTaskAsync<Item> for IdentityTask {
    type Item = Item;

    open spec fn inv(&self) -> bool {
        true
    }

    open spec fn takes(&self, items: Seq<Item>) -> bool {
        true
    }

    open spec fn pending(&self, items: Seq<Item>) -> Seq<Item> {
        items
    }

    proof fn lemma_pending_concat(&self, first: Seq<Item>, second: Seq<Item>) {
    }

    fn poll_next<S: Stream<Item = Item>>(&mut self, upstream: &mut S) -> (r: Poll<Option<Item>>) {
        upstream.poll_next()
    }
}

} // verus!
