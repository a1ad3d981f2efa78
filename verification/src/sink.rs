//! Sinks: consumers that pull items out of a stream when polled.
//!
//! What a sink does with one item is a relation between its state before and
//! after, [`Sink::absorbs`]. What it does with a run of items follows from
//! that: [`offered`].

use vstd::prelude::*;
use crate::stream::{
    leaves, lemma_leaves_first, lemma_leaves_same, lemma_leaves_twice, lemma_taken_then_left, taken,
    Poll, Stream,
};

verus! {

/// What a consumer of items does, as a model: which items it takes and what
/// they do to its state.
pub trait Intake: Sized {
    type Item;

    /// Well-formedness of the sink's state.
    spec fn inv(&self) -> bool;

    /// Whether the sink pulls from the stream when it is polled. A sink that
    /// has decided its result stops wanting items.
    spec fn wants(&self) -> bool;

    /// Whether the sink, as it stands, can take `item`.
    spec fn admits(&self, item: Self::Item) -> bool;

    /// Whether taking `item` may turn this sink into `next`.
    spec fn absorbs(&self, item: Self::Item, next: Self) -> bool;
}

/// A consumer of items.
///
/// A sink takes one item at a time, [`push`], and tells whether it wants
/// another, [`accepting`]. Pulling from a stream, [`poll_forward`], is built
/// on the two.
///
/// [`push`]: Sink::push
/// [`accepting`]: Sink::accepting
/// [`poll_forward`]: Sink::poll_forward
pub trait Sink: Intake {
    /// Whether the sink wants another item.
    fn accepting(&self) -> (b: bool)
        requires
            self.inv(),
        ensures
            b == self.wants(),
    ;

    /// Takes one item.
    fn push(&mut self, item: Self::Item)
        requires
            old(self).inv(),
            old(self).wants(),
            old(self).admits(item),
        ensures
            final(self).inv(),
            old(self).absorbs(item, *final(self)),
    ;

    /// Pulls items from `stream` until it stalls or ends, or until the sink
    /// wants no more.
    ///
    /// The items pulled are exactly the ones the stream lost, and the sink has
    /// been offered them in order. `Ready` means that the stream is exhausted
    /// or that the sink wants no more; `Pending` means that the stream stalled.
    /// A sink that wants nothing, one whose result is decided, returns `Ready`
    /// at once on every call and touches neither itself nor the stream.
    fn poll_forward<S: Stream<Item = Self::Item>>(&mut self, stream: &mut S) -> (r: Poll<()>)
        requires
            old(self).inv(),
            old(stream).inv(),
            admits_all(*old(self), old(stream).rest()),
        ensures
            final(self).inv(),
            final(stream).inv(),
            leaves(old(stream).rest(), final(stream).rest()),
            offered(*old(self), taken(old(stream).rest(), final(stream).rest()), *final(self)),
            final(stream).stalls() <= old(stream).stalls(),
            r is Ready ==> final(stream).rest().len() == 0 || !final(self).wants(),
            r is Pending ==> final(stream).stalls() < old(stream).stalls(),
            !old(self).wants() ==> r is Ready && *final(self) == *old(self) && *final(stream)
                == *old(stream),
    {
        proof {
            lemma_leaves_same(stream.rest());
        }
        loop
            invariant
                self.inv(),
                stream.inv(),
                admits_all(*old(self), old(stream).rest()),
                leaves(old(stream).rest(), stream.rest()),
                offered(*old(self), taken(old(stream).rest(), stream.rest()), *self),
                stream.stalls() <= old(stream).stalls(),
                !old(self).wants() ==> *self == *old(self) && *stream == *old(stream),
            decreases stream.rest().len(),
        {
            if !self.accepting() {
                return Poll::Ready(());
            }
            let ghost sink_before = *self;
            let ghost rest_before = stream.rest();
            match stream.poll_next() {
                Poll::Ready(Some(item)) => {
                    proof {
                        let whole = old(stream).rest();
                        let done = taken(whole, rest_before);
                        lemma_leaves_first(rest_before);
                        lemma_leaves_twice(whole, rest_before, stream.rest());
                        lemma_taken_then_left(whole, rest_before);
                        assert(whole.take(done.len() as int) == done);
                        assert(whole[done.len() as int] == item);
                    }
                    self.push(item);
                    proof {
                        let whole = old(stream).rest();
                        let done = taken(whole, rest_before);
                        lemma_offered_push(*old(self), done, sink_before, item, *self);
                        assert(done.push(item) =~= done + seq![item]);
                    }
                },
                Poll::Ready(None) => {
                    assert(stream.rest() =~= rest_before);
                    return Poll::Ready(());
                },
                Poll::Pending => {
                    return Poll::Pending;
                },
            }
        }
    }
}

/// Whether being handed `item` may turn `start` into `end`: a sink that wants
/// items absorbs it, one that does not stays as it is.
pub open spec fn moved<K: Intake>(start: K, item: K::Item, end: K) -> bool {
    if start.wants() {
        start.absorbs(item, end)
    } else {
        end == start
    }
}

/// Whether being handed `items`, in order, may turn `start` into `end`.
pub open spec fn offered<K: Intake>(start: K, items: Seq<K::Item>, end: K) -> bool
    decreases items.len(),
{
    if items.len() == 0 {
        end == start
    } else {
        exists|mid: K|
            offered(start, items.drop_last(), mid) && #[trigger] moved(mid, items.last(), end)
    }
}

/// Whether `start` can be handed `items` in order: whatever state the sink
/// has reached on a prefix, if it still wants items it admits the next one.
pub open spec fn admits_all<K: Intake>(start: K, items: Seq<K::Item>) -> bool {
    forall|k: int, mid: K|
        0 <= k < items.len() && #[trigger] offered(start, items.take(k), mid) && mid.wants()
            ==> mid.admits(items[k])
}

/// No items change nothing.
pub proof fn lemma_offered_none<K: Intake>(start: K)
    ensures
        offered(start, Seq::<K::Item>::empty(), start),
{
}

/// One more item after a run of items.
pub proof fn lemma_offered_push<K: Intake>(
    start: K,
    items: Seq<K::Item>,
    mid: K,
    item: K::Item,
    end: K,
)
    requires
        offered(start, items, mid),
        moved(mid, item, end),
    ensures
        offered(start, items.push(item), end),
{
    let all = items.push(item);
    assert(all.drop_last() =~= items);
    assert(all.last() == item);
    assert(moved(mid, all.last(), end));
}

/// Two runs of items, one after the other.
pub proof fn lemma_offered_concat<K: Intake>(
    start: K,
    first: Seq<K::Item>,
    mid: K,
    second: Seq<K::Item>,
    end: K,
)
    requires
        offered(start, first, mid),
        offered(mid, second, end),
    ensures
        offered(start, first + second, end),
    decreases second.len(),
{
    if second.len() == 0 {
        assert(first + second =~= first);
    } else {
        let prev = choose|prev: K|
            offered(mid, second.drop_last(), prev) && #[trigger] moved(prev, second.last(), end);
        lemma_offered_concat(start, first, mid, second.drop_last(), prev);
        lemma_offered_push(start, first + second.drop_last(), prev, second.last(), end);
        assert((first + second.drop_last()).push(second.last()) =~= first + second);
    }
}

/// A sink that wants nothing ignores whatever it is handed.
pub proof fn lemma_offered_closed<K: Intake>(start: K, items: Seq<K::Item>)
    requires
        !start.wants(),
    ensures
        offered(start, items, start),
    decreases items.len(),
{
    if items.len() > 0 {
        lemma_offered_closed(start, items.drop_last());
        assert(moved(start, items.last(), start));
    }
}

/// A sink that wants nothing stays as it is.
pub proof fn lemma_closed_stays<K: Intake>(start: K, items: Seq<K::Item>, end: K)
    requires
        !start.wants(),
        offered(start, items, end),
    ensures
        end == start,
    decreases items.len(),
{
    if items.len() > 0 {
        let mid = choose|mid: K|
            offered(start, items.drop_last(), mid) && #[trigger] moved(mid, items.last(), end);
        lemma_closed_stays(start, items.drop_last(), mid);
    }
}

/// What can be handed whole can be handed in two parts.
pub proof fn lemma_admits_rest<K: Intake>(
    start: K,
    first: Seq<K::Item>,
    mid: K,
    second: Seq<K::Item>,
)
    requires
        admits_all(start, first + second),
        offered(start, first, mid),
    ensures
        admits_all(mid, second),
{
    assert forall|k: int, at: K|
        0 <= k < second.len() && #[trigger] offered(mid, second.take(k), at) && at.wants()
    implies at.admits(second[k]) by {
        lemma_offered_concat(start, first, mid, second.take(k), at);
        assert((first + second).take(first.len() + k) =~= first + second.take(k));
        assert((first + second)[first.len() + k] == second[k]);
    }
}

/// What can be handed whole can be handed up to any point.
pub proof fn lemma_admits_prefix<K: Intake>(start: K, first: Seq<K::Item>, second: Seq<K::Item>)
    requires
        admits_all(start, first + second),
    ensures
        admits_all(start, first),
{
    assert forall|k: int, at: K|
        0 <= k < first.len() && #[trigger] offered(start, first.take(k), at) && at.wants()
    implies at.admits(first[k]) by {
        assert((first + second).take(k) =~= first.take(k));
    }
}

/// Polls `sink` on `stream` until it answers `Ready`: until the stream is
/// exhausted or the sink wants no more.
pub fn forward_all<K: Sink, S: Stream<Item = K::Item>>(sink: &mut K, stream: &mut S)
    requires
        old(sink).inv(),
        old(stream).inv(),
        admits_all(*old(sink), old(stream).rest()),
    ensures
        final(sink).inv(),
        final(stream).inv(),
        leaves(old(stream).rest(), final(stream).rest()),
        offered(*old(sink), taken(old(stream).rest(), final(stream).rest()), *final(sink)),
        offered(*old(sink), old(stream).rest(), *final(sink)),
        final(stream).rest().len() == 0 || !final(sink).wants(),
{
    proof {
        lemma_leaves_same(stream.rest());
    }
    loop
        invariant
            sink.inv(),
            stream.inv(),
            admits_all(*old(sink), old(stream).rest()),
            leaves(old(stream).rest(), stream.rest()),
            offered(*old(sink), taken(old(stream).rest(), stream.rest()), *sink),
        ensures
            sink.inv(),
            stream.inv(),
            leaves(old(stream).rest(), stream.rest()),
            offered(*old(sink), taken(old(stream).rest(), stream.rest()), *sink),
            stream.rest().len() == 0 || !sink.wants(),
        decreases stream.stalls(),
    {
        let ghost sink_before = *sink;
        let ghost rest_before = stream.rest();
        proof {
            lemma_taken_then_left(old(stream).rest(), rest_before);
            lemma_admits_rest(
                *old(sink),
                taken(old(stream).rest(), rest_before),
                sink_before,
                rest_before,
            );
        }
        let r = sink.poll_forward(stream);
        proof {
            lemma_leaves_twice(old(stream).rest(), rest_before, stream.rest());
            lemma_offered_concat(
                *old(sink),
                taken(old(stream).rest(), rest_before),
                sink_before,
                taken(rest_before, stream.rest()),
                *sink,
            );
        }
        if r.is_ready() {
            break ;
        }
    }
    proof {
        let whole = old(stream).rest();
        lemma_taken_then_left(whole, stream.rest());
        if stream.rest().len() == 0 {
            assert(taken(whole, stream.rest()) + stream.rest() =~= taken(whole, stream.rest()));
        } else {
            lemma_offered_closed(*sink, stream.rest());
            lemma_offered_concat(
                *old(sink),
                taken(whole, stream.rest()),
                *sink,
                stream.rest(),
                *sink,
            );
        }
    }
}

} // verus!
