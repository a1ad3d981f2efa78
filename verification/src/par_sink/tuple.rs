//! Two reducers side by side.
//!
//! On the threads the two take the items of one stream whose items are
//! tagged with the side they are for. Above the threads the two take the two
//! halves of the pairs that the level below gave out.

use vstd::prelude::*;
use crate::par_sink::{Factory, Reducer, ReducerAsync};
use crate::sink::{
    lemma_offered_none, lemma_offered_push, moved, offered, Intake, Sink,
};
use crate::stream::Poll;

verus! {

/// An item for one of two sides.
pub enum Sum2<A, B> {
    A(A),
    B(B),
}

/// The items for the first side, in order.
pub open spec fn side_a<A, B>(items: Seq<Sum2<A, B>>) -> Seq<A>
    decreases items.len(),
{
    if items.len() == 0 {
        Seq::empty()
    } else {
        match items.last() {
            Sum2::A(a) => side_a(items.drop_last()).push(a),
            Sum2::B(_) => side_a(items.drop_last()),
        }
    }
}

/// The items for the second side, in order.
pub open spec fn side_b<A, B>(items: Seq<Sum2<A, B>>) -> Seq<B>
    decreases items.len(),
{
    if items.len() == 0 {
        Seq::empty()
    } else {
        match items.last() {
            Sum2::A(_) => side_b(items.drop_last()),
            Sum2::B(b) => side_b(items.drop_last()).push(b),
        }
    }
}

/// The maker of pairs of reducers for tagged items.
pub struct ReduceA2Factory<FA, FB>(pub FA, pub FB);

impl<FA: Factory, FB: Factory> Factory for ReduceA2Factory<FA, FB> where
    FA::Item: Reducer,
    FB::Item: Reducer,
 {
    type Item = ReduceA2<FA::Item, FB::Item>;

    open spec fn inv(&self) -> bool {
        self.0.inv() && self.1.inv()
    }

    open spec fn makes(&self, item: ReduceA2<FA::Item, FB::Item>) -> bool {
        self.0.makes(item.a) && self.1.makes(item.b)
    }

    fn make(&self) -> (item: ReduceA2<FA::Item, FB::Item>) {
        ReduceA2 { a: self.0.make(), b: self.1.make() }
    }
}

/// Two reducers that share one stream of tagged items, before they are put to
/// work.
pub struct ReduceA2<RA, RB> {
    pub a: RA,
    pub b: RB,
}

impl<RA: Reducer, RB: Reducer> Reducer for ReduceA2<RA, RB> {
    type Item = Sum2<RA::Item, RB::Item>;

    type Output = (RA::Output, RB::Output);

    type Async = ReduceA2Async<RA::Async, RB::Async>;

    open spec fn lowered(self) -> ReduceA2Async<RA::Async, RB::Async> {
        ReduceA2Async { a: self.a.lowered(), b: self.b.lowered() }
    }

    fn into_async(self) -> (r: ReduceA2Async<RA::Async, RB::Async>) {
        ReduceA2Async { a: self.a.into_async(), b: self.b.into_async() }
    }
}

/// Two reducers that share one stream of tagged items: each item goes to the
/// reducer of its side, or nowhere if that reducer wants no more. The pair
/// wants items as long as one of the two does.
pub struct ReduceA2Async<RA, RB> {
    pub a: RA,
    pub b: RB,
}

impl<RA: ReducerAsync, RB: ReducerAsync> Intake for ReduceA2Async<RA, RB> {
    type Item = Sum2<RA::Item, RB::Item>;

    open spec fn inv(&self) -> bool {
        self.a.inv() && self.b.inv()
    }

    open spec fn wants(&self) -> bool {
        self.a.wants() || self.b.wants()
    }

    open spec fn admits(&self, item: Sum2<RA::Item, RB::Item>) -> bool {
        match item {
            Sum2::A(x) => self.a.wants() ==> self.a.admits(x),
            Sum2::B(y) => self.b.wants() ==> self.b.admits(y),
        }
    }

    open spec fn absorbs(&self, item: Sum2<RA::Item, RB::Item>, next: Self) -> bool {
        match item {
            Sum2::A(x) => moved(self.a, x, next.a) && next.b == self.b,
            Sum2::B(y) => moved(self.b, y, next.b) && next.a == self.a,
        }
    }
}

impl<RA: ReducerAsync, RB: ReducerAsync> Sink for ReduceA2Async<RA, RB> {
    fn accepting(&self) -> (b: bool) {
        self.a.accepting() || self.b.accepting()
    }

    fn push(&mut self, item: Sum2<RA::Item, RB::Item>) {
        match item {
            Sum2::A(x) => {
                if self.a.accepting() {
                    self.a.push(x);
                }
            },
            Sum2::B(y) => {
                if self.b.accepting() {
                    self.b.push(y);
                }
            },
        }
    }
}

impl<RA: ReducerAsync, RB: ReducerAsync> ReducerAsync for ReduceA2Async<RA, RB> {
    type Output = (RA::Output, RB::Output);

    open spec fn ripe(&self) -> bool {
        self.a.ripe() && self.b.ripe()
    }

    open spec fn yields(&self, out: (RA::Output, RB::Output)) -> bool {
        self.a.yields(out.0) && self.b.yields(out.1)
    }

    fn poll_output(&mut self) -> (r: Poll<(RA::Output, RB::Output)>) {
        match self.a.poll_output() {
            Poll::Ready(a) => match self.b.poll_output() {
                Poll::Ready(b) => Poll::Ready((a, b)),
                Poll::Pending => Poll::Pending,
            },
            Poll::Pending => Poll::Pending,
        }
    }
}

/// The maker of pairs of reducers for pairs of outputs.
pub struct ReduceC2Factory<FA, FB>(pub FA, pub FB);

impl<FA: Factory, FB: Factory> Factory for ReduceC2Factory<FA, FB> where
    FA::Item: Reducer,
    FB::Item: Reducer,
 {
    type Item = ReduceC2<FA::Item, FB::Item>;

    open spec fn inv(&self) -> bool {
        self.0.inv() && self.1.inv()
    }

    open spec fn makes(&self, item: ReduceC2<FA::Item, FB::Item>) -> bool {
        self.0.makes(item.a) && self.1.makes(item.b)
    }

    fn make(&self) -> (item: ReduceC2<FA::Item, FB::Item>) {
        ReduceC2 { a: self.0.make(), b: self.1.make() }
    }
}

/// Two reducers that take the two halves of pairs, before they are put to
/// work.
pub struct ReduceC2<RA, RB> {
    pub a: RA,
    pub b: RB,
}

impl<RA, RB> ReduceC2<RA, RB> {
    pub fn new(a: RA, b: RB) -> (r: Self)
        ensures
            r.a == a,
            r.b == b,
    {
        ReduceC2 { a, b }
    }
}

impl<RA: Reducer, RB: Reducer> Reducer for ReduceC2<RA, RB> {
    type Item = (RA::Item, RB::Item);

    type Output = (RA::Output, RB::Output);

    type Async = ReduceC2Async<RA::Async, RB::Async>;

    open spec fn lowered(self) -> ReduceC2Async<RA::Async, RB::Async> {
        ReduceC2Async { a: self.a.lowered(), b: self.b.lowered() }
    }

    fn into_async(self) -> (r: ReduceC2Async<RA::Async, RB::Async>) {
        ReduceC2Async { a: self.a.into_async(), b: self.b.into_async() }
    }
}

/// Two reducers that take the two halves of pairs: the first half goes to the
/// first, the second half to the second, each unless its reducer wants no
/// more. The pair wants items as long as one of the two does.
pub struct ReduceC2Async<RA, RB> {
    pub a: RA,
    pub b: RB,
}

impl<RA: ReducerAsync, RB: ReducerAsync> Intake for ReduceC2Async<RA, RB> {
    type Item = (RA::Item, RB::Item);

    open spec fn inv(&self) -> bool {
        self.a.inv() && self.b.inv()
    }

    open spec fn wants(&self) -> bool {
        self.a.wants() || self.b.wants()
    }

    open spec fn admits(&self, item: (RA::Item, RB::Item)) -> bool {
        &&& self.a.wants() ==> self.a.admits(item.0)
        &&& self.b.wants() ==> self.b.admits(item.1)
    }

    open spec fn absorbs(&self, item: (RA::Item, RB::Item), next: Self) -> bool {
        moved(self.a, item.0, next.a) && moved(self.b, item.1, next.b)
    }
}

impl<RA: ReducerAsync, RB: ReducerAsync> Sink for ReduceC2Async<RA, RB> {
    fn accepting(&self) -> (b: bool) {
        self.a.accepting() || self.b.accepting()
    }

    fn push(&mut self, item: (RA::Item, RB::Item)) {
        let (x, y) = item;
        if self.a.accepting() {
            self.a.push(x);
        }
        if self.b.accepting() {
            self.b.push(y);
        }
    }
}

impl<RA: ReducerAsync, RB: ReducerAsync> ReducerAsync for ReduceC2Async<RA, RB> {
    type Output = (RA::Output, RB::Output);

    open spec fn ripe(&self) -> bool {
        self.a.ripe() && self.b.ripe()
    }

    open spec fn yields(&self, out: (RA::Output, RB::Output)) -> bool {
        self.a.yields(out.0) && self.b.yields(out.1)
    }

    fn poll_output(&mut self) -> (r: Poll<(RA::Output, RB::Output)>) {
        match self.a.poll_output() {
            Poll::Ready(a) => match self.b.poll_output() {
                Poll::Ready(b) => Poll::Ready((a, b)),
                Poll::Pending => Poll::Pending,
            },
            Poll::Pending => Poll::Pending,
        }
    }
}

/// The items for the first side of two runs of tagged items.
pub proof fn lemma_side_a_concat<A, B>(first: Seq<Sum2<A, B>>, second: Seq<Sum2<A, B>>)
    ensures
        side_a(first + second) == side_a(first) + side_a(second),
    decreases second.len(),
{
    if second.len() == 0 {
        assert(first + second =~= first);
        assert(side_a(first) + side_a(second) =~= side_a(first));
    } else {
        lemma_side_a_concat(first, second.drop_last());
        assert((first + second).drop_last() =~= first + second.drop_last());
        assert((first + second).last() == second.last());
        assert(side_a(first + second) =~= side_a(first) + side_a(second));
    }
}

/// The items for the second side of two runs of tagged items.
pub proof fn lemma_side_b_concat<A, B>(first: Seq<Sum2<A, B>>, second: Seq<Sum2<A, B>>)
    ensures
        side_b(first + second) == side_b(first) + side_b(second),
    decreases second.len(),
{
    if second.len() == 0 {
        assert(first + second =~= first);
        assert(side_b(first) + side_b(second) =~= side_b(first));
    } else {
        lemma_side_b_concat(first, second.drop_last());
        assert((first + second).drop_last() =~= first + second.drop_last());
        assert((first + second).last() == second.last());
        assert(side_b(first + second) =~= side_b(first) + side_b(second));
    }
}

/// A pair of reducers that has been handed tagged items has handed each of
/// its reducers the items for its side, in order, and nothing else.
pub proof fn lemma_pair_sides<RA: ReducerAsync, RB: ReducerAsync>(
    start: ReduceA2Async<RA, RB>,
    items: Seq<Sum2<RA::Item, RB::Item>>,
    end: ReduceA2Async<RA, RB>,
)
    requires
        offered(start, items, end),
    ensures
        offered(start.a, side_a(items), end.a),
        offered(start.b, side_b(items), end.b),
    decreases items.len(),
{
    if items.len() == 0 {
        lemma_offered_none(start.a);
        lemma_offered_none(start.b);
    } else {
        let mid = choose|mid: ReduceA2Async<RA, RB>|
            offered(start, items.drop_last(), mid) && #[trigger] moved(mid, items.last(), end);
        lemma_pair_sides(start, items.drop_last(), mid);
        match items.last() {
            Sum2::A(x) => {
                assert(moved(mid.a, x, end.a));
                assert(end.b == mid.b);
                lemma_offered_push(start.a, side_a(items.drop_last()), mid.a, x, end.a);
            },
            Sum2::B(y) => {
                assert(moved(mid.b, y, end.b));
                assert(end.a == mid.a);
                lemma_offered_push(start.b, side_b(items.drop_last()), mid.b, y, end.b);
            },
        }
    }
}

/// The first halves of pairs.
pub open spec fn firsts<A, B>(pairs: Seq<(A, B)>) -> Seq<A> {
    pairs.map_values(|pair: (A, B)| pair.0)
}

/// The second halves of pairs.
pub open spec fn seconds<A, B>(pairs: Seq<(A, B)>) -> Seq<B> {
    pairs.map_values(|pair: (A, B)| pair.1)
}

/// A pair of reducers that has been handed pairs has handed its first
/// reducer the first halves and its second reducer the second halves.
pub proof fn lemma_pair_halves<RA: ReducerAsync, RB: ReducerAsync>(
    start: ReduceC2Async<RA, RB>,
    items: Seq<(RA::Item, RB::Item)>,
    end: ReduceC2Async<RA, RB>,
)
    requires
        offered(start, items, end),
    ensures
        offered(start.a, firsts(items), end.a),
        offered(start.b, seconds(items), end.b),
    decreases items.len(),
{
    if items.len() == 0 {
        lemma_offered_none(start.a);
        lemma_offered_none(start.b);
        assert(firsts(items) =~= Seq::<RA::Item>::empty());
        assert(seconds(items) =~= Seq::<RB::Item>::empty());
    } else {
        let mid = choose|mid: ReduceC2Async<RA, RB>|
            offered(start, items.drop_last(), mid) && #[trigger] moved(mid, items.last(), end);
        lemma_pair_halves(start, items.drop_last(), mid);
        assert(moved(mid.a, items.last().0, end.a));
        assert(moved(mid.b, items.last().1, end.b));
        lemma_offered_push(start.a, firsts(items.drop_last()), mid.a, items.last().0, end.a);
        lemma_offered_push(start.b, seconds(items.drop_last()), mid.b, items.last().1, end.b);
        assert(firsts(items.drop_last()).push(items.last().0) =~= firsts(items));
        assert(seconds(items.drop_last()).push(items.last().1) =~= seconds(items));
    }
}

} // verus!
