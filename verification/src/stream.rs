//! A synchronous model of a polled stream: a source that, each time it is
//! polled, hands out its next item, reports that it has none ready yet, or
//! reports that it is exhausted.

use vstd::prelude::*;

verus! {

/// The answer to one poll.
pub enum Poll<T> {
    /// The value is there.
    Ready(T),
    /// Nothing can be handed out right now; poll again later.
    Pending,
}

impl<T> Poll<T> {
    /// Whether this answer carries a value.
    pub fn is_ready(&self) -> (b: bool)
        ensures
            b == (*self is Ready),
    {
        match self {
            Poll::Ready(_) => true,
            Poll::Pending => false,
        }
    }

    /// Whether this answer asks to be polled again.
    pub fn is_pending(&self) -> (b: bool)
        ensures
            b == (*self is Pending),
    {
        match self {
            Poll::Ready(_) => false,
            Poll::Pending => true,
        }
    }
}

/// `after` is what remains of `before` once some leading items were taken.
pub open spec fn leaves<T>(before: Seq<T>, after: Seq<T>) -> bool {
    &&& after.len() <= before.len()
    &&& after == before.skip(before.len() - after.len())
}

/// The leading items of `before` that are missing from `after`.
pub open spec fn taken<T>(before: Seq<T>, after: Seq<T>) -> Seq<T> {
    before.take(before.len() - after.len())
}

/// Nothing taken leaves everything.
pub proof fn lemma_leaves_same<T>(s: Seq<T>)
    ensures
        leaves(s, s),
        taken(s, s) == Seq::<T>::empty(),
{
    assert(s.skip(0) =~= s);
    assert(s.take(0) =~= Seq::<T>::empty());
}

/// Taking the first item leaves the tail.
pub proof fn lemma_leaves_first<T>(s: Seq<T>)
    requires
        s.len() > 0,
    ensures
        leaves(s, s.drop_first()),
        taken(s, s.drop_first()) == seq![s[0]],
        s == seq![s[0]] + s.drop_first(),
{
    assert(s.skip(1) =~= s.drop_first());
    assert(s.take(1) =~= seq![s[0]]);
    assert(s =~= seq![s[0]] + s.drop_first());
}

/// What was taken, followed by what is left, is the whole.
pub proof fn lemma_taken_then_left<T>(before: Seq<T>, after: Seq<T>)
    requires
        leaves(before, after),
    ensures
        before == taken(before, after) + after,
{
    assert(before =~= taken(before, after) + after);
}

/// Taking in two rounds is taking the concatenation of both rounds.
pub proof fn lemma_leaves_twice<T>(a: Seq<T>, b: Seq<T>, c: Seq<T>)
    requires
        leaves(a, b),
        leaves(b, c),
    ensures
        leaves(a, c),
        taken(a, c) == taken(a, b) + taken(b, c),
{
    assert(c =~= a.skip(a.len() - c.len()));
    assert(taken(a, c) =~= taken(a, b) + taken(b, c));
}

/// How often `key` occurs in `items`.
pub open spec fn occurrences<T>(items: Seq<T>, key: T) -> int
    decreases items.len(),
{
    if items.len() == 0 {
        0
    } else {
        occurrences(items.drop_last(), key) + if items.last() == key {
            1int
        } else {
            0int
        }
    }
}

/// How often `key` occurs in two runs of items.
pub proof fn lemma_occurrences_concat<T>(first: Seq<T>, second: Seq<T>, key: T)
    ensures
        occurrences(first + second, key) == occurrences(first, key) + occurrences(second, key),
    decreases second.len(),
{
    if second.len() == 0 {
        assert(first + second =~= first);
    } else {
        lemma_occurrences_concat(first, second.drop_last(), key);
        assert((first + second).drop_last() =~= first + second.drop_last());
    }
}

/// No item occurs less than zero times, or more often than there are items.
pub proof fn lemma_occurrences_bounds<T>(items: Seq<T>, key: T)
    ensures
        0 <= occurrences(items, key) <= items.len(),
    decreases items.len(),
{
    if items.len() > 0 {
        lemma_occurrences_bounds(items.drop_last(), key);
    }
}

/// No item occurs more often among the first `k` items than among all.
pub proof fn lemma_occurrences_prefix<T>(items: Seq<T>, k: int, key: T)
    requires
        0 <= k <= items.len(),
    ensures
        0 <= occurrences(items.take(k), key) <= occurrences(items, key),
{
    assert(items =~= items.take(k) + items.skip(k));
    lemma_occurrences_concat(items.take(k), items.skip(k), key);
    lemma_occurrences_bounds(items.take(k), key);
    lemma_occurrences_bounds(items.skip(k), key);
}

/// How often `key` occurs once the item at `i` is replaced by `item`.
pub proof fn lemma_occurrences_update<T>(items: Seq<T>, i: int, item: T, key: T)
    requires
        0 <= i < items.len(),
    ensures
        occurrences(items.update(i, item), key) == occurrences(items, key) - if items[i] == key {
            1int
        } else {
            0int
        } + if item == key {
            1int
        } else {
            0int
        },
{
    let after = items.update(i, item);
    assert(after =~= items.take(i).push(item) + items.skip(i + 1));
    assert(items =~= items.take(i).push(items[i]) + items.skip(i + 1));
    lemma_occurrences_concat(items.take(i).push(item), items.skip(i + 1), key);
    lemma_occurrences_concat(items.take(i).push(items[i]), items.skip(i + 1), key);
    assert(items.take(i).push(item).drop_last() =~= items.take(i));
    assert(items.take(i).push(items[i]).drop_last() =~= items.take(i));
}

/// A polled source of items.
///
/// Its model is the sequence of items it has still to hand out, [`rest`], and
/// a bound on how often it may still answer [`Poll::Pending`], [`stalls`].
///
/// [`rest`]: Stream::rest
/// [`stalls`]: Stream::stalls
pub trait Stream {
    type Item;

    /// Well-formedness of the stream's state.
    spec fn inv(&self) -> bool;

    /// The items not yet handed out, in the order in which they will come.
    spec fn rest(&self) -> Seq<Self::Item>;

    /// How many more polls may be answered with [`Poll::Pending`].
    spec fn stalls(&self) -> nat;

    /// Polls for the next item.
    ///
    /// `Ready(Some(x))` hands out the first remaining item, `Ready(None)` says
    /// that none remains, and `Pending` leaves the items as they are and uses
    /// up at least one stall.
    fn poll_next(&mut self) -> (r: Poll<Option<Self::Item>>)
        requires
            old(self).inv(),
        ensures
            final(self).inv(),
            match r {
                Poll::Ready(Some(x)) => {
                    &&& old(self).rest().len() > 0
                    &&& x == old(self).rest()[0]
                    &&& final(self).rest() == old(self).rest().drop_first()
                    &&& final(self).stalls() <= old(self).stalls()
                },
                Poll::Ready(None) => {
                    &&& old(self).rest().len() == 0
                    &&& final(self).rest().len() == 0
                    &&& final(self).stalls() <= old(self).stalls()
                },
                Poll::Pending => {
                    &&& final(self).rest() == old(self).rest()
                    &&& final(self).stalls() < old(self).stalls()
                },
            },
    ;
}

/// A stream of at most one item that never stalls.
pub struct Once<T> {
    pub item: Option<T>,
}

impl<T> Once<T> {
    /// A stream that hands out `item` and then ends.
    pub fn new(item: T) -> (s: Self)
        ensures
            s.item == Some(item),
            s.rest() == seq![item],
    {
        Once { item: Some(item) }
    }

    /// The item, if it has not been handed out.
    pub fn into_inner(self) -> (item: Option<T>)
        ensures
            item == self.item,
    {
        self.item
    }
}

impl<T> Stream for Once<T> {
    type Item = T;

    open spec fn inv(&self) -> bool {
        true
    }

    open spec fn rest(&self) -> Seq<T> {
        match self.item {
            Some(x) => seq![x],
            None => Seq::empty(),
        }
    }

    open spec fn stalls(&self) -> nat {
        0
    }

    fn poll_next(&mut self) -> (r: Poll<Option<T>>)
        ensures
            final(self).item.is_none(),
            r == Poll::Ready(old(self).item),
    {
        let item = self.item.take();
        proof {
            if item.is_some() {
                assert(old(self).rest().drop_first() =~= Seq::<T>::empty());
            }
        }
        Poll::Ready(item)
    }
}

/// The items of a script: its `Some` entries, in order.
pub open spec fn script_items<T>(script: Seq<Option<T>>) -> Seq<T>
    decreases script.len(),
{
    if script.len() == 0 {
        Seq::empty()
    } else {
        match script[0] {
            Some(x) => seq![x] + script_items(script.drop_first()),
            None => script_items(script.drop_first()),
        }
    }
}

/// The number of `None` entries of a script.
pub open spec fn script_stalls<T>(script: Seq<Option<T>>) -> nat
    decreases script.len(),
{
    if script.len() == 0 {
        0
    } else {
        match script[0] {
            Some(_) => script_stalls(script.drop_first()),
            None => 1 + script_stalls(script.drop_first()),
        }
    }
}

/// A stream that plays back a fixed script of poll answers: `Some(x)` hands
/// out `x`, `None` answers `Pending` once, and the end of the script is the
/// end of the stream.
pub struct Scripted<T> {
    /// The answers still to give, last one first.
    pub reversed: Vec<Option<T>>,
}

impl<T> Scripted<T> {
    /// The answers still to give, first one first.
    pub open spec fn script(&self) -> Seq<Option<T>> {
        self.reversed@.reverse()
    }

    /// A stream that plays `script` from its first entry on.
    pub fn new(script: Vec<Option<T>>) -> (s: Self)
        ensures
            s.script() == script@,
            s.rest() == script_items(script@),
            s.stalls() == script_stalls(script@),
    {
        let mut script = script;
        let mut reversed: Vec<Option<T>> = Vec::new();
        let ghost whole = script@;
        while script.len() > 0
            invariant
                whole == script@ + reversed@.reverse(),
            decreases script.len(),
        {
            let ghost before = script@;
            let ghost rev = reversed@;
            let entry = script.pop().unwrap();
            reversed.push(entry);
            proof {
                assert(reversed@.reverse() =~= seq![entry] + rev.reverse());
                assert(whole =~= script@ + reversed@.reverse());
            }
        }
        proof {
            assert(whole =~= reversed@.reverse());
        }
        Scripted { reversed }
    }

    /// A stream of `items` that never stalls.
    pub fn of_items(items: Vec<T>) -> (s: Self)
        ensures
            s.rest() == items@,
            s.stalls() == 0,
    {
        let mut items = items;
        let mut reversed: Vec<Option<T>> = Vec::new();
        let ghost whole = items@;
        while items.len() > 0
            invariant
                whole == items@ + script_items(reversed@.reverse()),
                script_stalls(reversed@.reverse()) == 0,
            decreases items.len(),
        {
            let ghost rev = reversed@;
            let item = items.pop().unwrap();
            reversed.push(Some(item));
            proof {
                assert(reversed@.reverse() =~= seq![Some(item)] + rev.reverse());
                assert(reversed@.reverse().drop_first() =~= rev.reverse());
                assert(whole =~= items@ + script_items(reversed@.reverse()));
            }
        }
        proof {
            assert(whole =~= script_items(reversed@.reverse()));
        }
        Scripted { reversed }
    }
}

impl<T> Stream for Scripted<T> {
    type Item = T;

    open spec fn inv(&self) -> bool {
        true
    }

    open spec fn rest(&self) -> Seq<T> {
        script_items(self.script())
    }

    open spec fn stalls(&self) -> nat {
        script_stalls(self.script())
    }

    fn poll_next(&mut self) -> (r: Poll<Option<T>>)
        ensures
            old(self).script().len() == 0 ==> r == Poll::Ready(None::<T>) && final(self).script()
                == old(self).script(),
            old(self).script().len() > 0 ==> final(self).script() == old(self).script().drop_first()
                && match old(self).script()[0] {
                Some(x) => r == Poll::Ready(Some(x)),
                None => r is Pending,
            },
    {
        let ghost before = self.script();
        match self.reversed.pop() {
            None => {
                Poll::Ready(None)
            },
            Some(entry) => {
                proof {
                    assert(self.script() =~= before.drop_first());
                    assert(before[0] == entry);
                }
                match entry {
                    Some(x) => {
                        proof {
                            assert((seq![x] + script_items(before.drop_first())).drop_first()
                                =~= script_items(before.drop_first()));
                        }
                        Poll::Ready(Some(x))
                    },
                    None => Poll::Pending,
                }
            },
        }
    }
}

/// The same items, last one first.
pub fn reversed<T>(items: Vec<T>) -> (r: Vec<T>)
    ensures
        r@ == items@.reverse(),
{
    let mut items = items;
    let mut r: Vec<T> = Vec::new();
    let ghost whole = items@;
    while items.len() > 0
        invariant
            items.len() <= whole.len(),
            items@ == whole.take(items.len() as int),
            r@ == whole.skip(items.len() as int).reverse(),
        decreases items.len(),
    {
        let ghost n = items.len() as int;
        let item = items.pop().unwrap();
        r.push(item);
        proof {
            assert(items@ =~= whole.take(n - 1));
            assert(r@ =~= whole.skip(n - 1).reverse());
        }
    }
    proof {
        assert(whole.skip(0) =~= whole);
    }
    r
}

} // verus!
