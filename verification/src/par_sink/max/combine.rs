//! The combiners that keep the greater or the smaller of two values.
//!
//! Of two values that compare equal, the greater-keeping ones keep the one
//! that came later, and the smaller-keeping ones keep the one that came
//! earlier.

use vstd::prelude::*;
use std::cmp::Ordering;
use std::marker::PhantomData;
use crate::par_sink::combine::{CombineReducer, Combiner};
use crate::par_stream::tally::Tally;
use crate::sink::{moved, offered};

verus! {

/// The later value unless the earlier one is strictly greater.
pub open spec fn later_unless_greater<A>(o: Ordering, a: A, b: A) -> A {
    match o {
        Ordering::Greater => a,
        _ => b,
    }
}

/// The earlier value unless it is strictly greater.
pub open spec fn earlier_unless_greater<A>(o: Ordering, a: A, b: A) -> A {
    match o {
        Ordering::Greater => b,
        _ => a,
    }
}

/// A way of comparing two values.
pub trait Compare<A>: Sized {
    /// Whether `a` and `b` can be compared.
    spec fn admits(&self, a: A, b: A) -> bool;

    /// Whether comparing `a` with `b` may give `o`.
    spec fn compares(&self, a: A, b: A, o: Ordering) -> bool;

    /// Compares `a` with `b`.
    fn compare(&self, a: &A, b: &A) -> (o: Ordering)
        requires
            self.admits(*a, *b),
        ensures
            self.compares(*a, *b, o),
    ;
}

/// The other way round: less for greater and greater for less.
pub open spec fn turned(o: Ordering) -> Ordering {
    match o {
        Ordering::Less => Ordering::Greater,
        Ordering::Equal => Ordering::Equal,
        Ordering::Greater => Ordering::Less,
    }
}

/// Compares values by their own order.
#[derive(Clone, Copy)]
pub struct Natural;

impl<A: Ord> Compare<A> for Natural {
    open spec fn admits(&self, a: A, b: A) -> bool {
        true
    }

    open spec fn compares(&self, a: A, b: A, o: Ordering) -> bool {
        call_ensures(A::cmp, (&a, &b), o)
    }

    fn compare(&self, a: &A, b: &A) -> (o: Ordering) {
        a.cmp(b)
    }
}

/// Compares values as `.0` does, the other way round.
#[derive(Clone, Copy)]
pub struct Reversed<F>(pub F);

impl<A, F: Compare<A>> Compare<A> for Reversed<F> {
    open spec fn admits(&self, a: A, b: A) -> bool {
        self.0.admits(a, b)
    }

    open spec fn compares(&self, a: A, b: A, o: Ordering) -> bool {
        self.0.compares(a, b, turned(o))
    }

    fn compare(&self, a: &A, b: &A) -> (o: Ordering) {
        match self.0.compare(a, b) {
            Ordering::Less => Ordering::Greater,
            Ordering::Equal => Ordering::Equal,
            Ordering::Greater => Ordering::Less,
        }
    }
}

/// Keeps the greater of two values by their own order.
#[derive(Clone, Copy)]
pub struct Max;

impl<A: Ord> Combiner<A> for Max {
    open spec fn admits(&self, a: A, b: A) -> bool {
        true
    }

    open spec fn combines(&self, a: A, b: A, out: A) -> bool {
        exists|o: Ordering| #[trigger]
            call_ensures(A::cmp, (&a, &b), o) && out == later_unless_greater(o, a, b)
    }

    fn combine(&mut self, a: A, b: A) -> (out: A) {
        // switch to b even if it is only equal, to preserve stability.
        match a.cmp(&b) {
            Ordering::Greater => a,
            _ => b,
        }
    }
}

/// Keeps the greater of two values by the order that `.0` gives.
#[derive(Clone, Copy)]
pub struct MaxBy<F>(pub F);

impl<A, F: Compare<A>> Combiner<A> for MaxBy<F> {
    open spec fn admits(&self, a: A, b: A) -> bool {
        self.0.admits(a, b)
    }

    open spec fn combines(&self, a: A, b: A, out: A) -> bool {
        exists|o: Ordering| #[trigger]
            self.0.compares(a, b, o) && out == later_unless_greater(o, a, b)
    }

    fn combine(&mut self, a: A, b: A) -> (out: A) {
        match self.0.compare(&a, &b) {
            Ordering::Greater => a,
            _ => b,
        }
    }
}

/// Whether `o` may come of comparing the keys that `f` gives to `a` and `b`.
pub open spec fn keys_compare<A, B: Ord, F: Fn(&A) -> B>(f: F, a: A, b: A, o: Ordering) -> bool {
    exists|ka: B, kb: B|
        call_ensures(f, (&a,), ka) && call_ensures(f, (&b,), kb) && #[trigger] call_ensures(
            B::cmp,
            (&ka, &kb),
            o,
        )
}

/// Keeps the greater of two values by the keys that `.0` gives them.
pub struct MaxByKey<F, B>(pub F, pub PhantomData<B>);

impl<F: Copy, B> Clone for MaxByKey<F, B> {
    fn clone(&self) -> (c: Self)
        ensures
            c == *self,
    {
        MaxByKey(self.0, PhantomData)
    }
}

impl<F: Copy, B> Copy for MaxByKey<F, B> {

}

impl<A, F: Fn(&A) -> B, B: Ord> Combiner<A> for MaxByKey<F, B> {
    open spec fn admits(&self, a: A, b: A) -> bool {
        call_requires(self.0, (&a,)) && call_requires(self.0, (&b,))
    }

    open spec fn combines(&self, a: A, b: A, out: A) -> bool {
        exists|o: Ordering| #[trigger]
            keys_compare(self.0, a, b, o) && out == later_unless_greater(o, a, b)
    }

    fn combine(&mut self, a: A, b: A) -> (out: A) {
        let ka = (self.0)(&a);
        let kb = (self.0)(&b);
        let o = ka.cmp(&kb);
        assert(keys_compare(self.0, a, b, o));
        match o {
            Ordering::Greater => a,
            _ => b,
        }
    }
}

/// Keeps the smaller of two values by their own order.
#[derive(Clone, Copy)]
pub struct Min;

impl<A: Ord> Combiner<A> for Min {
    open spec fn admits(&self, a: A, b: A) -> bool {
        true
    }

    open spec fn combines(&self, a: A, b: A, out: A) -> bool {
        exists|o: Ordering| #[trigger]
            call_ensures(A::cmp, (&a, &b), o) && out == earlier_unless_greater(o, a, b)
    }

    fn combine(&mut self, a: A, b: A) -> (out: A) {
        // switch to b only if it is strictly smaller, to preserve stability.
        match a.cmp(&b) {
            Ordering::Greater => b,
            _ => a,
        }
    }
}

/// Keeps the smaller of two values by the order that `.0` gives.
#[derive(Clone, Copy)]
pub struct MinBy<F>(pub F);

impl<A, F: Compare<A>> Combiner<A> for MinBy<F> {
    open spec fn admits(&self, a: A, b: A) -> bool {
        self.0.admits(a, b)
    }

    open spec fn combines(&self, a: A, b: A, out: A) -> bool {
        exists|o: Ordering| #[trigger]
            self.0.compares(a, b, o) && out == earlier_unless_greater(o, a, b)
    }

    fn combine(&mut self, a: A, b: A) -> (out: A) {
        match self.0.compare(&a, &b) {
            Ordering::Greater => b,
            _ => a,
        }
    }
}

/// Keeps the smaller of two values by the keys that `.0` gives them.
pub struct MinByKey<F, B>(pub F, pub PhantomData<B>);

impl<F: Copy, B> Clone for MinByKey<F, B> {
    fn clone(&self) -> (c: Self)
        ensures
            c == *self,
    {
        MinByKey(self.0, PhantomData)
    }
}

impl<F: Copy, B> Copy for MinByKey<F, B> {

}

impl<A, F: Fn(&A) -> B, B: Ord> Combiner<A> for MinByKey<F, B> {
    open spec fn admits(&self, a: A, b: A) -> bool {
        call_requires(self.0, (&a,)) && call_requires(self.0, (&b,))
    }

    open spec fn combines(&self, a: A, b: A, out: A) -> bool {
        exists|o: Ordering| #[trigger]
            keys_compare(self.0, a, b, o) && out == earlier_unless_greater(o, a, b)
    }

    fn combine(&mut self, a: A, b: A) -> (out: A) {
        let ka = (self.0)(&a);
        let kb = (self.0)(&b);
        let o = ka.cmp(&kb);
        assert(keys_compare(self.0, a, b, o));
        match o {
            Ordering::Greater => b,
            _ => a,
        }
    }
}

/// The greater-keeping combiner keeps the earlier value only where it is
/// strictly greater: where the two compare equal or the later one is greater,
/// the later one is kept.
pub proof fn lemma_max_prefers_later<A: Ord>(a: A, b: A, out: A)
    requires
        Max.combines(a, b, out),
    ensures
        (forall|o: Ordering| call_ensures(A::cmp, (&a, &b), o) ==> o == Ordering::Greater) ==> out
            == a,
        (forall|o: Ordering| call_ensures(A::cmp, (&a, &b), o) ==> o != Ordering::Greater) ==> out
            == b,
{
}

/// The smaller-keeping combiner keeps the later value only where the earlier
/// one is strictly greater: where the two compare equal or the earlier one is
/// smaller, the earlier one is kept.
pub proof fn lemma_min_prefers_earlier<A: Ord>(a: A, b: A, out: A)
    requires
        Min.combines(a, b, out),
    ensures
        (forall|o: Ordering| call_ensures(A::cmp, (&a, &b), o) ==> o == Ordering::Greater) ==> out
            == b,
        (forall|o: Ordering| call_ensures(A::cmp, (&a, &b), o) ==> o != Ordering::Greater) ==> out
            == a,
{
}

/// By keys, the greater-keeping combiner keeps the later of two values unless
/// the key of the earlier one is strictly greater.
pub proof fn lemma_max_by_key_prefers_later<A, B: Ord, F: Fn(&A) -> B>(
    combiner: MaxByKey<F, B>,
    a: A,
    b: A,
    out: A,
)
    requires
        combiner.combines(a, b, out),
    ensures
        (forall|o: Ordering| keys_compare(combiner.0, a, b, o) ==> o == Ordering::Greater) ==> out
            == a,
        (forall|o: Ordering| keys_compare(combiner.0, a, b, o) ==> o != Ordering::Greater) ==> out
            == b,
{
}

/// By keys, the smaller-keeping combiner keeps the earlier of two values
/// unless its key is strictly greater.
pub proof fn lemma_min_by_key_prefers_earlier<A, B: Ord, F: Fn(&A) -> B>(
    combiner: MinByKey<F, B>,
    a: A,
    b: A,
    out: A,
)
    requires
        combiner.combines(a, b, out),
    ensures
        (forall|o: Ordering| keys_compare(combiner.0, a, b, o) ==> o == Ordering::Greater) ==> out
            == b,
        (forall|o: Ordering| keys_compare(combiner.0, a, b, o) ==> o != Ordering::Greater) ==> out
            == a,
{
}

/// The larger of two optional numbers, where nothing is no number.
pub open spec fn larger(a: Option<u64>, b: Option<u64>) -> Option<u64> {
    match (a, b) {
        (None, _) => b,
        (_, None) => a,
        (Some(x), Some(y)) => Some(
            if x > y {
                x
            } else {
                y
            },
        ),
    }
}

/// The greatest of `items`, or nothing where there is no item.
pub open spec fn greatest(items: Seq<u64>) -> Option<u64>
    decreases items.len(),
{
    if items.len() == 0 {
        None
    } else {
        larger(greatest(items.drop_last()), Some(items.last()))
    }
}

/// The greatest of optional numbers.
pub open spec fn greatest_of_some(items: Seq<Option<u64>>) -> Option<u64>
    decreases items.len(),
{
    if items.len() == 0 {
        None
    } else {
        larger(greatest_of_some(items.drop_last()), items.last())
    }
}

/// On numbers the combiner gives the larger of the two.
pub proof fn lemma_larger_of_numbers(a: u64, b: u64, out: u64)
    requires
        Max.combines(a, b, out),
    ensures
        Some(out) == larger(Some(a), Some(b)),
{
}

/// A reducer of numbers with this combiner holds the larger of what it held
/// and the greatest of the numbers it was handed.
pub proof fn lemma_greatest_offered(
    start: CombineReducer<u64, u64, Max>,
    items: Seq<u64>,
    end: CombineReducer<u64, u64, Max>,
)
    requires
        offered(start, items, end),
    ensures
        end.0 == larger(start.0, greatest(items)),
    decreases items.len(),
{
    if items.len() > 0 {
        let mid = choose|mid: CombineReducer<u64, u64, Max>|
            offered(start, items.drop_last(), mid) && #[trigger] moved(mid, items.last(), end);
        lemma_greatest_offered(start, items.drop_last(), mid);
        if mid.0.is_some() {
            lemma_larger_of_numbers(mid.0.unwrap(), items.last(), end.0.unwrap());
        }
    }
}

/// A reducer of optional numbers with this combiner holds the larger of what
/// it held and the greatest of what it was handed.
pub proof fn lemma_greatest_of_some_offered(
    start: CombineReducer<Option<u64>, u64, Max>,
    items: Seq<Option<u64>>,
    end: CombineReducer<Option<u64>, u64, Max>,
)
    requires
        offered(start, items, end),
    ensures
        end.0 == larger(start.0, greatest_of_some(items)),
    decreases items.len(),
{
    if items.len() > 0 {
        let mid = choose|mid: CombineReducer<Option<u64>, u64, Max>|
            offered(start, items.drop_last(), mid) && #[trigger] moved(mid, items.last(), end);
        lemma_greatest_of_some_offered(start, items.drop_last(), mid);
        if mid.0.is_some() && items.last().is_some() {
            lemma_larger_of_numbers(mid.0.unwrap(), items.last().unwrap(), end.0.unwrap());
        }
    }
}

/// The greatest of two runs of numbers.
pub proof fn lemma_greatest_concat(first: Seq<u64>, second: Seq<u64>)
    ensures
        greatest(first + second) == larger(greatest(first), greatest(second)),
    decreases second.len(),
{
    if second.len() == 0 {
        assert(first + second =~= first);
    } else {
        lemma_greatest_concat(first, second.drop_last());
        assert((first + second).drop_last() =~= first + second.drop_last());
    }
}

/// The greatest as a tally: the value of a run of numbers is the greatest
/// of them, and values merge by taking the larger.
pub struct MaxTally;

impl Tally for MaxTally {
    type Item = u64;

    type Value = Option<u64>;

    type A = Option<u64>;

    type B = Option<u64>;

    type C = Option<u64>;

    open spec fn lawful(&self) -> bool {
        true
    }

    open spec fn of(&self, items: Seq<u64>) -> Option<u64> {
        greatest(items)
    }

    open spec fn merge(&self, a: Option<u64>, b: Option<u64>) -> Option<u64> {
        larger(a, b)
    }

    open spec fn of_a(&self, out: Option<u64>) -> Option<u64> {
        out
    }

    open spec fn of_b(&self, out: Option<u64>) -> Option<u64> {
        out
    }

    open spec fn of_c(&self, out: Option<u64>) -> Option<u64> {
        out
    }

    proof fn lemma_of_concat(&self, first: Seq<u64>, second: Seq<u64>) {
        lemma_greatest_concat(first, second);
    }

    proof fn lemma_merge_commutes(&self, a: Option<u64>, b: Option<u64>) {
    }

    proof fn lemma_merge_associates(&self, a: Option<u64>, b: Option<u64>, c: Option<u64>) {
    }

    proof fn lemma_merge_none(&self, a: Option<u64>) {
    }

    open spec fn within(&self, a: Option<u64>, b: Option<u64>) -> bool {
        a == b
    }

    proof fn lemma_within_itself(&self, a: Option<u64>) {
    }

    proof fn lemma_within_chain(&self, a: Option<u64>, b: Option<u64>, c: Option<u64>) {
    }

    proof fn lemma_merge_within(
        &self,
        a: Option<u64>,
        b: Option<u64>,
        c: Option<u64>,
        d: Option<u64>,
    ) {
    }
}

/// The smaller of two optional numbers, where nothing is no number.
pub open spec fn smaller(a: Option<u64>, b: Option<u64>) -> Option<u64> {
    match (a, b) {
        (None, _) => b,
        (_, None) => a,
        (Some(x), Some(y)) => Some(
            if x < y {
                x
            } else {
                y
            },
        ),
    }
}

/// The smallest of `items`, or nothing where there is no item.
pub open spec fn smallest(items: Seq<u64>) -> Option<u64>
    decreases items.len(),
{
    if items.len() == 0 {
        None
    } else {
        smaller(smallest(items.drop_last()), Some(items.last()))
    }
}

/// The smallest of optional numbers.
pub open spec fn smallest_of_some(items: Seq<Option<u64>>) -> Option<u64>
    decreases items.len(),
{
    if items.len() == 0 {
        None
    } else {
        smaller(smallest_of_some(items.drop_last()), items.last())
    }
}

/// On numbers the combiner gives the smaller of the two.
pub proof fn lemma_smaller_of_numbers(a: u64, b: u64, out: u64)
    requires
        Min.combines(a, b, out),
    ensures
        Some(out) == smaller(Some(a), Some(b)),
{
}

/// A reducer of numbers with this combiner holds the smaller of what it held
/// and the smallest of the numbers it was handed.
pub proof fn lemma_smallest_offered(
    start: CombineReducer<u64, u64, Min>,
    items: Seq<u64>,
    end: CombineReducer<u64, u64, Min>,
)
    requires
        offered(start, items, end),
    ensures
        end.0 == smaller(start.0, smallest(items)),
    decreases items.len(),
{
    if items.len() > 0 {
        let mid = choose|mid: CombineReducer<u64, u64, Min>|
            offered(start, items.drop_last(), mid) && #[trigger] moved(mid, items.last(), end);
        lemma_smallest_offered(start, items.drop_last(), mid);
        if mid.0.is_some() {
            lemma_smaller_of_numbers(mid.0.unwrap(), items.last(), end.0.unwrap());
        }
    }
}

/// A reducer of optional numbers with this combiner holds the smaller of what
/// it held and the smallest of what it was handed.
pub proof fn lemma_smallest_of_some_offered(
    start: CombineReducer<Option<u64>, u64, Min>,
    items: Seq<Option<u64>>,
    end: CombineReducer<Option<u64>, u64, Min>,
)
    requires
        offered(start, items, end),
    ensures
        end.0 == smaller(start.0, smallest_of_some(items)),
    decreases items.len(),
{
    if items.len() > 0 {
        let mid = choose|mid: CombineReducer<Option<u64>, u64, Min>|
            offered(start, items.drop_last(), mid) && #[trigger] moved(mid, items.last(), end);
        lemma_smallest_of_some_offered(start, items.drop_last(), mid);
        if mid.0.is_some() && items.last().is_some() {
            lemma_smaller_of_numbers(mid.0.unwrap(), items.last().unwrap(), end.0.unwrap());
        }
    }
}

/// The smallest of two runs of numbers.
pub proof fn lemma_smallest_concat(first: Seq<u64>, second: Seq<u64>)
    ensures
        smallest(first + second) == smaller(smallest(first), smallest(second)),
    decreases second.len(),
{
    if second.len() == 0 {
        assert(first + second =~= first);
    } else {
        lemma_smallest_concat(first, second.drop_last());
        assert((first + second).drop_last() =~= first + second.drop_last());
    }
}

/// The smallest as a tally: the value of a run of numbers is the smallest
/// of them, and values merge by taking the smaller.
pub struct MinTally;

impl Tally for MinTally {
    type Item = u64;

    type Value = Option<u64>;

    type A = Option<u64>;

    type B = Option<u64>;

    type C = Option<u64>;

    open spec fn lawful(&self) -> bool {
        true
    }

    open spec fn of(&self, items: Seq<u64>) -> Option<u64> {
        smallest(items)
    }

    open spec fn merge(&self, a: Option<u64>, b: Option<u64>) -> Option<u64> {
        smaller(a, b)
    }

    open spec fn of_a(&self, out: Option<u64>) -> Option<u64> {
        out
    }

    open spec fn of_b(&self, out: Option<u64>) -> Option<u64> {
        out
    }

    open spec fn of_c(&self, out: Option<u64>) -> Option<u64> {
        out
    }

    proof fn lemma_of_concat(&self, first: Seq<u64>, second: Seq<u64>) {
        lemma_smallest_concat(first, second);
    }

    proof fn lemma_merge_commutes(&self, a: Option<u64>, b: Option<u64>) {
    }

    proof fn lemma_merge_associates(&self, a: Option<u64>, b: Option<u64>, c: Option<u64>) {
    }

    proof fn lemma_merge_none(&self, a: Option<u64>) {
    }

    open spec fn within(&self, a: Option<u64>, b: Option<u64>) -> bool {
        a == b
    }

    proof fn lemma_within_itself(&self, a: Option<u64>) {
    }

    proof fn lemma_within_chain(&self, a: Option<u64>, b: Option<u64>, c: Option<u64>) {
    }

    proof fn lemma_merge_within(
        &self,
        a: Option<u64>,
        b: Option<u64>,
        c: Option<u64>,
        d: Option<u64>,
    ) {
    }
}

} // verus!
