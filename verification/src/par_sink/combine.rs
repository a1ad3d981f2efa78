//! Combining items two by two into one.

use vstd::prelude::*;
use std::marker::PhantomData;
use crate::par_pipe::identity::{Identity, IdentityTask};
use crate::par_pipe::{DistributedPipe, ParallelPipe};
use crate::par_sink::{
    reduces, DistributedSink, Factory, Lowering, ParallelSink, Reducer, ReducerAsync,
};
use crate::par_stream::pipe::{
    connected, dist_pipe_reduces, lemma_connected_identity, par_pipe_reduces, ConnectTask,
};
use crate::par_stream::reduce::{dist_reduces, par_reduces, tasks_items};
use crate::par_stream::tally::{lemma_dist_tally, lemma_par_tally, merged_a, merged_b, Tally};
use crate::par_stream::StreamTask;
use crate::sink::{moved, offered, Intake, Sink};
use crate::stream::Poll;

verus! {

/// A way of making one value out of two.
pub trait Combiner<A>: Sized {
    /// Whether `a` and `b` can be combined.
    spec fn admits(&self, a: A, b: A) -> bool;

    /// Whether combining `a`, the value held so far, with `b`, the one that
    /// came after it, may give `out`.
    spec fn combines(&self, a: A, b: A, out: A) -> bool;

    /// Combines the value held so far with the one that came after it. The
    /// combiner itself stays as it is.
    fn combine(&mut self, a: A, b: A) -> (out: A)
        requires
            old(self).admits(a, b),
        ensures
            old(self).combines(a, b, out),
            *final(self) == *old(self),
    ;
}

/// The combiner that calls a function.
#[derive(Clone, Copy)]
pub struct CombineFn<F>(pub F);

impl<A, F: Fn(A, A) -> A> Combiner<A> for CombineFn<F> {
    open spec fn admits(&self, a: A, b: A) -> bool {
        call_requires(self.0, (a, b))
    }

    open spec fn combines(&self, a: A, b: A, out: A) -> bool {
        call_ensures(self.0, (a, b), out)
    }

    fn combine(&mut self, a: A, b: A) -> (out: A) {
        (self.0)(a, b)
    }
}

/// What an item brings to a combination: a value, or nothing.
pub trait Candidate<B>: Sized {
    /// The value that this item brings, if any.
    spec fn candidate(self) -> Option<B>;

    /// Hands over the value that this item brings, if any.
    fn into_candidate(self) -> (c: Option<B>)
        ensures
            c == self.candidate(),
    ;
}

/// A plain value brings itself.
impl<B> Candidate<B> for B {
    open spec fn candidate(self) -> Option<B> {
        Some(self)
    }

    fn into_candidate(self) -> (c: Option<B>) {
        Some(self)
    }
}

/// The output of a reducer below brings what that reducer held.
impl<B> Candidate<B> for Option<B> {
    open spec fn candidate(self) -> Option<B> {
        self
    }

    fn into_candidate(self) -> (c: Option<B>) {
        self
    }
}

/// Whether a reducer that holds `held` can take in `value`.
pub open spec fn merge_admits<B, F: Combiner<B>>(combiner: F, held: Option<B>, value: B) -> bool {
    match held {
        Some(cur) => combiner.admits(cur, value),
        None => true,
    }
}

/// Whether taking in `value` may turn what a reducer holds from `held` into
/// `next`: the first value is held as it is, every later one is combined with
/// the one held.
pub open spec fn merges<B, F: Combiner<B>>(
    combiner: F,
    held: Option<B>,
    value: B,
    next: Option<B>,
) -> bool {
    match held {
        Some(cur) => next matches Some(out) && combiner.combines(cur, value, out),
        None => next == Some(value),
    }
}

/// Takes `value` in: what is held afterwards.
pub fn merge<B, F: Combiner<B>>(combiner: &mut F, held: Option<B>, value: B) -> (next: Option<B>)
    requires
        merge_admits(*old(combiner), held, value),
    ensures
        merges(*old(combiner), held, value, next),
        *final(combiner) == *old(combiner),
{
    match held {
        Some(cur) => Some(combiner.combine(cur, value)),
        None => Some(value),
    }
}

/// Replaces what `slot` holds by what [`merge`] makes of it and `value`.
///
/// Calls `replace_with::replace_with_or_abort`, which moves the value out of
/// the place, hands it to the closure and moves the closure's result into the
/// place. The closure is one call of [`merge`], so the place ends up holding
/// what `merge` returns for the value it held.
#[verifier::external_body]
fn replace_with_merge<B, F: Combiner<B>>(slot: &mut Option<B>, combiner: &mut F, value: B)
    requires
        merge_admits(*old(combiner), *old(slot), value),
    ensures
        merges(*old(combiner), *old(slot), value, *final(slot)),
        *final(combiner) == *old(combiner),
{
    replace_with::replace_with_or_abort(slot, |held| merge(combiner, held, value));
}

/// The maker of reducers that combine their items.
pub struct CombineReducerFactory<A, B, F>(pub F, pub PhantomData<(A, B)>);

impl<A: Candidate<B>, B, F: Combiner<B> + Copy> Factory for CombineReducerFactory<A, B, F> {
    type Item = CombineReducer<A, B, F>;

    open spec fn inv(&self) -> bool {
        true
    }

    open spec fn makes(&self, item: CombineReducer<A, B, F>) -> bool {
        item.0.is_none() && item.1 == self.0
    }

    fn make(&self) -> (item: CombineReducer<A, B, F>) {
        CombineReducer(None, self.0, PhantomData)
    }
}

/// The reducer that combines its items: it holds nothing until the first
/// value comes, and from then on what the combiner made of the value held and
/// the next one.
pub struct CombineReducer<A, B, F>(pub Option<B>, pub F, pub PhantomData<A>);

impl<A: Candidate<B>, B, F: Combiner<B>> Intake for CombineReducer<A, B, F> {
    type Item = A;

    open spec fn inv(&self) -> bool {
        true
    }

    open spec fn wants(&self) -> bool {
        true
    }

    open spec fn admits(&self, item: A) -> bool {
        match item.candidate() {
            Some(value) => merge_admits(self.1, self.0, value),
            None => true,
        }
    }

    open spec fn absorbs(&self, item: A, next: Self) -> bool {
        &&& next.1 == self.1
        &&& match item.candidate() {
            Some(value) => merges(self.1, self.0, value, next.0),
            None => next.0 == self.0,
        }
    }
}

impl<A: Candidate<B>, B, F: Combiner<B>> Sink for CombineReducer<A, B, F> {
    fn accepting(&self) -> (b: bool) {
        true
    }

    fn push(&mut self, item: A) {
        match item.into_candidate() {
            Some(value) => {
                replace_with_merge(&mut self.0, &mut self.1, value);
            },
            None => {},
        }
    }
}

impl<A: Candidate<B>, B, F: Combiner<B>> ReducerAsync for CombineReducer<A, B, F> {
    type Output = Option<B>;

    open spec fn ripe(&self) -> bool {
        true
    }

    open spec fn yields(&self, out: Option<B>) -> bool {
        out == self.0
    }

    fn poll_output(&mut self) -> (r: Poll<Option<B>>) {
        Poll::Ready(self.0.take())
    }
}

impl<A: Candidate<B>, B, F: Combiner<B>> Reducer for CombineReducer<A, B, F> {
    type Item = A;

    type Output = Option<B>;

    type Async = Self;

    open spec fn lowered(self) -> Self {
        self
    }

    fn into_async(self) -> (a: Self) {
        self
    }
}

/// The terminal operator that combines the items that the pipe `i` hands out
/// with the function `f`.
pub struct Combine<I, F> {
    pub i: I,
    pub f: F,
}

impl<I, F> Combine<I, F> {
    /// The operator as [`new`](Combine::new) makes it.
    pub open spec fn of(i: I, f: F) -> Self {
        Combine { i, f }
    }

    pub fn new(i: I, f: F) -> (s: Self)
        ensures
            s == Self::of(i, f),
    {
        Combine { i, f }
    }
}

impl<Source, I: ParallelPipe<Source>, F: Fn(I::Item, I::Item) -> I::Item + Copy> ParallelSink<
    Source,
> for Combine<I, F> {
    type Output = Option<I::Item>;

    type Pipe = I;

    type ReduceAFactory = CombineReducerFactory<I::Item, I::Item, CombineFn<F>>;

    type ReduceA = CombineReducer<I::Item, I::Item, CombineFn<F>>;

    type ReduceC = CombineReducer<Option<I::Item>, I::Item, CombineFn<F>>;

    open spec fn inv(&self) -> bool {
        self.i.inv()
    }

    open spec fn splits(
        self,
        pipe: I,
        a: CombineReducerFactory<I::Item, I::Item, CombineFn<F>>,
        c: CombineReducer<Option<I::Item>, I::Item, CombineFn<F>>,
    ) -> bool {
        &&& pipe == self.i
        &&& a.0 == CombineFn(self.f)
        &&& c.0.is_none()
        &&& c.1 == CombineFn(self.f)
    }

    fn reducers(self) -> (r: (
        I,
        CombineReducerFactory<I::Item, I::Item, CombineFn<F>>,
        CombineReducer<Option<I::Item>, I::Item, CombineFn<F>>,
    )) {
        let r = (
            self.i,
            CombineReducerFactory(CombineFn(self.f), PhantomData),
            CombineReducer(None, CombineFn(self.f), PhantomData),
        );
        assert(Factory::inv(&r.1));
        r
    }
}

impl<Source, I: DistributedPipe<Source>, F: Fn(I::Item, I::Item) -> I::Item + Copy> DistributedSink<
    Source,
> for Combine<I, F> {
    type Output = Option<I::Item>;

    type Pipe = I;

    type ReduceAFactory = CombineReducerFactory<I::Item, I::Item, CombineFn<F>>;

    type ReduceBFactory = CombineReducerFactory<Option<I::Item>, I::Item, CombineFn<F>>;

    type ReduceA = CombineReducer<I::Item, I::Item, CombineFn<F>>;

    type ReduceB = CombineReducer<Option<I::Item>, I::Item, CombineFn<F>>;

    type ReduceC = CombineReducer<Option<I::Item>, I::Item, CombineFn<F>>;

    open spec fn inv(&self) -> bool {
        self.i.inv()
    }

    open spec fn splits(
        self,
        pipe: I,
        a: CombineReducerFactory<I::Item, I::Item, CombineFn<F>>,
        b: CombineReducerFactory<Option<I::Item>, I::Item, CombineFn<F>>,
        c: CombineReducer<Option<I::Item>, I::Item, CombineFn<F>>,
    ) -> bool {
        &&& pipe == self.i
        &&& a.0 == CombineFn(self.f)
        &&& b.0 == CombineFn(self.f)
        &&& c.0.is_none()
        &&& c.1 == CombineFn(self.f)
    }

    fn reducers(self) -> (r: (
        I,
        CombineReducerFactory<I::Item, I::Item, CombineFn<F>>,
        CombineReducerFactory<Option<I::Item>, I::Item, CombineFn<F>>,
        CombineReducer<Option<I::Item>, I::Item, CombineFn<F>>,
    )) {
        let r = (
            self.i,
            CombineReducerFactory(CombineFn(self.f), PhantomData),
            CombineReducerFactory(CombineFn(self.f), PhantomData),
            CombineReducer(None, CombineFn(self.f), PhantomData),
        );
        assert(Factory::inv(&r.1));
        assert(Factory::inv(&r.2));
        r
    }
}

/// What `f` makes of `a` and `b`.
pub open spec fn combined<B, F: Fn(B, B) -> B>(f: F, a: B, b: B) -> B {
    choose|out: B| call_ensures(f, (a, b), out)
}

/// Whether `f` can be called on any two values and, on each two, can give one
/// value only.
pub open spec fn settled_on_pairs<B, F: Fn(B, B) -> B>(f: F) -> bool {
    &&& forall|a: B, b: B| #[trigger] call_requires(f, (a, b))
    &&& forall|a: B, b: B, out: B| #[trigger] call_ensures(f, (a, b), out) ==> out == combined(f, a, b)
}

/// Whether grouping does not matter to `f`.
pub open spec fn associative<B, F: Fn(B, B) -> B>(f: F) -> bool {
    forall|a: B, b: B, c: B| #[trigger]
        combined(f, combined(f, a, b), c) == combined(f, a, combined(f, b, c))
}

/// Whether order does not matter to `f`.
pub open spec fn commutative<B, F: Fn(B, B) -> B>(f: F) -> bool {
    forall|a: B, b: B| #[trigger] combined(f, a, b) == combined(f, b, a)
}

/// What `f` makes of two optional values, where nothing is no value.
pub open spec fn combined_some<B, F: Fn(B, B) -> B>(f: F, a: Option<B>, b: Option<B>) -> Option<B> {
    match (a, b) {
        (None, _) => b,
        (_, None) => a,
        (Some(x), Some(y)) => Some(combined(f, x, y)),
    }
}

/// What `f` makes of `items`, combined two by two from the first on, or
/// nothing where there is no item.
pub open spec fn combined_all<B, F: Fn(B, B) -> B>(f: F, items: Seq<B>) -> Option<B>
    decreases items.len(),
{
    if items.len() == 0 {
        None
    } else {
        combined_some(f, combined_all(f, items.drop_last()), Some(items.last()))
    }
}

/// What `f` makes of optional values, combined two by two from the first on.
pub open spec fn combined_all_some<B, F: Fn(B, B) -> B>(f: F, items: Seq<Option<B>>) -> Option<B>
    decreases items.len(),
{
    if items.len() == 0 {
        None
    } else {
        combined_some(f, combined_all_some(f, items.drop_last()), items.last())
    }
}

/// Combining two by two as a tally, for a function to which neither grouping
/// nor order matters.
pub struct CombineTally<B, F>(pub F, pub PhantomData<B>);

impl<B, F: Fn(B, B) -> B> Tally for CombineTally<B, F> {
    type Item = B;

    type Value = Option<B>;

    type A = Option<B>;

    type B = Option<B>;

    type C = Option<B>;

    open spec fn lawful(&self) -> bool {
        settled_on_pairs(self.0) && associative(self.0) && commutative(self.0)
    }

    open spec fn of(&self, items: Seq<B>) -> Option<B> {
        combined_all(self.0, items)
    }

    open spec fn merge(&self, a: Option<B>, b: Option<B>) -> Option<B> {
        combined_some(self.0, a, b)
    }

    open spec fn of_a(&self, out: Option<B>) -> Option<B> {
        out
    }

    open spec fn of_b(&self, out: Option<B>) -> Option<B> {
        out
    }

    open spec fn of_c(&self, out: Option<B>) -> Option<B> {
        out
    }

    proof fn lemma_of_concat(&self, first: Seq<B>, second: Seq<B>)
        decreases second.len(),
    {
        if second.len() == 0 {
            assert(first + second =~= first);
        } else {
            self.lemma_of_concat(first, second.drop_last());
            assert((first + second).drop_last() =~= first + second.drop_last());
            self.lemma_merge_associates(
                self.of(first),
                self.of(second.drop_last()),
                Some(second.last()),
            );
        }
    }

    proof fn lemma_merge_commutes(&self, a: Option<B>, b: Option<B>) {
    }

    proof fn lemma_merge_associates(&self, a: Option<B>, b: Option<B>, c: Option<B>) {
    }

    proof fn lemma_merge_none(&self, a: Option<B>) {
    }

    open spec fn within(&self, a: Option<B>, b: Option<B>) -> bool {
        a == b
    }

    proof fn lemma_within_itself(&self, a: Option<B>) {
    }

    proof fn lemma_within_chain(&self, a: Option<B>, b: Option<B>, c: Option<B>) {
    }

    proof fn lemma_merge_within(&self, a: Option<B>, b: Option<B>, c: Option<B>, d: Option<B>) {
    }
}

/// A reducer that combines with a settled function holds what the function
/// makes of what it held and of each item in turn.
pub proof fn lemma_combine_offered<B, F: Fn(B, B) -> B>(
    start: CombineReducer<B, B, CombineFn<F>>,
    items: Seq<B>,
    end: CombineReducer<B, B, CombineFn<F>>,
)
    requires
        offered(start, items, end),
        settled_on_pairs(start.1.0),
        associative(start.1.0),
    ensures
        end.1 == start.1,
        end.0 == combined_some(start.1.0, start.0, combined_all(start.1.0, items)),
    decreases items.len(),
{
    if items.len() > 0 {
        let mid = choose|mid: CombineReducer<B, B, CombineFn<F>>|
            offered(start, items.drop_last(), mid) && #[trigger] moved(mid, items.last(), end);
        lemma_combine_offered(start, items.drop_last(), mid);
    }
}

/// A reducer that combines the outputs of the level below with a settled
/// function holds what the function makes of what it held and of each output
/// that is a value, in turn.
pub proof fn lemma_combine_some_offered<B, F: Fn(B, B) -> B>(
    start: CombineReducer<Option<B>, B, CombineFn<F>>,
    items: Seq<Option<B>>,
    end: CombineReducer<Option<B>, B, CombineFn<F>>,
)
    requires
        offered(start, items, end),
        settled_on_pairs(start.1.0),
        associative(start.1.0),
    ensures
        end.1 == start.1,
        end.0 == combined_some(start.1.0, start.0, combined_all_some(start.1.0, items)),
    decreases items.len(),
{
    if items.len() > 0 {
        let mid = choose|mid: CombineReducer<Option<B>, B, CombineFn<F>>|
            offered(start, items.drop_last(), mid) && #[trigger] moved(mid, items.last(), end);
        lemma_combine_some_offered(start, items.drop_last(), mid);
    }
}

/// The merge of outputs of combining is what the function makes of them.
pub proof fn lemma_merged_combined<B, F: Fn(B, B) -> B>(f: F, outs: Seq<Option<B>>)
    ensures
        merged_a::<CombineTally<B, F>>(CombineTally(f, PhantomData), outs) == combined_all_some(
            f,
            outs,
        ),
        merged_b::<CombineTally<B, F>>(CombineTally(f, PhantomData), outs) == combined_all_some(
            f,
            outs,
        ),
    decreases outs.len(),
{
    if outs.len() > 0 {
        lemma_merged_combined(f, outs.drop_last());
    }
}

/// What a function to which neither grouping nor order matters makes of a
/// stream does not depend on the pool: on any number of processes and threads,
/// however the tasks are dealt, it is what the function makes of all the
/// items, combined two by two from the first on.
pub proof fn lemma_combine_on_pool<T: StreamTask, F: Fn(T::Item, T::Item) -> T::Item + Copy>(
    tasks: Seq<T>,
    processes: int,
    threads: int,
    f: F,
    out: Option<T::Item>,
)
    requires
        dist_pipe_reduces(tasks, processes, threads, Combine::<Identity, F>::of(Identity, f), out),
        settled_on_pairs(f),
        associative(f),
        commutative(f),
    ensures
        out == combined_all(f, tasks_items(tasks)),
{
    let sink = Combine::<Identity, F>::of(Identity, f);
    let tally: CombineTally<T::Item, F> = CombineTally(f, PhantomData);
    let (pipe, a, b, c) = choose|
        pipe: Identity,
        a: CombineReducerFactory<T::Item, T::Item, CombineFn<F>>,
        b: CombineReducerFactory<Option<T::Item>, T::Item, CombineFn<F>>,
        c: CombineReducer<Option<T::Item>, T::Item, CombineFn<F>>,
    | #[trigger]
        DistributedSink::<T::Item>::splits(sink, pipe, a, b, c) && dist_reduces(
            connected::<T, T::Item, Identity>(tasks, pipe),
            processes,
            threads,
            Lowering(a),
            Lowering(b),
            c.lowered(),
            out,
        );
    assert forall|
        r: CombineReducer<T::Item, T::Item, CombineFn<F>>,
        items: Seq<T::Item>,
        o: Option<T::Item>,
    |
        Lowering(a).makes(r) && #[trigger] reduces(r, items, o) implies o == combined_all(
        f,
        items,
    ) by {
        let end = choose|end: CombineReducer<T::Item, T::Item, CombineFn<F>>|
            offered(r, items, end) && #[trigger] end.yields(o);
        lemma_combine_offered(r, items, end);
    }
    assert forall|
        r: CombineReducer<Option<T::Item>, T::Item, CombineFn<F>>,
        outs: Seq<Option<T::Item>>,
        o: Option<T::Item>,
    |
        Lowering(b).makes(r) && #[trigger] reduces(r, outs, o) implies o == merged_a::<
        CombineTally<T::Item, F>,
    >(tally, outs) by {
        let end = choose|end: CombineReducer<Option<T::Item>, T::Item, CombineFn<F>>|
            offered(r, outs, end) && #[trigger] end.yields(o);
        lemma_combine_some_offered(r, outs, end);
        lemma_merged_combined(f, outs);
    }
    assert forall|outs: Seq<Option<T::Item>>, o: Option<T::Item>| #[trigger]
        reduces(c.lowered(), outs, o) implies o == merged_b::<CombineTally<T::Item, F>>(
        tally,
        outs,
    ) by {
        let end = choose|end: CombineReducer<Option<T::Item>, T::Item, CombineFn<F>>|
            offered(c, outs, end) && #[trigger] end.yields(o);
        lemma_combine_some_offered(c, outs, end);
        lemma_merged_combined(f, outs);
    }
    lemma_dist_tally::<
        CombineTally<T::Item, F>,
        ConnectTask<T, IdentityTask>,
        Lowering<CombineReducerFactory<T::Item, T::Item, CombineFn<F>>>,
        Lowering<CombineReducerFactory<Option<T::Item>, T::Item, CombineFn<F>>>,
        CombineReducer<Option<T::Item>, T::Item, CombineFn<F>>,
    >(
        tally,
        connected::<T, T::Item, Identity>(tasks, pipe),
        processes,
        threads,
        Lowering(a),
        Lowering(b),
        c.lowered(),
        out,
    );
    lemma_connected_identity(tasks);
}

/// What a function to which neither grouping nor order matters makes of a
/// stream does not depend on the number of threads.
pub proof fn lemma_combine_on_threads<T: StreamTask, F: Fn(T::Item, T::Item) -> T::Item + Copy>(
    tasks: Seq<T>,
    threads: int,
    f: F,
    out: Option<T::Item>,
)
    requires
        par_pipe_reduces(tasks, threads, Combine::<Identity, F>::of(Identity, f), out),
        settled_on_pairs(f),
        associative(f),
        commutative(f),
    ensures
        out == combined_all(f, tasks_items(tasks)),
{
    let sink = Combine::<Identity, F>::of(Identity, f);
    let tally: CombineTally<T::Item, F> = CombineTally(f, PhantomData);
    let (pipe, a, c) = choose|
        pipe: Identity,
        a: CombineReducerFactory<T::Item, T::Item, CombineFn<F>>,
        c: CombineReducer<Option<T::Item>, T::Item, CombineFn<F>>,
    | #[trigger]
        ParallelSink::<T::Item>::splits(sink, pipe, a, c) && par_reduces(
            connected::<T, T::Item, Identity>(tasks, pipe),
            threads,
            Lowering(a),
            c.lowered(),
            out,
        );
    assert forall|
        r: CombineReducer<T::Item, T::Item, CombineFn<F>>,
        items: Seq<T::Item>,
        o: Option<T::Item>,
    |
        Lowering(a).makes(r) && #[trigger] reduces(r, items, o) implies o == combined_all(
        f,
        items,
    ) by {
        let end = choose|end: CombineReducer<T::Item, T::Item, CombineFn<F>>|
            offered(r, items, end) && #[trigger] end.yields(o);
        lemma_combine_offered(r, items, end);
    }
    assert forall|outs: Seq<Option<T::Item>>, o: Option<T::Item>| #[trigger]
        reduces(c.lowered(), outs, o) implies o == merged_a::<CombineTally<T::Item, F>>(
        tally,
        outs,
    ) by {
        let end = choose|end: CombineReducer<Option<T::Item>, T::Item, CombineFn<F>>|
            offered(c, outs, end) && #[trigger] end.yields(o);
        lemma_combine_some_offered(c, outs, end);
        lemma_merged_combined(f, outs);
    }
    lemma_par_tally::<
        CombineTally<T::Item, F>,
        ConnectTask<T, IdentityTask>,
        Lowering<CombineReducerFactory<T::Item, T::Item, CombineFn<F>>>,
        CombineReducer<Option<T::Item>, T::Item, CombineFn<F>>,
    >(
        tally,
        connected::<T, T::Item, Identity>(tasks, pipe),
        threads,
        Lowering(a),
        c.lowered(),
        out,
    );
    lemma_connected_identity(tasks);
}

} // verus!
