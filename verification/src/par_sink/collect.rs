//! Collecting items into a container.

use vstd::prelude::*;
use std::collections::{HashMap, HashSet, VecDeque};
use std::hash::{BuildHasher, Hash};
use std::marker::PhantomData;
use vstd::std_specs::hash::{builds_valid_hashers, obeys_key_model};
use crate::par_pipe::{DistributedPipe, ParallelPipe};
use crate::par_sink::{DistributedSink, Factory, ParallelSink, Reducer, ReducerAsync};
use crate::sink::{moved, Intake, Sink};
use crate::stream::Poll;

verus! {

/// The maker of reducers of type `T` as `T::default` makes them.
pub struct DefaultReduceFactory<T>(pub PhantomData<T>);

impl<T> DefaultReduceFactory<T> {
    pub fn new() -> (f: Self)
        ensures
            f == DefaultReduceFactory::<T>(PhantomData),
    {
        DefaultReduceFactory(PhantomData)
    }
}

impl<T> Default for DefaultReduceFactory<T> {
    fn default() -> (f: Self) {
        DefaultReduceFactory(PhantomData)
    }
}

impl<T: Default> Factory for DefaultReduceFactory<T> {
    type Item = T;

    open spec fn inv(&self) -> bool {
        true
    }

    open spec fn makes(&self, item: T) -> bool {
        call_ensures(T::default, (), item)
    }

    fn make(&self) -> (item: T) {
        T::default()
    }
}

impl<T> Clone for DefaultReduceFactory<T> {
    fn clone(&self) -> (c: Self)
        ensures
            c == *self,
    {
        DefaultReduceFactory(PhantomData)
    }
}

/// Containers that take in one item at a time: sequences append it, sets and
/// maps put it in the place of an equal one, strings append it.
pub trait Push<A>: Sized {
    /// Whether taking `item` in may turn this container into `next`.
    spec fn pushed(&self, item: A, next: Self) -> bool;

    /// Takes `item` in.
    fn push(&mut self, item: A)
        ensures
            old(self).pushed(item, *final(self)),
    ;
}

impl<T> Push<T> for Vec<T> {
    open spec fn pushed(&self, item: T, next: Self) -> bool {
        next@ == self@.push(item)
    }

    #[inline]
    fn push(&mut self, item: T) {
        self.push(item);
    }
}

impl<T, S> Push<T> for HashSet<T, S> where T: Eq + Hash, S: BuildHasher {
    open spec fn pushed(&self, item: T, next: Self) -> bool {
        obeys_key_model::<T>() && builds_valid_hashers::<S>() ==> next@ == self@.insert(item)
    }

    #[inline]
    fn push(&mut self, item: T) {
        let _ = self.insert(item);
    }
}

impl<K, V, S> Push<(K, V)> for HashMap<K, V, S> where K: Eq + Hash, S: BuildHasher {
    open spec fn pushed(&self, item: (K, V), next: Self) -> bool {
        obeys_key_model::<K>() && builds_valid_hashers::<S>() ==> next@ == self@.insert(
            item.0,
            item.1,
        )
    }

    #[inline]
    fn push(&mut self, item: (K, V)) {
        let _ = self.insert(item.0, item.1);
    }
}

/// Appends `c` to `s`.
///
/// Calls `String::push`, which appends the given char to the end of the
/// string.
#[verifier::external_body]
fn string_push(s: &mut String, c: char)
    ensures
        final(s)@ == old(s)@.push(c),
{
    s.push(c);
}

/// Appends `tail` to `s`.
///
/// Calls `String::push_str`, which appends the given string slice onto the
/// end of the string.
#[verifier::external_body]
fn string_push_str(s: &mut String, tail: &str)
    ensures
        final(s)@ == old(s)@ + tail@,
{
    s.push_str(tail);
}

impl Push<char> for String {
    open spec fn pushed(&self, item: char, next: Self) -> bool {
        next@ == self@.push(item)
    }

    #[inline]
    fn push(&mut self, item: char) {
        string_push(self, item);
    }
}

impl Push<String> for String {
    open spec fn pushed(&self, item: String, next: Self) -> bool {
        next@ == self@ + item@
    }

    #[inline]
    fn push(&mut self, item: String) {
        string_push_str(self, item.as_str());
    }
}

impl Push<()> for () {
    open spec fn pushed(&self, item: (), next: Self) -> bool {
        true
    }

    #[inline]
    fn push(&mut self, _item: ()) {
    }
}

/// The reducer that pushes its items into a container. It holds the
/// container until it is asked for its output.
pub struct PushReducer<A, T = A>(pub Option<T>, pub PhantomData<A>);

impl<A, T> PushReducer<A, T> {
    pub fn new(t: T) -> (r: Self)
        ensures
            r.0 == Some(t),
    {
        PushReducer(Some(t), PhantomData)
    }
}

impl<A, T> Default for PushReducer<A, T> where T: Default {
    fn default() -> (r: Self)
        ensures
            r.0 matches Some(t) && call_ensures(T::default, (), t),
    {
        PushReducer(Some(T::default()), PhantomData)
    }
}

impl<A, T: Push<A>> Intake for PushReducer<A, T> {
    type Item = A;

    open spec fn inv(&self) -> bool {
        self.0.is_some()
    }

    open spec fn wants(&self) -> bool {
        true
    }

    open spec fn admits(&self, item: A) -> bool {
        true
    }

    open spec fn absorbs(&self, item: A, next: Self) -> bool {
        self.0 matches Some(held) && next.0 matches Some(then) && held.pushed(item, then)
    }
}

impl<A, T: Push<A>> Sink for PushReducer<A, T> {
    fn accepting(&self) -> (b: bool) {
        true
    }

    fn push(&mut self, item: A) {
        let mut held = self.0.take().unwrap();
        held.push(item);
        self.0 = Some(held);
    }
}

impl<A, T: Push<A>> ReducerAsync for PushReducer<A, T> {
    type Output = T;

    open spec fn ripe(&self) -> bool {
        true
    }

    open spec fn yields(&self, out: T) -> bool {
        self.0 == Some(out)
    }

    fn poll_output(&mut self) -> (r: Poll<T>) {
        Poll::Ready(self.0.take().unwrap())
    }
}

impl<A, T: Push<A>> Reducer for PushReducer<A, T> {
    type Item = A;

    type Output = T;

    type Async = Self;

    open spec fn lowered(self) -> Self {
        self
    }

    fn into_async(self) -> (a: Self) {
        self
    }
}

/// Containers that take in a whole collection of items at a time.
pub trait ExtendWith<A>: Sized {
    /// Whether taking `items` in may turn this container into `next`.
    spec fn extended(&self, items: A, next: Self) -> bool;

    /// Takes `items` in.
    fn extend_with(&mut self, items: A)
        ensures
            old(self).extended(items, *final(self)),
    ;
}

impl<T> ExtendWith<Vec<T>> for Vec<T> {
    open spec fn extended(&self, items: Vec<T>, next: Self) -> bool {
        next@ == self@ + items@
    }

    fn extend_with(&mut self, items: Vec<T>) {
        let mut items = items;
        self.append(&mut items);
    }
}

/// Puts every item of `items` into `set`.
///
/// Calls `Extend::extend` of `HashSet`, which inserts every item that the
/// iterator yields.
#[verifier::external_body]
fn set_extend<T: Eq + Hash, S: BuildHasher>(set: &mut HashSet<T, S>, items: HashSet<T, S>)
    ensures
        obeys_key_model::<T>() && builds_valid_hashers::<S>() ==> final(set)@ == old(set)@.union(
            items@,
        ),
{
    set.extend(items);
}

/// Puts every entry of `items` into `map`, in the place of the entry with
/// an equal key where there is one.
///
/// Calls `Extend::extend` of `HashMap`, which inserts all the key-values that
/// the iterator yields and replaces the values of keys that are there.
#[verifier::external_body]
fn map_extend<K: Eq + Hash, V, S: BuildHasher>(map: &mut HashMap<K, V, S>, items: HashMap<K, V, S>)
    ensures
        obeys_key_model::<K>() && builds_valid_hashers::<S>() ==> final(map)@ == old(
            map,
        )@.union_prefer_right(items@),
{
    map.extend(items);
}

impl<T: Eq + Hash, S: BuildHasher> ExtendWith<HashSet<T, S>> for HashSet<T, S> {
    open spec fn extended(&self, items: HashSet<T, S>, next: Self) -> bool {
        obeys_key_model::<T>() && builds_valid_hashers::<S>() ==> next@ == self@.union(items@)
    }

    fn extend_with(&mut self, items: HashSet<T, S>) {
        set_extend(self, items);
    }
}

impl<K: Eq + Hash, V, S: BuildHasher> ExtendWith<HashMap<K, V, S>> for HashMap<K, V, S> {
    open spec fn extended(&self, items: HashMap<K, V, S>, next: Self) -> bool {
        obeys_key_model::<K>() && builds_valid_hashers::<S>() ==> next@
            == self@.union_prefer_right(items@)
    }

    fn extend_with(&mut self, items: HashMap<K, V, S>) {
        map_extend(self, items);
    }
}

/// The reducer that takes in collections of items and holds them all in one
/// container, one collection after the other.
pub struct ExtendReducer<A, T = A>(pub Option<T>, pub PhantomData<A>);

impl<A, T> Default for ExtendReducer<A, T> where T: Default {
    fn default() -> (r: Self)
        ensures
            r.0 matches Some(t) && call_ensures(T::default, (), t),
    {
        ExtendReducer(Some(T::default()), PhantomData)
    }
}

impl<A, T: ExtendWith<A>> Intake for ExtendReducer<A, T> {
    type Item = A;

    open spec fn inv(&self) -> bool {
        self.0.is_some()
    }

    open spec fn wants(&self) -> bool {
        true
    }

    open spec fn admits(&self, item: A) -> bool {
        true
    }

    open spec fn absorbs(&self, item: A, next: Self) -> bool {
        self.0 matches Some(held) && next.0 matches Some(then) && held.extended(item, then)
    }
}

impl<A, T: ExtendWith<A>> Sink for ExtendReducer<A, T> {
    fn accepting(&self) -> (b: bool) {
        true
    }

    fn push(&mut self, item: A) {
        let mut held = self.0.take().unwrap();
        held.extend_with(item);
        self.0 = Some(held);
    }
}

impl<A, T: ExtendWith<A>> ReducerAsync for ExtendReducer<A, T> {
    type Output = T;

    open spec fn ripe(&self) -> bool {
        true
    }

    open spec fn yields(&self, out: T) -> bool {
        self.0 == Some(out)
    }

    fn poll_output(&mut self) -> (r: Poll<T>) {
        Poll::Ready(self.0.take().unwrap())
    }
}

impl<A, T: ExtendWith<A>> Reducer for ExtendReducer<A, T> {
    type Item = A;

    type Output = T;

    type Async = Self;

    open spec fn lowered(self) -> Self {
        self
    }

    fn into_async(self) -> (a: Self) {
        self
    }
}

/// The reducer that does what `R` does and converts its output into `T`.
pub struct IntoReducer<R, T>(pub R, pub PhantomData<T>);

impl<R, T> Default for IntoReducer<R, T> where R: Default {
    fn default() -> (r: Self)
        ensures
            call_ensures(R::default, (), r.0),
    {
        IntoReducer(R::default(), PhantomData)
    }
}

impl<R: ReducerAsync, T: From<R::Output>> Intake for IntoReducer<R, T> {
    type Item = R::Item;

    open spec fn inv(&self) -> bool {
        self.0.inv()
    }

    open spec fn wants(&self) -> bool {
        self.0.wants()
    }

    open spec fn admits(&self, item: R::Item) -> bool {
        self.0.admits(item)
    }

    open spec fn absorbs(&self, item: R::Item, next: Self) -> bool {
        self.0.absorbs(item, next.0)
    }
}

impl<R: ReducerAsync, T: From<R::Output>> Sink for IntoReducer<R, T> {
    fn accepting(&self) -> (b: bool) {
        self.0.accepting()
    }

    fn push(&mut self, item: R::Item) {
        self.0.push(item);
    }
}

impl<R: ReducerAsync, T: From<R::Output>> ReducerAsync for IntoReducer<R, T> {
    type Output = T;

    open spec fn ripe(&self) -> bool {
        self.0.ripe()
    }

    open spec fn yields(&self, out: T) -> bool {
        exists|inner: R::Output| #[trigger] self.0.yields(inner) && call_ensures(T::from, (inner,), out)
    }

    fn poll_output(&mut self) -> (r: Poll<T>) {
        match self.0.poll_output() {
            Poll::Ready(inner) => Poll::Ready(T::from(inner)),
            Poll::Pending => Poll::Pending,
        }
    }
}

impl<R: Reducer, T: From<R::Output>> Reducer for IntoReducer<R, T> {
    type Item = R::Item;

    type Output = T;

    type Async = IntoReducer<R::Async, T>;

    open spec fn lowered(self) -> IntoReducer<R::Async, T> {
        IntoReducer(self.0.lowered(), PhantomData)
    }

    fn into_async(self) -> (a: IntoReducer<R::Async, T>) {
        IntoReducer(self.0.into_async(), PhantomData)
    }
}

/// The maker of reducers that lift the reducers of `.0` to optional items.
pub struct OptionReduceFactory<RF>(pub RF);

impl<RF: Factory> Factory for OptionReduceFactory<RF> {
    type Item = OptionReducer<RF::Item>;

    open spec fn inv(&self) -> bool {
        self.0.inv()
    }

    open spec fn makes(&self, item: OptionReducer<RF::Item>) -> bool {
        item.0 matches Some(inner) && self.0.makes(inner)
    }

    fn make(&self) -> (item: OptionReducer<RF::Item>) {
        OptionReducer(Some(self.0.make()))
    }
}

/// The reducer that hands the values of its items to the reducer it holds
/// until an item comes that is `None`. From then on it holds nothing, wants
/// no more items, and its output is `None`.
pub struct OptionReducer<R>(pub Option<R>);

impl<R> Default for OptionReducer<R> where R: Default {
    fn default() -> (r: Self)
        ensures
            r.0 matches Some(inner) && call_ensures(R::default, (), inner),
    {
        OptionReducer(Some(R::default()))
    }
}

impl<R: ReducerAsync> Intake for OptionReducer<R> {
    type Item = Option<R::Item>;

    open spec fn inv(&self) -> bool {
        match self.0 {
            Some(inner) => inner.inv(),
            None => true,
        }
    }

    open spec fn wants(&self) -> bool {
        self.0.is_some()
    }

    open spec fn admits(&self, item: Option<R::Item>) -> bool {
        match (self.0, item) {
            (Some(inner), Some(value)) => inner.wants() ==> inner.admits(value),
            _ => true,
        }
    }

    open spec fn absorbs(&self, item: Option<R::Item>, next: Self) -> bool {
        match (self.0, item) {
            (Some(inner), Some(value)) => next.0 matches Some(then) && moved(inner, value, then),
            _ => next.0.is_none(),
        }
    }
}

impl<R: ReducerAsync> Sink for OptionReducer<R> {
    fn accepting(&self) -> (b: bool) {
        self.0.is_some()
    }

    fn push(&mut self, item: Option<R::Item>) {
        match (self.0.take(), item) {
            (Some(inner), Some(value)) => {
                let mut inner = inner;
                if inner.accepting() {
                    inner.push(value);
                }
                self.0 = Some(inner);
            },
            _ => {},
        }
    }
}

impl<R: ReducerAsync> ReducerAsync for OptionReducer<R> {
    type Output = Option<R::Output>;

    open spec fn ripe(&self) -> bool {
        match self.0 {
            Some(inner) => inner.ripe(),
            None => true,
        }
    }

    open spec fn yields(&self, out: Option<R::Output>) -> bool {
        match self.0 {
            Some(inner) => out matches Some(value) && inner.yields(value),
            None => out.is_none(),
        }
    }

    fn poll_output(&mut self) -> (r: Poll<Option<R::Output>>) {
        match self.0.take() {
            Some(inner) => {
                let mut inner = inner;
                match inner.poll_output() {
                    Poll::Ready(value) => Poll::Ready(Some(value)),
                    Poll::Pending => Poll::Pending,
                }
            },
            None => Poll::Ready(None),
        }
    }
}

impl<R: Reducer> Reducer for OptionReducer<R> {
    type Item = Option<R::Item>;

    type Output = Option<R::Output>;

    type Async = OptionReducer<R::Async>;

    open spec fn lowered(self) -> OptionReducer<R::Async> {
        match self.0 {
            Some(inner) => OptionReducer(Some(inner.lowered())),
            None => OptionReducer(None),
        }
    }

    fn into_async(self) -> (a: OptionReducer<R::Async>) {
        match self.0 {
            Some(inner) => OptionReducer(Some(inner.into_async())),
            None => OptionReducer(None),
        }
    }
}

/// The maker of reducers that lift the reducers of `.0` to items that may be
/// errors.
pub struct ResultReduceFactory<RF, E>(pub RF, pub PhantomData<E>);

impl<RF, E> Factory for ResultReduceFactory<RF, E> where RF: Factory {
    type Item = ResultReducer<RF::Item, E>;

    open spec fn inv(&self) -> bool {
        self.0.inv()
    }

    open spec fn makes(&self, item: ResultReducer<RF::Item, E>) -> bool {
        self.0.makes(item.0)
    }

    fn make(&self) -> (item: ResultReducer<RF::Item, E>) {
        ResultReducer(self.0.make(), PhantomData)
    }
}

impl<RF, E> Clone for ResultReduceFactory<RF, E> where RF: Clone {
    fn clone(&self) -> (c: Self) {
        ResultReduceFactory(self.0.clone(), PhantomData)
    }
}

/// The reducer that lifts `R` to items that may be errors, before it is put to
/// work.
pub struct ResultReducer<R, E>(pub R, pub PhantomData<E>);

impl<R, E> Default for ResultReducer<R, E> where R: Default {
    fn default() -> (r: Self)
        ensures
            call_ensures(R::default, (), r.0),
    {
        ResultReducer(R::default(), PhantomData)
    }
}

impl<R: Reducer, E> Reducer for ResultReducer<R, E> {
    type Item = Result<R::Item, E>;

    type Output = Result<R::Output, E>;

    type Async = ResultReducerAsync<R::Async, E>;

    open spec fn lowered(self) -> ResultReducerAsync<R::Async, E> {
        ResultReducerAsync::Going(self.0.lowered())
    }

    fn into_async(self) -> (a: ResultReducerAsync<R::Async, E>) {
        ResultReducerAsync::Going(self.0.into_async())
    }
}

/// The reducer that hands the values of its items to the reducer it holds
/// until an item comes that is an error. From then on it holds that error,
/// wants no more items, and its output is the error.
pub enum ResultReducerAsync<R, E> {
    /// No error has come; the reducer held takes the values.
    Going(R),
    /// An error has come; it is held until the output is asked for.
    Failed(Option<E>),
}

impl<R: ReducerAsync, E> Intake for ResultReducerAsync<R, E> {
    type Item = Result<R::Item, E>;

    open spec fn inv(&self) -> bool {
        match *self {
            ResultReducerAsync::Going(inner) => inner.inv(),
            ResultReducerAsync::Failed(error) => error.is_some(),
        }
    }

    open spec fn wants(&self) -> bool {
        *self is Going
    }

    open spec fn admits(&self, item: Result<R::Item, E>) -> bool {
        match (*self, item) {
            (ResultReducerAsync::Going(inner), Ok(value)) => inner.wants() ==> inner.admits(value),
            _ => true,
        }
    }

    open spec fn absorbs(&self, item: Result<R::Item, E>, next: Self) -> bool {
        match (*self, item) {
            (
                ResultReducerAsync::Going(inner),
                Ok(value),
            ) => next matches ResultReducerAsync::Going(then)
                && moved(inner, value, then),
            (_, Err(error)) => next == ResultReducerAsync::<R, E>::Failed(Some(error)),
            (_, _) => next == *self,
        }
    }
}

impl<R: ReducerAsync, E> Sink for ResultReducerAsync<R, E> {
    fn accepting(&self) -> (b: bool) {
        match self {
            ResultReducerAsync::Going(_) => true,
            ResultReducerAsync::Failed(_) => false,
        }
    }

    fn push(&mut self, item: Result<R::Item, E>) {
        match item {
            Ok(value) => {
                match self {
                    ResultReducerAsync::Going(inner) => {
                        if inner.accepting() {
                            inner.push(value);
                        }
                    },
                    ResultReducerAsync::Failed(_) => {},
                }
            },
            Err(error) => {
                *self = ResultReducerAsync::Failed(Some(error));
            },
        }
    }
}

impl<R: ReducerAsync, E> ReducerAsync for ResultReducerAsync<R, E> {
    type Output = Result<R::Output, E>;

    open spec fn ripe(&self) -> bool {
        match *self {
            ResultReducerAsync::Going(inner) => inner.ripe(),
            ResultReducerAsync::Failed(_) => true,
        }
    }

    open spec fn yields(&self, out: Result<R::Output, E>) -> bool {
        match *self {
            ResultReducerAsync::Going(inner) => out matches Ok(value) && inner.yields(value),
            ResultReducerAsync::Failed(error) => out matches Err(e) && error == Some(e),
        }
    }

    fn poll_output(&mut self) -> (r: Poll<Result<R::Output, E>>) {
        match self {
            ResultReducerAsync::Going(inner) => match inner.poll_output() {
                Poll::Ready(value) => Poll::Ready(Ok(value)),
                Poll::Pending => Poll::Pending,
            },
            ResultReducerAsync::Failed(error) => Poll::Ready(Err(error.take().unwrap())),
        }
    }
}

/// Containers that a stream on the threads of one process can be collected
/// into: the reducers that the threads run and the reducer that takes their
/// outputs.
pub trait FromParallelStream<T>: Sized {
    type ReduceAFactory: Factory<Item = Self::ReduceA>;

    type ReduceA: Reducer<Item = T>;

    type ReduceC: Reducer<Item = <Self::ReduceA as Reducer>::Output, Output = Self>;

    /// Whether [`reducers`](FromParallelStream::reducers) may hand out these
    /// parts.
    spec fn splits(a: Self::ReduceAFactory, c: Self::ReduceC) -> bool;

    /// The reducers that collect into this container.
    fn reducers() -> (r: (Self::ReduceAFactory, Self::ReduceC))
        ensures
            Self::splits(r.0, r.1),
            r.0.inv(),
    ;
}

/// Containers that a stream on a pool of processes can be collected into: the
/// reducers that the threads run, the reducers that take the outputs of the
/// threads of one process, and the reducer that takes the processes' outputs.
pub trait FromDistributedStream<T>: Sized {
    type ReduceAFactory: Factory<Item = Self::ReduceA>;

    type ReduceBFactory: Factory<Item = Self::ReduceB>;

    type ReduceA: Reducer<Item = T>;

    type ReduceB: Reducer<Item = <Self::ReduceA as Reducer>::Output>;

    type ReduceC: Reducer<Item = <Self::ReduceB as Reducer>::Output, Output = Self>;

    /// Whether [`reducers`](FromDistributedStream::reducers) may hand out
    /// these parts.
    spec fn splits(a: Self::ReduceAFactory, b: Self::ReduceBFactory, c: Self::ReduceC) -> bool;

    /// The reducers that collect into this container.
    fn reducers() -> (r: (Self::ReduceAFactory, Self::ReduceBFactory, Self::ReduceC))
        ensures
            Self::splits(r.0, r.1, r.2),
            r.0.inv(),
            r.1.inv(),
    ;
}

impl<T> FromParallelStream<T> for Vec<T> {
    type ReduceAFactory = DefaultReduceFactory<PushReducer<T, Vec<T>>>;

    type ReduceA = PushReducer<T, Vec<T>>;

    type ReduceC = ExtendReducer<Vec<T>, Vec<T>>;

    open spec fn splits(
        a: DefaultReduceFactory<PushReducer<T, Vec<T>>>,
        c: ExtendReducer<Vec<T>, Vec<T>>,
    ) -> bool {
        call_ensures(<ExtendReducer<Vec<T>, Vec<T>> as Default>::default, (), c)
    }

    fn reducers() -> (r: (
        DefaultReduceFactory<PushReducer<T, Vec<T>>>,
        ExtendReducer<Vec<T>, Vec<T>>,
    )) {
        let r = (
            DefaultReduceFactory::new(),
            <ExtendReducer<Vec<T>, Vec<T>> as Default>::default(),
        );
        assert(Factory::inv(&r.0));
        r
    }
}

impl<T> FromDistributedStream<T> for Vec<T> {
    type ReduceAFactory = DefaultReduceFactory<PushReducer<T, Vec<T>>>;

    type ReduceBFactory = DefaultReduceFactory<ExtendReducer<Vec<T>, Vec<T>>>;

    type ReduceA = PushReducer<T, Vec<T>>;

    type ReduceB = ExtendReducer<Vec<T>, Vec<T>>;

    type ReduceC = ExtendReducer<Vec<T>, Vec<T>>;

    open spec fn splits(
        a: DefaultReduceFactory<PushReducer<T, Vec<T>>>,
        b: DefaultReduceFactory<ExtendReducer<Vec<T>, Vec<T>>>,
        c: ExtendReducer<Vec<T>, Vec<T>>,
    ) -> bool {
        call_ensures(<ExtendReducer<Vec<T>, Vec<T>> as Default>::default, (), c)
    }

    fn reducers() -> (r: (
        DefaultReduceFactory<PushReducer<T, Vec<T>>>,
        DefaultReduceFactory<ExtendReducer<Vec<T>, Vec<T>>>,
        ExtendReducer<Vec<T>, Vec<T>>,
    )) {
        let r = (
            DefaultReduceFactory::new(),
            DefaultReduceFactory::new(),
            <ExtendReducer<Vec<T>, Vec<T>> as Default>::default(),
        );
        assert(Factory::inv(&r.0));
        assert(Factory::inv(&r.1));
        r
    }
}

impl<T> FromParallelStream<T> for VecDeque<T> {
    type ReduceAFactory = DefaultReduceFactory<PushReducer<T, Vec<T>>>;

    type ReduceA = PushReducer<T, Vec<T>>;

    type ReduceC = IntoReducer<ExtendReducer<Vec<T>, Vec<T>>, VecDeque<T>>;

    open spec fn splits(
        a: DefaultReduceFactory<PushReducer<T, Vec<T>>>,
        c: IntoReducer<ExtendReducer<Vec<T>, Vec<T>>, VecDeque<T>>,
    ) -> bool {
        call_ensures(
            <IntoReducer<ExtendReducer<Vec<T>, Vec<T>>, VecDeque<T>> as Default>::default,
            (),
            c,
        )
    }

    fn reducers() -> (r: (
        DefaultReduceFactory<PushReducer<T, Vec<T>>>,
        IntoReducer<ExtendReducer<Vec<T>, Vec<T>>, VecDeque<T>>,
    )) {
        let r = (
            DefaultReduceFactory::new(),
            <IntoReducer<ExtendReducer<Vec<T>, Vec<T>>, VecDeque<T>> as Default>::default(),
        );
        assert(Factory::inv(&r.0));
        r
    }
}

impl<T> FromDistributedStream<T> for VecDeque<T> {
    type ReduceAFactory = DefaultReduceFactory<PushReducer<T, Vec<T>>>;

    type ReduceBFactory = DefaultReduceFactory<ExtendReducer<Vec<T>, Vec<T>>>;

    type ReduceA = PushReducer<T, Vec<T>>;

    type ReduceB = ExtendReducer<Vec<T>, Vec<T>>;

    type ReduceC = IntoReducer<ExtendReducer<Vec<T>, Vec<T>>, VecDeque<T>>;

    open spec fn splits(
        a: DefaultReduceFactory<PushReducer<T, Vec<T>>>,
        b: DefaultReduceFactory<ExtendReducer<Vec<T>, Vec<T>>>,
        c: IntoReducer<ExtendReducer<Vec<T>, Vec<T>>, VecDeque<T>>,
    ) -> bool {
        call_ensures(
            <IntoReducer<ExtendReducer<Vec<T>, Vec<T>>, VecDeque<T>> as Default>::default,
            (),
            c,
        )
    }

    fn reducers() -> (r: (
        DefaultReduceFactory<PushReducer<T, Vec<T>>>,
        DefaultReduceFactory<ExtendReducer<Vec<T>, Vec<T>>>,
        IntoReducer<ExtendReducer<Vec<T>, Vec<T>>, VecDeque<T>>,
    )) {
        let r = (
            DefaultReduceFactory::new(),
            DefaultReduceFactory::new(),
            <IntoReducer<ExtendReducer<Vec<T>, Vec<T>>, VecDeque<T>> as Default>::default(),
        );
        assert(Factory::inv(&r.0));
        assert(Factory::inv(&r.1));
        r
    }
}

impl FromParallelStream<char> for String {
    type ReduceAFactory = DefaultReduceFactory<PushReducer<char, String>>;

    type ReduceA = PushReducer<char, String>;

    type ReduceC = PushReducer<String, String>;

    open spec fn splits(
        a: DefaultReduceFactory<PushReducer<char, String>>,
        c: PushReducer<String, String>,
    ) -> bool {
        call_ensures(<PushReducer<String, String> as Default>::default, (), c)
    }

    fn reducers() -> (r: (
        DefaultReduceFactory<PushReducer<char, String>>,
        PushReducer<String, String>,
    )) {
        let r = (DefaultReduceFactory::new(), <PushReducer<String, String> as Default>::default());
        assert(Factory::inv(&r.0));
        r
    }
}

impl FromDistributedStream<char> for String {
    type ReduceAFactory = DefaultReduceFactory<PushReducer<char, String>>;

    type ReduceBFactory = DefaultReduceFactory<PushReducer<String, String>>;

    type ReduceA = PushReducer<char, String>;

    type ReduceB = PushReducer<String, String>;

    type ReduceC = PushReducer<String, String>;

    open spec fn splits(
        a: DefaultReduceFactory<PushReducer<char, String>>,
        b: DefaultReduceFactory<PushReducer<String, String>>,
        c: PushReducer<String, String>,
    ) -> bool {
        call_ensures(<PushReducer<String, String> as Default>::default, (), c)
    }

    fn reducers() -> (r: (
        DefaultReduceFactory<PushReducer<char, String>>,
        DefaultReduceFactory<PushReducer<String, String>>,
        PushReducer<String, String>,
    )) {
        let r = (
            DefaultReduceFactory::new(),
            DefaultReduceFactory::new(),
            <PushReducer<String, String> as Default>::default(),
        );
        assert(Factory::inv(&r.0));
        assert(Factory::inv(&r.1));
        r
    }
}

impl FromParallelStream<String> for String {
    type ReduceAFactory = DefaultReduceFactory<PushReducer<String, String>>;

    type ReduceA = PushReducer<String, String>;

    type ReduceC = PushReducer<String, String>;

    open spec fn splits(
        a: DefaultReduceFactory<PushReducer<String, String>>,
        c: PushReducer<String, String>,
    ) -> bool {
        call_ensures(<PushReducer<String, String> as Default>::default, (), c)
    }

    fn reducers() -> (r: (
        DefaultReduceFactory<PushReducer<String, String>>,
        PushReducer<String, String>,
    )) {
        let r = (DefaultReduceFactory::new(), <PushReducer<String, String> as Default>::default());
        assert(Factory::inv(&r.0));
        r
    }
}

impl FromDistributedStream<String> for String {
    type ReduceAFactory = DefaultReduceFactory<PushReducer<String, String>>;

    type ReduceBFactory = DefaultReduceFactory<PushReducer<String, String>>;

    type ReduceA = PushReducer<String, String>;

    type ReduceB = PushReducer<String, String>;

    type ReduceC = PushReducer<String, String>;

    open spec fn splits(
        a: DefaultReduceFactory<PushReducer<String, String>>,
        b: DefaultReduceFactory<PushReducer<String, String>>,
        c: PushReducer<String, String>,
    ) -> bool {
        call_ensures(<PushReducer<String, String> as Default>::default, (), c)
    }

    fn reducers() -> (r: (
        DefaultReduceFactory<PushReducer<String, String>>,
        DefaultReduceFactory<PushReducer<String, String>>,
        PushReducer<String, String>,
    )) {
        let r = (
            DefaultReduceFactory::new(),
            DefaultReduceFactory::new(),
            <PushReducer<String, String> as Default>::default(),
        );
        assert(Factory::inv(&r.0));
        assert(Factory::inv(&r.1));
        r
    }
}

impl FromParallelStream<()> for () {
    type ReduceAFactory = DefaultReduceFactory<PushReducer<(), ()>>;

    type ReduceA = PushReducer<(), ()>;

    type ReduceC = PushReducer<(), ()>;

    open spec fn splits(
        a: DefaultReduceFactory<PushReducer<(), ()>>,
        c: PushReducer<(), ()>,
    ) -> bool {
        call_ensures(<PushReducer<(), ()> as Default>::default, (), c)
    }

    fn reducers() -> (r: (DefaultReduceFactory<PushReducer<(), ()>>, PushReducer<(), ()>)) {
        let r = (DefaultReduceFactory::new(), <PushReducer<(), ()> as Default>::default());
        assert(Factory::inv(&r.0));
        r
    }
}

impl FromDistributedStream<()> for () {
    type ReduceAFactory = DefaultReduceFactory<PushReducer<(), ()>>;

    type ReduceBFactory = DefaultReduceFactory<PushReducer<(), ()>>;

    type ReduceA = PushReducer<(), ()>;

    type ReduceB = PushReducer<(), ()>;

    type ReduceC = PushReducer<(), ()>;

    open spec fn splits(
        a: DefaultReduceFactory<PushReducer<(), ()>>,
        b: DefaultReduceFactory<PushReducer<(), ()>>,
        c: PushReducer<(), ()>,
    ) -> bool {
        call_ensures(<PushReducer<(), ()> as Default>::default, (), c)
    }

    fn reducers() -> (r: (
        DefaultReduceFactory<PushReducer<(), ()>>,
        DefaultReduceFactory<PushReducer<(), ()>>,
        PushReducer<(), ()>,
    )) {
        let r = (
            DefaultReduceFactory::new(),
            DefaultReduceFactory::new(),
            <PushReducer<(), ()> as Default>::default(),
        );
        assert(Factory::inv(&r.0));
        assert(Factory::inv(&r.1));
        r
    }
}

impl<T: Eq + Hash, S: BuildHasher + Default> FromParallelStream<T> for HashSet<T, S> {
    type ReduceAFactory = DefaultReduceFactory<PushReducer<T, HashSet<T, S>>>;

    type ReduceA = PushReducer<T, HashSet<T, S>>;

    type ReduceC = ExtendReducer<HashSet<T, S>, HashSet<T, S>>;

    open spec fn splits(
        a: DefaultReduceFactory<PushReducer<T, HashSet<T, S>>>,
        c: ExtendReducer<HashSet<T, S>, HashSet<T, S>>,
    ) -> bool {
        call_ensures(<ExtendReducer<HashSet<T, S>, HashSet<T, S>> as Default>::default, (), c)
    }

    fn reducers() -> (r: (
        DefaultReduceFactory<PushReducer<T, HashSet<T, S>>>,
        ExtendReducer<HashSet<T, S>, HashSet<T, S>>,
    )) {
        let r = (
            DefaultReduceFactory::new(),
            <ExtendReducer<HashSet<T, S>, HashSet<T, S>> as Default>::default(),
        );
        assert(Factory::inv(&r.0));
        r
    }
}

impl<T: Eq + Hash, S: BuildHasher + Default> FromDistributedStream<T> for HashSet<T, S> {
    type ReduceAFactory = DefaultReduceFactory<PushReducer<T, HashSet<T, S>>>;

    type ReduceBFactory = DefaultReduceFactory<ExtendReducer<HashSet<T, S>, HashSet<T, S>>>;

    type ReduceA = PushReducer<T, HashSet<T, S>>;

    type ReduceB = ExtendReducer<HashSet<T, S>, HashSet<T, S>>;

    type ReduceC = ExtendReducer<HashSet<T, S>, HashSet<T, S>>;

    open spec fn splits(
        a: DefaultReduceFactory<PushReducer<T, HashSet<T, S>>>,
        b: DefaultReduceFactory<ExtendReducer<HashSet<T, S>, HashSet<T, S>>>,
        c: ExtendReducer<HashSet<T, S>, HashSet<T, S>>,
    ) -> bool {
        call_ensures(<ExtendReducer<HashSet<T, S>, HashSet<T, S>> as Default>::default, (), c)
    }

    fn reducers() -> (r: (
        DefaultReduceFactory<PushReducer<T, HashSet<T, S>>>,
        DefaultReduceFactory<ExtendReducer<HashSet<T, S>, HashSet<T, S>>>,
        ExtendReducer<HashSet<T, S>, HashSet<T, S>>,
    )) {
        let r = (
            DefaultReduceFactory::new(),
            DefaultReduceFactory::new(),
            <ExtendReducer<HashSet<T, S>, HashSet<T, S>> as Default>::default(),
        );
        assert(Factory::inv(&r.0));
        assert(Factory::inv(&r.1));
        r
    }
}

impl<K: Eq + Hash, V, S: BuildHasher + Default> FromParallelStream<(K, V)> for HashMap<K, V, S> {
    type ReduceAFactory = DefaultReduceFactory<PushReducer<(K, V), HashMap<K, V, S>>>;

    type ReduceA = PushReducer<(K, V), HashMap<K, V, S>>;

    type ReduceC = ExtendReducer<HashMap<K, V, S>, HashMap<K, V, S>>;

    open spec fn splits(
        a: DefaultReduceFactory<PushReducer<(K, V), HashMap<K, V, S>>>,
        c: ExtendReducer<HashMap<K, V, S>, HashMap<K, V, S>>,
    ) -> bool {
        call_ensures(<ExtendReducer<HashMap<K, V, S>, HashMap<K, V, S>> as Default>::default, (), c)
    }

    fn reducers() -> (r: (
        DefaultReduceFactory<PushReducer<(K, V), HashMap<K, V, S>>>,
        ExtendReducer<HashMap<K, V, S>, HashMap<K, V, S>>,
    )) {
        let r = (
            DefaultReduceFactory::new(),
            <ExtendReducer<HashMap<K, V, S>, HashMap<K, V, S>> as Default>::default(),
        );
        assert(Factory::inv(&r.0));
        r
    }
}

impl<K: Eq + Hash, V, S: BuildHasher + Default> FromDistributedStream<(K, V)> for HashMap<K, V, S> {
    type ReduceAFactory = DefaultReduceFactory<PushReducer<(K, V), HashMap<K, V, S>>>;

    type ReduceBFactory = DefaultReduceFactory<ExtendReducer<HashMap<K, V, S>, HashMap<K, V, S>>>;

    type ReduceA = PushReducer<(K, V), HashMap<K, V, S>>;

    type ReduceB = ExtendReducer<HashMap<K, V, S>, HashMap<K, V, S>>;

    type ReduceC = ExtendReducer<HashMap<K, V, S>, HashMap<K, V, S>>;

    open spec fn splits(
        a: DefaultReduceFactory<PushReducer<(K, V), HashMap<K, V, S>>>,
        b: DefaultReduceFactory<ExtendReducer<HashMap<K, V, S>, HashMap<K, V, S>>>,
        c: ExtendReducer<HashMap<K, V, S>, HashMap<K, V, S>>,
    ) -> bool {
        call_ensures(<ExtendReducer<HashMap<K, V, S>, HashMap<K, V, S>> as Default>::default, (), c)
    }

    fn reducers() -> (r: (
        DefaultReduceFactory<PushReducer<(K, V), HashMap<K, V, S>>>,
        DefaultReduceFactory<ExtendReducer<HashMap<K, V, S>, HashMap<K, V, S>>>,
        ExtendReducer<HashMap<K, V, S>, HashMap<K, V, S>>,
    )) {
        let r = (
            DefaultReduceFactory::new(),
            DefaultReduceFactory::new(),
            <ExtendReducer<HashMap<K, V, S>, HashMap<K, V, S>> as Default>::default(),
        );
        assert(Factory::inv(&r.0));
        assert(Factory::inv(&r.1));
        r
    }
}

impl<T, C: FromParallelStream<T>> FromParallelStream<Option<T>> for Option<C> {
    type ReduceAFactory = OptionReduceFactory<C::ReduceAFactory>;

    type ReduceA = OptionReducer<C::ReduceA>;

    type ReduceC = OptionReducer<C::ReduceC>;

    open spec fn splits(
        a: OptionReduceFactory<C::ReduceAFactory>,
        c: OptionReducer<C::ReduceC>,
    ) -> bool {
        c.0 matches Some(inner) && C::splits(a.0, inner)
    }

    fn reducers() -> (r: (OptionReduceFactory<C::ReduceAFactory>, OptionReducer<C::ReduceC>)) {
        let (a, c) = C::reducers();
        (OptionReduceFactory(a), OptionReducer(Some(c)))
    }
}

impl<T, C: FromDistributedStream<T>> FromDistributedStream<Option<T>> for Option<C> {
    type ReduceAFactory = OptionReduceFactory<C::ReduceAFactory>;

    type ReduceBFactory = OptionReduceFactory<C::ReduceBFactory>;

    type ReduceA = OptionReducer<C::ReduceA>;

    type ReduceB = OptionReducer<C::ReduceB>;

    type ReduceC = OptionReducer<C::ReduceC>;

    open spec fn splits(
        a: OptionReduceFactory<C::ReduceAFactory>,
        b: OptionReduceFactory<C::ReduceBFactory>,
        c: OptionReducer<C::ReduceC>,
    ) -> bool {
        c.0 matches Some(inner) && C::splits(a.0, b.0, inner)
    }

    fn reducers() -> (r: (
        OptionReduceFactory<C::ReduceAFactory>,
        OptionReduceFactory<C::ReduceBFactory>,
        OptionReducer<C::ReduceC>,
    )) {
        let (a, b, c) = C::reducers();
        (OptionReduceFactory(a), OptionReduceFactory(b), OptionReducer(Some(c)))
    }
}

impl<T, C: FromParallelStream<T>, E> FromParallelStream<Result<T, E>> for Result<C, E> {
    type ReduceAFactory = ResultReduceFactory<C::ReduceAFactory, E>;

    type ReduceA = ResultReducer<C::ReduceA, E>;

    type ReduceC = ResultReducer<C::ReduceC, E>;

    open spec fn splits(
        a: ResultReduceFactory<C::ReduceAFactory, E>,
        c: ResultReducer<C::ReduceC, E>,
    ) -> bool {
        C::splits(a.0, c.0)
    }

    fn reducers() -> (r: (
        ResultReduceFactory<C::ReduceAFactory, E>,
        ResultReducer<C::ReduceC, E>,
    )) {
        let (a, c) = C::reducers();
        (ResultReduceFactory(a, PhantomData), ResultReducer(c, PhantomData))
    }
}

impl<T, C: FromDistributedStream<T>, E> FromDistributedStream<Result<T, E>> for Result<C, E> {
    type ReduceAFactory = ResultReduceFactory<C::ReduceAFactory, E>;

    type ReduceBFactory = ResultReduceFactory<C::ReduceBFactory, E>;

    type ReduceA = ResultReducer<C::ReduceA, E>;

    type ReduceB = ResultReducer<C::ReduceB, E>;

    type ReduceC = ResultReducer<C::ReduceC, E>;

    open spec fn splits(
        a: ResultReduceFactory<C::ReduceAFactory, E>,
        b: ResultReduceFactory<C::ReduceBFactory, E>,
        c: ResultReducer<C::ReduceC, E>,
    ) -> bool {
        C::splits(a.0, b.0, c.0)
    }

    fn reducers() -> (r: (
        ResultReduceFactory<C::ReduceAFactory, E>,
        ResultReduceFactory<C::ReduceBFactory, E>,
        ResultReducer<C::ReduceC, E>,
    )) {
        let (a, b, c) = C::reducers();
        (
            ResultReduceFactory(a, PhantomData),
            ResultReduceFactory(b, PhantomData),
            ResultReducer(c, PhantomData),
        )
    }
}

/// The terminal operator that collects the items that the pipe `i` hands out
/// into a container of type `A`.
pub struct Collect<I, A> {
    pub i: I,
    pub marker: PhantomData<A>,
}

impl<I, A> Collect<I, A> {
    /// The operator as [`new`](Collect::new) makes it.
    pub open spec fn of(i: I) -> Self {
        Collect { i, marker: PhantomData }
    }

    pub fn new(i: I) -> (s: Self)
        ensures
            s == Self::of(i),
    {
        Collect { i, marker: PhantomData }
    }
}

impl<Source, I: ParallelPipe<Source>, T: FromParallelStream<I::Item>> ParallelSink<
    Source,
> for Collect<I, T> {
    type Output = T;

    type Pipe = I;

    type ReduceAFactory = T::ReduceAFactory;

    type ReduceA = T::ReduceA;

    type ReduceC = T::ReduceC;

    open spec fn inv(&self) -> bool {
        self.i.inv()
    }

    open spec fn splits(self, pipe: I, a: T::ReduceAFactory, c: T::ReduceC) -> bool {
        pipe == self.i && T::splits(a, c)
    }

    fn reducers(self) -> (r: (I, T::ReduceAFactory, T::ReduceC)) {
        let (a, c) = T::reducers();
        (self.i, a, c)
    }
}

impl<Source, I: DistributedPipe<Source>, T: FromDistributedStream<I::Item>> DistributedSink<
    Source,
> for Collect<I, T> {
    type Output = T;

    type Pipe = I;

    type ReduceAFactory = T::ReduceAFactory;

    type ReduceBFactory = T::ReduceBFactory;

    type ReduceA = T::ReduceA;

    type ReduceB = T::ReduceB;

    type ReduceC = T::ReduceC;

    open spec fn inv(&self) -> bool {
        self.i.inv()
    }

    open spec fn splits(
        self,
        pipe: I,
        a: T::ReduceAFactory,
        b: T::ReduceBFactory,
        c: T::ReduceC,
    ) -> bool {
        pipe == self.i && T::splits(a, b, c)
    }

    fn reducers(self) -> (r: (I, T::ReduceAFactory, T::ReduceBFactory, T::ReduceC)) {
        let (a, b, c) = T::reducers();
        (self.i, a, b, c)
    }
}

} // verus!
