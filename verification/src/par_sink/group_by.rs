//! Folding the values of pairs key by key.

use vstd::prelude::*;
use either::Either;
use std::collections::HashMap;
use std::hash::Hash;
use std::marker::PhantomData;
use vstd::std_specs::hash::obeys_key_model;
use crate::par_pipe::{DistributedPipe, ParallelPipe};
use crate::par_sink::{DistributedSink, Factory, ParallelSink, Reducer, ReducerAsync};
use crate::sink::{Intake, Sink};
use crate::stream::Poll;

verus! {

broadcast use vstd::std_specs::hash::group_hash_axioms;

/// Whether `acc` may be what the fold of key `key` starts from: what `map`
/// holds for the key, or what `identity` gives where it holds nothing.
pub open spec fn starts_from<K, C, ID: Fn() -> C>(
    map: Map<K, C>,
    identity: ID,
    key: K,
    acc: C,
) -> bool {
    if map.contains_key(key) {
        acc == map[key]
    } else {
        call_ensures(identity, (), acc)
    }
}

/// Whether `piece` can be folded into what `map` holds for `key`.
pub open spec fn can_fold_into<K, V, C, ID: Fn() -> C, F: Fn(C, Either<V, C>) -> C>(
    map: Map<K, C>,
    identity: ID,
    op: F,
    key: K,
    piece: Either<V, C>,
) -> bool {
    &&& call_requires(identity, ())
    &&& forall|acc: C| #[trigger] starts_from(map, identity, key, acc) ==> call_requires(op, (acc, piece))
}

/// Whether folding `piece` into what `before` holds for `key` may give
/// `after`: the other keys are as they were, and `key` holds what `op` makes
/// of what it held, or of what `identity` gives, and the piece.
pub open spec fn folded_into<K, V, C, ID: Fn() -> C, F: Fn(C, Either<V, C>) -> C>(
    before: Map<K, C>,
    identity: ID,
    op: F,
    key: K,
    piece: Either<V, C>,
    after: Map<K, C>,
) -> bool {
    exists|acc: C, then: C|
        starts_from(before, identity, key, acc) && #[trigger] call_ensures(op, (acc, piece), then)
            && after == before.insert(key, then)
}

/// Folds `piece` into what `map` holds for `key`.
pub fn fold_into<K: Eq + Hash, V, C, ID: Fn() -> C, F: Fn(C, Either<V, C>) -> C>(
    map: &mut HashMap<K, C>,
    identity: &ID,
    op: &F,
    key: K,
    piece: Either<V, C>,
)
    requires
        obeys_key_model::<K>(),
        can_fold_into(old(map)@, *identity, *op, key, piece),
    ensures
        folded_into(old(map)@, *identity, *op, key, piece, final(map)@),
{
    let ghost before = map@;
    let acc = match map.remove(&key) {
        Some(held) => held,
        None => identity(),
    };
    assert(starts_from(before, *identity, key, acc));
    let then = op(acc, piece);
    map.insert(key, then);
    assert(map@ =~= before.insert(key, then));
}

/// The terminal operator that folds the values of the pairs that the pipe `i`
/// hands out, key by key: for each key, every thread starts from what
/// `identity` gives and takes each value in with `op`, as `Left`; the levels
/// above take in, key by key, the values of the level below, as `Right`.
pub struct GroupBy<I, ID, F, C> {
    pub i: I,
    pub identity: ID,
    pub op: F,
    pub marker: PhantomData<C>,
}

impl<I, ID, F, C> GroupBy<I, ID, F, C> {
    /// The operator as [`new`](GroupBy::new) makes it.
    pub open spec fn of(i: I, identity: ID, op: F) -> Self {
        GroupBy { i, identity, op, marker: PhantomData }
    }

    pub fn new(i: I, identity: ID, op: F) -> (s: Self)
        ensures
            s == Self::of(i, identity, op),
    {
        GroupBy { i, identity, op, marker: PhantomData }
    }
}

/// The maker of reducers that fold the values of pairs key by key.
pub struct GroupByReducerFactory<K, V, C, ID, F>(pub ID, pub F, pub PhantomData<(K, V, C)>);

impl<K: Eq + Hash, V, C, ID: Fn() -> C + Copy, F: Fn(
    C,
    Either<V, C>,
) -> C + Copy> Factory for GroupByReducerFactory<
    K,
    V,
    C,
    ID,
    F,
> {
    type Item = GroupByReducer<K, V, C, ID, F>;

    open spec fn inv(&self) -> bool {
        true
    }

    open spec fn makes(&self, item: GroupByReducer<K, V, C, ID, F>) -> bool {
        &&& item.0 matches Some(map)
        &&& map@ == Map::<K, C>::empty()
        &&& item.1 == self.0
        &&& item.2 == self.1
    }

    fn make(&self) -> (item: GroupByReducer<K, V, C, ID, F>) {
        GroupByReducer(Some(HashMap::new()), self.0, self.1, PhantomData)
    }
}

/// The reducer that folds the values of pairs key by key. It holds the map
/// from keys to what was folded until it is asked for its output.
pub struct GroupByReducer<K, V, C, ID, F>(
    pub Option<HashMap<K, C>>,
    pub ID,
    pub F,
    pub PhantomData<V>,
);

impl<K: Eq + Hash, V, C, ID: Fn() -> C, F: Fn(C, Either<V, C>) -> C> Intake for GroupByReducer<
    K,
    V,
    C,
    ID,
    F,
> {
    type Item = (K, V);

    open spec fn inv(&self) -> bool {
        self.0.is_some() && obeys_key_model::<K>()
    }

    open spec fn wants(&self) -> bool {
        true
    }

    open spec fn admits(&self, item: (K, V)) -> bool {
        self.0 matches Some(map) && can_fold_into(
            map@,
            self.1,
            self.2,
            item.0,
            Either::<V, C>::Left(item.1),
        )
    }

    open spec fn absorbs(&self, item: (K, V), next: Self) -> bool {
        &&& next.1 == self.1
        &&& next.2 == self.2
        &&& self.0 matches Some(before)
        &&& next.0 matches Some(after)
        &&& folded_into(before@, self.1, self.2, item.0, Either::<V, C>::Left(item.1), after@)
    }
}

impl<K: Eq + Hash, V, C, ID: Fn() -> C, F: Fn(C, Either<V, C>) -> C> Sink for GroupByReducer<
    K,
    V,
    C,
    ID,
    F,
> {
    fn accepting(&self) -> (b: bool) {
        true
    }

    fn push(&mut self, item: (K, V)) {
        let mut map = self.0.take().unwrap();
        fold_into(&mut map, &self.1, &self.2, item.0, Either::Left(item.1));
        self.0 = Some(map);
    }
}

impl<K: Eq + Hash, V, C, ID: Fn() -> C, F: Fn(
    C,
    Either<V, C>,
) -> C> ReducerAsync for GroupByReducer<
    K,
    V,
    C,
    ID,
    F,
> {
    type Output = HashMap<K, C>;

    open spec fn ripe(&self) -> bool {
        true
    }

    open spec fn yields(&self, out: HashMap<K, C>) -> bool {
        self.0 == Some(out)
    }

    fn poll_output(&mut self) -> (r: Poll<HashMap<K, C>>) {
        Poll::Ready(self.0.take().unwrap())
    }
}

impl<K: Eq + Hash, V, C, ID: Fn() -> C, F: Fn(C, Either<V, C>) -> C> Reducer for GroupByReducer<
    K,
    V,
    C,
    ID,
    F,
> {
    type Item = (K, V);

    type Output = HashMap<K, C>;

    type Async = Self;

    open spec fn lowered(self) -> Self {
        self
    }

    fn into_async(self) -> (a: Self) {
        self
    }
}

/// The entries of a map, each once.
///
/// Calls `HashMap::into_iter` and collects what it yields. The iterator
/// visits every entry of the map once; the order in which it does is not
/// fixed.
#[verifier::external_body]
fn into_entries<K: Eq + Hash, C>(map: HashMap<K, C>) -> (entries: Vec<(K, C)>)
    ensures
        obeys_key_model::<K>() ==> {
            &&& forall|i: int|
                0 <= i < entries.len() ==> map@.contains_key((#[trigger] entries[i]).0)
                    && map@[entries[i].0] == entries[i].1
            &&& forall|i: int, j: int|
                0 <= i < j < entries.len() ==> (#[trigger] entries[i]).0 != (#[trigger] entries[j]).0
            &&& forall|k: K|
                map@.contains_key(k) ==> exists|i: int|
                    0 <= i < entries.len() && (#[trigger] entries[i]).0 == k
        },
{
    map.into_iter().collect()
}

/// Whether `then` may be what `op` makes of the value `value` of the level
/// below, as `Right`, and what `before` holds for `key`, or what `identity`
/// gives where it holds nothing.
pub open spec fn merged_key<K, V, C, ID: Fn() -> C, F: Fn(C, Either<V, C>) -> C>(
    before: Map<K, C>,
    identity: ID,
    op: F,
    key: K,
    value: C,
    then: C,
) -> bool {
    exists|acc: C|
        starts_from(before, identity, key, acc) && #[trigger] call_ensures(
            op,
            (acc, Either::<V, C>::Right(value)),
            then,
        )
}

/// Whether a reducer that holds `before` can take in the map `piece` of the
/// level below.
pub open spec fn can_merge_maps<K, V, C, ID: Fn() -> C, F: Fn(C, Either<V, C>) -> C>(
    before: Map<K, C>,
    identity: ID,
    op: F,
    piece: Map<K, C>,
) -> bool {
    forall|key: K| #[trigger]
        piece.contains_key(key) ==> can_fold_into(
            before,
            identity,
            op,
            key,
            Either::<V, C>::Right(piece[key]),
        )
}

/// Whether taking in the map `piece` of the level below may turn what a
/// reducer holds from `before` into `after`: `after` has the keys of both;
/// each key of `piece` holds what `op` makes of what it held, or of what
/// `identity` gives, and the value of `piece`, as `Right`; every other key
/// holds what it held.
pub open spec fn merged_maps<K, V, C, ID: Fn() -> C, F: Fn(C, Either<V, C>) -> C>(
    before: Map<K, C>,
    identity: ID,
    op: F,
    piece: Map<K, C>,
    after: Map<K, C>,
) -> bool {
    &&& after.dom() == before.dom().union(piece.dom())
    &&& forall|key: K| #[trigger]
        piece.contains_key(key) ==> merged_key::<K, V, C, ID, F>(
            before,
            identity,
            op,
            key,
            piece[key],
            after[key],
        )
    &&& forall|key: K|
        before.contains_key(key) && !piece.contains_key(key) ==> #[trigger] after[key]
            == before[key]
}

/// The maker of reducers that fold the maps of the level below key by key.
pub struct GroupByMergerFactory<K, V, C, ID, F>(pub ID, pub F, pub PhantomData<(K, V, C)>);

impl<K: Eq + Hash, V, C, ID: Fn() -> C + Copy, F: Fn(
    C,
    Either<V, C>,
) -> C + Copy> Factory for GroupByMergerFactory<
    K,
    V,
    C,
    ID,
    F,
> {
    type Item = GroupByMerger<K, V, C, ID, F>;

    open spec fn inv(&self) -> bool {
        true
    }

    open spec fn makes(&self, item: GroupByMerger<K, V, C, ID, F>) -> bool {
        &&& item.0 matches Some(map)
        &&& map@ == Map::<K, C>::empty()
        &&& item.1 == self.0
        &&& item.2 == self.1
    }

    fn make(&self) -> (item: GroupByMerger<K, V, C, ID, F>) {
        GroupByMerger(Some(HashMap::new()), self.0, self.1, PhantomData)
    }
}

/// The reducer that folds the maps of the level below key by key.
pub struct GroupByMerger<K, V, C, ID, F>(
    pub Option<HashMap<K, C>>,
    pub ID,
    pub F,
    pub PhantomData<V>,
);

impl<K: Eq + Hash, V, C, ID: Fn() -> C, F: Fn(C, Either<V, C>) -> C> Intake for GroupByMerger<
    K,
    V,
    C,
    ID,
    F,
> {
    type Item = HashMap<K, C>;

    open spec fn inv(&self) -> bool {
        self.0.is_some() && obeys_key_model::<K>()
    }

    open spec fn wants(&self) -> bool {
        true
    }

    open spec fn admits(&self, item: HashMap<K, C>) -> bool {
        self.0 matches Some(map) && can_merge_maps::<K, V, C, ID, F>(map@, self.1, self.2, item@)
    }

    open spec fn absorbs(&self, item: HashMap<K, C>, next: Self) -> bool {
        &&& next.1 == self.1
        &&& next.2 == self.2
        &&& self.0 matches Some(before)
        &&& next.0 matches Some(after)
        &&& merged_maps::<K, V, C, ID, F>(before@, self.1, self.2, item@, after@)
    }
}

impl<K: Eq + Hash, V, C, ID: Fn() -> C, F: Fn(C, Either<V, C>) -> C> Sink for GroupByMerger<
    K,
    V,
    C,
    ID,
    F,
> {
    fn accepting(&self) -> (b: bool) {
        true
    }

    fn push(&mut self, item: HashMap<K, C>) {
        let mut map = self.0.take().unwrap();
        let ghost before = map@;
        let ghost piece = item@;
        let mut entries = into_entries(item);
        let ghost listing = entries@;
        while entries.len() > 0
            invariant
                obeys_key_model::<K>(),
                self.1 == old(self).1,
                self.2 == old(self).2,
                can_merge_maps::<K, V, C, ID, F>(before, self.1, self.2, piece),
                entries@ == listing.take(entries.len() as int),
                entries.len() <= listing.len(),
                forall|i: int|
                    0 <= i < listing.len() ==> piece.contains_key((#[trigger] listing[i]).0)
                        && piece[listing[i].0] == listing[i].1,
                forall|i: int, j: int|
                    0 <= i < j < listing.len() ==> (#[trigger] listing[i]).0 != (
                    #[trigger] listing[j]).0,
                forall|key: K|
                    map@.contains_key(key) <==> before.contains_key(key) || exists|i: int|
                        entries.len() <= i < listing.len() && (#[trigger] listing[i]).0 == key,
                forall|i: int|
                    entries.len() <= i < listing.len() ==> merged_key::<K, V, C, ID, F>(
                        before,
                        self.1,
                        self.2,
                        (#[trigger] listing[i]).0,
                        listing[i].1,
                        map@[listing[i].0],
                    ),
                forall|key: K|
                    before.contains_key(key) && !(exists|i: int|
                        entries.len() <= i < listing.len() && (#[trigger] listing[i]).0 == key)
                        ==> #[trigger] map@[key] == before[key],
            decreases entries.len(),
        {
            let ghost n = entries.len() as int;
            let ghost held = map@;
            let (key, value) = entries.pop().unwrap();
            proof {
                assert(listing[n - 1] == (key, value));
                assert(entries@ =~= listing.take(n - 1));
                // the key has not been folded yet, so the map holds for it what it held at first
                if exists|i: int| n <= i < listing.len() && (#[trigger] listing[i]).0 == key {
                    let i = choose|i: int| n <= i < listing.len() && (#[trigger] listing[i]).0 == key;
                    assert(listing[n - 1].0 != listing[i].0);
                }
                assert(held.contains_key(key) <==> before.contains_key(key));
                assert(before.contains_key(key) ==> held[key] == before[key]);
                assert(piece.contains_key(key));
                assert forall|acc: C| #[trigger]
                    starts_from(held, self.1, key, acc) implies call_requires(
                    self.2,
                    (acc, Either::<V, C>::Right(value)),
                ) by {
                    assert(starts_from(before, self.1, key, acc));
                }
            }
            fold_into(&mut map, &self.1, &self.2, key, Either::Right(value));
            proof {
                let (acc, then) = choose|acc: C, then: C|
                    starts_from(held, self.1, key, acc) && #[trigger] call_ensures(
                        self.2,
                        (acc, Either::<V, C>::Right(value)),
                        then,
                    ) && map@ == held.insert(key, then);
                assert(starts_from(before, self.1, key, acc));
                assert forall|i: int| n - 1 <= i < listing.len() implies merged_key::<K, V, C, ID, F>(
                    before,
                    self.1,
                    self.2,
                    (#[trigger] listing[i]).0,
                    listing[i].1,
                    map@[listing[i].0],
                ) by {
                    if i == n - 1 {
                        assert(map@[key] == then);
                    } else {
                        assert(listing[n - 1].0 != listing[i].0);
                        assert(map@[listing[i].0] == held[listing[i].0]);
                    }
                }
                assert forall|k: K|
                    map@.contains_key(k) <==> before.contains_key(k) || exists|i: int|
                        n - 1 <= i < listing.len() && (#[trigger] listing[i]).0 == k by {
                    if k == key {
                        assert(listing[n - 1].0 == k);
                    } else {
                        if exists|i: int| n <= i < listing.len() && (#[trigger] listing[i]).0 == k {
                            let i = choose|i: int|
                                n <= i < listing.len() && (#[trigger] listing[i]).0 == k;
                            assert(n - 1 <= i);
                        }
                        if exists|i: int| n - 1 <= i < listing.len() && (#[trigger] listing[i]).0 == k {
                            let i = choose|i: int|
                                n - 1 <= i < listing.len() && (#[trigger] listing[i]).0 == k;
                            assert(i != n - 1);
                            assert(n <= i);
                        }
                    }
                }
                assert forall|k: K|
                    before.contains_key(k) && !(exists|i: int|
                        n - 1 <= i < listing.len() && (#[trigger] listing[i]).0 == k) implies #[trigger] map@[k]
                    == before[k] by {
                    assert(k != key) by {
                        if k == key {
                            assert(listing[n - 1].0 == k);
                        }
                    }
                    if exists|i: int| n <= i < listing.len() && (#[trigger] listing[i]).0 == k {
                        let i = choose|i: int|
                            n <= i < listing.len() && (#[trigger] listing[i]).0 == k;
                        assert(n - 1 <= i);
                    }
                }
            }
        }
        proof {
            let after = map@;
            assert forall|key: K| #[trigger] piece.contains_key(key) implies merged_key::<K, V, C, ID, F>(
                before,
                self.1,
                self.2,
                key,
                piece[key],
                after[key],
            ) by {
                let i = choose|i: int| 0 <= i < listing.len() && (#[trigger] listing[i]).0 == key;
                assert(piece[listing[i].0] == listing[i].1);
            }
            assert forall|key: K| after.contains_key(key) <==> before.contains_key(key)
                || piece.contains_key(key) by {
                if piece.contains_key(key) {
                    let i = choose|i: int| 0 <= i < listing.len() && (#[trigger] listing[i]).0 == key;
                }
                if exists|i: int| 0 <= i < listing.len() && (#[trigger] listing[i]).0 == key {
                    let i = choose|i: int| 0 <= i < listing.len() && (#[trigger] listing[i]).0 == key;
                    assert(piece.contains_key(listing[i].0));
                }
            }
            assert(after.dom() =~= before.dom().union(piece.dom()));
            assert forall|key: K|
                before.contains_key(key) && !piece.contains_key(key) implies #[trigger] after[key]
                == before[key] by {
                if exists|i: int| 0 <= i < listing.len() && (#[trigger] listing[i]).0 == key {
                    let i = choose|i: int| 0 <= i < listing.len() && (#[trigger] listing[i]).0 == key;
                    assert(piece.contains_key(listing[i].0));
                }
            }
        }
        self.0 = Some(map);
    }
}

impl<K: Eq + Hash, V, C, ID: Fn() -> C, F: Fn(C, Either<V, C>) -> C> ReducerAsync for GroupByMerger<
    K,
    V,
    C,
    ID,
    F,
> {
    type Output = HashMap<K, C>;

    open spec fn ripe(&self) -> bool {
        true
    }

    open spec fn yields(&self, out: HashMap<K, C>) -> bool {
        self.0 == Some(out)
    }

    fn poll_output(&mut self) -> (r: Poll<HashMap<K, C>>) {
        Poll::Ready(self.0.take().unwrap())
    }
}

impl<K: Eq + Hash, V, C, ID: Fn() -> C, F: Fn(C, Either<V, C>) -> C> Reducer for GroupByMerger<
    K,
    V,
    C,
    ID,
    F,
> {
    type Item = HashMap<K, C>;

    type Output = HashMap<K, C>;

    type Async = Self;

    open spec fn lowered(self) -> Self {
        self
    }

    fn into_async(self) -> (a: Self) {
        self
    }
}

impl<
    Source,
    K: Eq + Hash,
    V,
    I: ParallelPipe<Source, Item = (K, V)>,
    C,
    ID: Fn() -> C + Copy,
    F: Fn(C, Either<V, C>) -> C + Copy,
> ParallelSink<Source> for GroupBy<I, ID, F, C> {
    type Output = HashMap<K, C>;

    type Pipe = I;

    type ReduceAFactory = GroupByReducerFactory<K, V, C, ID, F>;

    type ReduceA = GroupByReducer<K, V, C, ID, F>;

    type ReduceC = GroupByMerger<K, V, C, ID, F>;

    open spec fn inv(&self) -> bool {
        self.i.inv()
    }

    open spec fn splits(
        self,
        pipe: I,
        a: GroupByReducerFactory<K, V, C, ID, F>,
        c: GroupByMerger<K, V, C, ID, F>,
    ) -> bool {
        &&& pipe == self.i
        &&& a.0 == self.identity
        &&& a.1 == self.op
        &&& c.0 matches Some(map)
        &&& map@ == Map::<K, C>::empty()
        &&& c.1 == self.identity
        &&& c.2 == self.op
    }

    fn reducers(self) -> (r: (
        I,
        GroupByReducerFactory<K, V, C, ID, F>,
        GroupByMerger<K, V, C, ID, F>,
    )) {
        let a: GroupByReducerFactory<K, V, C, ID, F> = GroupByReducerFactory(
            self.identity,
            self.op,
            PhantomData,
        );
        assert(a.inv());
        (self.i, a, GroupByMerger(Some(HashMap::new()), self.identity, self.op, PhantomData))
    }
}

impl<
    Source,
    K: Eq + Hash,
    V,
    I: DistributedPipe<Source, Item = (K, V)>,
    C,
    ID: Fn() -> C + Copy,
    F: Fn(C, Either<V, C>) -> C + Copy,
> DistributedSink<Source> for GroupBy<I, ID, F, C> {
    type Output = HashMap<K, C>;

    type Pipe = I;

    type ReduceAFactory = GroupByReducerFactory<K, V, C, ID, F>;

    type ReduceBFactory = GroupByMergerFactory<K, V, C, ID, F>;

    type ReduceA = GroupByReducer<K, V, C, ID, F>;

    type ReduceB = GroupByMerger<K, V, C, ID, F>;

    type ReduceC = GroupByMerger<K, V, C, ID, F>;

    open spec fn inv(&self) -> bool {
        self.i.inv()
    }

    open spec fn splits(
        self,
        pipe: I,
        a: GroupByReducerFactory<K, V, C, ID, F>,
        b: GroupByMergerFactory<K, V, C, ID, F>,
        c: GroupByMerger<K, V, C, ID, F>,
    ) -> bool {
        &&& pipe == self.i
        &&& a.0 == self.identity
        &&& a.1 == self.op
        &&& b.0 == self.identity
        &&& b.1 == self.op
        &&& c.0 matches Some(map)
        &&& map@ == Map::<K, C>::empty()
        &&& c.1 == self.identity
        &&& c.2 == self.op
    }

    fn reducers(self) -> (r: (
        I,
        GroupByReducerFactory<K, V, C, ID, F>,
        GroupByMergerFactory<K, V, C, ID, F>,
        GroupByMerger<K, V, C, ID, F>,
    )) {
        let a: GroupByReducerFactory<K, V, C, ID, F> = GroupByReducerFactory(
            self.identity,
            self.op,
            PhantomData,
        );
        assert(a.inv());
        let b: GroupByMergerFactory<K, V, C, ID, F> = GroupByMergerFactory(
            self.identity,
            self.op,
            PhantomData,
        );
        assert(b.inv());
        (self.i, a, b, GroupByMerger(Some(HashMap::new()), self.identity, self.op, PhantomData))
    }
}

} // verus!
