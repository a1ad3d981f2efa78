//! Collecting into sets and maps that keep their keys in order.

use vstd::prelude::*;
use std::collections::{BTreeMap, BTreeSet};
use vstd::laws_cmp::obeys_cmp;
use crate::par_sink::collect::{
    DefaultReduceFactory, ExtendReducer, ExtendWith, FromDistributedStream, FromParallelStream,
    Push, PushReducer,
};
use crate::par_sink::Factory;

verus! {

impl<T: Ord> Push<T> for BTreeSet<T> {
    open spec fn pushed(&self, item: T, next: Self) -> bool {
        obeys_cmp::<T>() ==> next@ == self@.insert(item)
    }

    #[inline]
    fn push(&mut self, item: T) {
        let _ = self.insert(item);
    }
}

impl<K: Ord, V> Push<(K, V)> for BTreeMap<K, V> {
    open spec fn pushed(&self, item: (K, V), next: Self) -> bool {
        obeys_cmp::<K>() ==> next@ == self@.insert(item.0, item.1)
    }

    #[inline]
    fn push(&mut self, item: (K, V)) {
        let _ = self.insert(item.0, item.1);
    }
}

/// Puts every item of `items` into `set`.
///
/// Calls `Extend::extend` of `BTreeSet`, which inserts every item that the
/// iterator yields.
#[verifier::external_body]
fn set_extend<T: Ord>(set: &mut BTreeSet<T>, items: BTreeSet<T>)
    ensures
        obeys_cmp::<T>() ==> final(set)@ == old(set)@.union(items@),
{
    set.extend(items);
}

/// Puts every entry of `items` into `map`, in the place of the entry with
/// an equal key where there is one.
///
/// Calls `Extend::extend` of `BTreeMap`, which inserts every entry that the
/// iterator yields; an entry whose key is there replaces the value.
#[verifier::external_body]
fn map_extend<K: Ord, V>(map: &mut BTreeMap<K, V>, items: BTreeMap<K, V>)
    ensures
        obeys_cmp::<K>() ==> final(map)@ == old(map)@.union_prefer_right(items@),
{
    map.extend(items);
}

impl<T: Ord> ExtendWith<BTreeSet<T>> for BTreeSet<T> {
    open spec fn extended(&self, items: BTreeSet<T>, next: Self) -> bool {
        obeys_cmp::<T>() ==> next@ == self@.union(items@)
    }

    fn extend_with(&mut self, items: BTreeSet<T>) {
        set_extend(self, items);
    }
}

impl<K: Ord, V> ExtendWith<BTreeMap<K, V>> for BTreeMap<K, V> {
    open spec fn extended(&self, items: BTreeMap<K, V>, next: Self) -> bool {
        obeys_cmp::<K>() ==> next@ == self@.union_prefer_right(items@)
    }

    fn extend_with(&mut self, items: BTreeMap<K, V>) {
        map_extend(self, items);
    }
}

impl<T: Ord> FromParallelStream<T> for BTreeSet<T> {
    type ReduceAFactory = DefaultReduceFactory<PushReducer<T, BTreeSet<T>>>;

    type ReduceA = PushReducer<T, BTreeSet<T>>;

    type ReduceC = ExtendReducer<BTreeSet<T>, BTreeSet<T>>;

    open spec fn splits(
        a: DefaultReduceFactory<PushReducer<T, BTreeSet<T>>>,
        c: ExtendReducer<BTreeSet<T>, BTreeSet<T>>,
    ) -> bool {
        call_ensures(ExtendReducer::<BTreeSet<T>, BTreeSet<T>>::default, (), c)
    }

    fn reducers() -> (r: (
        DefaultReduceFactory<PushReducer<T, BTreeSet<T>>>,
        ExtendReducer<BTreeSet<T>, BTreeSet<T>>,
    )) {
        let r = (DefaultReduceFactory::new(), ExtendReducer::<BTreeSet<T>, BTreeSet<T>>::default());
        assert(Factory::inv(&r.0));
        r
    }
}

impl<T: Ord> FromDistributedStream<T> for BTreeSet<T> {
    type ReduceAFactory = DefaultReduceFactory<PushReducer<T, BTreeSet<T>>>;

    type ReduceBFactory = DefaultReduceFactory<ExtendReducer<BTreeSet<T>, BTreeSet<T>>>;

    type ReduceA = PushReducer<T, BTreeSet<T>>;

    type ReduceB = ExtendReducer<BTreeSet<T>, BTreeSet<T>>;

    type ReduceC = ExtendReducer<BTreeSet<T>, BTreeSet<T>>;

    open spec fn splits(
        a: DefaultReduceFactory<PushReducer<T, BTreeSet<T>>>,
        b: DefaultReduceFactory<ExtendReducer<BTreeSet<T>, BTreeSet<T>>>,
        c: ExtendReducer<BTreeSet<T>, BTreeSet<T>>,
    ) -> bool {
        call_ensures(ExtendReducer::<BTreeSet<T>, BTreeSet<T>>::default, (), c)
    }

    fn reducers() -> (r: (
        DefaultReduceFactory<PushReducer<T, BTreeSet<T>>>,
        DefaultReduceFactory<ExtendReducer<BTreeSet<T>, BTreeSet<T>>>,
        ExtendReducer<BTreeSet<T>, BTreeSet<T>>,
    )) {
        let r = (
            DefaultReduceFactory::new(),
            DefaultReduceFactory::new(),
            ExtendReducer::<BTreeSet<T>, BTreeSet<T>>::default(),
        );
        assert(Factory::inv(&r.0));
        assert(Factory::inv(&r.1));
        r
    }
}

impl<K: Ord, V> FromParallelStream<(K, V)> for BTreeMap<K, V> {
    type ReduceAFactory = DefaultReduceFactory<PushReducer<(K, V), BTreeMap<K, V>>>;

    type ReduceA = PushReducer<(K, V), BTreeMap<K, V>>;

    type ReduceC = ExtendReducer<BTreeMap<K, V>, BTreeMap<K, V>>;

    open spec fn splits(
        a: DefaultReduceFactory<PushReducer<(K, V), BTreeMap<K, V>>>,
        c: ExtendReducer<BTreeMap<K, V>, BTreeMap<K, V>>,
    ) -> bool {
        call_ensures(ExtendReducer::<BTreeMap<K, V>, BTreeMap<K, V>>::default, (), c)
    }

    fn reducers() -> (r: (
        DefaultReduceFactory<PushReducer<(K, V), BTreeMap<K, V>>>,
        ExtendReducer<BTreeMap<K, V>, BTreeMap<K, V>>,
    )) {
        let r = (
            DefaultReduceFactory::new(),
            ExtendReducer::<BTreeMap<K, V>, BTreeMap<K, V>>::default(),
        );
        assert(Factory::inv(&r.0));
        r
    }
}

impl<K: Ord, V> FromDistributedStream<(K, V)> for BTreeMap<K, V> {
    type ReduceAFactory = DefaultReduceFactory<PushReducer<(K, V), BTreeMap<K, V>>>;

    type ReduceBFactory = DefaultReduceFactory<ExtendReducer<BTreeMap<K, V>, BTreeMap<K, V>>>;

    type ReduceA = PushReducer<(K, V), BTreeMap<K, V>>;

    type ReduceB = ExtendReducer<BTreeMap<K, V>, BTreeMap<K, V>>;

    type ReduceC = ExtendReducer<BTreeMap<K, V>, BTreeMap<K, V>>;

    open spec fn splits(
        a: DefaultReduceFactory<PushReducer<(K, V), BTreeMap<K, V>>>,
        b: DefaultReduceFactory<ExtendReducer<BTreeMap<K, V>, BTreeMap<K, V>>>,
        c: ExtendReducer<BTreeMap<K, V>, BTreeMap<K, V>>,
    ) -> bool {
        call_ensures(ExtendReducer::<BTreeMap<K, V>, BTreeMap<K, V>>::default, (), c)
    }

    fn reducers() -> (r: (
        DefaultReduceFactory<PushReducer<(K, V), BTreeMap<K, V>>>,
        DefaultReduceFactory<ExtendReducer<BTreeMap<K, V>, BTreeMap<K, V>>>,
        ExtendReducer<BTreeMap<K, V>, BTreeMap<K, V>>,
    )) {
        let r = (
            DefaultReduceFactory::new(),
            DefaultReduceFactory::new(),
            ExtendReducer::<BTreeMap<K, V>, BTreeMap<K, V>>::default(),
        );
        assert(Factory::inv(&r.0));
        assert(Factory::inv(&r.1));
        r
    }
}

} // verus!
