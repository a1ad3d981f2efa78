//! Counting how often each number occurs.
//!
//! A histogram is a list of numbers with their counts, in the order of the
//! numbers, every number once. The threads build one of their items; the
//! levels above merge the histograms of the level below, adding up the counts
//! of equal numbers.

use vstd::prelude::*;
use crate::par_pipe::identity::{Identity, IdentityTask};
use crate::par_pipe::{DistributedPipe, ParallelPipe};
use crate::par_sink::{
    reduces, DistributedSink, Factory, Lowering, ParallelSink, Reducer, ReducerAsync,
};
use crate::par_stream::pipe::{
    connected, dist_pipe_reduces, lemma_connected_identity, par_pipe_reduces, ConnectTask,
};
use crate::par_stream::reduce::{dist_reduces, par_reduces, tasks_items};
use crate::par_stream::tally::{lemma_dist_tally, lemma_par_tally, merged_a, merged_b, Tally};
use crate::par_stream::StreamTask;
use crate::sink::{moved, offered, Intake, Sink};
use crate::stream::{lemma_occurrences_concat, occurrences, Poll};

pub mod fits;

verus! {

/// Whether the numbers of `entries` strictly increase.
pub open spec fn sorted(entries: Seq<(u64, usize)>) -> bool {
    forall|i: int, j: int| 0 <= i < j < entries.len() ==> entries[i].0 < entries[j].0
}

/// The count that `entries` give to `key`: the counts of the entries with
/// that number, added up.
pub open spec fn count_in(entries: Seq<(u64, usize)>, key: u64) -> int
    decreases entries.len(),
{
    if entries.len() == 0 {
        0
    } else {
        count_in(entries.drop_last(), key) + if entries.last().0 == key {
            entries.last().1 as int
        } else {
            0
        }
    }
}

/// The counts of two lists of entries together.
pub proof fn lemma_count_in_concat(first: Seq<(u64, usize)>, second: Seq<(u64, usize)>, key: u64)
    ensures
        count_in(first + second, key) == count_in(first, key) + count_in(second, key),
    decreases second.len(),
{
    if second.len() == 0 {
        assert(first + second =~= first);
    } else {
        lemma_count_in_concat(first, second.drop_last(), key);
        assert((first + second).drop_last() =~= first + second.drop_last());
    }
}

/// The count that one entry gives.
pub proof fn lemma_count_in_one(entry: (u64, usize), key: u64)
    ensures
        count_in(seq![entry], key) == if entry.0 == key {
            entry.1 as int
        } else {
            0
        },
{
    reveal_with_fuel(count_in, 2);
    assert(seq![entry].drop_last() =~= Seq::<(u64, usize)>::empty());
}

/// Entries whose numbers are all different from `key` give it no count.
pub proof fn lemma_count_in_absent(entries: Seq<(u64, usize)>, key: u64)
    requires
        forall|i: int| 0 <= i < entries.len() ==> (#[trigger] entries[i]).0 != key,
    ensures
        count_in(entries, key) == 0,
    decreases entries.len(),
{
    if entries.len() > 0 {
        lemma_count_in_absent(entries.drop_last(), key);
    }
}

/// In a sorted list the count of the number of an entry is the count of that
/// entry.
pub proof fn lemma_count_in_sorted(entries: Seq<(u64, usize)>, i: int)
    requires
        sorted(entries),
        0 <= i < entries.len(),
    ensures
        count_in(entries, entries[i].0) == entries[i].1,
{
    let key = entries[i].0;
    assert(entries =~= entries.take(i) + seq![entries[i]] + entries.skip(i + 1));
    lemma_count_in_concat(entries.take(i) + seq![entries[i]], entries.skip(i + 1), key);
    lemma_count_in_concat(entries.take(i), seq![entries[i]], key);
    lemma_count_in_absent(entries.take(i), key);
    lemma_count_in_absent(entries.skip(i + 1), key);
    lemma_count_in_one(entries[i], key);
}

/// Whether counting `item` once more may turn the histogram `before` into
/// `after`.
pub open spec fn counted(before: Seq<(u64, usize)>, item: u64, after: Seq<(u64, usize)>) -> bool {
    &&& sorted(after)
    &&& forall|key: u64| #[trigger]
        count_in(after, key) == count_in(before, key) + if key == item {
            1int
        } else {
            0int
        }
}

/// Whether taking in the histogram `other` may turn the histogram `before`
/// into `after`.
pub open spec fn merged(
    before: Seq<(u64, usize)>,
    other: Seq<(u64, usize)>,
    after: Seq<(u64, usize)>,
) -> bool {
    &&& sorted(after)
    &&& forall|key: u64| #[trigger]
        count_in(after, key) == count_in(before, key) + count_in(other, key)
}

/// Counting a number once more at the entry that holds it.
pub proof fn lemma_counted_bump(before: Seq<(u64, usize)>, i: int, item: u64)
    requires
        sorted(before),
        0 <= i < before.len(),
        before[i].0 == item,
        before[i].1 < usize::MAX,
    ensures
        counted(before, item, before.update(i, (item, (before[i].1 + 1) as usize))),
{
    let count = before[i].1;
    let after = before.update(i, (item, (count + 1) as usize));
    assert(after =~= before.take(i) + seq![(item, (count + 1) as usize)] + before.skip(i + 1));
    assert(before =~= before.take(i) + seq![(item, count)] + before.skip(i + 1));
    assert forall|key: u64| #[trigger]
        count_in(after, key) == count_in(before, key) + if key == item {
            1int
        } else {
            0int
        } by {
        lemma_count_in_concat(
            before.take(i) + seq![(item, (count + 1) as usize)],
            before.skip(i + 1),
            key,
        );
        lemma_count_in_concat(before.take(i), seq![(item, (count + 1) as usize)], key);
        lemma_count_in_concat(before.take(i) + seq![(item, count)], before.skip(i + 1), key);
        lemma_count_in_concat(before.take(i), seq![(item, count)], key);
        lemma_count_in_one((item, count), key);
        lemma_count_in_one((item, (count + 1) as usize), key);
    }
    assert forall|a: int, b: int| 0 <= a < b < after.len() implies after[a].0 < after[b].0 by {
        assert(before[a].0 < before[b].0);
    }
}

/// Counting a number for the first time, at the place where it belongs.
pub proof fn lemma_counted_insert(before: Seq<(u64, usize)>, i: int, item: u64)
    requires
        sorted(before),
        0 <= i <= before.len(),
        forall|k: int| 0 <= k < i ==> (#[trigger] before[k]).0 < item,
        i < before.len() ==> item < before[i].0,
    ensures
        counted(before, item, before.insert(i, (item, 1usize))),
{
    let after = before.insert(i, (item, 1usize));
    assert(after =~= before.take(i) + seq![(item, 1usize)] + before.skip(i));
    assert(before =~= before.take(i) + before.skip(i));
    assert forall|key: u64| #[trigger]
        count_in(after, key) == count_in(before, key) + if key == item {
            1int
        } else {
            0int
        } by {
        lemma_count_in_concat(before.take(i) + seq![(item, 1usize)], before.skip(i), key);
        lemma_count_in_concat(before.take(i), seq![(item, 1usize)], key);
        lemma_count_in_concat(before.take(i), before.skip(i), key);
        lemma_count_in_one((item, 1usize), key);
    }
    assert forall|a: int, b: int| 0 <= a < b < after.len() implies after[a].0 < after[b].0 by {
        if b < i {
            assert(before[a].0 < before[b].0);
        } else if b == i {
            assert(after[a] == before[a]);
        } else if a < i {
            assert(after[b] == before[b - 1]);
            assert(before[a].0 < item);
            if i < b - 1 {
                assert(before[i].0 < before[b - 1].0);
            }
        } else if a == i {
            assert(after[b] == before[b - 1]);
            if i < b - 1 {
                assert(before[i].0 < before[b - 1].0);
            }
        } else {
            assert(after[a] == before[a - 1]);
            assert(after[b] == before[b - 1]);
            assert(before[a - 1].0 < before[b - 1].0);
        }
    }
}

/// Counts `item` once more in the histogram `entries`.
pub fn count_one(entries: &mut Vec<(u64, usize)>, item: u64)
    requires
        sorted(old(entries)@),
        count_in(old(entries)@, item) < usize::MAX,
    ensures
        counted(old(entries)@, item, final(entries)@),
{
    let ghost before = entries@;
    let mut i: usize = 0;
    while i < entries.len() && entries[i].0 < item
        invariant
            entries@ == before,
            i <= entries.len(),
            forall|k: int| 0 <= k < i ==> (#[trigger] before[k]).0 < item,
        decreases entries.len() - i,
    {
        i = i + 1;
    }
    if i < entries.len() && entries[i].0 == item {
        let count = entries[i].1;
        proof {
            lemma_count_in_sorted(before, i as int);
            lemma_counted_bump(before, i as int, item);
        }
        entries[i] = (item, count + 1);
    } else {
        proof {
            lemma_counted_insert(before, i as int, item);
        }
        entries.insert(i, (item, 1));
    }
}

/// Whether the histograms `a` and `b` can be merged: both are sorted and no
/// count gets out of range.
pub open spec fn can_merge(a: Seq<(u64, usize)>, b: Seq<(u64, usize)>) -> bool {
    &&& sorted(a)
    &&& sorted(b)
    &&& forall|key: u64| #[trigger] count_in(a, key) + count_in(b, key) <= usize::MAX
}

/// The histogram of what the histograms `a` and `b` count together.
pub fn merge_sorted(a: Vec<(u64, usize)>, b: Vec<(u64, usize)>) -> (out: Vec<(u64, usize)>)
    requires
        can_merge(a@, b@),
    ensures
        merged(a@, b@, out@),
{
    let mut out: Vec<(u64, usize)> = Vec::new();
    let mut i: usize = 0;
    let mut j: usize = 0;
    proof {
        assert(a@.take(0) =~= Seq::<(u64, usize)>::empty());
        assert(b@.take(0) =~= Seq::<(u64, usize)>::empty());
    }
    while i < a.len() || j < b.len()
        invariant
            can_merge(a@, b@),
            i <= a.len(),
            j <= b.len(),
            sorted(out@),
            forall|k: int|
                0 <= k < out.len() ==> (i < a.len() ==> (#[trigger] out[k]).0 < a[i as int].0) && (j
                    < b.len() ==> out[k].0 < b[j as int].0),
            forall|key: u64| #[trigger]
                count_in(out@, key) == count_in(a@.take(i as int), key) + count_in(
                    b@.take(j as int),
                    key,
                ),
        decreases a.len() - i + b.len() - j,
    {
        let ghost held = out@;
        let ghost i0 = i as int;
        let ghost j0 = j as int;
        let take_a = j >= b.len() || (i < a.len() && a[i].0 < b[j].0);
        let take_b = i >= a.len() || (j < b.len() && b[j].0 < a[i].0);
        if take_a {
            out.push(a[i]);
            i = i + 1;
        } else if take_b {
            out.push(b[j]);
            j = j + 1;
        } else {
            proof {
                lemma_count_in_sorted(a@, i0);
                lemma_count_in_sorted(b@, j0);
                assert(count_in(a@, a[i0].0) + count_in(b@, a[i0].0) <= usize::MAX);
            }
            out.push((a[i].0, a[i].1 + b[j].1));
            i = i + 1;
            j = j + 1;
        }
        proof {
            assert(out@.drop_last() =~= held);
            assert forall|key: u64| #[trigger]
                count_in(out@, key) == count_in(a@.take(i as int), key) + count_in(
                    b@.take(j as int),
                    key,
                ) by {
                if i as int == i0 + 1 {
                    assert(a@.take(i as int).drop_last() =~= a@.take(i0));
                }
                if j as int == j0 + 1 {
                    assert(b@.take(j as int).drop_last() =~= b@.take(j0));
                }
                assert(count_in(held, key) == count_in(a@.take(i0), key) + count_in(
                    b@.take(j0),
                    key,
                ));
            }
            assert(sorted(out@)) by {
                assert forall|x: int, y: int| 0 <= x < y < out.len() implies out[x].0
                    < out[y].0 by {
                    if y < held.len() {
                        assert(held[x].0 < held[y].0);
                    } else {
                        assert(out[x] == held[x]);
                    }
                }
            }
            assert forall|k: int| 0 <= k < out.len() implies (i < a.len() ==> (#[trigger] out[k]).0
                < a[i as int].0) && (j < b.len() ==> out[k].0 < b[j as int].0) by {
                if i < a.len() && i as int == i0 + 1 {
                    assert(a[i0].0 < a[i as int].0);
                }
                if j < b.len() && j as int == j0 + 1 {
                    assert(b[j0].0 < b[j as int].0);
                }
                if k < held.len() {
                    assert(out[k] == held[k]);
                }
            }
        }
    }
    proof {
        assert(a@.take(a.len() as int) =~= a@);
        assert(b@.take(b.len() as int) =~= b@);
    }
    out
}

/// The terminal operator that counts how often each of the numbers occurs
/// that the pipe `i` hands out.
pub struct Histogram<I> {
    pub i: I,
}

impl<I> Histogram<I> {
    /// The operator as [`new`](Histogram::new) makes it.
    pub open spec fn of(i: I) -> Self {
        Histogram { i }
    }

    pub fn new(i: I) -> (s: Self)
        ensures
            s == Self::of(i),
    {
        Histogram { i }
    }
}

/// The maker of reducers that build the histogram of their items.
pub struct HistogramReducerFactory;

impl Factory for HistogramReducerFactory {
    type Item = HistogramReducer;

    open spec fn inv(&self) -> bool {
        true
    }

    open spec fn makes(&self, item: HistogramReducer) -> bool {
        item.0@ == Seq::<(u64, usize)>::empty()
    }

    fn make(&self) -> (item: HistogramReducer) {
        HistogramReducer(Vec::new())
    }
}

/// The reducer that builds the histogram of its items.
pub struct HistogramReducer(pub Vec<(u64, usize)>);

impl Intake for HistogramReducer {
    type Item = u64;

    open spec fn inv(&self) -> bool {
        sorted(self.0@)
    }

    open spec fn wants(&self) -> bool {
        true
    }

    open spec fn admits(&self, item: u64) -> bool {
        count_in(self.0@, item) < usize::MAX
    }

    open spec fn absorbs(&self, item: u64, next: Self) -> bool {
        counted(self.0@, item, next.0@)
    }
}

impl Sink for HistogramReducer {
    fn accepting(&self) -> (b: bool) {
        true
    }

    fn push(&mut self, item: u64) {
        count_one(&mut self.0, item);
    }
}

impl ReducerAsync for HistogramReducer {
    type Output = Vec<(u64, usize)>;

    open spec fn ripe(&self) -> bool {
        true
    }

    open spec fn yields(&self, out: Vec<(u64, usize)>) -> bool {
        out@ == self.0@
    }

    fn poll_output(&mut self) -> (r: Poll<Vec<(u64, usize)>>) {
        let mut out: Vec<(u64, usize)> = Vec::new();
        std::mem::swap(&mut self.0, &mut out);
        Poll::Ready(out)
    }
}

impl Reducer for HistogramReducer {
    type Item = u64;

    type Output = Vec<(u64, usize)>;

    type Async = Self;

    open spec fn lowered(self) -> Self {
        self
    }

    fn into_async(self) -> (a: Self) {
        self
    }
}

/// The maker of reducers that merge histograms.
pub struct HistogramMergerFactory;

impl Factory for HistogramMergerFactory {
    type Item = HistogramMerger;

    open spec fn inv(&self) -> bool {
        true
    }

    open spec fn makes(&self, item: HistogramMerger) -> bool {
        item.0@ == Seq::<(u64, usize)>::empty()
    }

    fn make(&self) -> (item: HistogramMerger) {
        HistogramMerger(Vec::new())
    }
}

/// The reducer that merges the histograms of the level below.
pub struct HistogramMerger(pub Vec<(u64, usize)>);

impl Intake for HistogramMerger {
    type Item = Vec<(u64, usize)>;

    open spec fn inv(&self) -> bool {
        sorted(self.0@)
    }

    open spec fn wants(&self) -> bool {
        true
    }

    open spec fn admits(&self, item: Vec<(u64, usize)>) -> bool {
        can_merge(self.0@, item@)
    }

    open spec fn absorbs(&self, item: Vec<(u64, usize)>, next: Self) -> bool {
        merged(self.0@, item@, next.0@)
    }
}

impl Sink for HistogramMerger {
    fn accepting(&self) -> (b: bool) {
        true
    }

    fn push(&mut self, item: Vec<(u64, usize)>) {
        let mut held: Vec<(u64, usize)> = Vec::new();
        std::mem::swap(&mut self.0, &mut held);
        self.0 = merge_sorted(held, item);
    }
}

impl ReducerAsync for HistogramMerger {
    type Output = Vec<(u64, usize)>;

    open spec fn ripe(&self) -> bool {
        true
    }

    open spec fn yields(&self, out: Vec<(u64, usize)>) -> bool {
        out@ == self.0@
    }

    fn poll_output(&mut self) -> (r: Poll<Vec<(u64, usize)>>) {
        let mut out: Vec<(u64, usize)> = Vec::new();
        std::mem::swap(&mut self.0, &mut out);
        Poll::Ready(out)
    }
}

impl Reducer for HistogramMerger {
    type Item = Vec<(u64, usize)>;

    type Output = Vec<(u64, usize)>;

    type Async = Self;

    open spec fn lowered(self) -> Self {
        self
    }

    fn into_async(self) -> (a: Self) {
        self
    }
}

impl<Source, I: ParallelPipe<Source, Item = u64>> ParallelSink<Source> for Histogram<I> {
    type Output = Vec<(u64, usize)>;

    type Pipe = I;

    type ReduceAFactory = HistogramReducerFactory;

    type ReduceA = HistogramReducer;

    type ReduceC = HistogramMerger;

    open spec fn inv(&self) -> bool {
        self.i.inv()
    }

    open spec fn splits(self, pipe: I, a: HistogramReducerFactory, c: HistogramMerger) -> bool {
        pipe == self.i && c.0@ == Seq::<(u64, usize)>::empty()
    }

    fn reducers(self) -> (r: (I, HistogramReducerFactory, HistogramMerger)) {
        let a = HistogramReducerFactory;
        assert(a.inv());
        (self.i, a, HistogramMerger(Vec::new()))
    }
}

impl<Source, I: DistributedPipe<Source, Item = u64>> DistributedSink<Source> for Histogram<I> {
    type Output = Vec<(u64, usize)>;

    type Pipe = I;

    type ReduceAFactory = HistogramReducerFactory;

    type ReduceBFactory = HistogramMergerFactory;

    type ReduceA = HistogramReducer;

    type ReduceB = HistogramMerger;

    type ReduceC = HistogramMerger;

    open spec fn inv(&self) -> bool {
        self.i.inv()
    }

    open spec fn splits(
        self,
        pipe: I,
        a: HistogramReducerFactory,
        b: HistogramMergerFactory,
        c: HistogramMerger,
    ) -> bool {
        pipe == self.i && c.0@ == Seq::<(u64, usize)>::empty()
    }

    fn reducers(self) -> (r: (
        I,
        HistogramReducerFactory,
        HistogramMergerFactory,
        HistogramMerger,
    )) {
        let a = HistogramReducerFactory;
        let b = HistogramMergerFactory;
        assert(a.inv());
        assert(b.inv());
        (self.i, a, b, HistogramMerger(Vec::new()))
    }
}

/// The counts that histograms give to `key`, added up.
pub open spec fn counts_in(histograms: Seq<Vec<(u64, usize)>>, key: u64) -> int
    decreases histograms.len(),
{
    if histograms.len() == 0 {
        0
    } else {
        counts_in(histograms.drop_last(), key) + count_in(histograms.last()@, key)
    }
}

/// A reducer that builds a histogram holds a sorted list, and for every
/// number the count it held plus how often the number came.
pub proof fn lemma_histogram_offered(
    start: HistogramReducer,
    items: Seq<u64>,
    end: HistogramReducer,
    key: u64,
)
    requires
        offered(start, items, end),
        sorted(start.0@),
    ensures
        sorted(end.0@),
        count_in(end.0@, key) == count_in(start.0@, key) + occurrences(items, key),
    decreases items.len(),
{
    if items.len() > 0 {
        let mid = choose|mid: HistogramReducer|
            offered(start, items.drop_last(), mid) && #[trigger] moved(mid, items.last(), end);
        lemma_histogram_offered(start, items.drop_last(), mid, key);
        assert(count_in(end.0@, key) == count_in(mid.0@, key) + if key == items.last() {
            1int
        } else {
            0int
        });
    }
}

/// A reducer that merges histograms holds a sorted list, and for every number
/// the count it held plus the counts of the histograms that came.
pub proof fn lemma_histograms_offered(
    start: HistogramMerger,
    items: Seq<Vec<(u64, usize)>>,
    end: HistogramMerger,
    key: u64,
)
    requires
        offered(start, items, end),
        sorted(start.0@),
    ensures
        sorted(end.0@),
        count_in(end.0@, key) == count_in(start.0@, key) + counts_in(items, key),
    decreases items.len(),
{
    if items.len() > 0 {
        let mid = choose|mid: HistogramMerger|
            offered(start, items.drop_last(), mid) && #[trigger] moved(mid, items.last(), end);
        lemma_histograms_offered(start, items.drop_last(), mid, key);
        assert(count_in(end.0@, key) == count_in(mid.0@, key) + count_in(items.last()@, key));
    }
}

/// The count of one number as a tally: the value of a run of numbers is how
/// often the number occurs in it, and values merge by addition.
pub struct CountOf(pub u64);

impl Tally for CountOf {
    type Item = u64;

    type Value = int;

    type A = Vec<(u64, usize)>;

    type B = Vec<(u64, usize)>;

    type C = Vec<(u64, usize)>;

    open spec fn lawful(&self) -> bool {
        true
    }

    open spec fn of(&self, items: Seq<u64>) -> int {
        occurrences(items, self.0)
    }

    open spec fn merge(&self, a: int, b: int) -> int {
        a + b
    }

    open spec fn of_a(&self, out: Vec<(u64, usize)>) -> int {
        count_in(out@, self.0)
    }

    open spec fn of_b(&self, out: Vec<(u64, usize)>) -> int {
        count_in(out@, self.0)
    }

    open spec fn of_c(&self, out: Vec<(u64, usize)>) -> int {
        count_in(out@, self.0)
    }

    proof fn lemma_of_concat(&self, first: Seq<u64>, second: Seq<u64>) {
        lemma_occurrences_concat(first, second, self.0);
    }

    proof fn lemma_merge_commutes(&self, a: int, b: int) {
    }

    proof fn lemma_merge_associates(&self, a: int, b: int, c: int) {
    }

    proof fn lemma_merge_none(&self, a: int) {
    }

    open spec fn within(&self, a: int, b: int) -> bool {
        a == b
    }

    proof fn lemma_within_itself(&self, a: int) {
    }

    proof fn lemma_within_chain(&self, a: int, b: int, c: int) {
    }

    proof fn lemma_merge_within(&self, a: int, b: int, c: int, d: int) {
    }
}

/// The merge of outputs that are histograms is the sum of their counts.
pub proof fn lemma_merged_histograms(outs: Seq<Vec<(u64, usize)>>, key: u64)
    ensures
        merged_a::<CountOf>(CountOf(key), outs) == counts_in(outs, key),
        merged_b::<CountOf>(CountOf(key), outs) == counts_in(outs, key),
    decreases outs.len(),
{
    if outs.len() > 0 {
        lemma_merged_histograms(outs.drop_last(), key);
    }
}

/// The histogram of a stream does not depend on the pool: on any number of
/// processes and threads, however the tasks are dealt, it is sorted and gives
/// every number the count of how often it occurs among all the items.
pub proof fn lemma_histogram_on_pool<T: StreamTask<Item = u64>>(
    tasks: Seq<T>,
    processes: int,
    threads: int,
    out: Vec<(u64, usize)>,
    key: u64,
)
    requires
        dist_pipe_reduces(tasks, processes, threads, Histogram::<Identity>::of(Identity), out),
    ensures
        sorted(out@),
        count_in(out@, key) == occurrences(tasks_items(tasks), key),
{
    let sink = Histogram::<Identity>::of(Identity);
    let (pipe, a, b, c) = choose|
        pipe: Identity,
        a: HistogramReducerFactory,
        b: HistogramMergerFactory,
        c: HistogramMerger,
    | #[trigger]
        DistributedSink::<u64>::splits(sink, pipe, a, b, c) && dist_reduces(
            connected::<T, u64, Identity>(tasks, pipe),
            processes,
            threads,
            Lowering(a),
            Lowering(b),
            c.lowered(),
            out,
        );
    assert forall|r: HistogramReducer, items: Seq<u64>, o: Vec<(u64, usize)>|
        Lowering(a).makes(r) && #[trigger] reduces(r, items, o) implies count_in(o@, key)
        == occurrences(items, key) by {
        let end = choose|end: HistogramReducer| offered(r, items, end) && #[trigger] end.yields(o);
        lemma_histogram_offered(r, items, end, key);
    }
    assert forall|r: HistogramMerger, outs: Seq<Vec<(u64, usize)>>, o: Vec<(u64, usize)>|
        Lowering(b).makes(r) && #[trigger] reduces(r, outs, o) implies count_in(o@, key)
        == merged_a::<CountOf>(CountOf(key), outs) by {
        let end = choose|end: HistogramMerger| offered(r, outs, end) && #[trigger] end.yields(o);
        lemma_histograms_offered(r, outs, end, key);
        lemma_merged_histograms(outs, key);
    }
    assert forall|outs: Seq<Vec<(u64, usize)>>, o: Vec<(u64, usize)>| #[trigger]
        reduces(c.lowered(), outs, o) implies count_in(o@, key) == merged_b::<CountOf>(
        CountOf(key),
        outs,
    ) && sorted(o@) by {
        let end = choose|end: HistogramMerger| offered(c, outs, end) && #[trigger] end.yields(o);
        lemma_histograms_offered(c, outs, end, key);
        lemma_merged_histograms(outs, key);
    }
    lemma_dist_tally::<
        CountOf,
        ConnectTask<T, IdentityTask>,
        Lowering<HistogramReducerFactory>,
        Lowering<HistogramMergerFactory>,
        HistogramMerger,
    >(
        CountOf(key),
        connected::<T, u64, Identity>(tasks, pipe),
        processes,
        threads,
        Lowering(a),
        Lowering(b),
        c.lowered(),
        out,
    );
    lemma_connected_identity(tasks);
    let (bins, outs) = choose|bins: Seq<Seq<ConnectTask<T, IdentityTask>>>, outs: Seq<Vec<(u64, usize)>>|
        crate::par_stream::reduce::evenly_dealt(
            connected::<T, u64, Identity>(tasks, pipe),
            processes,
            bins,
        ) && #[trigger] crate::par_stream::reduce::procs_reduce(
            Lowering(a),
            Lowering(b),
            threads,
            bins,
            outs,
        ) && reduces(c.lowered(), outs, out);
    assert(reduces(c.lowered(), outs, out));
}

/// The histogram of a stream does not depend on the number of threads.
pub proof fn lemma_histogram_on_threads<T: StreamTask<Item = u64>>(
    tasks: Seq<T>,
    threads: int,
    out: Vec<(u64, usize)>,
    key: u64,
)
    requires
        par_pipe_reduces(tasks, threads, Histogram::<Identity>::of(Identity), out),
    ensures
        sorted(out@),
        count_in(out@, key) == occurrences(tasks_items(tasks), key),
{
    let sink = Histogram::<Identity>::of(Identity);
    let (pipe, a, c) = choose|pipe: Identity, a: HistogramReducerFactory, c: HistogramMerger| #[trigger]
        ParallelSink::<u64>::splits(sink, pipe, a, c) && par_reduces(
            connected::<T, u64, Identity>(tasks, pipe),
            threads,
            Lowering(a),
            c.lowered(),
            out,
        );
    assert forall|r: HistogramReducer, items: Seq<u64>, o: Vec<(u64, usize)>|
        Lowering(a).makes(r) && #[trigger] reduces(r, items, o) implies count_in(o@, key)
        == occurrences(items, key) by {
        let end = choose|end: HistogramReducer| offered(r, items, end) && #[trigger] end.yields(o);
        lemma_histogram_offered(r, items, end, key);
    }
    assert forall|outs: Seq<Vec<(u64, usize)>>, o: Vec<(u64, usize)>| #[trigger]
        reduces(c.lowered(), outs, o) implies count_in(o@, key) == merged_a::<CountOf>(
        CountOf(key),
        outs,
    ) && sorted(o@) by {
        let end = choose|end: HistogramMerger| offered(c, outs, end) && #[trigger] end.yields(o);
        lemma_histograms_offered(c, outs, end, key);
        lemma_merged_histograms(outs, key);
    }
    lemma_par_tally::<
        CountOf,
        ConnectTask<T, IdentityTask>,
        Lowering<HistogramReducerFactory>,
        HistogramMerger,
    >(
        CountOf(key),
        connected::<T, u64, Identity>(tasks, pipe),
        threads,
        Lowering(a),
        c.lowered(),
        out,
    );
    lemma_connected_identity(tasks);
    let (bins, outs) = choose|bins: Seq<Seq<ConnectTask<T, IdentityTask>>>, outs: Seq<Vec<(u64, usize)>>|
        crate::par_stream::reduce::evenly_dealt(
            connected::<T, u64, Identity>(tasks, pipe),
            threads,
            bins,
        ) && #[trigger] crate::par_stream::reduce::bins_reduce(Lowering(a), bins, outs) && reduces(
            c.lowered(),
            outs,
            out,
        );
    assert(reduces(c.lowered(), outs, out));
}

} // verus!
