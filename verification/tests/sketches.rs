use amadeus_core::into_par_stream::{IntoDistributedStream, IntoParallelStream};
use amadeus_core::par_pipe::ext::PipeExt;
use amadeus_core::par_pipe::identity::Identity;
use amadeus_core::par_sink::most_distinct::{MostDistinctReduceFactory, MostDistinctReducer};
use amadeus_core::par_sink::most_frequent::MostFrequentReduceFactory;
use amadeus_core::par_sink::sample::{NonzeroReduceFactory, NonzeroReducer};
use amadeus_core::par_sink::sketch::{Counts, CountsFactory, Join, Sketch};
use amadeus_core::par_sink::sum::{Accumulate, SumReducer, SumReducerFactory};
use amadeus_core::par_sink::{DistributedSink, Factory, ParallelSink, Reducer, ReducerAsync};
use amadeus_core::par_stream::{DistributedStream, ParallelStream};
use amadeus_core::sink::{forward_all, Sink};
use amadeus_core::stream::{Poll, Scripted};
use std::marker::PhantomData;
use streaming_algorithms::Top;

fn ready<T>(poll: Poll<T>) -> T {
    match poll {
        Poll::Ready(out) => out,
        Poll::Pending => panic!("pending"),
    }
}

/// The count of each key and the number of the distinct values that came with
/// it, kept exactly.
struct Pairs(Vec<(u64, Vec<u64>)>);

impl Join for Pairs {
    fn joins(&self, _other: Self) -> bool {
        true
    }

    fn joined(&self, _other: Self, _next: Self) -> bool {
        true
    }

    fn join(&mut self, other: Self) {
        for (key, values) in other.0 {
            for value in values {
                self.visit((key, value));
            }
        }
    }
}

impl Sketch<(u64, u64)> for Pairs {
    fn admits(&self, _item: (u64, u64)) -> bool {
        true
    }

    fn visited(&self, _item: (u64, u64), _next: Self) -> bool {
        true
    }

    fn visit(&mut self, item: (u64, u64)) {
        match self.0.iter_mut().find(|entry| entry.0 == item.0) {
            Some(entry) => {
                if !entry.1.contains(&item.1) {
                    entry.1.push(item.1);
                }
            }
            None => self.0.push((item.0, vec![item.1])),
        }
    }
}

#[derive(Clone, Copy)]
struct PairsFactory;

impl Factory for PairsFactory {
    type Item = Pairs;

    fn inv(&self) -> bool {
        true
    }

    fn makes(&self, item: Pairs) -> bool {
        item.0.is_empty()
    }

    fn make(&self) -> Pairs {
        Pairs(Vec::new())
    }
}

/// The most frequent items by the sketch of an outside crate.
struct Frequent(Top<u64, usize>);

impl Join for Frequent {
    fn joins(&self, other: Self) -> bool {
        self.0.capacity() == other.0.capacity()
    }

    fn joined(&self, _other: Self, _next: Self) -> bool {
        true
    }

    fn join(&mut self, other: Self) {
        self.0 += other.0;
    }
}

impl Sketch<u64> for Frequent {
    fn admits(&self, _item: u64) -> bool {
        true
    }

    fn visited(&self, _item: u64, _next: Self) -> bool {
        true
    }

    fn visit(&mut self, item: u64) {
        self.0.push(item, &1);
    }
}

struct FrequentFactory(usize);

impl Factory for FrequentFactory {
    type Item = Frequent;

    fn inv(&self) -> bool {
        true
    }

    fn makes(&self, item: Frequent) -> bool {
        item.0.capacity() == self.0
    }

    fn make(&self) -> Frequent {
        Frequent(Top::new(self.0, 0.99, 0.002, ()))
    }
}

#[test]
fn counts_visit_and_join() {
    let mut counts = Counts::new();
    for item in [5u64, 3, 5, 9, 3, 5] {
        counts.visit(item);
    }
    let mut other = CountsFactory.make();
    for item in [9u64, 1] {
        other.visit(item);
    }
    counts.join(other);
    assert_eq!(counts.into_entries(), vec![(1, 1), (3, 2), (5, 3), (9, 2)]);
}

#[test]
fn nothing_takes_in_the_first_summary_as_it_is() {
    let mut total: Option<Counts> = Accumulate::<Counts>::zero();
    assert!(total.is_none());
    let mut first = Counts::new();
    first.visit(4);
    total.take_in(first);
    assert_eq!(total.as_ref().unwrap().0, vec![(4, 1)]);
    let mut second = Counts::new();
    second.visit(4);
    second.visit(2);
    total.take_in(second);
    assert_eq!(total.unwrap().into_entries(), vec![(2, 1), (4, 2)]);
}

#[test]
fn most_frequent_reducer_visits_every_item() {
    let factory: MostFrequentReduceFactory<u64, CountsFactory> =
        MostFrequentReduceFactory(CountsFactory, PhantomData);
    let mut reducer = factory.clone().make().into_async();
    assert!(reducer.accepting());
    let mut stream = Scripted::of_items(vec![2u64, 7, 2, 2, 7, 1]);
    forward_all(&mut reducer, &mut stream);
    assert_eq!(ready(reducer.poll_output()).into_entries(), vec![(1, 1), (2, 3), (7, 2)]);
}

#[test]
fn most_distinct_reducer_visits_every_pair() {
    let factory: MostDistinctReduceFactory<(u64, u64), PairsFactory> =
        MostDistinctReduceFactory(PairsFactory, PhantomData);
    let mut reducer: MostDistinctReducer<(u64, u64), Pairs> = factory.make();
    for pair in [(1u64, 10u64), (1, 11), (2, 10), (1, 10)] {
        reducer.push(pair);
    }
    assert_eq!(ready(reducer.poll_output()).0, vec![(1, vec![10, 11]), (2, vec![10])]);
}

#[test]
fn summaries_merge_above_the_threads() {
    let factory: NonzeroReduceFactory<SumReducerFactory<Counts, Option<Counts>>> =
        NonzeroReduceFactory(SumReducerFactory(PhantomData));
    let mut merger = factory.make().into_async();
    let mut a = Counts::new();
    a.visit(1);
    a.visit(2);
    let mut b = Counts::new();
    b.visit(2);
    merger.push(a);
    merger.push(b);
    assert_eq!(ready(merger.poll_output()).into_entries(), vec![(1, 1), (2, 2)]);
    let mut from_empty: NonzeroReducer<SumReducer<Counts, Option<Counts>>> =
        NonzeroReducer(SumReducer(Some(Counts::new()), PhantomData));
    let mut c = Counts::new();
    c.visit(8);
    from_empty.push(c);
    assert_eq!(ready(from_empty.poll_output()).into_entries(), vec![(8, 1)]);
}

#[test]
fn most_frequent_takes_itself_apart() {
    let (_, a, c) = ParallelSink::<u64>::reducers(PipeExt::<u64>::most_frequent(Identity, CountsFactory));
    assert!(a.make().0.unwrap().into_entries().is_empty());
    assert!(c.0 .0.unwrap().into_entries().is_empty());
    let (_, a, b, c) = DistributedSink::<u64>::reducers(PipeExt::<u64>::most_frequent(Identity, CountsFactory));
    assert!(a.make().0.is_some());
    assert!(b.make().0 .0.is_none());
    assert!(c.0 .0.is_some());
    let (_, a, b, c) =
        DistributedSink::<(u64, u64)>::reducers(PipeExt::<(u64, u64)>::most_distinct(
            Identity,
            PairsFactory,
        ));
    assert!(a.make().0.unwrap().0.is_empty());
    assert!(b.make().0 .0.is_none());
    assert!(c.0 .0.unwrap().0.is_empty());
}

#[test]
fn exact_counts_do_not_depend_on_the_pool() {
    let items: Vec<u64> = (0..1000u64).map(|i| (i * i) % 7).collect();
    let mut expected: Vec<(u64, usize)> = Vec::new();
    for key in 0..7u64 {
        let count = items.iter().filter(|x| **x == key).count();
        if count > 0 {
            expected.push((key, count));
        }
    }
    for processes in 1..5usize {
        for threads in 1..5usize {
            let stream = items.clone().into_dist_stream();
            let out = DistributedStream::most_frequent(stream, processes, threads, CountsFactory);
            assert_eq!(out.into_entries(), expected);
        }
    }
    for threads in 1..7usize {
        let stream = items.clone().into_par_stream();
        let out = ParallelStream::most_frequent(stream, threads, CountsFactory);
        assert_eq!(out.into_entries(), expected);
    }
}

#[test]
fn the_most_frequent_items_by_an_approximate_sketch() {
    let mut items: Vec<u64> = Vec::new();
    for i in 0..2000u64 {
        items.push(i % 50);
        if i % 4 == 0 {
            items.push(7);
        }
        if i % 5 == 0 {
            items.push(11);
        }
    }
    let out = DistributedStream::most_frequent(items.into_dist_stream(), 2, 3, FrequentFactory(100));
    let top: Vec<(u64, usize)> = out.0.iter().map(|(key, count)| (*key, *count)).collect();
    assert_eq!(top.len(), 50);
    assert_eq!(top[0], (7, 540));
    assert_eq!(top[1], (11, 440));
    assert!(top[2..].iter().all(|entry| entry.1 == 40));
}

#[test]
fn the_keys_with_the_most_distinct_values() {
    let mut pairs: Vec<(u64, u64)> = Vec::new();
    for i in 0..300u64 {
        pairs.push((1, i % 30));
        pairs.push((2, i % 3));
        pairs.push((3, 0));
    }
    let out = ParallelStream::most_distinct(pairs.into_par_stream(), 4, PairsFactory);
    let mut got: Vec<(u64, usize)> = out.0.iter().map(|entry| (entry.0, entry.1.len())).collect();
    got.sort();
    assert_eq!(got, vec![(1, 30), (2, 3), (3, 1)]);
}
