use amadeus_core::into_par_stream::{IntoDistributedStream, IntoParallelStream, IterParStream};
use amadeus_core::par_pipe::filter::Filter;
use amadeus_core::par_pipe::identity::Identity;
use amadeus_core::par_pipe::map::MapItems;
use amadeus_core::par_sink::collect::Collect;
use amadeus_core::par_sink::count::Count;
use amadeus_core::par_sink::max::combine::Compare;
use amadeus_core::par_sink::sum::Sum;
use amadeus_core::par_stream::chain::{checked_sum, saturating_sum};
use amadeus_core::par_stream::partition::partition;
use amadeus_core::par_stream::reduce::{reduce_outputs, run_tasks, TaskList};
use amadeus_core::par_stream::{DistributedStream, ParallelStream, StreamTask, TaskStream};
use amadeus_core::par_sink::sum::SumReducer;
use amadeus_core::stream::{reversed, Scripted};
use std::cmp::Ordering;
use amadeus_core::par_pipe::ext::PipeExt;
use std::collections::{BTreeMap, BTreeSet, HashMap, HashSet, VecDeque};
use std::marker::PhantomData;

fn source(items: Vec<u64>) -> IterParStream<u64> {
    items.into_dist_stream()
}

#[test]
fn ten_tasks_on_three_bins() {
    let mut stream = source((0..10).collect());
    let bins = partition(&mut stream, 3);
    let items: Vec<Vec<u64>> =
        bins.into_iter().map(|bin| bin.into_iter().map(|task| task.item).collect()).collect();
    assert_eq!(items, vec![vec![0, 1, 2, 3], vec![4, 5, 6], vec![7, 8, 9]]);
}

#[test]
fn fewer_tasks_than_bins_leave_bins_empty() {
    let mut stream = source(vec![7, 8]);
    let bins = partition(&mut stream, 5);
    let sizes: Vec<usize> = bins.iter().map(Vec::len).collect();
    assert_eq!(sizes, vec![1, 1, 0, 0, 0]);
    let total: u64 = DistributedStream::sum(source(vec![7, 8]), 5, 5);
    assert_eq!(total, 15);
}

#[test]
fn no_tasks_at_all() {
    let mut stream = source(vec![]);
    let bins = partition(&mut stream, 4);
    assert!(bins.iter().all(|bin| bin.is_empty()));
    let total: u64 = DistributedStream::sum(source(vec![]), 4, 4);
    assert_eq!(total, 0);
    assert_eq!(DistributedStream::count(source(vec![]), 4, 4), 0);
}

/// A stream whose lower bound is always zero.
struct Shy(IterParStream<u64>);

impl TaskStream for Shy {
    type Item = u64;
    type Task = <IterParStream<u64> as TaskStream>::Task;
    fn inv(&self) -> bool {
        true
    }
    fn tasks(&self) -> vstd::seq::Seq<Self::Task> {
        unreachable!()
    }
    fn hint(&self) -> (usize, Option<usize>) {
        (0, None)
    }
    fn size_hint(&self) -> (usize, Option<usize>) {
        (0, None)
    }
    fn next_task(&mut self) -> Option<Self::Task> {
        self.0.next_task()
    }
}

#[test]
fn a_stream_that_reports_nothing_is_dealt_one_by_one() {
    let mut stream = Shy(source((0..7).collect()));
    let bins = partition(&mut stream, 3);
    let items: Vec<Vec<u64>> =
        bins.into_iter().map(|bin| bin.into_iter().map(|task| task.item).collect()).collect();
    assert_eq!(items, vec![vec![0, 3, 6], vec![1, 4], vec![2, 5]]);
}

#[test]
fn size_hint_of_a_source_is_exact() {
    let mut stream = source(vec![1, 2, 3]);
    assert_eq!(stream.size_hint(), (3, Some(3)));
    let task = stream.next_task().unwrap();
    assert_eq!(task.item, 1);
    assert_eq!(stream.size_hint(), (2, Some(2)));
}

#[test]
fn one_thread_runs_its_tasks_in_order() {
    let mut stream = source(vec![1, 2, 3, 4]);
    let mut tasks = Vec::new();
    while let Some(task) = stream.next_task() {
        tasks.push(task);
    }
    let reducer: amadeus_core::par_sink::collect::PushReducer<u64, Vec<u64>> = Default::default();
    assert_eq!(run_tasks(tasks, reducer), vec![1, 2, 3, 4]);
    let merger: SumReducer<u64, u64> = SumReducer(1, PhantomData);
    assert_eq!(reduce_outputs(vec![10, 20], merger), 31);
}

#[test]
fn task_list_hands_out_its_tasks() {
    let mut stream = source(vec![5, 6]);
    let first = stream.next_task().unwrap();
    let second = stream.next_task().unwrap();
    let mut list = TaskList::new(vec![first, second]);
    assert_eq!(list.size_hint(), (2, Some(2)));
    assert_eq!(list.next_task().unwrap().item, 5);
    assert_eq!(list.next_task().unwrap().item, 6);
    assert!(list.next_task().is_none());
}

#[test]
fn count_and_max_and_min_do_not_depend_on_the_pool() {
    let items: Vec<u64> = vec![3, 1, 4, 1, 5, 9, 2, 6, 5, 3, 5];
    for processes in 1..5usize {
        for threads in 1..5usize {
            assert_eq!(DistributedStream::count(source(items.clone()), processes, threads), 11);
            assert_eq!(DistributedStream::max(source(items.clone()), processes, threads), Some(9));
            assert_eq!(DistributedStream::min(source(items.clone()), processes, threads), Some(1));
        }
    }
    for threads in 1..7usize {
        let stream = items.clone().into_par_stream();
        assert_eq!(ParallelStream::count(stream, threads), 11);
        let stream = items.clone().into_par_stream();
        assert_eq!(ParallelStream::max(stream, threads), Some(9));
        let stream = items.clone().into_par_stream();
        assert_eq!(ParallelStream::min(stream, threads), Some(1));
    }
}

#[derive(Clone, Copy)]
struct ByKey;

impl Compare<(u64, u64)> for ByKey {
    fn admits(&self, _a: (u64, u64), _b: (u64, u64)) -> bool {
        true
    }
    fn compares(&self, a: (u64, u64), b: (u64, u64), o: Ordering) -> bool {
        a.0.cmp(&b.0) == o
    }
    fn compare(&self, a: &(u64, u64), b: &(u64, u64)) -> Ordering {
        a.0.cmp(&b.0)
    }
}

fn pairs() -> IterParStream<(u64, u64)> {
    vec![(5u64, 0u64), (5, 1), (2, 2), (2, 3), (5, 4), (3, 5)].into_dist_stream()
}

#[test]
fn max_records_the_later_and_min_the_earlier_of_equals() {
    // on one thread the items are compared in the order of the source
    assert_eq!(DistributedStream::max_by(pairs(), 1, 1, ByKey), Some((5, 4)));
    assert_eq!(DistributedStream::min_by(pairs(), 1, 1, ByKey), Some((2, 2)));
    assert_eq!(
        DistributedStream::max_by_key(pairs(), 1, 1, |x: &(u64, u64)| x.0),
        Some((5, 4))
    );
    assert_eq!(
        DistributedStream::min_by_key(pairs(), 1, 1, |x: &(u64, u64)| x.0),
        Some((2, 2))
    );
    assert_eq!(ParallelStream::max_by(pairs(), 1, ByKey), Some((5, 4)));
    assert_eq!(ParallelStream::min_by_key(pairs(), 1, |x: &(u64, u64)| x.0), Some((2, 2)));
    let doubled = DistributedStream::max(vec![5u64, 5].into_dist_stream(), 1, 1);
    assert_eq!(doubled, Some(5));
}

#[test]
fn combine_keeps_the_order_on_one_thread() {
    let got = DistributedStream::combine(source(vec![1, 2, 3, 4]), 1, 1, |a: u64, b: u64| {
        a * 10 + b
    });
    assert_eq!(got, Some(1234));
    let got = DistributedStream::combine(source(vec![1, 2, 3, 4]), 3, 2, |a: u64, b: u64| a + b);
    assert_eq!(got, Some(10));
    let none = ParallelStream::combine(source(vec![]), 2, |a: u64, b: u64| a + b);
    assert_eq!(none, None);
}

#[test]
fn all_and_any() {
    assert!(DistributedStream::all(source(vec![2, 4, 6]), 2, 2, |x: u64| x % 2 == 0));
    assert!(!DistributedStream::all(source(vec![2, 5, 6]), 2, 2, |x: u64| x % 2 == 0));
    assert!(DistributedStream::all(source(vec![]), 2, 2, |x: u64| x % 2 == 0));
    assert!(DistributedStream::any(source(vec![1, 3, 6]), 2, 2, |x: u64| x % 2 == 0));
    assert!(!DistributedStream::any(source(vec![1, 3, 5]), 2, 2, |x: u64| x % 2 == 0));
    assert!(!DistributedStream::any(source(vec![]), 2, 2, |x: u64| x % 2 == 0));
    assert!(ParallelStream::all(source(vec![2, 4]), 3, |x: u64| x % 2 == 0));
    assert!(ParallelStream::any(source(vec![1, 4]), 3, |x: u64| x % 2 == 0));
}

#[test]
fn for_each_sees_every_item() {
    static SEEN: std::sync::atomic::AtomicU64 = std::sync::atomic::AtomicU64::new(0);
    DistributedStream::for_each(source((1..=10).collect()), 2, 3, |x: u64| {
        SEEN.fetch_add(x, std::sync::atomic::Ordering::SeqCst);
    });
    assert_eq!(SEEN.load(std::sync::atomic::Ordering::SeqCst), 55);
}

#[test]
fn map_and_update_and_inspect() {
    let stream = DistributedStream::map(source(vec![1, 2, 3]), |x: u64| x * 2);
    let got: Vec<u64> = DistributedStream::collect(stream, 1, 1);
    assert_eq!(got, vec![2, 4, 6]);
    let stream = DistributedStream::update(source(vec![1, 2, 3]), |x: u64| x + 1);
    let got: Vec<u64> = DistributedStream::collect(stream, 1, 1);
    assert_eq!(got, vec![2, 3, 4]);
    static SEEN: std::sync::atomic::AtomicU64 = std::sync::atomic::AtomicU64::new(0);
    let stream = DistributedStream::inspect(source(vec![1, 2, 3]), |x: &u64| {
        SEEN.fetch_add(*x, std::sync::atomic::Ordering::SeqCst);
    });
    let got: Vec<u64> = DistributedStream::collect(stream, 1, 1);
    assert_eq!(got, vec![1, 2, 3]);
    assert_eq!(SEEN.load(std::sync::atomic::Ordering::SeqCst), 6);
}

#[test]
fn flat_map_drains_each_inner_stream() {
    let stream = DistributedStream::flat_map(source(vec![1, 2, 3]), |x: u64| {
        Scripted::new(vec![Some(x), None, Some(x * 10)])
    });
    let got: Vec<u64> = DistributedStream::collect(stream, 1, 1);
    assert_eq!(got, vec![1, 10, 2, 20, 3, 30]);
}

#[test]
fn chain_hands_out_one_stream_after_the_other() {
    let stream = DistributedStream::chain(source(vec![1, 2]), source(vec![3, 4, 5]));
    assert_eq!(stream.size_hint(), (5, Some(5)));
    let got: Vec<u64> = DistributedStream::collect(stream, 1, 1);
    assert_eq!(got, vec![1, 2, 3, 4, 5]);
    assert_eq!(saturating_sum(usize::MAX, 1), usize::MAX);
    assert_eq!(saturating_sum(2, 3), 5);
    assert_eq!(checked_sum(Some(usize::MAX), Some(1)), None);
    assert_eq!(checked_sum(Some(2), Some(3)), Some(5));
    assert_eq!(checked_sum(None, Some(3)), None);
}

#[test]
fn collect_into_containers() {
    let got: VecDeque<u64> = DistributedStream::collect(source(vec![1, 2, 3]), 1, 1);
    assert_eq!(got, VecDeque::from(vec![1u64, 2, 3]));
    let chars: Vec<char> = vec!['a', 'b', 'c'];
    let got: String = DistributedStream::collect(chars.into_dist_stream(), 1, 1);
    assert_eq!(got, "abc");
    let strings: Vec<String> = vec!["ab".to_string(), "cd".to_string()];
    let got: String = ParallelStream::collect(strings.into_par_stream(), 1);
    assert_eq!(got, "abcd");
    let units: Vec<()> = vec![(), ()];
    let _: () = DistributedStream::collect(units.into_dist_stream(), 2, 2);
    let some: Vec<Option<u64>> = vec![Some(1), Some(2)];
    let got: Option<Vec<u64>> = DistributedStream::collect(some.into_dist_stream(), 1, 1);
    assert_eq!(got, Some(vec![1, 2]));
    let none: Vec<Option<u64>> = vec![Some(1), None, Some(2)];
    let got: Option<Vec<u64>> = DistributedStream::collect(none.into_dist_stream(), 2, 2);
    assert_eq!(got, None);
    let ok: Vec<Result<u64, String>> = vec![Ok(1), Ok(2)];
    let got: Result<Vec<u64>, String> = DistributedStream::collect(ok.into_dist_stream(), 1, 1);
    assert_eq!(got, Ok(vec![1, 2]));
    let bad: Vec<Result<u64, String>> = vec![Ok(1), Err("no".to_string())];
    let got: Result<Vec<u64>, String> = DistributedStream::collect(bad.into_dist_stream(), 1, 1);
    assert_eq!(got, Err("no".to_string()));
}

#[test]
fn both_sinks_of_a_fork_see_every_item_once() {
    let a: Collect<Identity, Vec<u64>> = Collect::new(Identity);
    let b: Collect<Identity, Vec<u64>> = Collect::new(Identity);
    let (left, right) = DistributedStream::fork(source((0..20).collect()), 1, 1, a, b);
    assert_eq!(left, (0..20).collect::<Vec<u64>>());
    assert_eq!(right, (0..20).collect::<Vec<u64>>());
    let a: Collect<Identity, Vec<u64>> = Collect::new(Identity);
    let b: Count<Identity> = Count::new(Identity);
    let (mut left, n) = DistributedStream::fork(source((0..20).collect()), 3, 2, a, b);
    left.sort();
    assert_eq!(left, (0..20).collect::<Vec<u64>>());
    assert_eq!(n, 20);
}

#[test]
fn a_fork_runs_each_sink_through_its_own_pipe() {
    let doubled: Sum<MapItems<Identity, _>, u64> =
        Sum::new(MapItems::new(Identity, |x: u64| 2 * x));
    let odd: Count<Filter<Identity, _>> = Count::new(Filter::new(Identity, |x: &u64| x % 2 == 1));
    let (total, n) = ParallelStream::fork(source((1..=10).collect()), 3, doubled, odd);
    assert_eq!((total, n), (110, 5));
}

#[test]
fn pipe_and_reduce_by_hand() {
    let sink: Sum<Filter<Identity, _>, u64> = Sum::new(Filter::new(Identity, |x: &u64| *x > 5));
    assert_eq!(DistributedStream::pipe(source((1..=10).collect()), 2, 2, sink), 40);
    let sink: Count<Identity> = Count::new(Identity);
    assert_eq!(ParallelStream::pipe(source((1..=10).collect()), 4, sink), 10);
    let a = amadeus_core::par_sink::sum::SumReducerFactory::<u64, u64>(PhantomData);
    let b = amadeus_core::par_sink::sum::SumReducerFactory::<u64, u64>(PhantomData);
    let c: SumReducer<u64, u64> = SumReducer(0, PhantomData);
    assert_eq!(DistributedStream::reduce(source((1..=10).collect()), 2, 2, a, b, c), 55);
    let a = amadeus_core::par_sink::sum::SumReducerFactory::<u64, u64>(PhantomData);
    let c: SumReducer<u64, u64> = SumReducer(0, PhantomData);
    assert_eq!(ParallelStream::reduce(source((1..=10).collect()), 2, a, c), 55);
}

#[test]
fn a_task_of_a_source_holds_one_item() {
    let mut stream = source(vec![42]);
    let task = stream.next_task().unwrap();
    let mut running = task.into_async();
    let mut sink: SumReducer<u64, u64> = SumReducer(0, PhantomData);
    amadeus_core::par_stream::reduce::run_to_end(&mut running, &mut sink);
    assert_eq!(sink.0, 42);
}

#[test]
fn reversed_turns_a_vector_round() {
    assert_eq!(reversed(vec![1, 2, 3]), vec![3, 2, 1]);
    assert_eq!(reversed(Vec::<u8>::new()), Vec::<u8>::new());
}

#[test]
fn histogram_counts_each_number() {
    let items: Vec<u64> = vec![3, 1, 4, 1, 5, 9, 2, 6, 5, 3, 5];
    let want: Vec<(u64, usize)> = vec![(1, 2), (2, 1), (3, 2), (4, 1), (5, 3), (6, 1), (9, 1)];
    for processes in 1..4usize {
        for threads in 1..4usize {
            assert_eq!(DistributedStream::histogram(source(items.clone()), processes, threads), want);
        }
    }
    assert_eq!(ParallelStream::histogram(source(items), 3), want);
    assert_eq!(DistributedStream::histogram(source(vec![]), 2, 2), Vec::new());
}

#[test]
fn collect_into_sets_and_maps() {
    let got: HashSet<u64> = DistributedStream::collect(source(vec![1, 2, 1, 3, 2]), 2, 2);
    assert_eq!(got, [1u64, 2, 3].into_iter().collect::<HashSet<u64>>());
    let got: BTreeSet<u64> = DistributedStream::collect(source(vec![3, 1, 3, 2]), 2, 2);
    assert_eq!(got.into_iter().collect::<Vec<u64>>(), vec![1, 2, 3]);
    // on one thread the later of two equal keys replaces the earlier
    let got: HashMap<u64, u64> = DistributedStream::collect(pairs(), 1, 1);
    let mut want = HashMap::new();
    want.insert(5u64, 4u64);
    want.insert(2, 3);
    want.insert(3, 5);
    assert_eq!(got, want);
    let got: BTreeMap<u64, u64> = ParallelStream::collect(pairs(), 1);
    assert_eq!(got.into_iter().collect::<Vec<(u64, u64)>>(), vec![(2, 3), (3, 5), (5, 4)]);
    let got: HashMap<u64, u64> =
        DistributedStream::collect(vec![(1u64, 1u64), (2, 2), (3, 3), (4, 4)].into_dist_stream(), 2, 2);
    assert_eq!(got.len(), 4);
    let got: BTreeMap<u64, u64> =
        DistributedStream::collect(vec![(1u64, 1u64), (2, 2), (3, 3), (4, 4)].into_dist_stream(), 2, 2);
    assert_eq!(got.len(), 4);
}

#[test]
fn pipes_are_built_on_pipes() {
    let sink = PipeExt::<u64>::sum::<u64>(PipeExt::<u64>::map(
        PipeExt::<u64>::filter(Identity, |x: &u64| x % 2 == 0),
        |x: u64| x + 1,
    ));
    assert_eq!(DistributedStream::pipe(source((1..=10).collect()), 2, 2, sink), 35);
    let sink = PipeExt::<u64>::count(PipeExt::<u64>::update(
        PipeExt::<u64>::inspect(Identity, |_x: &u64| {}),
        |x: u64| x * 2,
    ));
    assert_eq!(ParallelStream::pipe(source((1..=10).collect()), 3, sink), 10);
    let sink = PipeExt::<u64>::max(Identity);
    assert_eq!(ParallelStream::pipe(source(vec![4, 7, 2]), 2, sink), Some(7));
    let sink = PipeExt::<u64>::min(Identity);
    assert_eq!(ParallelStream::pipe(source(vec![4, 7, 2]), 2, sink), Some(2));
    let sink = PipeExt::<u64>::histogram(Identity);
    assert_eq!(ParallelStream::pipe(source(vec![4, 7, 4]), 2, sink), vec![(4, 2), (7, 1)]);
    let sink = PipeExt::<u64>::any(Identity, |x: u64| x == 7);
    assert!(ParallelStream::pipe(source(vec![4, 7, 4]), 2, sink));
    let sink = PipeExt::<u64>::all(Identity, |x: u64| x == 7);
    assert!(!ParallelStream::pipe(source(vec![4, 7, 4]), 2, sink));
    let sink = PipeExt::<u64>::collect::<Vec<u64>>(Identity);
    assert_eq!(ParallelStream::pipe(source(vec![4, 7, 4]), 1, sink), vec![4, 7, 4]);
    let sink = PipeExt::<u64>::combine(Identity, |a: u64, b: u64| a + b);
    assert_eq!(ParallelStream::pipe(source(vec![4, 7, 4]), 2, sink), Some(15));
}
