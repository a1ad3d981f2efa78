use amadeus_core::into_par_stream::{IntoDistributedStream, IntoParallelStream, IterParStream};
use amadeus_core::par_pipe::identity::Identity;
use amadeus_core::par_sink::count::Count;
use amadeus_core::par_sink::sum::Sum;
use amadeus_core::par_sink::reservoir::sample_into_vec;
use amadeus_core::par_stream::{DistributedStream, ParallelStream};
use either::Either;
use std::collections::HashMap;

fn source(items: Vec<u64>) -> IterParStream<u64> {
    items.into_dist_stream()
}

#[test]
fn sum_of_a_million_on_four_by_four() {
    let total: u64 = DistributedStream::sum(source((1..=1_000_000).collect()), 4, 4);
    assert_eq!(total, 500_000_500_000);
}

#[test]
fn sum_does_not_depend_on_the_pool() {
    for processes in 1..6usize {
        for threads in 1..6usize {
            let total: u64 = DistributedStream::sum(source((0..=999).collect()), processes, threads);
            assert_eq!(total, 499_500);
        }
    }
    for threads in 1..9usize {
        let stream = (0..=999u64).collect::<Vec<u64>>().into_par_stream();
        let total: u64 = ParallelStream::sum(stream, threads);
        assert_eq!(total, 499_500);
    }
}

#[test]
fn max_of_digits() {
    let got = DistributedStream::max(source(vec![3, 1, 4, 1, 5, 9, 2, 6]), 2, 2);
    assert_eq!(got, Some(9));
    let none = DistributedStream::max(source(vec![]), 2, 2);
    assert_eq!(none, None);
}

#[test]
fn fork_sum_and_count() {
    let stream = source((0..=999).collect());
    let sum: Sum<Identity, u64> = Sum::new(Identity);
    let count: Count<Identity> = Count::new(Identity);
    let (total, n) = DistributedStream::fork(stream, 3, 2, sum, count);
    assert_eq!((total, n), (499_500, 1_000));
}

#[test]
fn filter_even_and_collect() {
    let stream = DistributedStream::filter(source((0..=99).collect()), |x: &u64| x % 2 == 0);
    let mut got: Vec<u64> = DistributedStream::collect(stream, 3, 2);
    got.sort();
    let want: Vec<u64> = (0..50).map(|x| 2 * x).collect();
    assert_eq!(got, want);
}

#[test]
fn group_by_counts_words() {
    let words: Vec<&'static str> = vec!["a", "b", "a", "c", "a", "b"];
    let stream = DistributedStream::map(words.into_dist_stream(), |s: &'static str| (s, 1u64));
    let got: HashMap<&'static str, u64> = DistributedStream::group_by(
        stream,
        2,
        2,
        || 0u64,
        |acc: u64, e: Either<u64, u64>| {
            acc + match e {
                Either::Left(v) | Either::Right(v) => v,
            }
        },
    );
    let mut want = HashMap::new();
    want.insert("a", 3u64);
    want.insert("b", 2u64);
    want.insert("c", 1u64);
    assert_eq!(got, want);
}

#[test]
fn fold_sums_with_left_and_right() {
    let got: u64 = DistributedStream::fold(
        source((1..=100).collect()),
        3,
        3,
        || 0u64,
        |acc: u64, e: Either<u64, u64>| {
            acc + match e {
                Either::Left(v) | Either::Right(v) => v,
            }
        },
    );
    assert_eq!(got, 5050);
}

#[test]
fn sample_of_a_million() {
    let items: Vec<u64> = (0..1_000_000).collect();
    let reservoir = DistributedStream::sample_unstable(source(items), 4, 4, 1000);
    let mut got = sample_into_vec(reservoir);
    assert_eq!(got.len(), 1000);
    got.sort();
    got.dedup();
    assert_eq!(got.len(), 1000);
    assert!(got.iter().all(|x| *x < 1_000_000));
}

#[test]
fn sample_holds_no_item_more_often_than_the_stream() {
    let mut items: Vec<u64> = vec![7; 400];
    items.push(3);
    items.push(3);
    let reservoir = ParallelStream::sample_unstable(items.into_par_stream(), 4, 100);
    let got = sample_into_vec(reservoir);
    assert_eq!(got.len(), 100);
    assert!(got.iter().filter(|x| **x == 3).count() <= 2);
    assert!(got.iter().all(|x| *x == 3 || *x == 7));
}

#[test]
fn sample_of_a_million_is_spread_over_the_source() {
    let items: Vec<u64> = (0..1_000_000).collect();
    let reservoir = DistributedStream::sample_unstable(source(items), 4, 4, 1000);
    let got = sample_into_vec(reservoir);
    let mean = got.iter().map(|x| *x as f64).sum::<f64>() / got.len() as f64;
    assert!((mean - 499_999.5).abs() < 60_000.0, "mean {}", mean);
    let low = got.iter().filter(|x| **x < 500_000).count();
    assert!(350 < low && low < 650, "lower half {}", low);
}
