use amadeus_core::into_par_stream::IterParStream;
use amadeus_core::par_sink::sum::{SumReducer, SumReducerFactory};
use amadeus_core::par_stream::partition::partition;
use amadeus_core::par_stream::reduce::{dist_reduce, par_reduce};
use std::marker::PhantomData;

#[test]
fn partition_is_balanced() {
    for n in 0..40usize {
        for p in 1..9usize {
            let mut stream = IterParStream::new((0..n as u64).collect::<Vec<u64>>());
            let bins = partition(&mut stream, p);
            assert_eq!(bins.len(), p);
            let total: usize = bins.iter().map(Vec::len).sum();
            assert_eq!(total, n);
            let max = bins.iter().map(Vec::len).max().unwrap();
            let min = bins.iter().map(Vec::len).min().unwrap();
            assert!(max - min <= 1);
            for (i, bin) in bins.iter().enumerate() {
                assert_eq!(bin.len(), n / p + if i < n % p { 1 } else { 0 });
            }
        }
    }
}

#[test]
fn sum_one_million() {
    let stream = IterParStream::new((1..=1_000_000u64).collect::<Vec<u64>>());
    let a: SumReducerFactory<u64, u64> = SumReducerFactory(PhantomData);
    let b: SumReducerFactory<u64, u64> = SumReducerFactory(PhantomData);
    let c: SumReducer<u64, u64> = SumReducer(0, PhantomData);
    assert_eq!(dist_reduce(stream, 4, 4, &a, &b, c), 500_000_500_000);
}

#[test]
fn sum_on_threads() {
    let stream = IterParStream::new((0..1000u64).collect::<Vec<u64>>());
    let a: SumReducerFactory<u64, u64> = SumReducerFactory(PhantomData);
    let c: SumReducer<u64, u64> = SumReducer(0, PhantomData);
    assert_eq!(par_reduce(stream, 3, &a, c), 499_500);
}
