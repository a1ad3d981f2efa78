use amadeus_core::par_pipe::identity::Identity;
use amadeus_core::par_sink::any::{AnyReduceFactory, AnyReducer, BoolOrReducer};
use amadeus_core::par_sink::collect::{
    DefaultReduceFactory, ExtendReducer, IntoReducer, OptionReducer, PushReducer, ResultReducer,
    ResultReducerAsync,
};
use amadeus_core::par_sink::combine::{CombineFn, CombineReducer, Combiner};
use amadeus_core::par_sink::count::CountReducer;
use amadeus_core::par_sink::max::combine::{
    Compare, Max, MaxBy, MaxByKey, Min, MinBy, MinByKey, Natural, Reversed,
};
use amadeus_core::par_sink::reservoir::sample_into_vec;
use amadeus_core::par_sink::sample::{NonzeroReducer, SampleUnstableReduceFactory};
use amadeus_core::par_sink::sum::{SumReducer, SumReducerFactory};
use amadeus_core::par_sink::tuple::{ReduceA2Async, Sum2};
use amadeus_core::par_sink::{Factory, Reducer, ReducerAsync};
use amadeus_core::sink::{forward_all, Sink};
use amadeus_core::stream::{Once, Poll, Scripted, Stream};
use std::cmp::Ordering;
use std::collections::VecDeque;
use std::marker::PhantomData;

fn ready<T>(poll: Poll<T>) -> T {
    match poll {
        Poll::Ready(value) => value,
        Poll::Pending => panic!("pending"),
    }
}

#[test]
fn poll_answers_tell_what_they_are() {
    assert!(Poll::Ready(1u8).is_ready());
    assert!(!Poll::Ready(1u8).is_pending());
    assert!(Poll::<u8>::Pending.is_pending());
    assert!(!Poll::<u8>::Pending.is_ready());
}

#[test]
fn scripted_stream_plays_its_script() {
    let mut stream = Scripted::new(vec![Some(1u8), None, Some(2), None, None, Some(3)]);
    assert!(matches!(stream.poll_next(), Poll::Ready(Some(1))));
    assert!(matches!(stream.poll_next(), Poll::Pending));
    assert!(matches!(stream.poll_next(), Poll::Ready(Some(2))));
    assert!(matches!(stream.poll_next(), Poll::Pending));
    assert!(matches!(stream.poll_next(), Poll::Pending));
    assert!(matches!(stream.poll_next(), Poll::Ready(Some(3))));
    assert!(matches!(stream.poll_next(), Poll::Ready(None)));
    assert!(matches!(stream.poll_next(), Poll::Ready(None)));
}

#[test]
fn once_hands_out_one_item() {
    let mut stream = Once::new(7u8);
    assert!(matches!(stream.poll_next(), Poll::Ready(Some(7))));
    assert!(matches!(stream.poll_next(), Poll::Ready(None)));
    assert_eq!(stream.into_inner(), None);
    assert_eq!(Once::new(7u8).into_inner(), Some(7));
}

#[test]
fn sum_reducer_stops_at_a_stall_and_goes_on() {
    let mut reducer: SumReducer<u64, u64> = SumReducerFactory(PhantomData).make();
    let mut stream = Scripted::new(vec![Some(1u64), Some(2), None, Some(3), None, Some(4)]);
    assert!(reducer.poll_forward(&mut stream).is_pending());
    assert_eq!(reducer.0, 3);
    assert!(reducer.poll_forward(&mut stream).is_pending());
    assert_eq!(reducer.0, 6);
    assert!(reducer.poll_forward(&mut stream).is_ready());
    assert_eq!(reducer.0, 10);
    assert!(reducer.poll_forward(&mut stream).is_ready());
    assert_eq!(ready(reducer.poll_output()), 10);
}

#[test]
fn forward_all_polls_through_the_stalls() {
    let mut reducer: SumReducer<u64, u64> = SumReducer(0, PhantomData);
    let mut stream = Scripted::new(vec![None, Some(5u64), None, None, Some(6)]);
    forward_all(&mut reducer, &mut stream);
    assert_eq!(ready(reducer.poll_output()), 11);
}

#[test]
fn sum_of_no_items_is_zero() {
    let mut reducer: SumReducer<i64, i64> = SumReducerFactory(PhantomData).make();
    let mut stream = Scripted::of_items(Vec::<i64>::new());
    assert!(reducer.poll_forward(&mut stream).is_ready());
    assert_eq!(ready(reducer.poll_output()), 0);
}

#[test]
fn sum_of_signed_numbers() {
    let mut reducer: SumReducer<i32, i32> = SumReducer(0, PhantomData);
    let mut stream = Scripted::of_items(vec![5, -7, 3]);
    forward_all(&mut reducer, &mut stream);
    assert_eq!(ready(reducer.into_async().poll_output()), 1);
}

#[test]
fn count_reducer_counts() {
    let mut reducer: CountReducer<&'static str> = CountReducer(0, PhantomData);
    let mut stream = Scripted::of_items(vec!["a", "b", "c"]);
    forward_all(&mut reducer, &mut stream);
    assert_eq!(ready(reducer.poll_output()), 3);
}

#[test]
fn any_reducer_decides_and_then_leaves_the_stream_alone() {
    let mut reducer = AnyReduceFactory(|x: u64| x > 2, PhantomData).make();
    let mut stream = Scripted::of_items(vec![1u64, 2, 3, 4, 5]);
    assert!(reducer.accepting());
    assert!(reducer.poll_forward(&mut stream).is_ready());
    assert!(!reducer.accepting());
    // the items after the one that decided are still in the stream
    assert_eq!(stream.reversed.len(), 2);
    for _ in 0..3 {
        assert!(reducer.poll_forward(&mut stream).is_ready());
        assert_eq!(stream.reversed.len(), 2);
    }
    assert_eq!(ready(reducer.poll_output()), true);
}

#[test]
fn any_reducer_on_nothing_is_false() {
    let mut reducer: AnyReducer<u64, _> = AnyReducer(|x: u64| x > 2, true, PhantomData);
    let mut stream = Scripted::of_items(vec![1u64, 2]);
    assert!(reducer.poll_forward(&mut stream).is_ready());
    assert_eq!(ready(reducer.poll_output()), false);
}

#[test]
fn bool_or_reducer_short_cuts() {
    let mut reducer = BoolOrReducer(true);
    let mut stream = Scripted::of_items(vec![false, true, false]);
    assert!(reducer.poll_forward(&mut stream).is_ready());
    assert_eq!(stream.reversed.len(), 1);
    assert!(reducer.poll_forward(&mut stream).is_ready());
    assert_eq!(stream.reversed.len(), 1);
    assert_eq!(ready(reducer.poll_output()), true);
}

#[test]
fn combine_reducer_combines_in_order() {
    let mut reducer: CombineReducer<String, String, _> =
        CombineReducer(None, CombineFn(|a: String, b: String| a + &b), PhantomData);
    let mut stream =
        Scripted::of_items(vec!["a".to_string(), "b".to_string(), "c".to_string()]);
    forward_all(&mut reducer, &mut stream);
    assert_eq!(ready(reducer.poll_output()), Some("abc".to_string()));
}

#[test]
fn combine_reducer_of_outputs_skips_nothing_held() {
    let mut reducer: CombineReducer<Option<u64>, u64, _> =
        CombineReducer(None, CombineFn(|a: u64, b: u64| a * 10 + b), PhantomData);
    let mut stream = Scripted::of_items(vec![None, Some(1u64), None, Some(2), Some(3)]);
    forward_all(&mut reducer, &mut stream);
    assert_eq!(ready(reducer.poll_output()), Some(123));
}

#[test]
fn combine_reducer_of_nothing_is_none() {
    let mut reducer: CombineReducer<u64, u64, _> =
        CombineReducer(None, CombineFn(|a: u64, b: u64| a + b), PhantomData);
    let mut stream = Scripted::of_items(Vec::new());
    forward_all(&mut reducer, &mut stream);
    assert_eq!(ready(reducer.poll_output()), None);
}

#[derive(Clone, Copy)]
struct ByFirst;

impl Compare<(u8, char)> for ByFirst {
    fn admits(&self, _a: (u8, char), _b: (u8, char)) -> bool {
        true
    }
    fn compares(&self, a: (u8, char), b: (u8, char), o: Ordering) -> bool {
        a.0.cmp(&b.0) == o
    }
    fn compare(&self, a: &(u8, char), b: &(u8, char)) -> Ordering {
        a.0.cmp(&b.0)
    }
}

#[test]
fn max_prefers_the_later_of_equals() {
    assert_eq!(Max.combine(5u64, 5u64), 5);
    assert_eq!(Max.combine(3u64, 9u64), 9);
    assert_eq!(Max.combine(9u64, 3u64), 9);
    assert_eq!(MaxBy(ByFirst).combine((5, 'a'), (5, 'b')), (5, 'b'));
    assert_eq!(MaxBy(ByFirst).combine((6, 'a'), (5, 'b')), (6, 'a'));
    assert_eq!(MaxBy(ByFirst).combine((4, 'a'), (5, 'b')), (5, 'b'));
    let mut by_key = MaxByKey(|x: &(u8, char)| x.0, PhantomData);
    assert_eq!(by_key.combine((5, 'a'), (5, 'b')), (5, 'b'));
    assert_eq!(by_key.combine((6, 'a'), (5, 'b')), (6, 'a'));
    assert_eq!(by_key.clone().combine((4, 'a'), (5, 'b')), (5, 'b'));
}

#[test]
fn min_prefers_the_earlier_of_equals() {
    assert_eq!(Min.combine(5u64, 5u64), 5);
    assert_eq!(Min.combine(3u64, 9u64), 3);
    assert_eq!(Min.combine(9u64, 3u64), 3);
    assert_eq!(MinBy(ByFirst).combine((5, 'a'), (5, 'b')), (5, 'a'));
    assert_eq!(MinBy(ByFirst).combine((6, 'a'), (5, 'b')), (5, 'b'));
    assert_eq!(MinBy(ByFirst).combine((4, 'a'), (5, 'b')), (4, 'a'));
    let mut by_key = MinByKey(|x: &(u8, char)| x.0, PhantomData);
    assert_eq!(by_key.combine((5, 'a'), (5, 'b')), (5, 'a'));
    assert_eq!(by_key.combine((6, 'a'), (5, 'b')), (5, 'b'));
    assert_eq!(by_key.clone().combine((4, 'a'), (5, 'b')), (4, 'a'));
}

#[test]
fn push_reducer_appends() {
    let mut reducer: PushReducer<u8, Vec<u8>> = PushReducer::new(vec![9]);
    let mut stream = Scripted::of_items(vec![1u8, 2, 3]);
    forward_all(&mut reducer, &mut stream);
    assert_eq!(ready(reducer.poll_output()), vec![9, 1, 2, 3]);
}

#[test]
fn push_reducer_builds_strings() {
    let mut chars: PushReducer<char, String> = PushReducer::default();
    let mut stream = Scripted::of_items(vec!['h', 'é', 'y']);
    forward_all(&mut chars, &mut stream);
    assert_eq!(ready(chars.poll_output()), "héy");
    let mut strings: PushReducer<String, String> = PushReducer::new("x".to_string());
    let mut stream = Scripted::of_items(vec!["ab".to_string(), "".to_string(), "c".to_string()]);
    forward_all(&mut strings, &mut stream);
    assert_eq!(ready(strings.poll_output()), "xabc");
}

#[test]
fn push_reducer_replaces_equal_keys() {
    let mut set: PushReducer<u8, std::collections::HashSet<u8>> = PushReducer::default();
    let mut stream = Scripted::of_items(vec![1u8, 2, 1]);
    forward_all(&mut set, &mut stream);
    assert_eq!(ready(set.poll_output()).len(), 2);
    let mut map: PushReducer<(u8, char), std::collections::HashMap<u8, char>> =
        PushReducer::default();
    let mut stream = Scripted::of_items(vec![(1u8, 'a'), (2, 'b'), (1, 'c')]);
    forward_all(&mut map, &mut stream);
    let got = ready(map.poll_output());
    assert_eq!(got.len(), 2);
    assert_eq!(got[&1], 'c');
}

#[test]
fn extend_reducer_concatenates() {
    let mut reducer: ExtendReducer<Vec<u8>, Vec<u8>> = ExtendReducer::default();
    let mut stream = Scripted::of_items(vec![vec![1u8, 2], vec![], vec![3]]);
    forward_all(&mut reducer, &mut stream);
    assert_eq!(ready(reducer.poll_output()), vec![1, 2, 3]);
}

#[test]
fn into_reducer_converts_the_output() {
    let mut reducer: IntoReducer<ExtendReducer<Vec<u8>, Vec<u8>>, VecDeque<u8>> =
        IntoReducer::default();
    let mut stream = Scripted::of_items(vec![vec![1u8, 2], vec![3]]);
    forward_all(&mut reducer, &mut stream);
    assert_eq!(ready(reducer.poll_output()), VecDeque::from(vec![1u8, 2, 3]));
}

#[test]
fn option_reducer_ends_in_none_at_the_first_none() {
    let mut reducer: OptionReducer<PushReducer<u8, Vec<u8>>> = OptionReducer::default();
    let mut stream = Scripted::of_items(vec![Some(1u8), Some(2), None, Some(3)]);
    assert!(reducer.poll_forward(&mut stream).is_ready());
    assert_eq!(stream.reversed.len(), 1);
    assert_eq!(ready(reducer.poll_output()), None);
    let mut reducer: OptionReducer<PushReducer<u8, Vec<u8>>> = OptionReducer::default();
    let mut stream = Scripted::of_items(vec![Some(1u8), Some(2)]);
    forward_all(&mut reducer, &mut stream);
    assert_eq!(ready(reducer.poll_output()), Some(vec![1, 2]));
}

#[test]
fn result_reducer_ends_in_the_first_error() {
    let reducer: ResultReducer<PushReducer<u8, Vec<u8>>, &'static str> = ResultReducer::default();
    let mut reducer = reducer.into_async();
    let mut stream = Scripted::of_items(vec![Ok(1u8), Err("bad"), Ok(2), Err("worse")]);
    assert!(reducer.poll_forward(&mut stream).is_ready());
    assert_eq!(stream.reversed.len(), 2);
    assert!(matches!(reducer, ResultReducerAsync::Failed(Some("bad"))));
    assert_eq!(ready(reducer.poll_output()), Err("bad"));
    let reducer: ResultReducer<PushReducer<u8, Vec<u8>>, &'static str> = ResultReducer::default();
    let mut reducer = reducer.into_async();
    let mut stream = Scripted::of_items(vec![Ok(1u8), Ok(2)]);
    forward_all(&mut reducer, &mut stream);
    assert_eq!(ready(reducer.poll_output()), Ok(vec![1, 2]));
}

#[test]
fn default_reduce_factory_makes_defaults() {
    let factory: DefaultReduceFactory<PushReducer<u8, Vec<u8>>> = DefaultReduceFactory::new();
    let mut reducer = factory.clone().make();
    assert_eq!(ready(reducer.poll_output()), Vec::<u8>::new());
    let factory: DefaultReduceFactory<PushReducer<u8, Vec<u8>>> = Default::default();
    assert_eq!(factory.make().0, Some(Vec::new()));
}

#[test]
fn sample_reducer_keeps_everything_while_there_is_room() {
    let mut reducer = SampleUnstableReduceFactory::<u64>(10, PhantomData).clone().make();
    let mut stream = Scripted::of_items(vec![4u64, 8, 15, 16, 23]);
    forward_all(&mut reducer, &mut stream);
    assert_eq!(sample_into_vec(ready(reducer.poll_output())), vec![4, 8, 15, 16, 23]);
}

#[test]
fn sample_reducer_keeps_as_many_as_it_was_made_for() {
    let mut reducer = SampleUnstableReduceFactory::<u64>(3, PhantomData).make();
    let mut stream = Scripted::of_items((0..100u64).collect());
    forward_all(&mut reducer, &mut stream);
    let mut got = sample_into_vec(ready(reducer.poll_output()));
    assert_eq!(got.len(), 3);
    got.sort();
    got.dedup();
    assert_eq!(got.len(), 3);
    assert!(got.iter().all(|x| *x < 100));
}

#[test]
fn nonzero_reducer_takes_the_value_out() {
    let inner: CombineReducer<u64, u64, _> =
        CombineReducer(None, CombineFn(|a: u64, b: u64| a + b), PhantomData);
    let mut reducer = NonzeroReducer(inner);
    let mut stream = Scripted::of_items(vec![1u64, 2, 3]);
    forward_all(&mut reducer, &mut stream);
    assert_eq!(ready(reducer.poll_output()), 6);
}

#[test]
fn pair_of_reducers_hands_each_side_its_items() {
    let a: PushReducer<u8, Vec<u8>> = PushReducer::default();
    let b: PushReducer<char, String> = PushReducer::default();
    let mut pair = ReduceA2Async { a, b };
    let mut stream = Scripted::of_items(vec![
        Sum2::B('x'),
        Sum2::A(1u8),
        Sum2::B('y'),
        Sum2::A(2),
    ]);
    forward_all(&mut pair, &mut stream);
    assert_eq!(ready(pair.poll_output()), (vec![1, 2], "xy".to_string()));
}

#[test]
fn identity_is_a_unit_value() {
    let _pipe = Identity;
}

#[test]
fn values_compare_by_their_own_order_and_the_other_way_round() {
    assert_eq!(Natural.compare(&1u8, &2u8), Ordering::Less);
    assert_eq!(Natural.compare(&2u8, &2u8), Ordering::Equal);
    assert_eq!(Natural.compare(&3u8, &2u8), Ordering::Greater);
    assert_eq!(Reversed(Natural).compare(&1u8, &2u8), Ordering::Greater);
    assert_eq!(Reversed(Natural).compare(&2u8, &2u8), Ordering::Equal);
    assert_eq!(Reversed(Natural).compare(&3u8, &2u8), Ordering::Less);
    assert_eq!(Reversed(Reversed(ByFirst)).compare(&(1, 'a'), &(2, 'a')), Ordering::Less);
    assert_eq!(MaxBy(Natural).combine(3u64, 9u64), 9);
    assert_eq!(MaxBy(Reversed(Natural)).combine(3u64, 9u64), 3);
    assert_eq!(MinBy(Reversed(Natural)).combine(3u64, 9u64), 9);
    assert_eq!(MaxBy(Reversed(ByFirst)).combine((5, 'a'), (5, 'b')), (5, 'b'));
    assert_eq!(MinBy(Reversed(ByFirst)).combine((5, 'a'), (5, 'b')), (5, 'a'));
}
