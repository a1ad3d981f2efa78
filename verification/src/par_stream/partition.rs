//! Dealing tasks to workers: every task goes to exactly one bin, the order
//! of the tasks is kept inside each bin, and in the end the sizes of the bins
//! differ by at most one.

use vstd::prelude::*;
use vstd::arithmetic::div_mod::{
    lemma_fundamental_div_mod, lemma_fundamental_div_mod_converse, lemma_mod_bound,
};

verus! {

/// The number of tasks that bin `i` holds when `n` tasks are dealt evenly to
/// `bins` bins: the first `n % bins` bins hold one more than the others.
pub open spec fn share(n: int, bins: int, i: int) -> int {
    n / bins + if i < n % bins {
        1int
    } else {
        0int
    }
}

/// The shares of the first `k` bins together.
pub open spec fn shares_sum(n: int, bins: int, k: int) -> int
    decreases k,
{
    if k <= 0 {
        0
    } else {
        shares_sum(n, bins, k - 1) + share(n, bins, k - 1)
    }
}

/// The sizes of the first `k` bins together.
pub open spec fn sizes_sum<T>(bins: Seq<Seq<T>>, k: int) -> int
    decreases k,
{
    if k <= 0 {
        0
    } else {
        sizes_sum(bins, k - 1) + bins[k - 1].len()
    }
}

/// Whether `task` lies on top of bin `j`.
pub open spec fn on_top<T>(bins: Seq<Seq<T>>, j: int, task: T) -> bool {
    0 <= j < bins.len() && bins[j].len() > 0 && bins[j].last() == task
}

/// Whether `bins` is a dealing of `tasks`: taking the tasks back from last to
/// first, each one lies on top of some bin, and in the end every bin is empty.
/// So every task is in exactly one bin, and each bin keeps the tasks' order.
pub open spec fn dealt<T>(tasks: Seq<T>, bins: Seq<Seq<T>>) -> bool
    decreases tasks.len(),
{
    if tasks.len() == 0 {
        forall|i: int| 0 <= i < bins.len() ==> (#[trigger] bins[i]).len() == 0
    } else {
        exists|j: int| #[trigger]
            on_top(bins, j, tasks.last()) && dealt(
                tasks.drop_last(),
                bins.update(j, bins[j].drop_last()),
            )
    }
}

/// One task more moves the share of exactly one bin, the bin `n % bins`, up by
/// one.
pub proof fn lemma_share_step(n: int, bins: int, i: int)
    requires
        0 <= n,
        0 < bins,
        0 <= i < bins,
    ensures
        share(n + 1, bins, i) == share(n, bins, i) + if i == n % bins {
            1int
        } else {
            0int
        },
{
    let q = n / bins;
    let r = n % bins;
    lemma_fundamental_div_mod(n, bins);
    lemma_mod_bound(n, bins);
    assert(n == bins * q + r);
    if r + 1 < bins {
        assert(n + 1 == q * bins + (r + 1)) by (nonlinear_arith)
            requires
                n == bins * q + r,
        ;
        lemma_fundamental_div_mod_converse(n + 1, bins, q, r + 1);
    } else {
        assert(n + 1 == (q + 1) * bins + 0) by (nonlinear_arith)
            requires
                n == bins * q + r,
                r + 1 == bins,
        ;
        lemma_fundamental_div_mod_converse(n + 1, bins, q + 1, 0);
    }
}

/// No tasks, empty shares.
pub proof fn lemma_share_zero(bins: int, i: int)
    requires
        0 < bins,
        0 <= i,
    ensures
        share(0, bins, i) == 0,
{
    lemma_fundamental_div_mod_converse(0, bins, 0, 0);
}

/// More tasks never shrink a share.
pub proof fn lemma_share_monotone(n: int, m: int, bins: int, i: int)
    requires
        0 <= n <= m,
        0 < bins,
        0 <= i < bins,
    ensures
        share(n, bins, i) <= share(m, bins, i),
    decreases m - n,
{
    if n < m {
        lemma_share_monotone(n, m - 1, bins, i);
        lemma_share_step(m - 1, bins, i);
    }
}

/// One task more adds one to the shares of the first `k` bins together if the
/// bin that gains is among them.
proof fn lemma_shares_sum_step(n: int, bins: int, k: int)
    requires
        0 <= n,
        0 < bins,
        0 <= k <= bins,
    ensures
        shares_sum(n + 1, bins, k) == shares_sum(n, bins, k) + if n % bins < k {
            1int
        } else {
            0int
        },
    decreases k,
{
    lemma_mod_bound(n, bins);
    if k > 0 {
        lemma_shares_sum_step(n, bins, k - 1);
        lemma_share_step(n, bins, k - 1);
    }
}

/// The shares of all bins add up to the number of tasks.
pub proof fn lemma_shares_sum_all(n: int, bins: int)
    requires
        0 <= n,
        0 < bins,
    ensures
        shares_sum(n, bins, bins) == n,
    decreases n,
{
    if n == 0 {
        lemma_shares_sum_zero(bins, bins);
    } else {
        lemma_shares_sum_all(n - 1, bins);
        lemma_shares_sum_step(n - 1, bins, bins);
        lemma_mod_bound(n - 1, bins);
    }
}

proof fn lemma_shares_sum_zero(bins: int, k: int)
    requires
        0 < bins,
        0 <= k,
    ensures
        shares_sum(0, bins, k) == 0,
    decreases k,
{
    if k > 0 {
        lemma_shares_sum_zero(bins, k - 1);
        lemma_share_zero(bins, k - 1);
    }
}

/// Any two shares differ by at most one.
pub proof fn lemma_shares_balanced(n: int, bins: int, i: int, j: int)
    requires
        0 <= n,
        0 < bins,
    ensures
        share(n, bins, i) <= share(n, bins, j) + 1,
{
}

/// Bins that stay within their shares and hold all the tasks hold exactly
/// their shares.
proof fn lemma_sizes_are_shares<T>(sizes: Seq<Seq<T>>, n: int, k: int)
    requires
        0 <= n,
        0 < sizes.len(),
        0 <= k <= sizes.len(),
        forall|i: int| 0 <= i < sizes.len() ==> (#[trigger] sizes[i]).len() <= share(n, sizes.len() as int, i),
    ensures
        sizes_sum(sizes, k) <= shares_sum(n, sizes.len() as int, k),
        sizes_sum(sizes, k) == shares_sum(n, sizes.len() as int, k) ==> forall|i: int|
            0 <= i < k ==> (#[trigger] sizes[i]).len() == share(n, sizes.len() as int, i),
    decreases k,
{
    if k > 0 {
        lemma_sizes_are_shares(sizes, n, k - 1);
        let _ = sizes[k - 1];
    }
}

/// Bins that have all reached their shares of `m` tasks hold at least `m`
/// tasks.
proof fn lemma_sizes_reach<T>(sizes: Seq<Seq<T>>, m: int, k: int)
    requires
        0 <= m,
        0 < sizes.len(),
        0 <= k <= sizes.len(),
        forall|i: int| 0 <= i < sizes.len() ==> (#[trigger] sizes[i]).len() >= share(m, sizes.len() as int, i),
    ensures
        sizes_sum(sizes, k) >= shares_sum(m, sizes.len() as int, k),
    decreases k,
{
    if k > 0 {
        lemma_sizes_reach(sizes, m, k - 1);
        let _ = sizes[k - 1];
    }
}

/// Putting a task on bin `i` adds one to the sizes of the first `k` bins
/// together if bin `i` is among them.
proof fn lemma_sizes_sum_push<T>(bins: Seq<Seq<T>>, i: int, task: T, k: int)
    requires
        0 <= i < bins.len(),
        0 <= k <= bins.len(),
    ensures
        sizes_sum(bins.update(i, bins[i].push(task)), k) == sizes_sum(bins, k) + if i < k {
            1int
        } else {
            0int
        },
    decreases k,
{
    if k > 0 {
        lemma_sizes_sum_push(bins, i, task, k - 1);
    }
}

proof fn lemma_sizes_sum_empty<T>(bins: Seq<Seq<T>>, k: int)
    requires
        0 <= k <= bins.len(),
        forall|i: int| 0 <= i < bins.len() ==> (#[trigger] bins[i]).len() == 0,
    ensures
        sizes_sum(bins, k) == 0,
    decreases k,
{
    if k > 0 {
        lemma_sizes_sum_empty(bins, k - 1);
        let _ = bins[k - 1];
    }
}

/// Putting the next task on a bin keeps a dealing a dealing.
pub proof fn lemma_dealt_push<T>(tasks: Seq<T>, bins: Seq<Seq<T>>, i: int, task: T)
    requires
        dealt(tasks, bins),
        0 <= i < bins.len(),
    ensures
        dealt(tasks.push(task), bins.update(i, bins[i].push(task))),
{
    let more = tasks.push(task);
    let after = bins.update(i, bins[i].push(task));
    assert(more.drop_last() =~= tasks);
    assert(after[i].drop_last() =~= bins[i]);
    assert(after.update(i, after[i].drop_last()) =~= bins);
    assert(on_top(after, i, more.last()));
}

/// A dealing holds as many tasks as were dealt.
pub proof fn lemma_dealt_sizes<T>(tasks: Seq<T>, bins: Seq<Seq<T>>)
    requires
        dealt(tasks, bins),
    ensures
        sizes_sum(bins, bins.len() as int) == tasks.len(),
    decreases tasks.len(),
{
    if tasks.len() == 0 {
        lemma_sizes_sum_empty(bins, bins.len() as int);
    } else {
        let j = choose|j: int| #[trigger]
            on_top(bins, j, tasks.last()) && dealt(
                tasks.drop_last(),
                bins.update(j, bins[j].drop_last()),
            );
        let before = bins.update(j, bins[j].drop_last());
        lemma_dealt_sizes(tasks.drop_last(), before);
        lemma_sizes_sum_push(before, j, tasks.last(), bins.len() as int);
        assert(before[j].push(tasks.last()) =~= bins[j]);
        assert(before.update(j, before[j].push(tasks.last())) =~= bins);
    }
}

/// `bins` with `f` put on every task.
pub open spec fn bins_map<T, U>(bins: Seq<Seq<T>>, f: spec_fn(T) -> U) -> Seq<Seq<U>> {
    bins.map_values(|bin: Seq<T>| bin.map_values(f))
}

/// A dealing stays a dealing when every task is changed in the same way.
pub proof fn lemma_dealt_map<T, U>(tasks: Seq<T>, bins: Seq<Seq<T>>, f: spec_fn(T) -> U)
    requires
        dealt(tasks, bins),
    ensures
        dealt(tasks.map_values(f), bins_map(bins, f)),
    decreases tasks.len(),
{
    let tasks_f = tasks.map_values(f);
    let bins_f = bins_map(bins, f);
    if tasks.len() == 0 {
        assert forall|i: int| 0 <= i < bins_f.len() implies (#[trigger] bins_f[i]).len() == 0 by {
            assert(bins[i].len() == 0);
        }
    } else {
        let j = choose|j: int| #[trigger]
            on_top(bins, j, tasks.last()) && dealt(
                tasks.drop_last(),
                bins.update(j, bins[j].drop_last()),
            );
        let before = bins.update(j, bins[j].drop_last());
        lemma_dealt_map(tasks.drop_last(), before, f);
        assert(tasks_f.drop_last() =~= tasks.drop_last().map_values(f));
        assert(bins_f[j].drop_last() =~= bins[j].drop_last().map_values(f));
        assert(bins_f.update(j, bins_f[j].drop_last()) =~= bins_map(before, f));
        assert(on_top(bins_f, j, tasks_f.last()));
    }
}

/// Every task in a bin of a dealing is one of the tasks that were dealt.
pub proof fn lemma_dealt_member<T>(tasks: Seq<T>, bins: Seq<Seq<T>>, i: int, k: int) -> (m: int)
    requires
        dealt(tasks, bins),
        0 <= i < bins.len(),
        0 <= k < bins[i].len(),
    ensures
        0 <= m < tasks.len(),
        tasks[m] == bins[i][k],
    decreases tasks.len(),
{
    if tasks.len() == 0 {
        let _ = bins[i];
        0
    } else {
        let j = choose|j: int| #[trigger]
            on_top(bins, j, tasks.last()) && dealt(
                tasks.drop_last(),
                bins.update(j, bins[j].drop_last()),
            );
        if i == j && k == bins[j].len() - 1 {
            tasks.len() - 1
        } else {
            let before = bins.update(j, bins[j].drop_last());
            lemma_dealt_member(tasks.drop_last(), before, i, k)
        }
    }
}

/// No share is more than the number of tasks.
pub proof fn lemma_share_at_most(n: int, bins: int, i: int)
    requires
        0 <= n,
        0 < bins,
        0 <= i < bins,
    ensures
        0 <= share(n, bins, i) <= n,
    decreases n,
{
    if n == 0 {
        lemma_share_zero(bins, i);
    } else {
        lemma_share_at_most(n - 1, bins, i);
        lemma_share_step(n - 1, bins, i);
    }
}

/// The bins as sequences.
pub open spec fn bins_view<T>(bins: Vec<Vec<T>>) -> Seq<Seq<T>> {
    bins@.map_values(|bin: Vec<T>| bin@)
}

/// How many tasks bin `i` of `bins` should hold once `allocated` tasks have
/// been dealt and at least `lower` more are expected.
fn target(allocated: usize, lower: usize, bins: usize, i: usize) -> (t: usize)
    requires
        0 < bins,
        i < bins,
        allocated + lower <= usize::MAX,
    ensures
        t == share(allocated + lower, bins as int, i as int),
{
    let expected = allocated + lower;
    let mut t = expected / bins;
    proof {
        vstd::arithmetic::div_mod::lemma_div_is_ordered_by_denominator(
            expected as int,
            1,
            bins as int,
        );
        vstd::arithmetic::div_mod::lemma_div_basics(expected as int);
    }
    if i < expected % bins {
        proof {
            lemma_fundamental_div_mod(expected as int, bins as int);
            lemma_mod_bound(expected as int, bins as int);
            assert(t < expected) by (nonlinear_arith)
                requires
                    expected == bins * t + (expected % bins) as int,
                    0 <= i < (expected % bins) as int,
                    t >= 0,
                    bins >= 1,
            ;
        }
        t = t + 1;
    }
    t
}

/// Deals all the tasks of `stream` to `bins` bins.
///
/// Bin by bin, in turns, each bin is filled up to its even share of the tasks
/// dealt so far plus the stream's lower bound on the tasks still to come
/// (taken as one where the stream reports zero). The result is a dealing of
/// the stream's tasks in which bin `i` holds its even share of all of them.
pub fn partition<S: crate::par_stream::TaskStream>(stream: &mut S, bins: usize) -> (dealing: Vec<
    Vec<S::Task>,
>)
    requires
        old(stream).inv(),
        0 < bins,
        old(stream).tasks().len() < usize::MAX,
    ensures
        final(stream).inv(),
        final(stream).tasks().len() == 0,
        dealing.len() == bins,
        dealt(old(stream).tasks(), bins_view(dealing)),
        forall|i: int|
            0 <= i < bins ==> (#[trigger] dealing[i]).len() == share(
                old(stream).tasks().len() as int,
                bins as int,
                i,
            ),
        forall|i: int, j: int|
            0 <= i < bins && 0 <= j < bins ==> (#[trigger] dealing[i]).len() <= (
            #[trigger] dealing[j]).len() + 1,
        sizes_sum(bins_view(dealing), bins as int) == old(stream).tasks().len(),
{
    let ghost all = old(stream).tasks();
    let mut dealing: Vec<Vec<S::Task>> = Vec::new();
    while dealing.len() < bins
        invariant
            dealing.len() <= bins,
            forall|i: int| 0 <= i < dealing.len() ==> (#[trigger] dealing[i]).len() == 0,
        decreases bins - dealing.len(),
    {
        dealing.push(Vec::new());
    }
    let mut allocated: usize = 0;
    let mut done = false;
    proof {
        assert(all.take(0) =~= Seq::<S::Task>::empty());
        assert(all.skip(0) =~= all);
        assert forall|i: int| 0 <= i < bins implies (#[trigger] dealing[i]).len() <= share(
            all.len() as int,
            bins as int,
            i,
        ) by {
            lemma_share_zero(bins as int, i);
            lemma_share_monotone(0, all.len() as int, bins as int, i);
        }
        assert forall|i: int| 0 <= i < bins_view(dealing).len() implies (#[trigger] bins_view(
            dealing,
        )[i]).len() == 0 by {
            assert(bins_view(dealing)[i] == dealing[i]@);
        }
    }
    while !done
        invariant
            stream.inv(),
            0 < bins,
            all == old(stream).tasks(),
            all.len() < usize::MAX,
            dealing.len() == bins,
            allocated <= all.len(),
            stream.tasks() == all.skip(allocated as int),
            dealt(all.take(allocated as int), bins_view(dealing)),
            forall|i: int|
                0 <= i < bins ==> (#[trigger] dealing[i]).len() <= share(
                    all.len() as int,
                    bins as int,
                    i,
                ),
            done ==> allocated == all.len(),
        decreases all.len() - allocated, if done { 0int } else { 1int },
    {
        let ghost round_start = allocated;
        let mut i: usize = 0;
        while i < bins && !done
            invariant
                stream.inv(),
                0 < bins,
                i <= bins,
                all.len() < usize::MAX,
                dealing.len() == bins,
                round_start <= allocated <= all.len(),
                stream.tasks() == all.skip(allocated as int),
                dealt(all.take(allocated as int), bins_view(dealing)),
                forall|j: int|
                    0 <= j < bins ==> (#[trigger] dealing[j]).len() <= share(
                        all.len() as int,
                        bins as int,
                        j,
                    ),
                done ==> allocated == all.len(),
                !done && allocated == round_start ==> forall|j: int|
                    0 <= j < i ==> (#[trigger] dealing[j]).len() >= share(
                        round_start + lower_of(stream.hint().0),
                        bins as int,
                        j,
                    ),
            decreases bins - i, if done { 0int } else { 1int },
        {
            loop
                invariant_except_break
                    !done,
                    allocated == round_start ==> forall|j: int|
                        0 <= j < i ==> (#[trigger] dealing[j]).len() >= share(
                            round_start + lower_of(stream.hint().0),
                            bins as int,
                            j,
                        ),
                invariant
                    stream.inv(),
                    0 < bins,
                    i < bins,
                    all.len() < usize::MAX,
                    dealing.len() == bins,
                    round_start <= allocated <= all.len(),
                    stream.tasks() == all.skip(allocated as int),
                    dealt(all.take(allocated as int), bins_view(dealing)),
                    forall|j: int|
                        0 <= j < bins ==> (#[trigger] dealing[j]).len() <= share(
                            all.len() as int,
                            bins as int,
                            j,
                        ),
                    done ==> allocated == all.len(),
                ensures
                    stream.inv(),
                    dealing.len() == bins,
                    round_start <= allocated <= all.len(),
                    stream.tasks() == all.skip(allocated as int),
                    dealt(all.take(allocated as int), bins_view(dealing)),
                    forall|j: int|
                        0 <= j < bins ==> (#[trigger] dealing[j]).len() <= share(
                            all.len() as int,
                            bins as int,
                            j,
                        ),
                    done ==> allocated == all.len(),
                    !done && allocated == round_start ==> forall|j: int|
                        0 <= j < i + 1 ==> (#[trigger] dealing[j]).len() >= share(
                            round_start + lower_of(stream.hint().0),
                            bins as int,
                            j,
                        ),
                decreases all.len() - allocated,
            {
                let (hint, _upper) = stream.size_hint();
                let lower: usize = if hint == 0 {
                    1
                } else {
                    hint
                };
                let aim = target(allocated, lower, bins, i);
                let len = dealing[i].len();
                if aim <= len {
                    break ;
                }
                let batch = aim - len;
                let ghost pass_start = allocated;
                let mut k: usize = 0;
                proof {
                    if stream.tasks().len() > 0 {
                        lemma_share_monotone(
                            allocated + lower,
                            all.len() as int,
                            bins as int,
                            i as int,
                        );
                    }
                }
                while k < batch
                    invariant
                        stream.inv(),
                        0 < bins,
                        i < bins,
                        all.len() < usize::MAX,
                        dealing.len() == bins,
                        round_start <= allocated <= all.len(),
                        stream.tasks() == all.skip(allocated as int),
                        dealt(all.take(allocated as int), bins_view(dealing)),
                        forall|j: int|
                            0 <= j < bins ==> (#[trigger] dealing[j]).len() <= share(
                                all.len() as int,
                                bins as int,
                                j,
                            ),
                        done ==> allocated == all.len(),
                        k <= batch,
                        !done ==> dealing[i as int].len() + (batch - k) == aim,
                        !done && (k > 0 || stream.tasks().len() > 0) ==> aim <= share(
                            all.len() as int,
                            bins as int,
                            i as int,
                        ),
                        round_start <= pass_start <= allocated,
                        !done && k > 0 ==> allocated > pass_start,
                    ensures
                        done || k >= batch,
                    decreases batch - k, if done { 0int } else { 1int },
                {
                    match stream.next_task() {
                        Some(task) => {
                            let ghost before = bins_view(dealing);
                            let ghost bin_before = dealing[i as int]@;
                            dealing[i].push(task);
                            proof {
                                assert(all.skip(allocated as int)[0] == all[allocated as int]);
                                assert(all.take(allocated as int + 1) =~= all.take(
                                    allocated as int,
                                ).push(task));
                                assert(all.skip(allocated as int).drop_first() =~= all.skip(
                                    allocated as int + 1,
                                ));
                                assert(bins_view(dealing) =~= before.update(
                                    i as int,
                                    before[i as int].push(task),
                                ));
                                lemma_dealt_push(
                                    all.take(allocated as int),
                                    before,
                                    i as int,
                                    task,
                                );
                            }
                            allocated = allocated + 1;
                        },
                        None => {
                            done = true;
                            break ;
                        },
                    }
                    k = k + 1;
                }
                if done {
                    break ;
                }
            }
            i = i + 1;
        }
        proof {
            if !done && allocated == round_start {
                let sizes = bins_view(dealing);
                let aim = round_start + lower_of(stream.hint().0);
                assert forall|j: int| 0 <= j < sizes.len() implies (#[trigger] sizes[j]).len()
                    >= share(aim, sizes.len() as int, j) by {
                    assert(sizes[j] == dealing[j]@);
                }
                lemma_sizes_reach(sizes, aim, bins as int);
                lemma_shares_sum_all(aim, bins as int);
                lemma_dealt_sizes(all.take(allocated as int), sizes);
                assert(false);
            }
        }
    }
    proof {
        let sizes = bins_view(dealing);
        assert(all.take(all.len() as int) =~= all);
        assert forall|j: int| 0 <= j < sizes.len() implies (#[trigger] sizes[j]).len() <= share(
            all.len() as int,
            sizes.len() as int,
            j,
        ) by {
            assert(sizes[j] == dealing[j]@);
        }
        lemma_sizes_are_shares(sizes, all.len() as int, bins as int);
        lemma_shares_sum_all(all.len() as int, bins as int);
        lemma_dealt_sizes(all, sizes);
        assert forall|i: int| 0 <= i < bins implies (#[trigger] dealing[i]).len() == share(
            all.len() as int,
            bins as int,
            i,
        ) by {
            assert(sizes[i] == dealing[i]@);
        }
    }
    dealing
}

/// The lower bound that the dealing works with: a reported zero counts as one.
pub open spec fn lower_of(hint: usize) -> int {
    if hint == 0 {
        1
    } else {
        hint as int
    }
}

} // verus!
