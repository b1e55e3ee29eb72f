//! Token sampling: the greedy choice, the top-k cutoff and the pick from a
//! cumulative distribution.

use crate::scalar::{F32Bits, NEG_INFINITY_BITS};
use vstd::prelude::*;

verus! {

/// Whether `values[at]` is the largest in the total order, and the last such.
pub open spec fn is_last_maximum(values: Seq<F32Bits>, at: int) -> bool {
    &&& 0 <= at < values.len()
    &&& forall|i: int|
        0 <= i < values.len() ==> (#[trigger] values[i]).total_rank() <= values[at].total_rank()
    &&& forall|i: int|
        at < i < values.len() ==> (#[trigger] values[i]).total_rank() < values[at].total_rank()
}

/// Whether `choice` is the greedy choice: the last maximum, or zero where
/// there is nothing to choose from.
pub open spec fn is_greedy_choice(values: Seq<F32Bits>, choice: int) -> bool {
    if values.len() == 0 {
        choice == 0
    } else {
        is_last_maximum(values, choice)
    }
}

/// How many of `values` stand at `rank` or above in the total order.
pub open spec fn count_from(values: Seq<F32Bits>, rank: int) -> nat
    decreases values.len(),
{
    if values.len() == 0 {
        0
    } else {
        count_from(values.drop_last(), rank) + if values.last().total_rank() >= rank {
            1nat
        } else {
            0nat
        }
    }
}

/// Whether `cutoff` is the `k`-th largest of `values`: it occurs there, fewer
/// than `k` values stand above it and at least `k` stand at it or above.
pub open spec fn is_kth_largest(values: Seq<F32Bits>, k: int, cutoff: F32Bits) -> bool {
    &&& values.contains(cutoff)
    &&& count_from(values, cutoff.total_rank() + 1) < k
    &&& k <= count_from(values, cutoff.total_rank())
}

/// `value`, or minus infinity where it is numerically below `cutoff`.
pub open spec fn masked_value(value: F32Bits, cutoff: F32Bits) -> F32Bits {
    if value.less(cutoff) {
        F32Bits { bits: NEG_INFINITY_BITS }
    } else {
        value
    }
}

/// `values` with everything numerically below `cutoff` at minus infinity.
pub open spec fn masked(values: Seq<F32Bits>, cutoff: F32Bits) -> Seq<F32Bits> {
    values.map_values(|value: F32Bits| masked_value(value, cutoff))
}

/// Which of `values` are not numerically below `cutoff`.
pub open spec fn spared(values: Seq<F32Bits>, cutoff: F32Bits) -> Seq<bool> {
    values.map_values(|value: F32Bits| !value.less(cutoff))
}

/// How many of `values` are not numerically below `cutoff`.
pub open spec fn count_kept(values: Seq<F32Bits>, cutoff: F32Bits) -> nat
    decreases values.len(),
{
    if values.len() == 0 {
        0
    } else {
        count_kept(values.drop_last(), cutoff) + if values.last().less(cutoff) {
            0nat
        } else {
            1nat
        }
    }
}

proof fn count_is_bounded(values: Seq<F32Bits>, rank: int)
    ensures
        count_from(values, rank) <= values.len(),
    decreases values.len(),
{
    if values.len() > 0 {
        count_is_bounded(values.drop_last(), rank);
    }
}

proof fn count_reaches_all(values: Seq<F32Bits>, rank: int)
    requires
        forall|i: int| 0 <= i < values.len() ==> (#[trigger] values[i]).total_rank() >= rank,
    ensures
        count_from(values, rank) == values.len(),
    decreases values.len(),
{
    if values.len() > 0 {
        assert forall|i: int| 0 <= i < values.drop_last().len() implies (
        #[trigger] values.drop_last()[i]).total_rank() >= rank by {
            assert(values.drop_last()[i] == values[i]);
        }
        count_reaches_all(values.drop_last(), rank);
    }
}

proof fn count_of_none(values: Seq<F32Bits>, rank: int)
    requires
        forall|i: int| 0 <= i < values.len() ==> (#[trigger] values[i]).total_rank() < rank,
    ensures
        count_from(values, rank) == 0,
    decreases values.len(),
{
    if values.len() > 0 {
        assert forall|i: int| 0 <= i < values.drop_last().len() implies (
        #[trigger] values.drop_last()[i]).total_rank() < rank by {
            assert(values.drop_last()[i] == values[i]);
        }
        count_of_none(values.drop_last(), rank);
    }
}

proof fn count_across_gap(values: Seq<F32Bits>, low: int, high: int)
    requires
        low <= high,
        forall|i: int|
            0 <= i < values.len() ==> !(low <= (#[trigger] values[i]).total_rank() < high),
    ensures
        count_from(values, low) == count_from(values, high),
    decreases values.len(),
{
    if values.len() > 0 {
        assert forall|i: int| 0 <= i < values.drop_last().len() implies !(low <= (
        #[trigger] values.drop_last()[i]).total_rank() < high) by {
            assert(values.drop_last()[i] == values[i]);
        }
        count_across_gap(values.drop_last(), low, high);
    }
}

proof fn count_is_antitone(values: Seq<F32Bits>, low: int, high: int)
    requires
        low <= high,
    ensures
        count_from(values, high) <= count_from(values, low),
    decreases values.len(),
{
    if values.len() > 0 {
        count_is_antitone(values.drop_last(), low, high);
    }
}

proof fn count_grows_past_member(values: Seq<F32Bits>, at: int, low: int, high: int)
    requires
        0 <= at < values.len(),
        low <= values[at].total_rank() < high,
    ensures
        count_from(values, high) < count_from(values, low),
    decreases values.len(),
{
    let rest = values.drop_last();
    if at == values.len() - 1 {
        count_is_antitone(rest, low, high);
    } else {
        assert(rest[at] == values[at]);
        count_grows_past_member(rest, at, low, high);
    }
}

fn count_at_or_above(values: &Vec<F32Bits>, rank: i64) -> (count: usize)
    ensures
        count == count_from(values@, rank as int),
{
    let mut count: usize = 0;
    for i in 0..values.len()
        invariant
            count == count_from(values@.take(i as int), rank as int),
            count <= i,
    {
        assert(values@.take(i + 1).drop_last() =~= values@.take(i as int));
        if values[i].total_order() >= rank {
            count = count + 1;
        }
    }
    assert(values@.take(values@.len() as int) =~= values@);
    count
}

/// The greedy choice: the index of the largest value, the last one where the
/// largest occurs more than once, and zero for an empty slice.
pub fn argmax(values: &Vec<F32Bits>) -> (choice: usize)
    ensures
        is_greedy_choice(values@, choice as int),
{
    let mut choice: usize = 0;
    for i in 0..values.len()
        invariant
            values.len() > 0 ==> choice < values.len(),
            choice <= i,
            forall|j: int|
                0 <= j < i ==> (#[trigger] values@[j]).total_rank()
                    <= values@[choice as int].total_rank(),
            forall|j: int|
                choice < j < i ==> (#[trigger] values@[j]).total_rank()
                    < values@[choice as int].total_rank(),
    {
        if values[i].total_order() >= values[choice].total_order() {
            choice = i;
        }
    }
    choice
}

/// The largest value that stands below `rank`, as its index.
fn largest_below(values: &Vec<F32Bits>, rank: i64) -> (at: usize)
    requires
        exists|i: int| 0 <= i < values@.len() && (#[trigger] values@[i]).total_rank() < rank,
    ensures
        at < values@.len(),
        values@[at as int].total_rank() < rank,
        forall|i: int|
            0 <= i < values@.len() && (#[trigger] values@[i]).total_rank() < rank
                ==> values@[i].total_rank() <= values@[at as int].total_rank(),
{
    let mut at: usize = 0;
    let mut found: bool = false;
    for i in 0..values.len()
        invariant
            found ==> at < values@.len() && values@[at as int].total_rank() < rank,
            found ==> forall|j: int|
                0 <= j < i && (#[trigger] values@[j]).total_rank() < rank
                    ==> values@[j].total_rank() <= values@[at as int].total_rank(),
            !found ==> forall|j: int| 0 <= j < i ==> (#[trigger] values@[j]).total_rank() >= rank,
    {
        let here = values[i].total_order();
        if here < rank && (!found || here > values[at].total_order()) {
            at = i;
            found = true;
        }
    }
    at
}

/// The `k`-th largest of `values`, as its index.
fn kth_largest(values: &Vec<F32Bits>, k: usize) -> (at: usize)
    requires
        0 < k <= values@.len(),
    ensures
        at < values@.len(),
        is_kth_largest(values@, k as int, values@[at as int]),
{
    let mut at: usize = argmax(values);
    let mut seen: usize = count_at_or_above(values, values[at].total_order());
    proof {
        count_of_none(values@, values@[at as int].total_rank() + 1);
    }
    while seen < k
        invariant
            0 < k <= values@.len(),
            at < values@.len(),
            seen == count_from(values@, values@[at as int].total_rank()),
            count_from(values@, values@[at as int].total_rank() + 1) < k,
        decreases values@.len() - seen,
    {
        let rank = values[at].total_order();
        proof {
            if forall|i: int|
                0 <= i < values@.len() ==> (#[trigger] values@[i]).total_rank() >= rank {
                count_reaches_all(values@, rank as int);
            }
        }
        let next: usize = largest_below(values, rank);
        proof {
            let below = values@[next as int].total_rank();
            count_across_gap(values@, below + 1, rank as int);
            count_grows_past_member(values@, next as int, below, rank as int);
            count_is_bounded(values@, below);
        }
        at = next;
        seen = count_at_or_above(values, values[at].total_order());
    }
    assert(values@.contains(values@[at as int]));
    at
}

/// Applies the top-k cutoff: with `0 < k < n`, everything numerically below
/// the `k`-th largest value drops to minus infinity; any other `k` changes
/// nothing. Tells of each value whether the cutoff spared it.
pub fn mask_top_k(values: &mut Vec<F32Bits>, k: usize) -> (marks: Vec<bool>)
    ensures
        is_cut(old(values)@, k as int, final(values)@, marks@),
        old(values)@.len() > 0 ==> exists|i: int| 0 <= i < marks@.len() && #[trigger] marks@[i],
{
    let n: usize = values.len();
    let ghost before = values@;
    let mut marks: Vec<bool> = Vec::new();
    if k == 0 || k >= n {
        for i in 0..n
            invariant
                marks@.len() == i,
                forall|j: int| 0 <= j < i ==> #[trigger] marks@[j],
        {
            marks.push(true);
        }
        assert(marks@ =~= Seq::new(before.len(), |i: int| true));
        assert(n > 0 ==> marks@[0]);
        return marks;
    }
    let at: usize = kth_largest(values, k);
    let cutoff = values[at];
    for i in 0..n
        invariant
            n == before.len(),
            values@.len() == n,
            marks@.len() == i,
            forall|j: int| 0 <= j < i ==> #[trigger] values@[j] == masked(before, cutoff)[j],
            forall|j: int| i <= j < n ==> #[trigger] values@[j] == before[j],
            forall|j: int| 0 <= j < i ==> #[trigger] marks@[j] == spared(before, cutoff)[j],
    {
        let below: bool = values[i].is_less(&cutoff);
        if below {
            values.set(i, F32Bits { bits: NEG_INFINITY_BITS });
        }
        marks.push(!below);
    }
    assert(values@ =~= masked(before, cutoff));
    assert(marks@ =~= spared(before, cutoff));
    assert(is_kth_largest(before, k as int, cutoff));
    assert(marks@[at as int]);
    marks
}

/// Whether `kept` is `values` under the top-k cutoff: where `k` is a real
/// restriction, everything below the `k`-th largest value is at minus infinity.
/// The values that it spares are those of `marks`.
pub open spec fn is_cut(
    values: Seq<F32Bits>,
    k: int,
    kept: Seq<F32Bits>,
    marks: Seq<bool>,
) -> bool {
    if 0 < k < values.len() {
        exists|cutoff: F32Bits| #[trigger]
            is_kth_largest(values, k, cutoff) && kept == masked(values, cutoff) && marks == spared(
                values,
                cutoff,
            )
    } else {
        kept == values && marks == Seq::new(values.len(), |i: int| true)
    }
}

/// Whether `top` is numerically the largest of `values`, minus infinity where
/// there is no number among them.
pub open spec fn is_largest(values: Seq<F32Bits>, top: F32Bits) -> bool {
    &&& !top.is_nan()
    &&& top.bits == NEG_INFINITY_BITS || values.contains(top)
    &&& forall|i: int|
        0 <= i < values.len() && !(#[trigger] values[i]).is_nan() ==> values[i].value_rank()
            <= top.value_rank()
}

/// The numerically largest of `values`.
pub fn largest(values: &Vec<F32Bits>) -> (top: F32Bits)
    ensures
        is_largest(values@, top),
{
    let mut top = F32Bits { bits: NEG_INFINITY_BITS };
    for i in 0..values.len()
        invariant
            is_largest(values@.take(i as int), top),
    {
        assert(values@.take(i + 1) =~= values@.take(i as int).push(values@[i as int]));
        assert(values@.take(i + 1).contains(values@[i as int])) by {
            assert(values@.take(i + 1)[i as int] == values@[i as int]);
        }
        let ghost before = top;
        if top.is_less(&values[i]) {
            top = values[i];
        }
        proof {
            if values@.take(i as int).contains(before) {
                let j = choose|j: int|
                    0 <= j < i && values@.take(i as int)[j] == before;
                assert(values@.take(i + 1)[j] == before);
            }
            assert forall|j: int|
                0 <= j < i + 1 && !(#[trigger] values@.take(i + 1)[j]).is_nan() implies values@.take(
                i + 1,
            )[j].value_rank() <= top.value_rank() by {
                if j < i {
                    assert(values@.take(i as int)[j] == values@[j]);
                }
            }
        }
    }
    assert(values@.take(values@.len() as int) =~= values@);
    top
}

/// Whether `out` holds what `f` makes of each of `values`.
pub open spec fn maps_to<F: Fn(F32Bits) -> F32Bits>(
    f: F,
    values: Seq<F32Bits>,
    out: Seq<F32Bits>,
) -> bool {
    &&& out.len() == values.len()
    &&& forall|i: int| 0 <= i < values.len() ==> f.ensures((values[i],), #[trigger] out[i])
}

/// Whether `out` holds what `f` makes of each of `values` and the one `other`.
pub open spec fn maps_against<F: Fn(F32Bits, F32Bits) -> F32Bits>(
    f: F,
    values: Seq<F32Bits>,
    other: F32Bits,
    out: Seq<F32Bits>,
) -> bool {
    &&& out.len() == values.len()
    &&& forall|i: int| 0 <= i < values.len() ==> f.ensures((values[i], other), #[trigger] out[i])
}

/// Whether `sums` holds the running sums of `values`, begun at zero.
pub open spec fn runs_up<F: Fn(F32Bits, F32Bits) -> F32Bits>(
    plus: F,
    values: Seq<F32Bits>,
    sums: Seq<F32Bits>,
) -> bool {
    &&& sums.len() == values.len()
    &&& forall|i: int|
        0 <= i < values.len() ==> plus.ensures(
            (
                if i == 0 {
                    F32Bits { bits: 0 }
                } else {
                    sums[i - 1]
                },
                #[trigger] values[i],
            ),
            sums[i],
        )
}

/// Whether `choice` is what `draw` picks from cumulative shares: among the
/// indices of `marks`, the first whose share exceeds it, or the last one where
/// none does.
pub open spec fn picks(
    draw: F32Bits,
    cumulative: Seq<F32Bits>,
    marks: Seq<bool>,
    choice: int,
) -> bool {
    &&& 0 <= choice < cumulative.len()
    &&& marks[choice]
    &&& forall|i: int| 0 <= i < choice && marks[i] ==> !draw.less(#[trigger] cumulative[i])
    &&& draw.less(cumulative[choice]) || forall|i: int|
        choice < i < cumulative.len() ==> !#[trigger] marks[i]
}

/// Picks from a cumulative distribution: among the indices of `marks`, the
/// first whose cumulative share exceeds `draw`, or the last one where none
/// does.
pub fn pick(draw: F32Bits, cumulative: &Vec<F32Bits>, marks: &Vec<bool>) -> (choice: usize)
    requires
        marks@.len() == cumulative@.len(),
        exists|i: int| 0 <= i < marks@.len() && #[trigger] marks@[i],
    ensures
        picks(draw, cumulative@, marks@, choice as int),
{
    let mut last: usize = 0;
    let mut found: bool = false;
    for i in 0..cumulative.len()
        invariant
            marks@.len() == cumulative@.len(),
            found ==> last < i && marks@[last as int],
            found ==> forall|j: int| last < j < i ==> !#[trigger] marks@[j],
            !found ==> forall|j: int| 0 <= j < i ==> !#[trigger] marks@[j],
            forall|j: int| 0 <= j < i && marks@[j] ==> !draw.less(#[trigger] cumulative@[j]),
    {
        if marks[i] {
            if draw.is_less(&cumulative[i]) {
                return i;
            }
            last = i;
            found = true;
        }
    }
    last
}

fn map_all<F: Fn(F32Bits) -> F32Bits>(f: &F, values: &Vec<F32Bits>) -> (out: Vec<F32Bits>)
    requires
        forall|a: F32Bits| #[trigger] f.requires((a,)),
    ensures
        maps_to(*f, values@, out@),
{
    let mut out: Vec<F32Bits> = Vec::new();
    for i in 0..values.len()
        invariant
            forall|a: F32Bits| #[trigger] f.requires((a,)),
            out@.len() == i,
            forall|j: int| 0 <= j < i ==> f.ensures((values@[j],), #[trigger] out@[j]),
    {
        let value = f(values[i]);
        out.push(value);
    }
    out
}

fn map_all_against<F: Fn(F32Bits, F32Bits) -> F32Bits>(
    f: &F,
    values: &Vec<F32Bits>,
    other: F32Bits,
) -> (out: Vec<F32Bits>)
    requires
        forall|a: F32Bits, b: F32Bits| #[trigger] f.requires((a, b)),
    ensures
        maps_against(*f, values@, other, out@),
{
    let mut out: Vec<F32Bits> = Vec::new();
    for i in 0..values.len()
        invariant
            forall|a: F32Bits, b: F32Bits| #[trigger] f.requires((a, b)),
            out@.len() == i,
            forall|j: int| 0 <= j < i ==> f.ensures((values@[j], other), #[trigger] out@[j]),
    {
        let value = f(values[i], other);
        out.push(value);
    }
    out
}

fn run_up<F: Fn(F32Bits, F32Bits) -> F32Bits>(plus: &F, values: &Vec<F32Bits>) -> (sums: Vec<
    F32Bits,
>)
    requires
        forall|a: F32Bits, b: F32Bits| #[trigger] plus.requires((a, b)),
    ensures
        runs_up(*plus, values@, sums@),
{
    let mut sums: Vec<F32Bits> = Vec::new();
    let mut sum = F32Bits { bits: 0 };
    for i in 0..values.len()
        invariant
            forall|a: F32Bits, b: F32Bits| #[trigger] plus.requires((a, b)),
            runs_up(*plus, values@.take(i as int), sums@),
            sum == if i == 0 {
                F32Bits { bits: 0 }
            } else {
                sums@[i - 1]
            },
    {
        let ghost before = sums@;
        sum = plus(sum, values[i]);
        sums.push(sum);
        assert forall|j: int| 0 <= j < i + 1 implies plus.ensures(
            (
                if j == 0 {
                    F32Bits { bits: 0 }
                } else {
                    sums@[j - 1]
                },
                #[trigger] values@.take(i + 1)[j],
            ),
            sums@[j],
        ) by {
            if j < i {
                assert(sums@[j] == before[j]);
                assert(values@.take(i as int)[j] == values@[j]);
            }
        }
    }
    assert(values@.take(values@.len() as int) =~= values@);
    sums
}

/// Whether `choice` is drawn, among the indices of `marks`, by the shares that
/// `weights` have in `total`.
pub open spec fn is_drawn<
    A: Fn(F32Bits, F32Bits) -> F32Bits,
    S: Fn(F32Bits, F32Bits) -> F32Bits,
    D: FnOnce() -> F32Bits,
>(
    plus: A,
    share: S,
    draw: D,
    weights: Seq<F32Bits>,
    total: F32Bits,
    marks: Seq<bool>,
    choice: int,
) -> bool {
    exists|shares: Seq<F32Bits>, cumulative: Seq<F32Bits>, drawn: F32Bits|
        {
            &&& #[trigger] maps_against(share, weights, total, shares)
            &&& #[trigger] runs_up(plus, shares, cumulative)
            &&& #[trigger] draw.ensures((), drawn)
            &&& picks(drawn, cumulative, marks, choice)
        }
}

/// Whether `choice` comes of the values that the cutoff kept, the largest of
/// them being `top`: drawn by weight, or greedy where the arithmetic runs out
/// of finite numbers.
pub open spec fn is_weighed_choice<
    W: Fn(F32Bits, F32Bits) -> F32Bits,
    A: Fn(F32Bits, F32Bits) -> F32Bits,
    S: Fn(F32Bits, F32Bits) -> F32Bits,
    D: FnOnce() -> F32Bits,
>(
    weigh: W,
    plus: A,
    share: S,
    draw: D,
    logits: Seq<F32Bits>,
    kept: Seq<F32Bits>,
    marks: Seq<bool>,
    top: F32Bits,
    choice: int,
) -> bool {
    if !top.finite() {
        is_greedy_choice(logits, choice)
    } else {
        exists|weights: Seq<F32Bits>, sums: Seq<F32Bits>|
            {
                &&& #[trigger] maps_against(weigh, kept, top, weights)
                &&& #[trigger] runs_up(plus, weights, sums)
                &&& if !sums.last().finite() || sums.last().at_most_zero() {
                    is_greedy_choice(logits, choice)
                } else {
                    is_drawn(plus, share, draw, weights, sums.last(), marks, choice)
                }
            }
    }
}

/// Whether `choice` is sampled from `logits`: greedy at a temperature of at
/// most zero, and else by the weights of the scaled values under the cutoff.
pub open spec fn is_sampled<
    C: Fn(F32Bits) -> F32Bits,
    W: Fn(F32Bits, F32Bits) -> F32Bits,
    A: Fn(F32Bits, F32Bits) -> F32Bits,
    S: Fn(F32Bits, F32Bits) -> F32Bits,
    D: FnOnce() -> F32Bits,
>(
    scale: C,
    weigh: W,
    plus: A,
    share: S,
    draw: D,
    logits: Seq<F32Bits>,
    temperature: F32Bits,
    top_k: int,
    choice: int,
) -> bool {
    if logits.len() == 0 || temperature.at_most_zero() {
        is_greedy_choice(logits, choice)
    } else {
        exists|scaled: Seq<F32Bits>, kept: Seq<F32Bits>, marks: Seq<bool>, top: F32Bits|
            {
                &&& maps_to(scale, logits, scaled)
                &&& #[trigger] is_cut(scaled, top_k, kept, marks)
                &&& #[trigger] is_largest(kept, top)
                &&& is_weighed_choice(weigh, plus, share, draw, logits, kept, marks, top, choice)
            }
    }
}

/// How many of `values` are numerically above `value`.
pub open spec fn count_above(values: Seq<F32Bits>, value: F32Bits) -> nat
    decreases values.len(),
{
    if values.len() == 0 {
        0
    } else {
        count_above(values.drop_last(), value) + if value.less(values.last()) {
            1nat
        } else {
            0nat
        }
    }
}

/// Whether the top-k cutoff of `values` is a number.
pub open spec fn cuts_at_a_number(values: Seq<F32Bits>, k: int) -> bool {
    exists|cutoff: F32Bits| #[trigger] is_kth_largest(values, k, cutoff) && !cutoff.is_nan()
}

/// Whether fewer than `k` of `values` are numerically above the one at `at`.
pub open spec fn is_among_top(values: Seq<F32Bits>, k: int, at: int) -> bool {
    0 <= at < values.len() && count_above(values, values[at]) < k
}

/// Samples an index from raw scores. The arithmetic is the caller's: `scale`
/// divides a score by the temperature, `weigh` is the exponential of the
/// distance to the largest score, `plus` adds, `share` divides a weight by
/// their total, and `draw` yields a uniform number below one; it is asked for
/// one only where the choice is not settled before. A choice that was drawn is
/// never one that the cutoff took out.
pub fn sample_topk_temp<
    C: Fn(F32Bits) -> F32Bits,
    W: Fn(F32Bits, F32Bits) -> F32Bits,
    A: Fn(F32Bits, F32Bits) -> F32Bits,
    S: Fn(F32Bits, F32Bits) -> F32Bits,
    D: FnOnce() -> F32Bits,
>(
    logits: &Vec<F32Bits>,
    temperature: F32Bits,
    top_k: usize,
    scale: C,
    weigh: W,
    plus: A,
    share: S,
    draw: D,
) -> (choice: usize)
    requires
        forall|a: F32Bits| #[trigger] scale.requires((a,)),
        forall|a: F32Bits, b: F32Bits| #[trigger] weigh.requires((a, b)),
        forall|a: F32Bits, b: F32Bits| #[trigger] plus.requires((a, b)),
        forall|a: F32Bits, b: F32Bits| #[trigger] share.requires((a, b)),
        logits@.len() > 0 && !temperature.at_most_zero() ==> draw.requires(()),
    ensures
        is_sampled(
            scale,
            weigh,
            plus,
            share,
            draw,
            logits@,
            temperature,
            top_k as int,
            choice as int,
        ),
        logits@.len() > 0 ==> choice < logits@.len(),
        0 < top_k < logits@.len() ==> is_greedy_choice(logits@, choice as int) || exists|
            scaled: Seq<F32Bits>,
        | #[trigger]
            maps_to(scale, logits@, scaled) && (cuts_at_a_number(scaled, top_k as int)
                ==> is_among_top(scaled, top_k as int, choice as int)),
{
    if logits.len() == 0 {
        return 0;
    }
    if temperature.is_at_most_zero() {
        return argmax(logits);
    }
    let mut kept = map_all(&scale, logits);
    let ghost scaled = kept@;
    let marks = mask_top_k(&mut kept, top_k);
    assert(is_cut(scaled, top_k as int, kept@, marks@));
    let top = largest(&kept);
    let choice: usize = choose_by_weight(&weigh, &plus, &share, draw, logits, &kept, &marks, top);
    assert(is_cut(scaled, top_k as int, kept@, marks@) && is_largest(kept@, top));
    proof {
        if 0 < top_k < logits@.len() && marks@[choice as int] && cuts_at_a_number(
            scaled,
            top_k as int,
        ) {
            spared_value_is_among_top(scaled, top_k as int, kept@, marks@, choice as int);
        }
    }
    choice
}

fn choose_by_weight<
    W: Fn(F32Bits, F32Bits) -> F32Bits,
    A: Fn(F32Bits, F32Bits) -> F32Bits,
    S: Fn(F32Bits, F32Bits) -> F32Bits,
    D: FnOnce() -> F32Bits,
>(
    weigh: &W,
    plus: &A,
    share: &S,
    draw: D,
    logits: &Vec<F32Bits>,
    kept: &Vec<F32Bits>,
    marks: &Vec<bool>,
    top: F32Bits,
) -> (choice: usize)
    requires
        forall|a: F32Bits, b: F32Bits| #[trigger] weigh.requires((a, b)),
        forall|a: F32Bits, b: F32Bits| #[trigger] plus.requires((a, b)),
        forall|a: F32Bits, b: F32Bits| #[trigger] share.requires((a, b)),
        draw.requires(()),
        kept@.len() == logits@.len(),
        marks@.len() == logits@.len(),
        exists|i: int| 0 <= i < marks@.len() && #[trigger] marks@[i],
        logits@.len() > 0,
    ensures
        is_weighed_choice(*weigh, *plus, *share, draw, logits@, kept@, marks@, top, choice as int),
        choice < logits@.len(),
        is_greedy_choice(logits@, choice as int) || marks@[choice as int],
{
    if !top.is_finite() {
        return argmax(logits);
    }
    let weights = map_all_against(weigh, kept, top);
    let sums = run_up(plus, &weights);
    let total = sums[sums.len() - 1];
    assert(maps_against(*weigh, kept@, top, weights@) && runs_up(*plus, weights@, sums@));
    if !total.is_finite() || total.is_at_most_zero() {
        return argmax(logits);
    }
    let shares = map_all_against(share, &weights, total);
    let cumulative = run_up(plus, &shares);
    let drawn = draw();
    let choice: usize = pick(drawn, &cumulative, marks);
    assert(is_drawn(*plus, *share, draw, weights@, total, marks@, choice as int));
    choice
}

/// The cutoff is determined: two `k`-th largest values are the same.
pub proof fn kth_largest_is_unique(values: Seq<F32Bits>, k: int, a: F32Bits, b: F32Bits)
    requires
        is_kth_largest(values, k, a),
        is_kth_largest(values, k, b),
    ensures
        a == b,
{
    if a.total_rank() < b.total_rank() {
        count_is_antitone(values, a.total_rank() + 1, b.total_rank());
    } else if b.total_rank() < a.total_rank() {
        count_is_antitone(values, b.total_rank() + 1, a.total_rank());
    }
    crate::scalar::total_rank_is_injective(a, b);
}

/// The top-k cutoff leaves at least `k` values untouched.
pub proof fn top_k_keeps_enough(values: Seq<F32Bits>, k: int, cutoff: F32Bits)
    requires
        is_kth_largest(values, k, cutoff),
    ensures
        k <= count_kept(values, cutoff),
{
    kept_covers_count(values, cutoff);
}

/// Fewer than `k` values are numerically above one that the top-k cutoff
/// spares, where the cutoff is a number.
pub proof fn spared_value_is_among_top(
    values: Seq<F32Bits>,
    k: int,
    kept: Seq<F32Bits>,
    marks: Seq<bool>,
    at: int,
)
    requires
        0 < k < values.len(),
        cuts_at_a_number(values, k),
        is_cut(values, k, kept, marks),
        0 <= at < values.len(),
        marks[at],
    ensures
        is_among_top(values, k, at),
{
    let cutoff = choose|cutoff: F32Bits| #[trigger]
        is_kth_largest(values, k, cutoff) && kept == masked(values, cutoff) && marks == spared(
            values,
            cutoff,
        );
    let number = choose|cutoff: F32Bits| #[trigger]
        is_kth_largest(values, k, cutoff) && !cutoff.is_nan();
    kth_largest_is_unique(values, k, cutoff, number);
    above_is_past_cutoff(values, values[at], cutoff);
}

proof fn above_is_past_cutoff(values: Seq<F32Bits>, value: F32Bits, cutoff: F32Bits)
    requires
        !cutoff.is_nan(),
        !value.less(cutoff),
    ensures
        count_above(values, value) <= count_from(values, cutoff.total_rank() + 1),
    decreases values.len(),
{
    if values.len() > 0 {
        above_is_past_cutoff(values.drop_last(), value, cutoff);
    }
}

proof fn kept_covers_count(values: Seq<F32Bits>, cutoff: F32Bits)
    ensures
        count_from(values, cutoff.total_rank()) <= count_kept(values, cutoff),
    decreases values.len(),
{
    if values.len() > 0 {
        kept_covers_count(values.drop_last(), cutoff);
        if values.last().total_rank() >= cutoff.total_rank() {
            crate::scalar::total_order_refines_less(values.last(), cutoff);
        }
    }
}

proof fn count_is_a_filter(values: Seq<F32Bits>, rank: int)
    ensures
        count_from(values, rank) == values.filter(|v: F32Bits| v.total_rank() >= rank).len(),
    decreases values.len(),
{
    reveal(Seq::filter);
    if values.len() > 0 {
        count_is_a_filter(values.drop_last(), rank);
    }
}

/// The greedy choice is an index whose score none exceeds in the total order,
/// the last of them where there are several, and zero without scores.
pub proof fn greedy_choice_is_exceeded_by_none(values: Seq<F32Bits>, choice: int, i: int)
    requires
        is_greedy_choice(values, choice),
    ensures
        values.len() == 0 ==> choice == 0,
        values.len() > 0 ==> 0 <= choice < values.len(),
        0 <= i < values.len() ==> values[i].total_rank() <= values[choice].total_rank(),
        choice < i < values.len() ==> values[i].total_rank() < values[choice].total_rank(),
{
}

/// There is one greedy choice alone.
pub proof fn greedy_choice_is_settled(values: Seq<F32Bits>, first: int, second: int)
    requires
        is_greedy_choice(values, first),
        is_greedy_choice(values, second),
    ensures
        first == second,
{
    if values.len() > 0 {
        assert(values[first].total_rank() <= values[second].total_rank());
        assert(values[second].total_rank() <= values[first].total_rank());
    }
}

/// The cutoff is the `k`-th of the scores from the top: one of them, with fewer
/// than `k` of them above it and at least `k` at or above it.
pub proof fn cutoff_is_kth_from_the_top(values: Seq<F32Bits>, k: int, cutoff: F32Bits)
    requires
        is_kth_largest(values, k, cutoff),
    ensures
        exists|i: int| 0 <= i < values.len() && #[trigger] values[i] == cutoff,
        values.filter(|v: F32Bits| v.total_rank() >= cutoff.total_rank() + 1).len() < k,
        k <= values.filter(|v: F32Bits| v.total_rank() >= cutoff.total_rank()).len(),
{
    count_is_a_filter(values, cutoff.total_rank());
    count_is_a_filter(values, cutoff.total_rank() + 1);
}

/// What the top-k cutoff does to the scores: with `k` between none and all of
/// them, those numerically below the `k`-th from the top go down to minus
/// infinity and lose their mark, and all others stay what they are; any other
/// `k` changes nothing, and every score is marked.
pub proof fn cutoff_takes_out_what_is_below(
    values: Seq<F32Bits>,
    k: int,
    kept: Seq<F32Bits>,
    marks: Seq<bool>,
) -> (cutoff: F32Bits)
    requires
        is_cut(values, k, kept, marks),
    ensures
        kept.len() == values.len(),
        marks.len() == values.len(),
        0 < k < values.len() ==> {
            &&& is_kth_largest(values, k, cutoff)
            &&& forall|i: int|
                #![trigger values[i]]
                0 <= i < values.len() ==> if values[i].less(cutoff) {
                    !marks[i] && kept[i].bits == 0xff80_0000
                } else {
                    marks[i] && kept[i] == values[i]
                }
        },
        k <= 0 || k >= values.len() ==> forall|i: int|
            #![trigger values[i]]
            0 <= i < values.len() ==> marks[i] && kept[i] == values[i],
{
    if 0 < k < values.len() {
        choose|cutoff: F32Bits| #[trigger]
            is_kth_largest(values, k, cutoff) && kept == masked(values, cutoff) && marks == spared(
                values,
                cutoff,
            )
    } else {
        F32Bits { bits: 0 }
    }
}

/// The largest score is one of them, with none above it; what is not a number
/// does not count, and without any number it is minus infinity.
pub proof fn largest_is_exceeded_by_none(values: Seq<F32Bits>, top: F32Bits, i: int)
    requires
        is_largest(values, top),
    ensures
        !top.is_nan(),
        top.bits == 0xff80_0000 || exists|j: int|
            0 <= j < values.len() && #[trigger] values[j] == top,
        0 <= i < values.len() ==> !top.less(values[i]),
{
}

/// A pick is a marked index. Either its cumulative share exceeds the drawn
/// number, or it is the last marked one; and no marked index before it has a
/// share that does.
pub proof fn pick_is_the_first_whose_share_exceeds(
    draw: F32Bits,
    cumulative: Seq<F32Bits>,
    marks: Seq<bool>,
    choice: int,
    i: int,
)
    requires
        picks(draw, cumulative, marks, choice),
        0 <= i < cumulative.len(),
        marks[i],
    ensures
        0 <= choice < cumulative.len(),
        marks[choice],
        draw.less(cumulative[i]) ==> choice <= i,
        !draw.less(cumulative[choice]) ==> i <= choice,
        i < choice ==> !draw.less(cumulative[i]),
{
}

/// How a choice was drawn: what became of the scores on the way to it.
pub struct Drawing {
    pub scaled: Seq<F32Bits>,
    pub cutoff: F32Bits,
    pub kept: Seq<F32Bits>,
    pub marks: Seq<bool>,
    pub top: F32Bits,
    pub weights: Seq<F32Bits>,
    pub sums: Seq<F32Bits>,
    pub shares: Seq<F32Bits>,
    pub cumulative: Seq<F32Bits>,
    pub drawn: F32Bits,
}

/// The greedy choice is taken without scores, where it is zero, and at every
/// temperature of at most zero.
pub proof fn cold_choice_is_greedy<
    C: Fn(F32Bits) -> F32Bits,
    W: Fn(F32Bits, F32Bits) -> F32Bits,
    A: Fn(F32Bits, F32Bits) -> F32Bits,
    S: Fn(F32Bits, F32Bits) -> F32Bits,
    D: FnOnce() -> F32Bits,
>(
    scale: C,
    weigh: W,
    plus: A,
    share: S,
    draw: D,
    logits: Seq<F32Bits>,
    temperature: F32Bits,
    top_k: int,
    choice: int,
    i: int,
)
    requires
        is_sampled(scale, weigh, plus, share, draw, logits, temperature, top_k, choice),
        logits.len() == 0 || temperature.bits == 0 || 0x8000_0000 <= temperature.bits
            <= 0xff80_0000,
    ensures
        logits.len() == 0 ==> choice == 0,
        logits.len() > 0 ==> 0 <= choice < logits.len(),
        0 <= i < logits.len() ==> logits[i].total_rank() <= logits[choice].total_rank(),
        choice < i < logits.len() ==> logits[i].total_rank() < logits[choice].total_rank(),
{
}

/// At every temperature that is not zero or below, the choice is drawn: the
/// scores are scaled and cut, weighed against the largest of them, and the
/// choice is the first marked index at which the running sum of the shares that
/// the weights have in their total exceeds the drawn number, or the last marked
/// one where none does. The greedy choice stands in for it only where the
/// largest score is not finite, or the total is not a finite number above zero.
pub proof fn warm_choice_is_drawn_by_share<
    C: Fn(F32Bits) -> F32Bits,
    W: Fn(F32Bits, F32Bits) -> F32Bits,
    A: Fn(F32Bits, F32Bits) -> F32Bits,
    S: Fn(F32Bits, F32Bits) -> F32Bits,
    D: FnOnce() -> F32Bits,
>(
    scale: C,
    weigh: W,
    plus: A,
    share: S,
    draw: D,
    logits: Seq<F32Bits>,
    temperature: F32Bits,
    top_k: int,
    choice: int,
) -> (how: Drawing)
    requires
        is_sampled(scale, weigh, plus, share, draw, logits, temperature, top_k, choice),
        logits.len() > 0,
        temperature.bits != 0,
        !(0x8000_0000 <= temperature.bits <= 0xff80_0000),
    ensures
        how.scaled.len() == logits.len(),
        how.kept.len() == logits.len(),
        how.marks.len() == logits.len(),
        forall|i: int|
            0 <= i < logits.len() ==> scale.ensures((#[trigger] logits[i],), how.scaled[i]),
        0 < top_k < logits.len() ==> {
            &&& is_kth_largest(how.scaled, top_k, how.cutoff)
            &&& forall|i: int|
                #![trigger how.scaled[i]]
                0 <= i < logits.len() ==> if how.scaled[i].less(how.cutoff) {
                    !how.marks[i] && how.kept[i].bits == 0xff80_0000
                } else {
                    how.marks[i] && how.kept[i] == how.scaled[i]
                }
        },
        top_k <= 0 || top_k >= logits.len() ==> forall|i: int|
            #![trigger how.scaled[i]]
            0 <= i < logits.len() ==> how.marks[i] && how.kept[i] == how.scaled[i],
        how.top.bits == 0xff80_0000 || exists|j: int|
            0 <= j < logits.len() && #[trigger] how.kept[j] == how.top,
        !how.top.is_nan(),
        forall|i: int| 0 <= i < logits.len() ==> !how.top.less(#[trigger] how.kept[i]),
        !how.top.finite() ==> is_greedy_choice(logits, choice),
        how.top.finite() ==> {
            let total = how.sums[logits.len() - 1];
            &&& how.weights.len() == logits.len()
            &&& forall|i: int|
                0 <= i < logits.len() ==> weigh.ensures(
                    (#[trigger] how.kept[i], how.top),
                    how.weights[i],
                )
            &&& how.sums.len() == logits.len()
            &&& plus.ensures((F32Bits { bits: 0 }, how.weights[0]), how.sums[0])
            &&& forall|i: int|
                #![trigger how.weights[i]]
                1 <= i < logits.len() ==> plus.ensures(
                    (how.sums[i - 1], how.weights[i]),
                    how.sums[i],
                )
            &&& !(0 < total.bits < 0x7f80_0000) ==> is_greedy_choice(logits, choice)
            &&& 0 < total.bits < 0x7f80_0000 ==> {
                &&& how.shares.len() == logits.len()
                &&& forall|i: int|
                    0 <= i < logits.len() ==> share.ensures(
                        (#[trigger] how.weights[i], total),
                        how.shares[i],
                    )
                &&& how.cumulative.len() == logits.len()
                &&& plus.ensures((F32Bits { bits: 0 }, how.shares[0]), how.cumulative[0])
                &&& forall|i: int|
                    #![trigger how.shares[i]]
                    1 <= i < logits.len() ==> plus.ensures(
                        (how.cumulative[i - 1], how.shares[i]),
                        how.cumulative[i],
                    )
                &&& draw.ensures((), how.drawn)
                &&& 0 <= choice < logits.len()
                &&& how.marks[choice]
                &&& forall|i: int|
                    0 <= i < choice && how.marks[i] ==> !how.drawn.less(
                        #[trigger] how.cumulative[i],
                    )
                &&& how.drawn.less(how.cumulative[choice]) || forall|i: int|
                    choice < i < logits.len() ==> !#[trigger] how.marks[i]
            }
        },
{
    let (scaled, kept, marks, top) = choose|
        scaled: Seq<F32Bits>,
        kept: Seq<F32Bits>,
        marks: Seq<bool>,
        top: F32Bits,
    |
        {
            &&& maps_to(scale, logits, scaled)
            &&& #[trigger] is_cut(scaled, top_k, kept, marks)
            &&& #[trigger] is_largest(kept, top)
            &&& is_weighed_choice(weigh, plus, share, draw, logits, kept, marks, top, choice)
        };
    let cutoff = cutoff_takes_out_what_is_below(scaled, top_k, kept, marks);
    let none = Drawing {
        scaled,
        cutoff,
        kept,
        marks,
        top,
        weights: Seq::empty(),
        sums: Seq::empty(),
        shares: Seq::empty(),
        cumulative: Seq::empty(),
        drawn: top,
    };
    assert forall|i: int| 0 <= i < logits.len() implies !top.less(#[trigger] kept[i]) by {
        largest_is_exceeded_by_none(kept, top, i);
    }
    if !top.finite() {
        none
    } else {
        let (weights, sums) = choose|weights: Seq<F32Bits>, sums: Seq<F32Bits>|
            {
                &&& #[trigger] maps_against(weigh, kept, top, weights)
                &&& #[trigger] runs_up(plus, weights, sums)
                &&& if !sums.last().finite() || sums.last().at_most_zero() {
                    is_greedy_choice(logits, choice)
                } else {
                    is_drawn(plus, share, draw, weights, sums.last(), marks, choice)
                }
            };
        sums_run_up(plus, weights, sums);
        let total = sums[logits.len() - 1];
        if !(0 < total.bits < 0x7f80_0000) {
            Drawing { weights, sums, ..none }
        } else {
            let (shares, cumulative, drawn) = choose|
                shares: Seq<F32Bits>,
                cumulative: Seq<F32Bits>,
                drawn: F32Bits,
            |
                {
                    &&& #[trigger] maps_against(share, weights, total, shares)
                    &&& #[trigger] runs_up(plus, shares, cumulative)
                    &&& #[trigger] draw.ensures((), drawn)
                    &&& picks(drawn, cumulative, marks, choice)
                };
            sums_run_up(plus, shares, cumulative);
            Drawing { weights, sums, shares, cumulative, drawn, ..none }
        }
    }
}

/// Running sums begin at zero, and each adds the next value to the one before
/// it.
pub proof fn sums_run_up<F: Fn(F32Bits, F32Bits) -> F32Bits>(
    plus: F,
    values: Seq<F32Bits>,
    sums: Seq<F32Bits>,
)
    requires
        runs_up(plus, values, sums),
    ensures
        sums.len() == values.len(),
        values.len() > 0 ==> plus.ensures((F32Bits { bits: 0 }, values[0]), sums[0]),
        forall|i: int|
            #![trigger values[i]]
            1 <= i < values.len() ==> plus.ensures((sums[i - 1], values[i]), sums[i]),
{
    if values.len() > 0 {
        let first = values[0];
        assert(plus.ensures((F32Bits { bits: 0 }, first), sums[0]));
    }
}

} // verus!
