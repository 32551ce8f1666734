use vstd::prelude::*;

verus! {

/// The total of a sequence of skip counts.
pub open spec fn sum_of(s: Seq<nat>) -> nat
    decreases s.len(),
{
    if s.len() == 0 {
        0
    } else {
        sum_of(s.drop_last()) + s.last()
    }
}

/// Where the `i`-th selected item stands in the population, when selection
/// `k` is preceded by `s[k]` skipped items: every earlier skip and every
/// earlier selection lies before it.
pub open spec fn position_of(s: Seq<nat>, i: int) -> int {
    sum_of(s.take(i + 1)) + i
}

pub proof fn lemma_sum_take_step(s: Seq<nat>, i: int)
    requires
        0 <= i < s.len(),
    ensures
        sum_of(s.take(i + 1)) == sum_of(s.take(i)) + s[i],
{
    assert(s.take(i + 1).drop_last() =~= s.take(i));
}

pub proof fn lemma_sum_take_mono(s: Seq<nat>, i: int, j: int)
    requires
        0 <= i <= j <= s.len(),
    ensures
        sum_of(s.take(i)) <= sum_of(s.take(j)),
    decreases j - i,
{
    if i < j {
        lemma_sum_take_step(s, j - 1);
        lemma_sum_take_mono(s, i, j - 1);
    }
}

pub proof fn lemma_sum_push(s: Seq<nat>, x: nat)
    ensures
        sum_of(s.push(x)) == sum_of(s) + x,
{
    assert(s.push(x).drop_last() =~= s);
}

/// Adding a selection after the last one leaves the earlier positions where
/// they were.
pub proof fn lemma_position_push(s: Seq<nat>, x: nat, i: int)
    requires
        0 <= i < s.len(),
    ensures
        position_of(s.push(x), i) == position_of(s, i),
{
    assert(s.push(x).take(i + 1) =~= s.take(i + 1));
}

/// Skip counts whose total, with one item for each selection, fits in a
/// population of `population` items place their selections at strictly
/// increasing positions inside it.
pub proof fn lemma_positions_ordered(s: Seq<nat>, population: nat)
    requires
        sum_of(s) + s.len() <= population,
    ensures
        forall|i: int, j: int|
            0 <= i < j < s.len() ==> #[trigger] position_of(s, i) < #[trigger] position_of(s, j),
        forall|i: int| 0 <= i < s.len() ==> 0 <= #[trigger] position_of(s, i) < population,
{
    assert(s.take(s.len() as int) =~= s);
    assert forall|i: int, j: int| 0 <= i < j < s.len() implies #[trigger] position_of(s, i)
        < #[trigger] position_of(s, j) by {
        lemma_sum_take_mono(s, i + 1, j + 1);
    }
    assert forall|i: int| 0 <= i < s.len() implies 0 <= #[trigger] position_of(s, i)
        < population by {
        lemma_sum_take_mono(s, i + 1, s.len() as int);
    }
}

/// Skip counts with a total of zero are all zero, and place the `i`-th
/// selection at position `i`.
pub proof fn lemma_zero_sum(s: Seq<nat>)
    requires
        sum_of(s) == 0,
    ensures
        forall|i: int| 0 <= i < s.len() ==> #[trigger] s[i] == 0,
        forall|i: int| 0 <= i < s.len() ==> #[trigger] position_of(s, i) == i,
{
    assert(s.take(s.len() as int) =~= s);
    assert forall|i: int| 0 <= i < s.len() implies #[trigger] s[i] == 0 by {
        lemma_sum_take_step(s, i);
        lemma_sum_take_mono(s, i + 1, s.len() as int);
    }
    assert forall|i: int| 0 <= i < s.len() implies #[trigger] position_of(s, i) == i by {
        lemma_sum_take_mono(s, i + 1, s.len() as int);
    }
}

} // verus!
