//! Sums over sequences of amounts, and how they move when one entry does.

use vstd::prelude::*;

verus! {

/// The sum of `amounts`.
pub open spec fn total(amounts: Seq<int>) -> int
    decreases amounts.len(),
{
    if amounts.len() == 0 {
        0
    } else {
        total(amounts.drop_last()) + amounts.last()
    }
}

/// An amount added at the end adds to the sum.
pub proof fn lemma_total_push(amounts: Seq<int>, amount: int)
    ensures
        total(amounts.push(amount)) == total(amounts) + amount,
{
    assert(amounts.push(amount).drop_last() =~= amounts);
}

/// An entry replaced moves the sum by the difference.
pub proof fn lemma_total_update(amounts: Seq<int>, i: int, amount: int)
    requires
        0 <= i < amounts.len(),
    ensures
        total(amounts.update(i, amount)) == total(amounts) - amounts[i] + amount,
    decreases amounts.len(),
{
    if i == amounts.len() - 1 {
        assert(amounts.update(i, amount).drop_last() =~= amounts.drop_last());
    } else {
        lemma_total_update(amounts.drop_last(), i, amount);
        assert(amounts.update(i, amount).drop_last() =~= amounts.drop_last().update(i, amount));
    }
}

/// An entry taken out leaves the sum.
pub proof fn lemma_total_remove(amounts: Seq<int>, i: int)
    requires
        0 <= i < amounts.len(),
    ensures
        total(amounts.remove(i)) == total(amounts) - amounts[i],
    decreases amounts.len(),
{
    if i == amounts.len() - 1 {
        assert(amounts.remove(i) =~= amounts.drop_last());
    } else {
        lemma_total_remove(amounts.drop_last(), i);
        assert(amounts.remove(i).drop_last() =~= amounts.drop_last().remove(i));
        assert(amounts.remove(i).last() == amounts.last());
    }
}

/// Where no amount is negative, each entry is at most the sum.
pub proof fn lemma_total_covers(amounts: Seq<int>, i: int)
    requires
        forall|j: int| 0 <= j < amounts.len() ==> amounts[j] >= 0,
        0 <= i < amounts.len(),
    ensures
        0 <= amounts[i] <= total(amounts),
    decreases amounts.len(),
{
    lemma_total_nonnegative(amounts.drop_last());
    if i < amounts.len() - 1 {
        lemma_total_covers(amounts.drop_last(), i);
    }
}

/// Where no amount is negative, neither is the sum.
pub proof fn lemma_total_nonnegative(amounts: Seq<int>)
    requires
        forall|j: int| 0 <= j < amounts.len() ==> amounts[j] >= 0,
    ensures
        0 <= total(amounts),
    decreases amounts.len(),
{
    if amounts.len() > 0 {
        lemma_total_nonnegative(amounts.drop_last());
    }
}

} // verus!
