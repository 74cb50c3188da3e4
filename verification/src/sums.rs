use vstd::prelude::*;

verus! {

/// The sum of a sequence of natural numbers.
pub open spec fn sum_of(values: Seq<nat>) -> nat
    decreases values.len(),
{
    if values.len() == 0 {
        0
    } else {
        sum_of(values.drop_last()) + values.last()
    }
}

/// Appending a number adds it to the sum.
pub proof fn lemma_sum_push(values: Seq<nat>, last: nat)
    ensures
        sum_of(values.push(last)) == sum_of(values) + last,
{
    assert(values.push(last).drop_last() =~= values);
}

/// A prefix never sums to more than the whole.
pub proof fn lemma_sum_prefix(values: Seq<nat>, n: int)
    requires
        0 <= n <= values.len(),
    ensures
        sum_of(values.take(n)) <= sum_of(values),
    decreases values.len(),
{
    if n == values.len() {
        assert(values.take(n) =~= values);
    } else {
        lemma_sum_prefix(values.drop_last(), n);
        assert(values.drop_last().take(n) =~= values.take(n));
    }
}

/// If each member of `a` is at most the member of `b` at the same place, the sum of `a`
/// is at most the sum of `b`.
pub proof fn lemma_sum_pointwise(a: Seq<nat>, b: Seq<nat>)
    requires
        a.len() == b.len(),
        forall|i: int| 0 <= i < a.len() ==> a[i] <= b[i],
    ensures
        sum_of(a) <= sum_of(b),
    decreases a.len(),
{
    if a.len() > 0 {
        lemma_sum_pointwise(a.drop_last(), b.drop_last());
    }
}

} // verus!
