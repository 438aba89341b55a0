//! Counting the elements of a sequence that meet a condition.

use vstd::prelude::*;

verus! {

/// One if the condition holds, zero if not.
pub open spec fn one_if(condition: bool) -> nat {
    if condition {
        1
    } else {
        0
    }
}

/// One if the element meets the condition, zero if not.
pub open spec fn weight<T>(x: T, p: spec_fn(T) -> bool) -> nat {
    one_if(p(x))
}

/// The number of elements of `s` that meet condition `p`.
pub open spec fn tally<T>(s: Seq<T>, p: spec_fn(T) -> bool) -> nat
    decreases s.len(),
{
    if s.len() == 0 {
        0
    } else {
        tally(s.drop_last(), p) + weight(s.last(), p)
    }
}

/// No more elements are counted than there are.
pub proof fn lemma_tally_le<T>(s: Seq<T>, p: spec_fn(T) -> bool)
    ensures
        tally(s, p) <= s.len(),
    decreases s.len(),
{
    if s.len() > 0 {
        lemma_tally_le(s.drop_last(), p);
    }
}

/// Where no element meets the condition, the count is zero.
pub proof fn lemma_tally_zero<T>(s: Seq<T>, p: spec_fn(T) -> bool)
    requires
        forall|i: int| 0 <= i < s.len() ==> !p(#[trigger] s[i]),
    ensures
        tally(s, p) == 0,
    decreases s.len(),
{
    if s.len() > 0 {
        lemma_tally_zero(s.drop_last(), p);
    }
}

/// Where an element meets the condition, the count is at least one.
pub proof fn lemma_tally_positive<T>(s: Seq<T>, p: spec_fn(T) -> bool, i: int)
    requires
        0 <= i < s.len(),
        p(s[i]),
    ensures
        tally(s, p) >= 1,
    decreases s.len(),
{
    if i < s.len() - 1 {
        lemma_tally_positive(s.drop_last(), p, i);
    }
}

/// Counting one element further adds that element's weight.
pub proof fn lemma_tally_take<T>(s: Seq<T>, p: spec_fn(T) -> bool, n: int)
    requires
        0 <= n < s.len(),
    ensures
        tally(s.take(n + 1), p) == tally(s.take(n), p) + weight(s[n], p),
{
    assert(s.take(n + 1).drop_last() =~= s.take(n));
}

/// A further element adds its weight.
pub proof fn lemma_tally_push<T>(s: Seq<T>, p: spec_fn(T) -> bool, x: T)
    ensures
        tally(s.push(x), p) == tally(s, p) + weight(x, p),
{
    assert(s.push(x).drop_last() =~= s);
}

/// Replacing one element changes the count by the difference of the weights.
pub proof fn lemma_tally_update<T>(s: Seq<T>, p: spec_fn(T) -> bool, i: int, x: T)
    requires
        0 <= i < s.len(),
    ensures
        tally(s.update(i, x), p) + weight(s[i], p) == tally(s, p) + weight(x, p),
    decreases s.len(),
{
    let after = s.update(i, x);
    if i == s.len() - 1 {
        assert(after.drop_last() =~= s.drop_last());
    } else {
        assert(after.drop_last() =~= s.drop_last().update(i, x));
        lemma_tally_update(s.drop_last(), p, i, x);
    }
}

} // verus!
