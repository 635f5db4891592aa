use vstd::prelude::*;

verus! {

/// Sum of `f` over all elements of `s`.
pub open spec fn sum_by<A>(s: Seq<A>, f: spec_fn(A) -> int) -> int
    decreases s.len(),
{
    if s.len() == 0 {
        0
    } else {
        sum_by(s.drop_last(), f) + f(s.last())
    }
}

/// Appending an element adds its contribution to the sum.
pub proof fn lemma_sum_by_push<A>(s: Seq<A>, x: A, f: spec_fn(A) -> int)
    ensures
        sum_by(s.push(x), f) == sum_by(s, f) + f(x),
{
    assert(s.push(x).drop_last() =~= s);
    assert(s.push(x).last() == x);
}

/// Removing the element at `i` subtracts its contribution from the sum.
pub proof fn lemma_sum_by_remove<A>(s: Seq<A>, i: int, f: spec_fn(A) -> int)
    requires
        0 <= i < s.len(),
    ensures
        sum_by(s.remove(i), f) == sum_by(s, f) - f(s[i]),
    decreases s.len(),
{
    if i == s.len() - 1 {
        assert(s.remove(i) =~= s.drop_last());
    } else {
        assert(s.remove(i).drop_last() =~= s.drop_last().remove(i));
        assert(s.remove(i).last() == s.last());
        lemma_sum_by_remove(s.drop_last(), i, f);
    }
}

/// Inserting an element at `i` adds its contribution to the sum.
pub proof fn lemma_sum_by_insert<A>(s: Seq<A>, i: int, x: A, f: spec_fn(A) -> int)
    requires
        0 <= i <= s.len(),
    ensures
        sum_by(s.insert(i, x), f) == sum_by(s, f) + f(x),
{
    lemma_sum_by_remove(s.insert(i, x), i, f);
    assert(s.insert(i, x).remove(i) =~= s);
    assert(s.insert(i, x)[i] == x);
}

/// Replacing the element at `i` changes the sum by the difference of the
/// two contributions.
pub proof fn lemma_sum_by_update<A>(s: Seq<A>, i: int, x: A, f: spec_fn(A) -> int)
    requires
        0 <= i < s.len(),
    ensures
        sum_by(s.update(i, x), f) == sum_by(s, f) - f(s[i]) + f(x),
    decreases s.len(),
{
    if i == s.len() - 1 {
        assert(s.update(i, x).drop_last() =~= s.drop_last());
        assert(s.update(i, x).last() == x);
    } else {
        assert(s.update(i, x).drop_last() =~= s.drop_last().update(i, x));
        assert(s.update(i, x).last() == s.last());
        lemma_sum_by_update(s.drop_last(), i, x, f);
    }
}

/// Two sequences whose elements contribute pointwise equal values have
/// equal sums.
pub proof fn lemma_sum_by_pointwise<A, B>(s: Seq<A>, t: Seq<B>, f: spec_fn(A) -> int, g: spec_fn(
    B,
) -> int)
    requires
        s.len() == t.len(),
        forall|i: int| 0 <= i < s.len() ==> f(s[i]) == g(t[i]),
    ensures
        sum_by(s, f) == sum_by(t, g),
    decreases s.len(),
{
    if s.len() > 0 {
        lemma_sum_by_pointwise(s.drop_last(), t.drop_last(), f, g);
    }
}

/// A sequence all of whose contributions are zero sums to zero.
pub proof fn lemma_sum_by_zero<A>(s: Seq<A>, f: spec_fn(A) -> int)
    requires
        forall|i: int| 0 <= i < s.len() ==> f(s[i]) == 0,
    ensures
        sum_by(s, f) == 0,
    decreases s.len(),
{
    if s.len() > 0 {
        lemma_sum_by_zero(s.drop_last(), f);
    }
}

/// When every contribution but the one at `i` is zero, the sum is that
/// single contribution.
pub proof fn lemma_sum_by_single<A>(s: Seq<A>, i: int, f: spec_fn(A) -> int)
    requires
        0 <= i < s.len(),
        forall|j: int| 0 <= j < s.len() && j != i ==> f(s[j]) == 0,
    ensures
        sum_by(s, f) == f(s[i]),
{
    lemma_sum_by_remove(s, i, f);
    lemma_sum_by_zero(s.remove(i), f);
}

/// Largest contribution of `f` over the elements of `s`, at least zero.
pub open spec fn max_by<A>(s: Seq<A>, f: spec_fn(A) -> int) -> int
    decreases s.len(),
{
    if s.len() == 0 {
        0
    } else {
        let m = max_by(s.drop_last(), f);
        let v = f(s.last());
        if v > m {
            v
        } else {
            m
        }
    }
}

/// A sum of nonnegative contributions is nonnegative.
pub proof fn lemma_sum_by_nonneg<A>(s: Seq<A>, f: spec_fn(A) -> int)
    requires
        forall|i: int| 0 <= i < s.len() ==> f(s[i]) >= 0,
    ensures
        sum_by(s, f) >= 0,
    decreases s.len(),
{
    if s.len() > 0 {
        lemma_sum_by_nonneg(s.drop_last(), f);
    }
}

/// When every contribution is nonnegative, each single contribution is
/// bounded by the whole sum.
pub proof fn lemma_sum_by_element_bound<A>(s: Seq<A>, i: int, f: spec_fn(A) -> int)
    requires
        0 <= i < s.len(),
        forall|j: int| 0 <= j < s.len() ==> f(s[j]) >= 0,
    ensures
        f(s[i]) <= sum_by(s, f),
{
    lemma_sum_by_remove(s, i, f);
    assert(forall|j: int| 0 <= j < s.remove(i).len() ==> f(#[trigger] s.remove(i)[j]) >= 0);
    lemma_sum_by_nonneg(s.remove(i), f);
}

} // verus!
