//! Sums over a sequence of slots, and the facts about them that the
//! inventory proofs use.

use vstd::prelude::*;

verus! {

/// Sum of `f` over every element of `s`, folded from the back.
pub open spec fn total<T>(s: Seq<T>, f: spec_fn(T) -> nat) -> nat
    decreases s.len(),
{
    if s.len() == 0 {
        0
    } else {
        total(s.drop_last(), f) + f(s.last())
    }
}

/// Extending a prefix by one element adds that element's term.
pub proof fn lemma_total_take_step<T>(s: Seq<T>, f: spec_fn(T) -> nat, k: int)
    requires
        0 <= k < s.len(),
    ensures
        total(s.take(k + 1), f) == total(s.take(k), f) + f(s[k]),
{
    assert(s.take(k + 1).drop_last() =~= s.take(k));
}

/// The whole sequence is its own full-length prefix.
pub proof fn lemma_total_take_all<T>(s: Seq<T>, f: spec_fn(T) -> nat)
    ensures
        total(s.take(s.len() as int), f) == total(s, f),
{
    assert(s.take(s.len() as int) =~= s);
}

/// Replacing one element changes the sum by the difference of its terms.
pub proof fn lemma_total_update<T>(s: Seq<T>, f: spec_fn(T) -> nat, i: int, v: T)
    requires
        0 <= i < s.len(),
    ensures
        total(s.update(i, v), f) == total(s, f) - f(s[i]) + f(v),
    decreases s.len(),
{
    let u = s.update(i, v);
    if i == s.len() - 1 {
        assert(u.drop_last() =~= s.drop_last());
    } else {
        assert(u.drop_last() =~= s.drop_last().update(i, v));
        lemma_total_update(s.drop_last(), f, i, v);
    }
}

/// A prefix never sums to more than the whole sequence.
pub proof fn lemma_total_prefix_le<T>(s: Seq<T>, f: spec_fn(T) -> nat, k: int)
    requires
        0 <= k <= s.len(),
    ensures
        total(s.take(k), f) <= total(s, f),
    decreases s.len() - k,
{
    if k == s.len() {
        lemma_total_take_all(s, f);
    } else {
        lemma_total_take_step(s, f, k);
        lemma_total_prefix_le(s, f, k + 1);
    }
}

/// The sum of two term functions is the sum of their sums.
pub proof fn lemma_total_add<T>(s: Seq<T>, f: spec_fn(T) -> nat, g: spec_fn(T) -> nat, h: spec_fn(T) -> nat)
    requires
        forall|x: T| #[trigger] h(x) == f(x) + g(x),
    ensures
        total(s, h) == total(s, f) + total(s, g),
    decreases s.len(),
{
    if s.len() > 0 {
        lemma_total_add(s.drop_last(), f, g, h);
    }
}

/// Scaling every term by `c` scales the sum by `c`.
pub proof fn lemma_total_scale<T>(s: Seq<T>, f: spec_fn(T) -> nat, g: spec_fn(T) -> nat, c: nat)
    requires
        forall|x: T| #[trigger] g(x) == c * f(x),
    ensures
        total(s, g) == c * total(s, f),
    decreases s.len(),
{
    if s.len() > 0 {
        lemma_total_scale(s.drop_last(), f, g, c);
        let a = total(s.drop_last(), f);
        let b = f(s.last());
        assert(g(s.last()) == c * b);
        assert(c * (a + b) == c * a + c * b) by (nonlinear_arith);
    } else {
        assert(c * 0 == 0) by (nonlinear_arith);
    }
}

/// A positive sum has a positive term.
pub proof fn lemma_total_positive<T>(s: Seq<T>, f: spec_fn(T) -> nat) -> (i: int)
    requires
        total(s, f) > 0,
    ensures
        0 <= i < s.len(),
        f(s[i]) > 0,
    decreases s.len(),
{
    if f(s.last()) > 0 {
        (s.len() - 1) as int
    } else {
        let j = lemma_total_positive(s.drop_last(), f);
        assert(s.drop_last()[j] == s[j]);
        j
    }
}

} // verus!
