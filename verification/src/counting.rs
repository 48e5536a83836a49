use vstd::prelude::*;

use crate::ternary::Ternary;

verus! {

/// How many elements of `s` satisfy `p`.
pub open spec fn count_where<A>(s: Seq<A>, p: spec_fn(A) -> bool) -> nat
    decreases s.len(),
{
    if s.len() == 0 {
        0
    } else {
        count_where(s.drop_last(), p) + if p(s.last()) {
            1nat
        } else {
            0nat
        }
    }
}

/// The number of `Pos` digits in `s`.
pub open spec fn count_pos(s: Seq<Ternary>) -> nat {
    count_where(s, |t: Ternary| t == Ternary::Pos)
}

/// The number of digits of `s` that are not `Zero`.
pub open spec fn count_nonzero(s: Seq<Ternary>) -> nat {
    count_where(s, |t: Ternary| t != Ternary::Zero)
}

/// The number of `true` entries of `s`.
pub open spec fn count_true(s: Seq<bool>) -> nat {
    count_where(s, |b: bool| b)
}

/// A sequence of `n` zero digits.
pub open spec fn zeros(n: nat) -> Seq<Ternary> {
    Seq::new(n, |i: int| Ternary::Zero)
}

/// Counting over one more element of a prefix adds one exactly when it satisfies `p`.
pub proof fn lemma_count_prefix_step<A>(s: Seq<A>, p: spec_fn(A) -> bool, i: int)
    requires
        0 <= i < s.len(),
    ensures
        count_where(s.take(i + 1), p) == count_where(s.take(i), p) + if p(s[i]) {
            1nat
        } else {
            0nat
        },
{
    assert(s.take(i + 1).drop_last() =~= s.take(i));
}

/// Counting is the length of vstd's filter: the number of elements that satisfy `p`.
pub proof fn lemma_count_is_filter_len<A>(s: Seq<A>, p: spec_fn(A) -> bool)
    ensures
        count_where(s, p) == s.filter(p).len(),
    decreases s.len(),
{
    reveal(Seq::filter);
    if s.len() > 0 {
        lemma_count_is_filter_len(s.drop_last(), p);
    }
}

/// Each of the named counts is the number of elements that vstd's filter keeps, and a
/// run of zeros is as long as asked and holds nothing but `Zero`.
pub proof fn lemma_named_counts(t: Seq<Ternary>, b: Seq<bool>, n: nat)
    ensures
        count_pos(t) == t.filter(|x: Ternary| x == Ternary::Pos).len(),
        count_nonzero(t) == t.filter(|x: Ternary| x != Ternary::Zero).len(),
        count_true(b) == b.filter(|x: bool| x).len(),
        zeros(n).len() == n,
        forall|i: int| 0 <= i < n ==> #[trigger] zeros(n)[i] == Ternary::Zero,
{
    lemma_count_is_filter_len(t, |x: Ternary| x == Ternary::Pos);
    lemma_count_is_filter_len(t, |x: Ternary| x != Ternary::Zero);
    lemma_count_is_filter_len(b, |x: bool| x);
}

/// The count over two sequences put end to end is the sum of their counts.
pub proof fn lemma_count_concat<A>(a: Seq<A>, b: Seq<A>, p: spec_fn(A) -> bool)
    ensures
        count_where(a + b, p) == count_where(a, p) + count_where(b, p),
    decreases b.len(),
{
    if b.len() == 0 {
        assert(a + b =~= a);
    } else {
        lemma_count_concat(a, b.drop_last(), p);
        assert((a + b).drop_last() =~= a + b.drop_last());
    }
}

/// Changing one element changes the count by the difference of the two elements.
pub proof fn lemma_count_update<A>(s: Seq<A>, p: spec_fn(A) -> bool, i: int, a: A)
    requires
        0 <= i < s.len(),
    ensures
        count_where(s.update(i, a), p) + (if p(s[i]) { 1int } else { 0int }) == count_where(s, p)
            + (if p(a) { 1int } else { 0int }),
    decreases s.len(),
{
    if i == s.len() - 1 {
        assert(s.update(i, a).drop_last() =~= s.drop_last());
    } else {
        lemma_count_update(s.drop_last(), p, i, a);
        assert(s.update(i, a).drop_last() =~= s.drop_last().update(i, a));
    }
}

/// A sequence none of whose elements satisfies `p` counts zero; one all of whose
/// elements do counts its length.
pub proof fn lemma_count_uniform<A>(s: Seq<A>, p: spec_fn(A) -> bool)
    ensures
        (forall|i: int| 0 <= i < s.len() ==> !p(#[trigger] s[i])) ==> count_where(s, p) == 0,
        (forall|i: int| 0 <= i < s.len() ==> p(#[trigger] s[i])) ==> count_where(s, p) == s.len(),
    decreases s.len(),
{
    if s.len() > 0 {
        lemma_count_uniform(s.drop_last(), p);
        assert(forall|i: int|
            0 <= i < s.len() - 1 ==> #[trigger] s.drop_last()[i] == s[i]);
    }
}

} // verus!
