//! Sums of a natural-valued function over a finite set.
//!
//! The total supply of a ledger is such a sum: the balance of every account
//! that holds anything. The lemmas here are what the ledger needs to show
//! that a credit, a debit and a transfer change that sum as they should.

use vstd::prelude::*;

verus! {

/// The sum of `f(a)` over the members `a` of a finite set `s`.
/// An infinite set sums to 0.
pub open spec fn sum_over<A>(s: Set<A>, f: spec_fn(A) -> nat) -> nat
    decreases s.len(),
    when s.finite()
{
    if s.len() == 0 {
        0
    } else {
        let a = s.choose();
        f(a) + sum_over(s.remove(a), f)
    }
}

/// The sum over the empty set is 0.
pub proof fn lemma_sum_empty<A>(f: spec_fn(A) -> nat)
    ensures
        sum_over(Set::<A>::empty(), f) == 0,
{
}

/// Any member can be taken out of the sum first, not only the chosen one.
pub proof fn lemma_sum_remove<A>(s: Set<A>, f: spec_fn(A) -> nat, a: A)
    requires
        s.finite(),
        s.contains(a),
    ensures
        sum_over(s, f) == f(a) + sum_over(s.remove(a), f),
    decreases s.len(),
{
    let c = s.choose();
    if c != a {
        lemma_sum_remove(s.remove(c), f, a);
        lemma_sum_remove(s.remove(a), f, c);
        assert(s.remove(c).remove(a) =~= s.remove(a).remove(c));
    }
}

/// Two functions that agree on every member have the same sum.
pub proof fn lemma_sum_agree<A>(s: Set<A>, f: spec_fn(A) -> nat, g: spec_fn(A) -> nat)
    requires
        s.finite(),
        forall|a: A| s.contains(a) ==> #[trigger] f(a) == g(a),
    ensures
        sum_over(s, f) == sum_over(s, g),
    decreases s.len(),
{
    if s.len() != 0 {
        let c = s.choose();
        lemma_sum_agree(s.remove(c), f, g);
    }
}

/// Members on which `f` is 0 add nothing: the sum over `s` is the sum over
/// any subset that holds every member with a non-zero value.
pub proof fn lemma_sum_support<A>(s: Set<A>, t: Set<A>, f: spec_fn(A) -> nat)
    requires
        s.finite(),
        t.subset_of(s),
        forall|a: A| s.contains(a) && !t.contains(a) ==> #[trigger] f(a) == 0,
    ensures
        t.finite(),
        sum_over(t, f) == sum_over(s, f),
    decreases s.len(),
{
    vstd::set_lib::lemma_len_subset(t, s);
    if s.len() != 0 {
        let c = s.choose();
        if t.contains(c) {
            lemma_sum_support(s.remove(c), t.remove(c), f);
            lemma_sum_remove(t, f, c);
        } else {
            lemma_sum_support(s.remove(c), t, f);
        }
    } else {
        assert(t =~= Set::<A>::empty());
    }
}

/// Changing the value at one member by `delta` changes the sum by `delta`.
pub proof fn lemma_sum_update<A>(
    s: Set<A>,
    f: spec_fn(A) -> nat,
    g: spec_fn(A) -> nat,
    a: A,
    delta: int,
)
    requires
        s.finite(),
        s.contains(a),
        g(a) == f(a) + delta,
        forall|b: A| s.contains(b) && b != a ==> #[trigger] g(b) == f(b),
    ensures
        sum_over(s, g) == sum_over(s, f) + delta,
{
    lemma_sum_remove(s, f, a);
    lemma_sum_remove(s, g, a);
    lemma_sum_agree(s.remove(a), f, g);
}

/// No member's value exceeds the sum.
pub proof fn lemma_sum_bounds_member<A>(s: Set<A>, f: spec_fn(A) -> nat, a: A)
    requires
        s.finite(),
        s.contains(a),
    ensures
        f(a) <= sum_over(s, f),
{
    lemma_sum_remove(s, f, a);
}

} // verus!
