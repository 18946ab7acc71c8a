//! The greatest common divisor of a whole sequence: what it is, and the
//! left-to-right fold that reaches it.

use vstd::prelude::*;
use crate::divisor::{
    divides, greatest_common_divisor, is_common_divisor, lemma_divides_self,
    lemma_divisor_bounded, lemma_gcd_is_greatest,
};

verus! {

/// No element of `s` is zero.
pub open spec fn all_positive(s: Seq<u64>) -> bool {
    forall|i: int| 0 <= i < s.len() ==> s[i] != 0
}

/// `d` is positive and divides every element of `s`.
pub open spec fn divides_all(d: nat, s: Seq<u64>) -> bool {
    &&& d != 0
    &&& forall|i: int| 0 <= i < s.len() ==> #[trigger] (s[i] as nat) % d == 0
}

/// `g` divides every element of `s`, and nothing larger does.
pub open spec fn is_greatest_divisor_of_all(g: nat, s: Seq<u64>) -> bool {
    &&& divides_all(g, s)
    &&& forall|d: nat| divides_all(d, s) ==> d <= g
}

/// The fold of the pairwise greatest common divisor over `s`, from the left:
/// the first element alone, then combined with each later element in turn.
/// An empty sequence folds to 0.
pub open spec fn fold_greatest_common_divisor(s: Seq<u64>) -> nat
    decreases s.len(),
{
    if s.len() == 0 {
        0
    } else if s.len() == 1 {
        s[0] as nat
    } else {
        greatest_common_divisor(fold_greatest_common_divisor(s.drop_last()), s.last() as nat)
    }
}

/// The fold over a non-empty sequence of positive numbers is positive, and
/// its divisors are exactly the numbers that divide every element.
pub proof fn lemma_fold_divisors(s: Seq<u64>)
    requires
        s.len() > 0,
        all_positive(s),
    ensures
        fold_greatest_common_divisor(s) != 0,
        forall|d: nat| divides(d, fold_greatest_common_divisor(s)) <==> divides_all(d, s),
    decreases s.len(),
{
    let f = fold_greatest_common_divisor(s);
    if s.len() == 1 {
        assert forall|d: nat| divides(d, f) <==> divides_all(d, s) by {
            if divides_all(d, s) {
                assert((s[0] as nat) % d == 0);
            }
        }
    } else {
        let init = s.drop_last();
        let e = fold_greatest_common_divisor(init);
        let x = s.last() as nat;
        assert(all_positive(init));
        lemma_fold_divisors(init);
        lemma_gcd_is_greatest(e, x);
        assert forall|d: nat| divides(d, f) <==> divides_all(d, s) by {
            assert(divides(d, f) <==> is_common_divisor(d, e, x));
            assert(divides(d, e) <==> divides_all(d, init));
            if divides_all(d, s) {
                assert forall|i: int| 0 <= i < init.len() implies #[trigger] (init[i] as nat) % d
                    == 0 by {
                    assert((s[i] as nat) % d == 0);
                }
                assert((s[s.len() - 1] as nat) % d == 0);
            }
            if divides_all(d, init) && divides(d, x) {
                assert forall|i: int| 0 <= i < s.len() implies #[trigger] (s[i] as nat) % d
                    == 0 by {
                    if i < init.len() {
                        assert((init[i] as nat) % d == 0);
                    }
                }
            }
        }
    }
}

/// The fold over a non-empty sequence of positive numbers divides every
/// element, and it is the largest number that does.
pub proof fn lemma_fold_is_greatest(s: Seq<u64>)
    requires
        s.len() > 0,
        all_positive(s),
    ensures
        is_greatest_divisor_of_all(fold_greatest_common_divisor(s), s),
{
    let f = fold_greatest_common_divisor(s);
    lemma_fold_divisors(s);
    lemma_divides_self(f);
    assert(divides_all(f, s));
    assert forall|d: nat| divides_all(d, s) implies d <= f by {
        assert(divides(d, f));
        lemma_divisor_bounded(d, f);
    }
}

/// Folding a single number gives that number back.
pub proof fn lemma_fold_single(x: u64)
    ensures
        fold_greatest_common_divisor(seq![x]) == x,
{
}

/// The fold depends only on which numbers occur, not on their order nor on
/// how often each occurs.
pub proof fn lemma_fold_same_elements(s: Seq<u64>, t: Seq<u64>)
    requires
        s.len() > 0,
        t.len() > 0,
        all_positive(s),
        all_positive(t),
        forall|i: int| 0 <= i < s.len() ==> t.contains(#[trigger] s[i]),
        forall|j: int| 0 <= j < t.len() ==> s.contains(#[trigger] t[j]),
    ensures
        fold_greatest_common_divisor(s) == fold_greatest_common_divisor(t),
{
    let f = fold_greatest_common_divisor(s);
    let h = fold_greatest_common_divisor(t);
    lemma_fold_is_greatest(s);
    lemma_fold_is_greatest(t);
    assert forall|j: int| 0 <= j < t.len() implies #[trigger] (t[j] as nat) % f == 0 by {
        assert(s.contains(t[j]));
        let i = choose|i: int| 0 <= i < s.len() && s[i] == t[j];
        assert((s[i] as nat) % f == 0);
    }
    assert(divides_all(f, t));
    assert forall|i: int| 0 <= i < s.len() implies #[trigger] (s[i] as nat) % h == 0 by {
        assert(t.contains(s[i]));
        let j = choose|j: int| 0 <= j < t.len() && t[j] == s[i];
        assert((t[j] as nat) % h == 0);
    }
    assert(divides_all(h, s));
}

} // verus!
