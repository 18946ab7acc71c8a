//! The Euclidean algorithm on two numbers, and its fold over a sequence.

use vstd::prelude::*;
use crate::divisor::{
    greatest_common_divisor, is_greatest_common_divisor, lemma_divisor_bounded,
    lemma_gcd_commutative, lemma_gcd_is_greatest, lemma_gcd_remainder, lemma_gcd_zero,
};
use crate::sequence::{
    all_positive, fold_greatest_common_divisor, is_greatest_divisor_of_all,
    lemma_fold_is_greatest,
};

verus! {

/// The greatest common divisor of two positive numbers, by the Euclidean
/// algorithm: keep the smaller number first, and replace the larger by its
/// remainder modulo the smaller until that remainder is zero.
///
/// Both operands must be positive. The result divides both, and no common
/// divisor is larger.
pub fn gcd(n: u64, m: u64) -> (g: u64)
    requires
        n != 0,
        m != 0,
    ensures
        g == greatest_common_divisor(n as nat, m as nat),
        is_greatest_common_divisor(g as nat, n as nat, m as nat),
        n % g == 0,
        m % g == 0,
        1 <= g <= n,
        g <= m,
{
    let ghost a = n as nat;
    let ghost b = m as nat;
    let mut n: u64 = n;
    let mut m: u64 = m;
    while m != 0
        invariant
            n != 0,
            greatest_common_divisor(n as nat, m as nat) == greatest_common_divisor(a, b),
        decreases m,
    {
        if m < n {
            proof {
                lemma_gcd_commutative(n as nat, m as nat);
            }
            let t: u64 = m;
            m = n;
            n = t;
        }
        proof {
            lemma_gcd_remainder(n as nat, m as nat);
        }
        m = m % n;
    }
    proof {
        lemma_gcd_zero(n as nat);
        lemma_gcd_is_greatest(a, b);
        lemma_divisor_bounded(n as nat, a);
        lemma_divisor_bounded(n as nat, b);
    }
    n
}

/// The greatest common divisor of a non-empty sequence: start from the first
/// element and combine it with each later element in turn by [`gcd`].
///
/// A lone element comes back as it is, whatever its value. From two elements
/// on every element enters a pairwise step, so every element must be
/// positive. On positive elements the result divides each of them, and no
/// number that divides each of them is larger.
pub fn fold_gcd(numbers: &[u64]) -> (g: u64)
    requires
        numbers.len() > 0,
        numbers.len() > 1 ==> all_positive(numbers@),
    ensures
        g == fold_greatest_common_divisor(numbers@),
        numbers.len() == 1 ==> g == numbers[0],
        all_positive(numbers@) ==> is_greatest_divisor_of_all(g as nat, numbers@),
{
    let mut d: u64 = numbers[0];
    for i in 1..numbers.len()
        invariant
            numbers.len() > 1 ==> all_positive(numbers@),
            numbers.len() > 1 ==> d != 0,
            d == fold_greatest_common_divisor(numbers@.take(i as int)),
    {
        proof {
            let next = numbers@.take(i + 1);
            assert(next.drop_last() =~= numbers@.take(i as int));
            assert(next.last() == numbers[i as int]);
        }
        d = gcd(d, numbers[i]);
    }
    proof {
        assert(numbers@.take(numbers.len() as int) =~= numbers@);
        if all_positive(numbers@) {
            lemma_fold_is_greatest(numbers@);
        }
    }
    d
}

} // verus!
