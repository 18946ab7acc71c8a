//! The mathematical model: divisibility, common divisors, and the greatest
//! common divisor of two natural numbers, with the laws it obeys.

use vstd::prelude::*;

verus! {

/// `d` is positive and divides `n` evenly. Every positive number divides 0.
pub open spec fn divides(d: nat, n: nat) -> bool {
    d != 0 && n % d == 0
}

/// `d` divides both `a` and `b`.
pub open spec fn is_common_divisor(d: nat, a: nat, b: nat) -> bool {
    divides(d, a) && divides(d, b)
}

/// `g` is a common divisor of `a` and `b`, and no common divisor is larger.
pub open spec fn is_greatest_common_divisor(g: nat, a: nat, b: nat) -> bool {
    &&& is_common_divisor(g, a, b)
    &&& forall|d: nat| is_common_divisor(d, a, b) ==> d <= g
}

/// The greatest common divisor of `a` and `b`. It is meaningful when at least
/// one of the two is positive: see [`lemma_gcd_is_greatest`].
pub open spec fn greatest_common_divisor(a: nat, b: nat) -> nat {
    choose|g: nat| is_greatest_common_divisor(g, a, b)
}

/// The divisors of `g` are exactly the common divisors of `a` and `b`.
pub open spec fn generates_common_divisors(g: nat, a: nat, b: nat) -> bool {
    &&& g != 0
    &&& forall|d: nat| divides(d, g) <==> is_common_divisor(d, a, b)
}

/// A divisor of a positive number is no larger than that number.
pub proof fn lemma_divisor_bounded(d: nat, n: nat)
    requires
        divides(d, n),
        n != 0,
    ensures
        d <= n,
{
    if d > n {
        vstd::arithmetic::div_mod::lemma_small_mod(n, d);
    }
}

/// Every positive number divides itself.
pub proof fn lemma_divides_self(n: nat)
    requires
        n != 0,
    ensures
        divides(n, n),
{
    vstd::arithmetic::div_mod::lemma_mod_self_0(n as int);
}

/// Taking `b` modulo a multiple `a` of `d` does not change whether `d`
/// divides it.
pub proof fn lemma_divides_remainder(d: nat, a: nat, b: nat)
    requires
        divides(d, a),
        a != 0,
    ensures
        divides(d, b) <==> divides(d, b % a),
{
    let k = a / d;
    let q = b / a;
    let r = b % a;
    vstd::arithmetic::div_mod::lemma_fundamental_div_mod(a as int, d as int);
    vstd::arithmetic::div_mod::lemma_fundamental_div_mod(b as int, a as int);
    assert(a == d * k);
    assert(b == a * q + r);
    assert(b == d * (k * q) + r) by (nonlinear_arith)
        requires
            a == d * k,
            b == a * q + r,
    ;
    vstd::arithmetic::div_mod::lemma_mod_multiples_vanish((k * q) as int, r as int, d as int);
}

/// A number whose divisors are exactly the common divisors of `a` and `b` is
/// their greatest common divisor.
pub proof fn lemma_generator_is_greatest(g: nat, a: nat, b: nat)
    requires
        generates_common_divisors(g, a, b),
    ensures
        is_greatest_common_divisor(g, a, b),
{
    lemma_divides_self(g);
    assert forall|d: nat| is_common_divisor(d, a, b) implies d <= g by {
        assert(divides(d, g));
        lemma_divisor_bounded(d, g);
    }
}

/// Two numbers have at most one greatest common divisor.
pub proof fn lemma_greatest_is_unique(g: nat, h: nat, a: nat, b: nat)
    requires
        is_greatest_common_divisor(g, a, b),
        is_greatest_common_divisor(h, a, b),
    ensures
        g == h,
{
}

/// Replacing `b` by its remainder modulo `a` keeps the common divisors.
pub proof fn lemma_common_divisors_remainder(a: nat, b: nat)
    requires
        a != 0,
    ensures
        forall|d: nat| is_common_divisor(d, a, b) <==> is_common_divisor(d, a, b % a),
{
    assert forall|d: nat| is_common_divisor(d, a, b) <==> is_common_divisor(d, a, b % a) by {
        if divides(d, a) {
            lemma_divides_remainder(d, a, b);
        }
    }
}

/// Whenever `a` is positive, some number has exactly the common divisors of
/// `a` and `b` as its divisors. The proof follows the Euclidean algorithm.
pub proof fn lemma_generator_exists(a: nat, b: nat) -> (g: nat)
    requires
        a != 0,
    ensures
        generates_common_divisors(g, a, b),
    decreases b,
{
    if b == 0 {
        assert forall|d: nat| divides(d, a) <==> is_common_divisor(d, a, b) by {
            if d != 0 {
                assert(0nat % d == 0) by {
                    vstd::arithmetic::div_mod::lemma_small_mod(0, d);
                }
            }
        }
        a
    } else {
        vstd::arithmetic::div_mod::lemma_mod_bound(a as int, b as int);
        let g = lemma_generator_exists(b, a % b);
        lemma_common_divisors_remainder(b, a);
        assert forall|d: nat| divides(d, g) <==> is_common_divisor(d, a, b) by {
            assert(is_common_divisor(d, b, a) <==> is_common_divisor(d, b, a % b));
        }
        g
    }
}

/// Of two numbers that are not both zero, `greatest_common_divisor` is the
/// greatest common divisor, and its divisors are their common divisors.
pub proof fn lemma_gcd_is_greatest(a: nat, b: nat)
    requires
        a != 0 || b != 0,
    ensures
        is_greatest_common_divisor(greatest_common_divisor(a, b), a, b),
        generates_common_divisors(greatest_common_divisor(a, b), a, b),
{
    let g = if a != 0 {
        lemma_generator_exists(a, b)
    } else {
        let h = lemma_generator_exists(b, a);
        assert forall|d: nat| divides(d, h) <==> is_common_divisor(d, a, b) by {
            assert(is_common_divisor(d, b, a) <==> is_common_divisor(d, a, b));
        }
        h
    };
    lemma_generator_is_greatest(g, a, b);
    lemma_greatest_is_unique(g, greatest_common_divisor(a, b), a, b);
}

/// The greatest common divisor does not depend on the order of its operands.
pub proof fn lemma_gcd_commutative(a: nat, b: nat)
    requires
        a != 0 || b != 0,
    ensures
        greatest_common_divisor(a, b) == greatest_common_divisor(b, a),
{
    lemma_gcd_is_greatest(a, b);
    lemma_gcd_is_greatest(b, a);
    let g = greatest_common_divisor(a, b);
    let h = greatest_common_divisor(b, a);
    assert(is_common_divisor(g, b, a));
    assert(is_common_divisor(h, a, b));
}

/// The greatest common divisor of a positive number and 0 is that number.
pub proof fn lemma_gcd_zero(a: nat)
    requires
        a != 0,
    ensures
        greatest_common_divisor(a, 0) == a,
{
    lemma_gcd_is_greatest(a, 0);
    lemma_divides_self(a);
    vstd::arithmetic::div_mod::lemma_small_mod(0, a);
    assert(is_common_divisor(a, a, 0));
    lemma_divisor_bounded(greatest_common_divisor(a, 0), a);
}

/// The step of the Euclidean algorithm: replacing `b` by its remainder modulo
/// `a` keeps the greatest common divisor.
pub proof fn lemma_gcd_remainder(a: nat, b: nat)
    requires
        a != 0,
    ensures
        greatest_common_divisor(a, b) == greatest_common_divisor(a, b % a),
{
    lemma_gcd_is_greatest(a, b);
    lemma_gcd_is_greatest(a, b % a);
    lemma_common_divisors_remainder(a, b);
    let g = greatest_common_divisor(a, b);
    let h = greatest_common_divisor(a, b % a);
    assert(is_common_divisor(g, a, b % a));
    assert(is_common_divisor(h, a, b));
}

/// The greatest common divisor of two positive numbers is positive and
/// divides each of them evenly.
pub proof fn lemma_gcd_divides_operands(a: nat, b: nat)
    requires
        a != 0,
        b != 0,
    ensures
        greatest_common_divisor(a, b) != 0,
        a % greatest_common_divisor(a, b) == 0,
        b % greatest_common_divisor(a, b) == 0,
{
    lemma_gcd_is_greatest(a, b);
}

/// No common divisor of two positive numbers exceeds their greatest common
/// divisor; each one even divides it.
pub proof fn lemma_gcd_maximal(a: nat, b: nat, d: nat)
    requires
        a != 0,
        b != 0,
        d != 0,
        a % d == 0,
        b % d == 0,
    ensures
        d <= greatest_common_divisor(a, b),
        greatest_common_divisor(a, b) % d == 0,
{
    lemma_gcd_is_greatest(a, b);
    assert(is_common_divisor(d, a, b));
    assert(divides(d, greatest_common_divisor(a, b)));
}

/// The greatest common divisor of a positive number with itself is that
/// number.
pub proof fn lemma_gcd_self(a: nat)
    requires
        a != 0,
    ensures
        greatest_common_divisor(a, a) == a,
{
    lemma_gcd_is_greatest(a, a);
    lemma_divides_self(a);
    assert(is_common_divisor(a, a, a));
    lemma_divisor_bounded(greatest_common_divisor(a, a), a);
}

/// Three positive numbers may be combined in either grouping.
pub proof fn lemma_gcd_associative(a: nat, b: nat, c: nat)
    requires
        a != 0,
        b != 0,
        c != 0,
    ensures
        greatest_common_divisor(greatest_common_divisor(a, b), c) == greatest_common_divisor(
            a,
            greatest_common_divisor(b, c),
        ),
{
    let ab = greatest_common_divisor(a, b);
    let bc = greatest_common_divisor(b, c);
    lemma_gcd_is_greatest(a, b);
    lemma_gcd_is_greatest(b, c);
    lemma_gcd_is_greatest(ab, c);
    lemma_gcd_is_greatest(a, bc);
    let left = greatest_common_divisor(ab, c);
    let right = greatest_common_divisor(a, bc);
    assert forall|d: nat| divides(d, left) <==> divides(d, right) by {
        assert(divides(d, left) <==> is_common_divisor(d, ab, c));
        assert(divides(d, ab) <==> is_common_divisor(d, a, b));
        assert(divides(d, right) <==> is_common_divisor(d, a, bc));
        assert(divides(d, bc) <==> is_common_divisor(d, b, c));
    }
    lemma_divides_self(left);
    lemma_divides_self(right);
    lemma_divisor_bounded(left, right);
    lemma_divisor_bounded(right, left);
}

} // verus!
