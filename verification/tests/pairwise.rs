use gcd::euclid::gcd;

#[test]
fn test_gcd() {
    assert_eq!(gcd(14, 15), 1);
    assert_eq!(gcd(2 * 3 * 5 * 11 * 17, 3 * 7 * 11 * 13 * 19), 3 * 11);
}

#[test]
fn gcd_of_product_of_primes_is_exact() {
    assert_eq!(gcd(5610, 57057), 33);
    assert_eq!(gcd(57057, 5610), 33);
}

#[test]
fn gcd_of_one_and_anything_is_one() {
    assert_eq!(gcd(1, 1), 1);
    assert_eq!(gcd(1, 977), 1);
    assert_eq!(gcd(977, 1), 1);
    assert_eq!(gcd(1, u64::MAX), 1);
}

#[test]
fn gcd_when_one_operand_divides_the_other() {
    assert_eq!(gcd(6, 36), 6);
    assert_eq!(gcd(36, 6), 6);
    assert_eq!(gcd(25, 100), 25);
}

#[test]
fn gcd_takes_first_operand_larger_or_smaller() {
    assert_eq!(gcd(48, 18), 6);
    assert_eq!(gcd(18, 48), 6);
    assert_eq!(gcd(1071, 462), 21);
    assert_eq!(gcd(462, 1071), 21);
}

#[test]
fn gcd_is_commutative() {
    let values: [u64; 8] = [1, 2, 12, 18, 35, 97, 360, 1001];
    for &a in values.iter() {
        for &b in values.iter() {
            assert_eq!(gcd(a, b), gcd(b, a));
        }
    }
}

#[test]
fn gcd_divides_both_operands() {
    let values: [u64; 8] = [1, 2, 12, 18, 35, 97, 360, 1001];
    for &a in values.iter() {
        for &b in values.iter() {
            let g = gcd(a, b);
            assert_ne!(g, 0);
            assert_eq!(a % g, 0);
            assert_eq!(b % g, 0);
        }
    }
}

#[test]
fn gcd_is_the_largest_common_divisor() {
    let values: [u64; 7] = [1, 12, 18, 35, 97, 360, 1001];
    for &a in values.iter() {
        for &b in values.iter() {
            let g = gcd(a, b);
            let smaller = if a < b { a } else { b };
            for d in 1..=smaller {
                if a % d == 0 && b % d == 0 {
                    assert!(d <= g);
                    assert_eq!(g % d, 0);
                }
            }
        }
    }
}

#[test]
fn gcd_of_a_number_with_itself() {
    for a in [1u64, 2, 7, 360, 1 << 40, u64::MAX] {
        assert_eq!(gcd(a, a), a);
    }
}

#[test]
fn gcd_at_the_top_of_the_range() {
    assert_eq!(gcd(u64::MAX, u64::MAX - 1), 1);
    assert_eq!(gcd(u64::MAX, 1 << 63), 1);
    assert_eq!(gcd(1 << 63, 1 << 62), 1 << 62);
    assert_eq!(gcd(u64::MAX, 3), 3);
    assert_eq!(gcd(u64::MAX, 5), 5);
}

#[test]
fn gcd_of_consecutive_fibonacci_numbers() {
    assert_eq!(gcd(7540113804746346429, 12200160415121876738), 1);
    assert_eq!(gcd(12200160415121876738, 7540113804746346429), 1);
}

#[test]
fn gcd_keeps_the_remainder_step() {
    let pairs: [(u64, u64); 4] = [(14, 15), (12, 18), (360, 1001), (97, 5)];
    for &(a, b) in pairs.iter() {
        if b % a != 0 {
            assert_eq!(gcd(a, b), gcd(a, b % a));
        } else {
            assert_eq!(gcd(a, b), a);
        }
    }
}

#[test]
fn gcd_may_be_grouped_either_way() {
    let values: [u64; 6] = [4, 12, 18, 35, 360, 1001];
    for &a in values.iter() {
        for &b in values.iter() {
            for &c in values.iter() {
                assert_eq!(gcd(gcd(a, b), c), gcd(a, gcd(b, c)));
            }
        }
    }
}
