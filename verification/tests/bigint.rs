//! Integers of any size.

use cairo_vm_core::bigint::BigInt;
use std::collections::HashSet;

fn n(value: i64) -> BigInt {
    BigInt::from_i64(value)
}

/// 2^64, which no machine integer of 64 bits holds.
fn two_to_64() -> BigInt {
    n(i64::MAX).plus(&n(1)).times(&n(2))
}

#[test]
fn sums_differences_and_products_do_not_overflow() {
    assert_eq!(two_to_64().to_decimal(), "18446744073709551616");
    assert_eq!(two_to_64().minus(&n(1)).to_decimal(), "18446744073709551615");
    assert_eq!(n(5).minus(&two_to_64()).to_decimal(), "-18446744073709551611");
    assert_eq!(
        two_to_64().times(&two_to_64()).to_decimal(),
        "340282366920938463463374607431768211456"
    );
    assert_eq!(n(-7).times(&n(6)), n(-42));
}

#[test]
fn quotients_are_rounded_toward_zero() {
    assert_eq!(n(7).quotient(&n(2)), n(3));
    assert_eq!(n(-7).quotient(&n(2)), n(-3));
    assert_eq!(n(7).quotient(&n(-2)), n(-3));
    assert_eq!(n(-7).quotient(&n(-2)), n(3));
}

#[test]
fn multiples_are_told() {
    assert!(n(-6).is_multiple_of(&n(3)));
    assert!(n(6).is_multiple_of(&n(-3)));
    assert!(n(0).is_multiple_of(&n(3)));
    assert!(!n(-7).is_multiple_of(&n(3)));
}

#[test]
fn quotients_solve_their_equation_modulo_a_number() {
    assert_eq!(n(4).mod_quotient(&n(2), &n(17)), Some(n(2)));
    assert_eq!(n(7).mod_quotient(&n(2), &n(17)), Some(n(12)));
    assert_eq!(n(7).mod_quotient(&n(-2), &n(17)), Some(n(5)));
    assert_eq!(n(-7).mod_quotient(&n(2), &n(17)), Some(n(5)));
    assert_eq!(n(7).mod_quotient(&n(2), &n(-17)), Some(n(-5)));
    assert_eq!(n(7).mod_quotient(&n(-2), &n(1)), Some(n(0)));
    assert_eq!(n(4).mod_quotient(&n(7), &n(15)), Some(n(7)));
}

#[test]
fn only_what_has_an_inverse_divides() {
    assert_eq!(n(4).mod_quotient(&n(0), &n(17)), None);
    assert_eq!(n(4).mod_quotient(&n(34), &n(17)), None);
    assert_eq!(n(12).mod_quotient(&n(6), &n(15)), None);
}

#[test]
fn remainders_have_the_sign_of_the_dividend() {
    assert_eq!(n(7).remainder(&n(3)), n(1));
    assert_eq!(n(-7).remainder(&n(3)), n(-1));
    assert_eq!(n(7).remainder(&n(-3)), n(1));
    assert_eq!(n(-7).remainder(&n(-3)), n(-1));
}

#[test]
fn mod_floor_has_the_sign_of_the_modulus() {
    assert_eq!(n(7).mod_floor(&n(3)), n(1));
    assert_eq!(n(-7).mod_floor(&n(3)), n(2));
    assert_eq!(n(7).mod_floor(&n(-3)), n(-2));
    assert_eq!(n(-7).mod_floor(&n(-3)), n(-1));
    assert_eq!(n(6).mod_floor(&n(-3)), n(0));
}

#[test]
fn signs_are_told() {
    assert!(n(-1).is_negative());
    assert!(!n(0).is_negative());
    assert!(!n(128).is_negative());
    assert!(n(0).is_zero());
    assert!(!n(256).is_zero());
}

#[test]
fn conversions_refuse_what_does_not_fit() {
    assert_eq!(n(i64::MIN).to_i64(), Some(i64::MIN));
    assert_eq!(n(i64::MAX).to_i64(), Some(i64::MAX));
    assert_eq!(n(i64::MAX).plus(&n(1)).to_i64(), None);
    assert_eq!(n(i64::MIN).minus(&n(1)).to_i64(), None);
    assert_eq!(n(-1).to_usize(), None);
    assert_eq!(n(77).to_usize(), Some(77));
    assert_eq!(BigInt::from_usize(usize::MAX).to_usize(), Some(usize::MAX));
    assert_eq!(BigInt::from_usize(usize::MAX).plus(&n(1)).to_usize(), None);
}

#[test]
fn decimal_shows_the_sign() {
    assert_eq!(n(0).to_decimal(), "0");
    assert_eq!(n(1000).to_decimal(), "1000");
    assert_eq!(n(-120).to_decimal(), "-120");
}

#[test]
fn bytes_are_cut_to_the_shortest_form() {
    assert_eq!(BigInt::from_signed_bytes_le(&[]), n(0));
    assert_eq!(BigInt::from_signed_bytes_le(&[5, 0, 0]), n(5));
    assert_eq!(BigInt::from_signed_bytes_le(&[0x80, 0xff, 0xff]), n(-128));
    assert_eq!(BigInt::from_signed_bytes_le(&[0x80, 0]), n(128));
    assert_eq!(n(128).signed_bytes_le(), &[0x80, 0]);
    assert_eq!(n(-128).signed_bytes_le(), &[0x80]);
    assert_eq!(n(0).signed_bytes_le(), &[0]);
}

#[test]
fn equal_integers_hash_alike() {
    let mut seen = HashSet::new();
    assert!(seen.insert(BigInt::from_signed_bytes_le(&[1, 0, 0, 0])));
    assert!(!seen.insert(n(3).minus(&n(2))));
    assert!(seen.insert(n(-1)));
    assert_eq!(n(9).clone(), n(9));
    assert_ne!(n(9), n(-9));
}
