//! Tests of the fixed-point coordinate type.

use galago::Num;

#[test]
fn constructors_and_range() {
    assert_eq!(Num::zero().to_billionths(), 0);
    assert_eq!(Num::from_int(3).unwrap().to_billionths(), 3_000_000_000);
    assert_eq!(Num::from_billionths(123).unwrap().to_billionths(), 123);
    assert!(Num::from_int(10_000_000_000).is_none());
    assert!(Num::from_billionths(9_000_000_000_000_000_000).is_some());
}

#[test]
fn checked_arithmetic() {
    let a = Num::from_int(2).unwrap();
    let b = Num::from_int(3).unwrap();
    assert_eq!(a.checked_add(b).unwrap().to_billionths(), 5_000_000_000);
    assert_eq!(a.checked_sub(b).unwrap().to_billionths(), -1_000_000_000);
    assert_eq!(a.checked_mul(b).unwrap().to_billionths(), 6_000_000_000);
    assert_eq!(a.neg().to_billionths(), -2_000_000_000);
    assert_eq!(a.neg().abs().to_billionths(), 2_000_000_000);
    let big = Num::from_billionths(9_000_000_000_000_000_000).unwrap();
    assert!(big.checked_add(Num::from_billionths(1).unwrap()).is_none());
    assert!(big.checked_mul(Num::from_int(2).unwrap()).is_none());
}

#[test]
fn multiplication_rounds_half_away() {
    let tiny = Num::from_billionths(1).unwrap();
    let half = Num::from_billionths(500_000_000).unwrap();
    assert_eq!(tiny.checked_mul(half).unwrap().to_billionths(), 1);
    assert_eq!(tiny.neg().checked_mul(half).unwrap().to_billionths(), -1);
}

#[test]
fn rounding_places() {
    let v = Num::from_billionths(1_250_000_000).unwrap();
    assert_eq!(v.round_places(1).to_billionths(), 1_300_000_000);
    assert_eq!(v.neg().round_places(1).to_billionths(), -1_300_000_000);
    assert_eq!(v.round_places(0).to_billionths(), 1_000_000_000);
    assert_eq!(v.round_places(9).to_billionths(), 1_250_000_000);
    assert_eq!(v.round_places(20).to_billionths(), 1_250_000_000);
}
