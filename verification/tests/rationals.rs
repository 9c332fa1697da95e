//! The exact rational core: reduction, checked arithmetic, and the
//! overflow-free fraction comparator.

use std::cmp::Ordering;
use unit_algebra::fmt::decimal_string;
use unit_algebra::rat::{compare_frac, rat_make, RAT_BOUND};
use unit_algebra::Rat;

#[test]
fn test_reduction() {
    assert_eq!(Rat::new(2935, 100), Rat::new(587, 20));
    assert_eq!(Rat::new(-42, 100), Rat::new(-21, 50));
    assert_eq!(Rat::new(0, 7), Rat::new(0, 1));
    let r = Rat::new(174, 10);
    assert_eq!((r.num, r.den), (87, 5));
}

#[test]
fn test_checked_ops() {
    let a = Rat::new(1, 3);
    let b = Rat::new(1, 6);
    assert_eq!(a.add(&b).unwrap(), Rat::new(1, 2));
    assert_eq!(a.sub(&b).unwrap(), Rat::new(1, 6));
    assert_eq!(a.mul(&b).unwrap(), Rat::new(1, 18));
    assert_eq!(a.div(&b).unwrap(), Rat::new(2, 1));
    assert_eq!(a.div(&Rat::new(0, 1)), None);
    assert_eq!(a.neg(), Rat::new(-1, 3));
    assert_eq!(Rat::new(-7, 2).abs(), Rat::new(7, 2));
}

#[test]
fn test_out_of_bounds_is_refused() {
    let big = Rat { num: RAT_BOUND, den: 1 };
    assert_eq!(big.mul(&big), None);
    assert_eq!(rat_make(RAT_BOUND + 1, 1), None);
    assert!(rat_make(RAT_BOUND, 1).is_some());
}

#[test]
fn test_compare_frac_exact() {
    // 355/113 < 22/7, a difference of about 1.3e-3 of one part in 791
    assert_eq!(compare_frac(355, 113, 22, 7), Ordering::Less);
    assert_eq!(compare_frac(22, 7, 355, 113), Ordering::Greater);
    assert_eq!(compare_frac(6, 4, 3, 2), Ordering::Equal);
    assert_eq!(compare_frac(-1, 3, 1, 1000000), Ordering::Less);
    assert_eq!(compare_frac(-2, 3, -1, 2), Ordering::Less);
    // huge components that would overflow a cross multiplication
    let h = RAT_BOUND;
    assert_eq!(compare_frac(h, h - 1, h, h), Ordering::Greater);
    assert_eq!(compare_frac(h - 1, h, h, h - 1), Ordering::Less);
}

#[test]
fn test_value_comparisons() {
    let a = Rat::new(1, 2);
    let b = Rat::new(2, 4);
    assert!(a.eq_val(&b));
    assert_eq!(a.cmp_val(&Rat::new(2, 3)), Ordering::Less);
    assert!(a.le_val(&Rat::new(1, 2)));
    assert!(!Rat::new(3, 4).le_val(&a));
    assert!(Rat::new(0, 1).is_zero());
    assert_eq!(Rat::whole(-7), Rat::new(-7, 1));
}

#[test]
fn test_decimal_rendering() {
    assert_eq!(decimal_string(&Rat::new(18409, 100)), "184.09");
    assert_eq!(decimal_string(&Rat::new(-25565, 100)), "-255.65");
    assert_eq!(decimal_string(&Rat::new(42, 1)), "42");
    assert_eq!(decimal_string(&Rat::new(1, 8)), "0.125");
    assert_eq!(decimal_string(&Rat::new(0, 1)), "0");
}
