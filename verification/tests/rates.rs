//! Rates: construction, reciprocal, and both application directions,
//! over units of the schema-defined `Foo` and `Bar` fixtures (unit
//! indices into their ascending-scale tables).

use unit_algebra::rate::{rate_apply, Rate};
use unit_algebra::Rat;

// Foo units, ascending: Centiflop (0), Flop (1), Kiloflop (2).
// Bar units, ascending: Microemil (0), Milliemil (1), Emil (2), Kiloemil (3).

#[test]
fn test_rate() {
    let r: Rate<usize, usize> = Rate::new(Rat::new(3294, 10), 1, Rat::new(100, 1), 1);
    assert_eq!(r.term_amount, Rat::new(3294, 10));
    assert_eq!(r.term_unit, 1);
    assert_eq!(r.per_unit_multiple, Rat::new(100, 1));
    assert_eq!(r.per_unit, 1);
}

#[test]
fn test_rate_dimless() {
    // a rate over dimensionless quantities is a plain numeric ratio
    let r: Rate<(), ()> = Rate::new(Rat::new(292, 10), (), Rat::new(100, 1), ());
    assert_eq!(r.term_amount, Rat::new(292, 10));
    assert_eq!(r.per_unit_multiple, Rat::new(100, 1));
    let v = rate_apply(
        &Rat::new(50, 1),
        &Rat::new(1, 1),
        &Rat::new(1, 1),
        &r.per_unit_multiple,
        &r.term_amount,
    )
    .unwrap();
    assert_eq!(v, Rat::new(146, 10));
}

#[test]
fn test_rate_reciprocal() {
    let r: Rate<usize, usize> = Rate::new(Rat::new(3294, 10), 1, Rat::new(100, 1), 1);
    let r = r.reciprocal();
    assert_eq!(r.term_amount, Rat::new(100, 1));
    assert_eq!(r.term_unit, 1);
    assert_eq!(r.per_unit_multiple, Rat::new(3294, 10));
    assert_eq!(r.per_unit, 1);
}

#[test]
fn test_rate_mul_qty() {
    // 329.4 Flop per 100 Milliemil, applied to 7.5 Emil: 24705 Flop
    let r: Rate<usize, usize> = Rate::new(Rat::new(3294, 10), 1, Rat::new(100, 1), 1);
    let b_amount = Rat::new(75, 10);
    let b_scale = Rat::new(1, 1);
    let per_scale = Rat::new(1, 1000);
    let f = rate_apply(&b_amount, &b_scale, &per_scale, &r.per_unit_multiple, &r.term_amount)
        .unwrap();
    assert_eq!(f, Rat::new(24705, 1));
}

#[test]
fn test_qty_div_rate() {
    // 7.5 Kiloflop divided by the rate 25 Flop per 100 Milliemil:
    // 30000 Milliemil
    let r: Rate<usize, usize> = Rate::new(Rat::new(25, 1), 1, Rat::new(100, 1), 1);
    let f_amount = Rat::new(75, 10);
    let f_scale = Rat::new(1000, 1);
    let term_scale = Rat::new(1, 1);
    let b = rate_apply(&f_amount, &f_scale, &term_scale, &r.term_amount, &r.per_unit_multiple)
        .unwrap();
    assert_eq!(b, Rat::new(30000, 1));
}

#[test]
fn test_rate_apply_zero_divisor() {
    assert_eq!(
        rate_apply(
            &Rat::new(1, 1),
            &Rat::new(1, 1),
            &Rat::new(1, 1),
            &Rat::new(0, 1),
            &Rat::new(1, 1),
        ),
        None,
    );
}
