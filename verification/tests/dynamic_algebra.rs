//! The runtime algebra on descriptor-level unit tables: best-fit
//! selection, conversion, comparison, arithmetic, and derived
//! multiplication and division between schema-defined quantities.

use std::cmp::Ordering;
use unit_algebra::algebra::{
    add_qty, cmp_qty, div_qty, equiv_amount, fit_index, lookup_scale, qty_div, qty_mul, sub_qty,
    UnitScale,
};
use unit_algebra::normalize::{analyze, scale_table};
use unit_algebra::schema::{RawArg, RawClause, RawQty};
use unit_algebra::Rat;

fn word(s: &str) -> RawArg {
    RawArg::Word(s.to_string())
}

fn text(s: &str) -> RawArg {
    RawArg::Text(s.to_string())
}

fn num(n: i128, d: i128) -> RawArg {
    RawArg::Number(Rat::new(n, d))
}

/// The `Foo` fixture: reference unit A (tagged MEGA), B of scale 0.4
/// (untagged), C of scale 0.01 (tagged CENTI).
fn foo_table() -> Vec<UnitScale> {
    let raw = RawQty {
        ident: "Foo".to_string(),
        derivations: Vec::new(),
        clauses: vec![
            RawClause::RefUnit(vec![word("A"), text("aaa"), word("MEGA")]),
            RawClause::Unit(vec![word("B"), text("b"), num(4, 10)]),
            RawClause::Unit(vec![word("C"), text("c"), word("CENTI"), num(1, 100)]),
        ],
    };
    let q = analyze(&raw).unwrap();
    let tab = scale_table(&q);
    assert_eq!(tab.len(), 3);
    assert_eq!(tab[0], UnitScale { scale: Rat::new(1, 100), tagged: true });
    assert_eq!(tab[1], UnitScale { scale: Rat::new(4, 10), tagged: false });
    assert_eq!(tab[2], UnitScale { scale: Rat::new(1, 1), tagged: true });
    tab
}

fn scales(v: &[(i128, i128, bool)]) -> Vec<UnitScale> {
    v.iter().map(|&(n, d, tagged)| UnitScale { scale: Rat::new(n, d), tagged }).collect()
}

#[test]
fn test_fit() {
    // the reference unit is tagged, so only tagged units take part:
    // B is skipped although 0.4 <= 0.7
    let tab = foo_table();
    assert_eq!(fit_index(&tab, false, 7, 1000), 0);
    assert_eq!(fit_index(&tab, false, 7, 100), 0);
    assert_eq!(fit_index(&tab, false, 7, 10), 0);
    assert_eq!(fit_index(&tab, false, 7, 1), 2);
}

#[test]
fn test_unit_from_scale() {
    let tab = foo_table();
    assert_eq!(lookup_scale(&tab, 1, 1), Some(2));
    assert_eq!(lookup_scale(&tab, 4, 10), Some(1));
    assert_eq!(lookup_scale(&tab, 1, 100), Some(0));
    assert_eq!(lookup_scale(&tab, 10, 1), None);
}

#[test]
fn test_convert() {
    // 17.4 B == 6.96 A, and back
    let b = Rat::new(4, 10);
    let a = Rat::new(1, 1);
    let q = Rat::new(174, 10);
    let e = equiv_amount(&q, &b, &a).unwrap();
    assert_eq!(e, Rat::new(696, 100));
    let back = equiv_amount(&e, &a, &b).unwrap();
    assert_eq!(back, q);
}

#[test]
fn test_cmp_diff_unit() {
    let a = Rat::new(1, 1);
    let b = Rat::new(4, 10);
    let q1 = Rat::new(174, 10);
    let q2 = Rat::new(37, 100);
    assert_eq!(cmp_qty(&q2, &b, &q1, &a), Ordering::Less);
    assert_eq!(cmp_qty(&q1, &a, &q2, &b), Ordering::Greater);
    let q3 = equiv_amount(&q1, &a, &Rat::new(1, 100)).unwrap();
    assert_eq!(cmp_qty(&q1, &a, &q3, &Rat::new(1, 100)), Ordering::Equal);
}

#[test]
fn test_add_diff_unit() {
    // the result carries the left operand's unit
    let a = Rat::new(1, 1);
    let b = Rat::new(4, 10);
    let q1 = Rat::new(174, 10);
    let q2 = Rat::new(37, 100);
    let r = add_qty(&q1, &a, &q2, &b).unwrap();
    assert_eq!(r, Rat::new(17548, 1000));
    let r = add_qty(&q2, &b, &q1, &a).unwrap();
    assert_eq!(r, Rat::new(4387, 100));
}

#[test]
fn test_sub_diff_unit() {
    let a = Rat::new(1, 1);
    let b = Rat::new(4, 10);
    let q1 = Rat::new(174, 10);
    let q2 = Rat::new(3, 10);
    let r = sub_qty(&q1, &a, &q2, &b).unwrap();
    assert_eq!(r, Rat::new(1728, 100));
    let r = sub_qty(&q2, &b, &q1, &a).unwrap();
    assert_eq!(r, Rat::new(-432, 10));
}

#[test]
fn test_div_diff_unit() {
    let a = Rat::new(1, 1);
    let b = Rat::new(4, 10);
    let q1 = Rat::new(174, 10);
    let q2 = Rat::new(3, 10);
    let r = div_qty(&q1, &a, &q2, &b).unwrap();
    assert_eq!(r, Rat::new(145, 1));
}

#[test]
fn test_qty_mul_qty() {
    // Baz = Foo * Bar; all three reference units untagged
    let one = Rat::new(1, 1);
    let baz = scales(&[(1, 1000000, false), (1, 1000, false), (1, 1, false), (1000, 1, false)]);
    let bar = scales(&[(1, 1000000, false), (1, 1000, false), (1, 1, false), (1000, 1, false)]);
    let foo = scales(&[(1, 100, false), (1, 1, false), (1000, 1, false)]);

    // 17.4 Flop * 3 Emil == 52.2 Bazoo
    let (am, i) = qty_mul(&Rat::new(174, 10), &one, &Rat::new(3, 1), &one, &baz, true).unwrap();
    assert_eq!(am, Rat::new(522, 10));
    assert_eq!(i, 2);
    // the commuted form gives the same value and unit
    let (am2, i2) = qty_mul(&Rat::new(3, 1), &one, &Rat::new(174, 10), &one, &baz, true).unwrap();
    assert_eq!((am2, i2), (am, i));
    // reverse divisions recover each operand
    let (b, bi) = qty_div(&am, &one, &Rat::new(174, 10), &one, &bar, true).unwrap();
    assert_eq!(b, Rat::new(3, 1));
    assert_eq!(bi, 2);
    let (f, fi) = qty_div(&am, &one, &Rat::new(3, 1), &one, &foo, true).unwrap();
    assert_eq!(f, Rat::new(174, 10));
    assert_eq!(fi, 1);

    // 14.52 Kiloflop * 0.47 Microemil == 6.8244 Millibazoo (exact scale hit)
    let (am, i) = qty_mul(
        &Rat::new(1452, 100),
        &Rat::new(1000, 1),
        &Rat::new(47, 100),
        &Rat::new(1, 1000000),
        &baz,
        true,
    )
    .unwrap();
    assert_eq!(am, Rat::new(68244, 10000));
    assert_eq!(i, 1);

    // 14.52 Centiflop * 0.47 Microemil: no exact scale, best fit
    let (am, i) = qty_mul(
        &Rat::new(1452, 100),
        &Rat::new(1, 100),
        &Rat::new(47, 100),
        &Rat::new(1, 1000000),
        &baz,
        true,
    )
    .unwrap();
    assert_eq!(am, Rat::new(68244, 1000000));
    assert_eq!(i, 0);
}

#[test]
fn test_qty_div_qty() {
    // Qoo = Foo / Bar
    let one = Rat::new(1, 1);
    let qoo = scales(&[
        (1, 1000000, false),
        (1, 1000, false),
        (1, 1, false),
        (5, 1, false),
        (1000, 1, false),
    ]);

    // 17.4 Flop / 3 Emil == 5.8 Qoox
    let (am, i) = qty_div(&Rat::new(174, 10), &one, &Rat::new(3, 1), &one, &qoo, true).unwrap();
    assert_eq!(am, Rat::new(58, 10));
    assert_eq!(i, 2);

    // 14.52 Kiloflop / 3.3 Milliemil == 4400 Kiloqoox (fit)
    let (am, i) = qty_div(
        &Rat::new(1452, 100),
        &Rat::new(1000, 1),
        &Rat::new(33, 10),
        &Rat::new(1, 1000),
        &qoo,
        true,
    )
    .unwrap();
    assert_eq!(am, Rat::new(44000, 10));
    assert_eq!(i, 4);

    // 14.52 Centiflop / 3.3 Kiloemil == 44 Microqoox (fit to the smallest)
    let (am, i) = qty_div(
        &Rat::new(1452, 100),
        &Rat::new(1, 100),
        &Rat::new(33, 10),
        &Rat::new(1000, 1),
        &qoo,
        true,
    )
    .unwrap();
    assert_eq!(am, Rat::new(44, 1));
    assert_eq!(i, 0);
}

#[test]
fn test_div_by_zero_amount() {
    let one = Rat::new(1, 1);
    let tab = scales(&[(1, 1, false)]);
    assert_eq!(qty_div(&Rat::new(3, 1), &one, &Rat::new(0, 1), &one, &tab, true), None);
}
