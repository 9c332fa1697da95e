//! The concrete catalogs' unit metadata, ordering, conversion, fit, and
//! the example constants.

use unit_algebra::length::{Length, LengthUnit, CENTIMETER, KILOMETER, METER};
use unit_algebra::mass::{my_weight, Mass, MassUnit, KILOGRAM};
use unit_algebra::prefix::SIPrefix;
use unit_algebra::velocity::{speed_of_light, VelocityUnit};
use unit_algebra::Rat;

#[test]
fn const_quantities() {
    let _t = my_weight().value();
    assert_eq!(my_weight(), Mass::new(Rat::new(47, 1), KILOGRAM));
}

#[test]
fn test_speed_of_light() {
    let c = speed_of_light();
    assert_eq!(c.value(), Rat::new(299792458, 1));
    assert_eq!(c.unit(), VelocityUnit::MeterPerSecond);
}

#[test]
fn test_unit_metadata() {
    let m = METER;
    assert_eq!(m.symbol(), "m");
    assert_eq!(m.name(), "Meter");
    assert_eq!(m.si_prefix(), Some(SIPrefix::NONE));
    assert_eq!(m.scale(), Rat::new(1, 1));
    let cm = CENTIMETER;
    assert_eq!(cm.symbol(), "cm");
    assert_eq!(cm.si_prefix(), Some(SIPrefix::CENTI));
    assert_eq!(cm.scale(), Rat::new(1, 100));
    assert_eq!(MassUnit::Kilogram.si_prefix(), Some(SIPrefix::KILO));
}

#[test]
fn test_units_ascending_scale() {
    // units are enumerated in ascending scale order
    let units = LengthUnit::units();
    for w in units.windows(2) {
        assert!(w[0].scale().le_val(&w[1].scale()));
        assert!(w[0].index() < w[1].index());
    }
    assert_eq!(units[0], LengthUnit::Nanometer);
    assert_eq!(units[units.len() - 1], KILOMETER);
}

#[test]
fn test_convert_round_trip() {
    // convert(convert(q, u2), q.unit()) == q, exactly
    let q = Length::new(Rat::new(174, 10), LengthUnit::Centimeter);
    let e = q.convert(KILOMETER).unwrap();
    assert_eq!(e.value(), Rat::new(174, 1000000));
    assert_eq!(e.unit(), KILOMETER);
    let b = e.convert(CENTIMETER).unwrap();
    assert_eq!(b, q);
}

#[test]
fn test_add_sub_left_unit() {
    let a = Length::new(Rat::new(174, 10), METER);
    let b = Length::new(Rat::new(37, 100), KILOMETER);
    let s = a.add(&b).unwrap();
    assert_eq!(s.unit(), METER);
    assert_eq!(s.value(), Rat::new(3874, 10));
    let s2 = b.add(&a).unwrap();
    assert_eq!(s2.unit(), KILOMETER);
    assert_eq!(s2.value(), Rat::new(3874, 10000));
    let d = a.sub(&b).unwrap();
    assert_eq!(d.unit(), METER);
    assert_eq!(d.value(), Rat::new(-3526, 10));
}

#[test]
fn test_div_same_quantity_is_dimensionless() {
    let a = Length::new(Rat::new(174, 10), METER);
    let b = Length::new(Rat::new(3, 10), KILOMETER);
    let r = a.div(&b).unwrap();
    assert_eq!(r, Rat::new(58, 1000));
}

#[test]
fn test_equivalent_across_units() {
    let kg = Mass::new(Rat::new(1, 1), KILOGRAM);
    let g = Mass::new(Rat::new(1000, 1), MassUnit::Gram);
    assert!(kg.equivalent(&g));
    let g2 = Mass::new(Rat::new(999, 1), MassUnit::Gram);
    assert!(!kg.equivalent(&g2));
}

#[test]
fn test_fit_idempotent_on_unit_scale() {
    // fit(scale(u)) lands on u itself with amount 1
    let q = Length::fit(Rat::new(1, 100)).unwrap();
    assert_eq!(q.unit(), CENTIMETER);
    assert_eq!(q.value(), Rat::new(1, 1));
    let q = Length::fit(Rat::new(1000, 1)).unwrap();
    assert_eq!(q.unit(), KILOMETER);
    assert_eq!(q.value(), Rat::new(1, 1));
}

#[test]
fn test_fit_extremes() {
    // below every scale: the smallest unit; above every scale: the largest
    let q = Length::fit(Rat::new(1, 10000000000)).unwrap();
    assert_eq!(q.unit(), LengthUnit::Nanometer);
    let q = Length::fit(Rat::new(123456, 1)).unwrap();
    assert_eq!(q.unit(), KILOMETER);
    assert_eq!(q.value(), Rat::new(123456, 1000));
}

#[test]
fn test_to_string_decimal() {
    let q = Length::new(Rat::new(2935, 100), CENTIMETER);
    assert_eq!(q.to_string(), "29.35 cm");
    let q = Length::new(Rat::new(-42, 10), METER);
    assert_eq!(q.to_string(), "-4.2 m");
    let q = Length::new(Rat::new(7, 1), METER);
    assert_eq!(q.to_string(), "7 m");
}
