//! The completion of the runtime surface: scaleless-quantity arithmetic
//! and ordering, lookup by symbol, unit ratios, bare-amount scaling,
//! rate application through the catalogs, rate rendering, and the
//! formatting options.

use core::cmp::Ordering;
use unit_algebra::fmt::{format_qty, Alignment, FmtOptions};
use unit_algebra::frequency::FrequencyUnit;
use unit_algebra::length::{Length, LengthUnit, CENTIMETER, KILOMETER, METER};
use unit_algebra::mass::{MassUnit, KILOGRAM};
use unit_algebra::rate::Rate;
use unit_algebra::temperature::{Temperature, TemperatureUnit, DEGREE_CELSIUS, KELVIN};
use unit_algebra::Rat;

#[test]
fn test_temperature_add_same_unit() {
    let a = Temperature::new(Rat::new(200, 10), DEGREE_CELSIUS);
    let b = Temperature::new(Rat::new(15, 10), DEGREE_CELSIUS);
    let s = a.add(&b).unwrap();
    assert_eq!(s.unit(), DEGREE_CELSIUS);
    assert_eq!(s.value(), Rat::new(215, 10));
    // no linear relation between units: cross-unit addition fails
    let k = Temperature::new(Rat::new(1, 1), KELVIN);
    assert_eq!(a.add(&k), None);
}

#[test]
fn test_temperature_sub() {
    let a = Temperature::new(Rat::new(200, 10), DEGREE_CELSIUS);
    let b = Temperature::new(Rat::new(15, 10), DEGREE_CELSIUS);
    let d = a.sub(&b).unwrap();
    assert_eq!(d.unit(), DEGREE_CELSIUS);
    assert_eq!(d.value(), Rat::new(185, 10));
    let k = Temperature::new(Rat::new(1, 1), KELVIN);
    assert_eq!(a.sub(&k), None);
}

#[test]
fn test_temperature_div() {
    let a = Temperature::new(Rat::new(200, 10), DEGREE_CELSIUS);
    let b = Temperature::new(Rat::new(15, 10), DEGREE_CELSIUS);
    assert_eq!(a.div(&b), Some(Rat::new(40, 3)));
    let k = Temperature::new(Rat::new(1, 1), KELVIN);
    assert_eq!(a.div(&k), None);
    // dividing by a zero amount of the same unit fails
    let z = Temperature::new(Rat::new(0, 1), DEGREE_CELSIUS);
    assert_eq!(a.div(&z), None);
}

#[test]
fn test_temperature_eq_ord() {
    let a = Temperature::new(Rat::new(200, 10), DEGREE_CELSIUS);
    let b = Temperature::new(Rat::new(20, 1), DEGREE_CELSIUS);
    let c = Temperature::new(Rat::new(20, 1), KELVIN);
    let d = Temperature::new(Rat::new(21, 1), DEGREE_CELSIUS);
    assert!(a.equal(&b));
    // equal amounts of different units are not equal
    assert!(!a.equal(&c));
    assert_eq!(a.partial_cmp(&b), Some(Ordering::Equal));
    assert_eq!(a.partial_cmp(&d), Some(Ordering::Less));
    assert_eq!(d.partial_cmp(&a), Some(Ordering::Greater));
    // no ordering across units
    assert_eq!(a.partial_cmp(&c), None);
}

#[test]
fn test_from_symbol() {
    assert_eq!(LengthUnit::from_symbol("cm"), Some(CENTIMETER));
    assert_eq!(LengthUnit::from_symbol("km"), Some(KILOMETER));
    assert_eq!(LengthUnit::from_symbol("x"), None);
    assert_eq!(
        TemperatureUnit::from_symbol("°F"),
        Some(TemperatureUnit::DegreeFahrenheit)
    );
    assert_eq!(TemperatureUnit::from_symbol(""), None);
    assert_eq!(FrequencyUnit::from_symbol("GHz"), Some(FrequencyUnit::Gigahertz));
}

#[test]
fn test_unit_ratio() {
    assert_eq!(CENTIMETER.ratio(METER), Some(Rat::new(1, 100)));
    assert_eq!(METER.ratio(CENTIMETER), Some(Rat::new(100, 1)));
    assert_eq!(KILOMETER.ratio(METER), Some(Rat::new(1000, 1)));
    assert_eq!(METER.ratio(METER), Some(Rat::new(1, 1)));
}

#[test]
fn test_scale_by_amount() {
    let q = Length::new(Rat::new(25, 10), METER);
    let r = q.scale_by(&Rat::new(3, 1)).unwrap();
    assert_eq!(r.unit(), METER);
    assert_eq!(r.value(), Rat::new(75, 10));
    let h = q.div_by(&Rat::new(2, 1)).unwrap();
    assert_eq!(h.unit(), METER);
    assert_eq!(h.value(), Rat::new(125, 100));
    // dividing by a zero amount fails
    assert_eq!(q.div_by(&Rat::new(0, 1)), None);
}

#[test]
fn test_qty_mul_rate() {
    // 329.4 kg per 100 cm, applied to 7.5 m: 2470.5 kg
    let r: Rate<MassUnit, LengthUnit> =
        Rate::new(Rat::new(3294, 10), KILOGRAM, Rat::new(100, 1), CENTIMETER);
    let q = Length::new(Rat::new(75, 10), METER);
    let (v, u) = q.mul_rate(&r).unwrap();
    assert_eq!(u, KILOGRAM);
    assert_eq!(v, Rat::new(24705, 10));
}

#[test]
fn test_length_div_rate() {
    // 7.5 km over 25 m per 100 kg: 30000 kg
    let r: Rate<LengthUnit, MassUnit> =
        Rate::new(Rat::new(25, 1), METER, Rat::new(100, 1), KILOGRAM);
    let q = Length::new(Rat::new(75, 10), KILOMETER);
    let (v, u) = q.div_rate(&r).unwrap();
    assert_eq!(u, KILOGRAM);
    assert_eq!(v, Rat::new(30000, 1));
    // a zero term amount never applies
    let z: Rate<LengthUnit, MassUnit> =
        Rate::new(Rat::new(0, 1), METER, Rat::new(100, 1), KILOGRAM);
    assert_eq!(q.div_rate(&z), None);
}

#[test]
fn test_rate_to_string() {
    let r: Rate<MassUnit, LengthUnit> =
        Rate::new(Rat::new(3294, 10), KILOGRAM, Rat::new(100, 1), CENTIMETER);
    assert_eq!(r.to_string_with("kg", "cm"), "329.4 kg / 100 cm");
    // a dimensionless rate prints as a plain ratio
    let d: Rate<(), ()> = Rate::new(Rat::new(292, 10), (), Rat::new(100, 1), ());
    assert_eq!(d.to_string_with("", ""), "29.2 / 100");
}

fn plain_opts() -> FmtOptions {
    FmtOptions { width: 0, fill: ' ', align: Alignment::Left, precision: None, sign_plus: false }
}

#[test]
fn test_format_precision() {
    let opts = FmtOptions { precision: Some(2), ..plain_opts() };
    assert_eq!(format_qty(&Rat::new(1, 3), "m", &opts), "0.33 m");
    // a tie rounds away from zero
    assert_eq!(format_qty(&Rat::new(5, 1000), "m", &opts), "0.01 m");
    assert_eq!(format_qty(&Rat::new(-1, 8), "m", &opts), "-0.13 m");
    // rounding carries into the integer part
    let one_digit = FmtOptions { precision: Some(1), ..plain_opts() };
    assert_eq!(format_qty(&Rat::new(999, 100), "m", &one_digit), "10.0 m");
    // precision zero leaves a whole number, ties still away from zero
    let whole = FmtOptions { precision: Some(0), ..plain_opts() };
    assert_eq!(format_qty(&Rat::new(15, 10), "m", &whole), "2 m");
    // trailing zeros are kept up to the precision
    let three = FmtOptions { precision: Some(3), ..plain_opts() };
    assert_eq!(format_qty(&Rat::new(25, 10), "m", &three), "2.500 m");
}

#[test]
fn test_format_sign() {
    let opts = FmtOptions { sign_plus: true, ..plain_opts() };
    assert_eq!(format_qty(&Rat::new(125, 10), "m", &opts), "+12.5 m");
    assert_eq!(format_qty(&Rat::new(-125, 10), "m", &opts), "-12.5 m");
    let prec = FmtOptions { sign_plus: true, precision: Some(1), ..plain_opts() };
    assert_eq!(format_qty(&Rat::new(2, 1), "m", &prec), "+2.0 m");
}

#[test]
fn test_format_width_fill_align() {
    let right = FmtOptions { width: 8, fill: '*', align: Alignment::Right, ..plain_opts() };
    assert_eq!(format_qty(&Rat::new(125, 10), "m", &right), "**12.5 m");
    let left = FmtOptions { width: 8, fill: '.', align: Alignment::Left, ..plain_opts() };
    assert_eq!(format_qty(&Rat::new(125, 10), "m", &left), "12.5 m..");
    // centering leaves the extra fill on the right
    let center = FmtOptions { width: 9, fill: '*', align: Alignment::Center, ..plain_opts() };
    assert_eq!(format_qty(&Rat::new(125, 10), "m", &center), "*12.5 m**");
    // a rendering at least as wide as the field is unchanged
    let narrow = FmtOptions { width: 3, fill: '*', align: Alignment::Right, ..plain_opts() };
    assert_eq!(format_qty(&Rat::new(125, 10), "m", &narrow), "12.5 m");
    // an empty symbol pads the bare amount
    let bare = FmtOptions { width: 6, fill: ' ', align: Alignment::Right, ..plain_opts() };
    assert_eq!(format_qty(&Rat::new(125, 10), "", &bare), "  12.5");
}
