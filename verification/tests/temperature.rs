//! The temperature catalog and its affine conversion table.

use unit_algebra::table::ConversionTable;
use unit_algebra::temperature::{
    temperature_converter, Temperature, DEGREE_CELSIUS, DEGREE_FAHRENHEIT, KELVIN,
};
use unit_algebra::Rat;

#[test]
fn test_temperature() {
    let amnt = Rat::new(215, 10);
    let m = Temperature::new(amnt, KELVIN);
    assert_eq!(m.value, amnt);
    assert_eq!(m.unit, KELVIN);
    assert_eq!(m.to_string(), "21.5 K");
}

#[test]
fn test_temp_converter() {
    let conv = temperature_converter();
    let tk = Temperature::new(Rat::new(175, 10), KELVIN);
    assert_eq!(conv.convert(&tk, KELVIN), Some(tk));
    let tc = conv.convert(&tk, DEGREE_CELSIUS).unwrap();
    assert_eq!(tc.unit(), DEGREE_CELSIUS);
    assert_eq!(tc.value(), Rat::new(-25565, 100));
    let tk2 = conv.convert(&tc, KELVIN).unwrap();
    assert_eq!(tk2.value(), tk.value());
    let tf = conv.convert(&tk, DEGREE_FAHRENHEIT).unwrap();
    assert_eq!(tf.unit(), DEGREE_FAHRENHEIT);
    assert_eq!(tf.value(), Rat::new(-42817, 100));
    let tk2 = conv.convert(&tf, KELVIN).unwrap();
    assert_eq!(tk2.value(), tk.value());
    let tc = Temperature::new(Rat::new(347, 10), DEGREE_CELSIUS);
    let tf = conv.convert(&tc, DEGREE_FAHRENHEIT).unwrap();
    assert_eq!(tf.value(), Rat::new(9446, 100));
    let tc2 = conv.convert(&tf, DEGREE_CELSIUS).unwrap();
    assert_eq!(tc2.value, tc.value);
}

#[test]
fn test_identity_needs_no_table_entry() {
    let empty = ConversionTable { entries: Vec::new() };
    let amnt = Rat::new(123, 10);
    assert_eq!(empty.convert_amount(&amnt, 2, 2), Some(amnt));
    assert_eq!(empty.convert_amount(&amnt, 2, 1), None);
}

#[test]
fn test_missing_pair_is_a_lookup_failure() {
    let conv = temperature_converter();
    let mut trimmed = conv;
    trimmed.table.entries.truncate(2);
    let tf = Temperature::new(Rat::new(32, 1), DEGREE_FAHRENHEIT);
    assert_eq!(trimmed.convert(&tf, DEGREE_CELSIUS), None);
}

#[test]
fn test_same_unit_add_only() {
    let a = Temperature::new(Rat::new(215, 10), KELVIN);
    let b = Temperature::new(Rat::new(5, 10), KELVIN);
    let c = Temperature::new(Rat::new(5, 10), DEGREE_CELSIUS);
    assert_eq!(a.add(&b).unwrap().value(), Rat::new(22, 1));
    assert!(a.add(&c).is_none());
}
