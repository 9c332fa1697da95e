//! Derived multiplications and divisions on the concrete quantity
//! catalog: each declared relation's generated family, exercised on the
//! exact rational amounts.

use unit_algebra::acceleration::{Acceleration, AccelerationUnit};
use unit_algebra::area::{Area, AreaUnit};
use unit_algebra::energy::{Energy, EnergyUnit};
use unit_algebra::force::{Force, ForceUnit};
use unit_algebra::frequency::{amount_div_time, FrequencyUnit};
use unit_algebra::length::{Length, LengthUnit};
use unit_algebra::mass::{Mass, MassUnit};
use unit_algebra::time::{Time, TimeUnit};
use unit_algebra::velocity::{Velocity, VelocityUnit};
use unit_algebra::volume::{Volume, VolumeUnit};
use unit_algebra::Rat;

#[test]
fn test_speed_div_duration() {
    let av = Rat::new(294, 100);
    let v = Velocity::new(av, VelocityUnit::MeterPerSecond);
    let at = Rat::new(7, 1);
    let t = Time::new(at, TimeUnit::Millisecond);
    let a = v.div_time(&t).unwrap();
    assert_eq!(a.value(), Rat::new(420, 1));
    assert_eq!(a.unit(), AccelerationUnit::MeterPerSecondSquared);
}

#[test]
fn test_force_mul_length() {
    let af = Rat::new(7853, 10);
    let f = Force::new(af, ForceUnit::Newton);
    let al = Rat::new(384, 10);
    let l = Length::new(al, LengthUnit::Kilometer);
    let e = f.mul_length(&l).unwrap();
    assert_eq!(e.value(), Rat::new(30155520, 1));
    assert_eq!(e.unit(), EnergyUnit::Joule);
}

#[test]
fn test_mass_mul_acceleration() {
    let am = Rat::new(758, 10);
    let m = Mass::new(am, MassUnit::Gram);
    let aa = Rat::new(94, 10);
    let a = Acceleration::new(aa, AccelerationUnit::MeterPerSecondSquared);
    let f = m.mul_acceleration(&a).unwrap();
    assert_eq!(f.value(), Rat::new(71252, 100000));
    assert_eq!(f.unit(), ForceUnit::Newton);
}

#[test]
fn test_amount_div_duration() {
    let a = Rat::new(9030, 1);
    let at = Rat::new(25, 10);
    let t = Time::new(at, TimeUnit::Millisecond);
    let f = amount_div_time(&a, &t).unwrap();
    assert_eq!(f.value(), Rat::new(3612, 1));
    assert_eq!(f.unit(), FrequencyUnit::Kilohertz);
}

#[test]
fn test_volume() {
    let amnt = Rat::new(29305, 1000);
    let v = Volume::new(amnt, VolumeUnit::CubicDecimeter);
    assert_eq!(v.value(), amnt);
    assert_eq!(v.unit(), VolumeUnit::CubicDecimeter);
    assert_eq!(v.to_string(), "29.305 dm³");
}

#[test]
fn test_length_mul_area() {
    let amnt = Rat::new(21, 10);
    let l = Length::new(amnt, LengthUnit::Decimeter);
    let a = l.mul_length(&l).unwrap();
    let v = l.mul_area(&a).unwrap();
    assert_eq!(v.value(), Rat::new(9261, 1000));
    assert_eq!(v.unit(), VolumeUnit::CubicDecimeter);
    let b = Area::new(Rat::new(2, 100), AreaUnit::SquareKilometer);
    let h = Length::new(amnt, LengthUnit::Decimeter);
    let v = b.mul_length(&h).unwrap();
    assert_eq!(v.value(), Rat::new(4200, 1));
    assert_eq!(v.unit(), VolumeUnit::CubicMeter);
}

#[test]
fn test_volume_div_length() {
    let amnt = Rat::new(-42, 100);
    let v = Volume::new(amnt, VolumeUnit::Liter);
    let a = Area::new(Rat::new(7, 10), AreaUnit::SquareMeter);
    let h = v.div_area(&a).unwrap();
    assert_eq!(h.value(), Rat::new(-6, 10));
    assert_eq!(h.unit(), LengthUnit::Millimeter);
}

#[test]
fn area_test_length_mul_length() {
    let amnt = Rat::new(293, 10);
    let l = Length::new(amnt, LengthUnit::Centimeter);
    let a = l.mul_length(&l).unwrap();
    assert_eq!(a.value(), Rat::new(85849, 100));
    assert_eq!(a.unit(), AreaUnit::SquareCentimeter);
    let w = Length::new(Rat::new(2, 1), LengthUnit::Kilometer);
    let h = Length::new(amnt, LengthUnit::Centimeter);
    let a = w.mul_length(&h).unwrap();
    assert_eq!(a.value(), Rat::new(586, 100));
    assert_eq!(a.unit(), AreaUnit::Are);
}

#[test]
fn area_test_aera_div_length() {
    let amnt = Rat::new(294, 10);
    let a = Area::new(amnt, AreaUnit::Hectare);
    let w = Length::new(Rat::new(7, 10), LengthUnit::Kilometer);
    let h = a.div_length(&w).unwrap();
    assert_eq!(h.value(), Rat::new(420, 1));
    assert_eq!(h.unit(), LengthUnit::Meter);
}

#[test]
fn test_energy_div_length_recovers_force() {
    let f = Force::new(Rat::new(7853, 10), ForceUnit::Newton);
    let l = Length::new(Rat::new(384, 10), LengthUnit::Kilometer);
    let e = f.mul_length(&l).unwrap();
    let f2 = e.div_length(&l).unwrap();
    assert!(f2.equivalent(&f));
    let l2 = e.div_force(&f).unwrap();
    assert!(l2.equivalent(&l));
}

#[test]
fn test_mul_commutes_in_value_and_unit() {
    let m = Mass::new(Rat::new(758, 10), MassUnit::Gram);
    let a = Acceleration::new(Rat::new(94, 10), AccelerationUnit::MeterPerSecondSquared);
    let f1 = m.mul_acceleration(&a).unwrap();
    let f2 = a.mul_mass(&m).unwrap();
    assert_eq!(f1, f2);
}

#[test]
fn test_acceleration_closure() {
    let v = Velocity::new(Rat::new(294, 100), VelocityUnit::MeterPerSecond);
    let t = Time::new(Rat::new(7, 1), TimeUnit::Millisecond);
    let a = v.div_time(&t).unwrap();
    let v2 = a.mul_time(&t).unwrap();
    assert!(v2.equivalent(&v));
    let t2 = v.div_acceleration(&a).unwrap();
    assert!(t2.equivalent(&t));
    let v3 = t.mul_acceleration(&a).unwrap();
    assert!(v3.equivalent(&v));
}
