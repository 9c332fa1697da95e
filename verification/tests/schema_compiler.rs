//! The schema parser, validator, normalizer and derivation closure.

use unit_algebra::normalize::{analyze, QtyDef};
use unit_algebra::prefix::SIPrefix;
use unit_algebra::relations::{derive_closure, RelOp};
use unit_algebra::schema::{RawArg, RawClause, RawDerivation, RawQty, SchemaError};
use unit_algebra::Rat;

fn word(s: &str) -> RawArg {
    RawArg::Word(s.to_string())
}

fn text(s: &str) -> RawArg {
    RawArg::Text(s.to_string())
}

fn num(n: i128, d: i128) -> RawArg {
    RawArg::Number(Rat::new(n, d))
}

fn foo_schema() -> RawQty {
    RawQty {
        ident: "Foo".to_string(),
        derivations: Vec::new(),
        clauses: vec![
            RawClause::RefUnit(vec![word("A"), text("aaa"), word("MEGA")]),
            RawClause::Unit(vec![word("B"), text("b"), num(4, 10)]),
            RawClause::Unit(vec![word("C"), text("c"), word("CENTI"), num(1, 100)]),
        ],
    }
}

fn analyzed_foo() -> QtyDef {
    analyze(&foo_schema()).unwrap()
}

#[test]
fn test_unit() {
    let q = analyzed_foo();
    let a = &q.units[2];
    let b = &q.units[1];
    assert_eq!(a.name, "A");
    assert_eq!(a.symbol, "aaa");
    assert_eq!(a.si_prefix, Some(SIPrefix::MEGA));
    assert_eq!(a.scale, Some(Rat::new(1, 1)));
    assert_eq!(b.name, "B");
    assert_eq!(b.symbol, "b");
    assert_eq!(b.si_prefix, None);
    assert_eq!(b.scale, Some(Rat::new(4, 10)));
    let ratio = b.scale.unwrap().div(&a.scale.unwrap()).unwrap();
    assert_eq!(ratio, Rat::new(4, 10));
    let ratio = a.scale.unwrap().div(&b.scale.unwrap()).unwrap();
    assert_eq!(ratio, Rat::new(25, 10));
}

#[test]
fn test_unit_iter() {
    // ascending scale order: C before B before A, the reference unit last
    let q = analyzed_foo();
    let idents: Vec<&str> = q.units.iter().map(|u| u.ident.as_str()).collect();
    assert_eq!(idents, ["C", "B", "A"]);
    assert_eq!(q.ref_unit_ident.as_deref(), Some("A"));
}

#[test]
fn test_lexical_order_without_ref_unit() {
    let raw = RawQty {
        ident: "Temperature".to_string(),
        derivations: Vec::new(),
        clauses: vec![
            RawClause::Unit(vec![word("Kelvin"), text("K")]),
            RawClause::Unit(vec![word("Degree_Celsius"), text("°C")]),
        ],
    };
    let q = analyze(&raw).unwrap();
    assert_eq!(q.ref_unit_ident, None);
    assert_eq!(q.units[0].name, "Degree Celsius");
    assert_eq!(q.units[1].name, "Kelvin");
    assert_eq!(q.units[0].ident, "DegreeCelsius");
    assert_eq!(q.units[0].const_ident, "DEGREE_CELSIUS");
    assert!(q.units.iter().all(|u| u.scale.is_none()));
}

#[test]
fn test_normalized_idents() {
    let raw = RawQty {
        ident: "Velocity".to_string(),
        derivations: Vec::new(),
        clauses: vec![
            RawClause::RefUnit(vec![word("Meter_per_Second"), text("m/s"), word("NONE")]),
            RawClause::Unit(vec![word("Kilometer_per_Hour"), text("km/h"), num(5, 18)]),
        ],
    };
    let q = analyze(&raw).unwrap();
    assert_eq!(q.units[0].ident, "KilometerPerHour");
    assert_eq!(q.units[0].name, "Kilometer per Hour");
    assert_eq!(q.units[0].const_ident, "KILOMETER_PER_HOUR");
    assert_eq!(q.units[1].ident, "MeterPerSecond");
    assert_eq!(q.ref_unit_ident.as_deref(), Some("MeterPerSecond"));
}

#[test]
fn test_stable_scale_ties() {
    // equal scales keep declaration order, the reference unit first
    let raw = RawQty {
        ident: "Energy".to_string(),
        derivations: Vec::new(),
        clauses: vec![
            RawClause::RefUnit(vec![word("Joule"), text("J"), word("NONE")]),
            RawClause::Unit(vec![word("Newton_Meter"), text("Nm"), word("NONE"), num(1, 1)]),
            RawClause::Unit(vec![word("Watt_Second"), text("Ws"), word("NONE"), num(1, 1)]),
            RawClause::Unit(vec![word("Kilowatt_Hour"), text("kWh"), num(3600000, 1)]),
        ],
    };
    let q = analyze(&raw).unwrap();
    let idents: Vec<&str> = q.units.iter().map(|u| u.ident.as_str()).collect();
    assert_eq!(idents, ["Joule", "NewtonMeter", "WattSecond", "KilowattHour"]);
}

#[test]
fn test_error_no_units() {
    let raw = RawQty { ident: "Foo".to_string(), derivations: Vec::new(), clauses: Vec::new() };
    assert!(matches!(analyze(&raw), Err(SchemaError::NoUnits)));
}

#[test]
fn test_error_duplicate_ref_unit() {
    let raw = RawQty {
        ident: "Foo".to_string(),
        derivations: Vec::new(),
        clauses: vec![
            RawClause::RefUnit(vec![word("A"), text("a")]),
            RawClause::Unit(vec![word("B"), text("b"), num(2, 1)]),
            RawClause::RefUnit(vec![word("C"), text("c")]),
        ],
    };
    assert!(matches!(analyze(&raw), Err(SchemaError::DuplicateRefUnit)));
}

#[test]
fn test_error_unexpected_scale_on_ref_unit() {
    let raw = RawQty {
        ident: "Foo".to_string(),
        derivations: Vec::new(),
        clauses: vec![
            RawClause::RefUnit(vec![word("A"), text("a"), num(2, 1)]),
            RawClause::Unit(vec![word("B"), text("b"), num(2, 1)]),
        ],
    };
    assert!(matches!(analyze(&raw), Err(SchemaError::UnexpectedScale)));
}

#[test]
fn test_error_missing_scale() {
    let raw = RawQty {
        ident: "Foo".to_string(),
        derivations: Vec::new(),
        clauses: vec![
            RawClause::RefUnit(vec![word("A"), text("a")]),
            RawClause::Unit(vec![word("B"), text("b")]),
        ],
    };
    assert!(matches!(analyze(&raw), Err(SchemaError::MissingScale)));
}

#[test]
fn test_error_unexpected_argument() {
    let raw = RawQty {
        ident: "Foo".to_string(),
        derivations: Vec::new(),
        clauses: vec![RawClause::Unit(vec![word("B"), text("b"), num(2, 1)])],
    };
    assert!(matches!(analyze(&raw), Err(SchemaError::UnexpectedArgument)));
    let raw = RawQty {
        ident: "Foo".to_string(),
        derivations: Vec::new(),
        clauses: vec![RawClause::Unit(vec![word("B"), text("b"), word("KILO")])],
    };
    assert!(matches!(analyze(&raw), Err(SchemaError::UnexpectedArgument)));
}

#[test]
fn test_error_malformed_unit() {
    let raw = RawQty {
        ident: "Foo".to_string(),
        derivations: Vec::new(),
        clauses: vec![RawClause::Unit(vec![word("B")])],
    };
    assert!(matches!(analyze(&raw), Err(SchemaError::MalformedUnit)));
    let raw = RawQty {
        ident: "Foo".to_string(),
        derivations: Vec::new(),
        clauses: vec![RawClause::Unit(vec![word("B"), text("b"), word("NOT_A_PREFIX")])],
    };
    assert!(matches!(analyze(&raw), Err(SchemaError::MalformedUnit)));
}

#[test]
fn test_error_invalid_derivation() {
    let raw = RawQty {
        ident: "Area".to_string(),
        derivations: vec![RawDerivation {
            lhs: "Length".to_string(),
            op: '+',
            rhs: "Length".to_string(),
        }],
        clauses: vec![
            RawClause::RefUnit(vec![word("Square_Meter"), text("m²")]),
            RawClause::Unit(vec![word("Hectare"), text("ha"), num(10000, 1)]),
        ],
    };
    assert!(matches!(analyze(&raw), Err(SchemaError::InvalidDerivation)));
    let raw = RawQty {
        ident: "Area".to_string(),
        derivations: vec![RawDerivation {
            lhs: "1bad".to_string(),
            op: '*',
            rhs: "Length".to_string(),
        }],
        clauses: vec![
            RawClause::RefUnit(vec![word("Square_Meter"), text("m²")]),
            RawClause::Unit(vec![word("Hectare"), text("ha"), num(10000, 1)]),
        ],
    };
    assert!(matches!(analyze(&raw), Err(SchemaError::InvalidDerivation)));
}

#[test]
fn test_self_product_closure() {
    // the squaring case: one multiplication and one reverse division only
    let d = RawDerivation { lhs: "Length".to_string(), op: '*', rhs: "Length".to_string() };
    let rels = derive_closure("Area", &d);
    assert_eq!(rels.len(), 2);
    assert_eq!(rels[0].op, RelOp::Mul);
    assert_eq!((rels[0].lhs.as_str(), rels[0].rhs.as_str(), rels[0].result.as_str()), (
        "Length",
        "Length",
        "Area",
    ));
    assert_eq!(rels[1].op, RelOp::Div);
    assert_eq!((rels[1].lhs.as_str(), rels[1].rhs.as_str(), rels[1].result.as_str()), (
        "Area",
        "Length",
        "Length",
    ));
}

#[test]
fn test_product_closure() {
    let d = RawDerivation { lhs: "Force".to_string(), op: '*', rhs: "Length".to_string() };
    let rels = derive_closure("Energy", &d);
    assert_eq!(rels.len(), 4);
    assert_eq!(rels[0].op, RelOp::Mul);
    assert_eq!((rels[0].lhs.as_str(), rels[0].rhs.as_str()), ("Force", "Length"));
    assert_eq!(rels[1].op, RelOp::Mul);
    assert_eq!((rels[1].lhs.as_str(), rels[1].rhs.as_str()), ("Length", "Force"));
    assert_eq!(rels[2].op, RelOp::Div);
    assert_eq!((rels[2].lhs.as_str(), rels[2].rhs.as_str(), rels[2].result.as_str()), (
        "Energy",
        "Length",
        "Force",
    ));
    assert_eq!(rels[3].op, RelOp::Div);
    assert_eq!((rels[3].lhs.as_str(), rels[3].rhs.as_str(), rels[3].result.as_str()), (
        "Energy",
        "Force",
        "Length",
    ));
}

#[test]
fn test_division_closure() {
    let d = RawDerivation { lhs: "Velocity".to_string(), op: '/', rhs: "Time".to_string() };
    let rels = derive_closure("Acceleration", &d);
    assert_eq!(rels.len(), 4);
    assert_eq!(rels[0].op, RelOp::Div);
    assert_eq!((rels[0].lhs.as_str(), rels[0].rhs.as_str(), rels[0].result.as_str()), (
        "Velocity",
        "Time",
        "Acceleration",
    ));
    assert_eq!(rels[1].op, RelOp::Mul);
    assert_eq!((rels[1].lhs.as_str(), rels[1].rhs.as_str(), rels[1].result.as_str()), (
        "Acceleration",
        "Time",
        "Velocity",
    ));
    assert_eq!(rels[2].op, RelOp::Mul);
    assert_eq!((rels[2].lhs.as_str(), rels[2].rhs.as_str(), rels[2].result.as_str()), (
        "Time",
        "Acceleration",
        "Velocity",
    ));
    assert_eq!(rels[3].op, RelOp::Div);
    assert_eq!((rels[3].lhs.as_str(), rels[3].rhs.as_str(), rels[3].result.as_str()), (
        "Velocity",
        "Acceleration",
        "Time",
    ));
}

#[test]
fn test_derivation_kept_on_descriptor() {
    let raw = RawQty {
        ident: "Area".to_string(),
        derivations: vec![RawDerivation {
            lhs: "Length".to_string(),
            op: '*',
            rhs: "Length".to_string(),
        }],
        clauses: vec![
            RawClause::RefUnit(vec![word("Square_Meter"), text("m²")]),
            RawClause::Unit(vec![word("Hectare"), text("ha"), num(10000, 1)]),
        ],
    };
    let q = analyze(&raw).unwrap();
    assert_eq!(q.derivations.len(), 1);
    assert_eq!(q.derivations[0].op, '*');
}
