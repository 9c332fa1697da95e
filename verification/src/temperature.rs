//! The quantity `Temperature` and its units.
//!
//! Temperature units are not linearly related through a single scale, so
//! the quantity has no reference unit: cross-unit arithmetic is undefined
//! and conversion goes through an explicit affine table of
//! `(from, to, factor, offset)` rules. Units are enumerated in display
//! name order.

use core::cmp::Ordering;
use vstd::prelude::*;

use crate::fmt::amount_with_symbol;
use crate::rat::{rat_wf, Rat};
use crate::table::{is_affine_of, table_lookup, table_wf, ConvEntry, ConversionTable};

verus! {

/// Unit of quantity `Temperature`, in display-name order.
#[derive(Clone, Copy, Debug, PartialEq, Eq, Structural)]
pub enum TemperatureUnit {
    /// Degree Celsius (`°C`).
    DegreeCelsius,
    /// Degree Fahrenheit (`°F`).
    DegreeFahrenheit,
    /// Kelvin (`K`).
    Kelvin,
}

/// The unit Degree Celsius.
pub const DEGREE_CELSIUS: TemperatureUnit = TemperatureUnit::DegreeCelsius;

/// The unit Degree Fahrenheit.
pub const DEGREE_FAHRENHEIT: TemperatureUnit = TemperatureUnit::DegreeFahrenheit;

/// The unit Kelvin.
pub const KELVIN: TemperatureUnit = TemperatureUnit::Kelvin;

impl TemperatureUnit {
    /// Position in the canonical (display-name) unit order.
    pub open spec fn index_spec(self) -> int {
        match self {
            TemperatureUnit::DegreeCelsius => 0,
            TemperatureUnit::DegreeFahrenheit => 1,
            TemperatureUnit::Kelvin => 2,
        }
    }

    /// Position in the canonical unit order.
    pub fn index(self) -> (i: usize)
        ensures
            i == self.index_spec(),
    {
        match self {
            TemperatureUnit::DegreeCelsius => 0,
            TemperatureUnit::DegreeFahrenheit => 1,
            TemperatureUnit::Kelvin => 2,
        }
    }

    /// The unit's printable symbol, as characters.
    pub open spec fn symbol_view(self) -> Seq<char> {
        match self {
            TemperatureUnit::DegreeCelsius => "°C"@,
            TemperatureUnit::DegreeFahrenheit => "°F"@,
            TemperatureUnit::Kelvin => "K"@,
        }
    }

    /// The unit's printable symbol.
    pub fn symbol(self) -> (s: String)
        ensures
            s@ == self.symbol_view(),
    {
        match self {
            TemperatureUnit::DegreeCelsius => "°C".to_owned(),
            TemperatureUnit::DegreeFahrenheit => "°F".to_owned(),
            TemperatureUnit::Kelvin => "K".to_owned(),
        }
    }

    /// The unit's display name.
    pub open spec fn name_view(self) -> Seq<char> {
        match self {
            TemperatureUnit::DegreeCelsius => "Degree Celsius"@,
            TemperatureUnit::DegreeFahrenheit => "Degree Fahrenheit"@,
            TemperatureUnit::Kelvin => "Kelvin"@,
        }
    }

    /// The unit's display name.
    pub fn name(self) -> (s: String)
        ensures
            s@ == self.name_view(),
    {
        match self {
            TemperatureUnit::DegreeCelsius => "Degree Celsius".to_owned(),
            TemperatureUnit::DegreeFahrenheit => "Degree Fahrenheit".to_owned(),
            TemperatureUnit::Kelvin => "Kelvin".to_owned(),
        }
    }

    /// The first unit in canonical order whose symbol is `s`, if any.
    pub open spec fn from_symbol_spec(s: Seq<char>) -> Option<TemperatureUnit> {
        if s == "°C"@ {
            Some(TemperatureUnit::DegreeCelsius)
        } else if s == "°F"@ {
            Some(TemperatureUnit::DegreeFahrenheit)
        } else if s == "K"@ {
            Some(TemperatureUnit::Kelvin)
        } else {
            None
        }
    }

    /// Looks a unit up by its printable symbol, scanning the canonical
    /// order; `None` when no unit uses the symbol.
    pub fn from_symbol(s: &str) -> (r: Option<TemperatureUnit>)
        ensures
            r == TemperatureUnit::from_symbol_spec(s@),
    {
        if crate::text::str_eq(s, "°C") {
            Some(TemperatureUnit::DegreeCelsius)
        } else if crate::text::str_eq(s, "°F") {
            Some(TemperatureUnit::DegreeFahrenheit)
        } else if crate::text::str_eq(s, "K") {
            Some(TemperatureUnit::Kelvin)
        } else {
            None
        }
    }
}

/// Units are enumerated in ascending display-name order: along the
/// canonical list, every unit's name lexicographically precedes any later
/// unit's.
pub proof fn temperature_units_ascending()
    ensures
        forall|a: TemperatureUnit, b: TemperatureUnit|
            a.index_spec() < b.index_spec() ==> crate::text::lex_lt(
                #[trigger] a.name_view(),
                #[trigger] b.name_view(),
            ),
{
    reveal_strlit("Degree Celsius");
    reveal_strlit("Degree Fahrenheit");
    reveal_strlit("Kelvin");
    reveal_with_fuel(crate::text::lex_lt, 10);
    assert(crate::text::lex_lt("Degree Celsius"@, "Degree Fahrenheit"@));
    assert(crate::text::lex_lt("Degree Celsius"@, "Kelvin"@));
    assert(crate::text::lex_lt("Degree Fahrenheit"@, "Kelvin"@));
}

/// Measure of thermal energy.
///
/// An amount together with one of the quantity's units. Two values are
/// equal exactly when their units and amounts are: without a reference
/// unit there is no cross-unit equivalence.
#[derive(Clone, Copy, Debug, PartialEq, Eq, Structural)]
pub struct Temperature {
    /// The amount.
    pub value: Rat,
    /// The unit the amount is expressed in.
    pub unit: TemperatureUnit,
}

impl Temperature {
    /// A new quantity value from an amount and a unit.
    pub fn new(value: Rat, unit: TemperatureUnit) -> (q: Temperature)
        ensures
            q.value == value,
            q.unit == unit,
    {
        Temperature { value, unit }
    }

    /// The amount.
    pub fn value(&self) -> (r: Rat)
        ensures
            r == self.value,
    {
        self.value
    }

    /// The unit.
    pub fn unit(&self) -> (unit: TemperatureUnit)
        ensures
            unit == self.unit,
    {
        self.unit
    }

    /// The sum of two values of the same unit, and nothing else: without
    /// a reference unit, amounts of different units cannot be combined.
    pub fn add(&self, other: &Temperature) -> (r: Option<Temperature>)
        requires
            rat_wf(self.value),
            rat_wf(other.value),
        ensures
            self.unit != other.unit ==> r is None,
            self.unit == other.unit && crate::rat::sum_in_range(self.value, other.value) ==> r
                is Some,
            r matches Some(q) ==> {
                &&& rat_wf(q.value)
                &&& q.unit == self.unit
                &&& self.unit == other.unit
                &&& crate::rat::is_sum_of(q.value, self.value, other.value)
            },
    {
        if self.unit.index() != other.unit.index() {
            return None;
        }
        match self.value.add(&other.value) {
            Some(v) => Some(Temperature { value: v, unit: self.unit }),
            None => None,
        }
    }

    /// The difference of two values of the same unit, and nothing else:
    /// without a reference unit, amounts of different units cannot be
    /// combined.
    pub fn sub(&self, other: &Temperature) -> (r: Option<Temperature>)
        requires
            rat_wf(self.value),
            rat_wf(other.value),
        ensures
            self.unit != other.unit ==> r is None,
            self.unit == other.unit && crate::rat::diff_in_range(self.value, other.value) ==> r
                is Some,
            r matches Some(q) ==> {
                &&& rat_wf(q.value)
                &&& q.unit == self.unit
                &&& self.unit == other.unit
                &&& crate::rat::is_diff_of(q.value, self.value, other.value)
            },
    {
        if self.unit.index() != other.unit.index() {
            return None;
        }
        match self.value.sub(&other.value) {
            Some(v) => Some(Temperature { value: v, unit: self.unit }),
            None => None,
        }
    }

    /// The dimensionless ratio of two values of the same unit, and
    /// nothing else: without a reference unit, amounts of different units
    /// cannot be compared by division.
    pub fn div(&self, other: &Temperature) -> (r: Option<Rat>)
        requires
            rat_wf(self.value),
            rat_wf(other.value),
        ensures
            self.unit != other.unit ==> r is None,
            self.unit == other.unit && crate::rat::quot_in_range(self.value, other.value) ==> r
                is Some,
            r matches Some(v) ==> {
                &&& rat_wf(v)
                &&& self.unit == other.unit
                &&& crate::rat::is_quot_of(v, self.value, other.value)
            },
    {
        if self.unit.index() != other.unit.index() {
            return None;
        }
        self.value.div(&other.value)
    }

    /// Exact equality: the same unit and the same amount. Without a
    /// reference unit no conversion relates distinct units, so values of
    /// different units are never equal.
    pub fn equal(&self, other: &Temperature) -> (b: bool)
        requires
            rat_wf(self.value),
            rat_wf(other.value),
        ensures
            b <==> self.unit == other.unit && crate::rat::rat_eq_spec(self.value, other.value),
    {
        if self.unit.index() != other.unit.index() {
            return false;
        }
        proof {
            assert(self.unit == other.unit);
        }
        self.value.eq_val(&other.value)
    }

    /// The value ordering within one unit; `None` across differing units,
    /// where no order is defined.
    pub fn partial_cmp(&self, other: &Temperature) -> (r: Option<Ordering>)
        requires
            rat_wf(self.value),
            rat_wf(other.value),
        ensures
            r is None <==> self.unit != other.unit,
            r matches Some(o) ==> {
                &&& self.unit == other.unit
                &&& (o == Ordering::Less <==> crate::rat::rat_lt_spec(self.value, other.value))
                &&& (o == Ordering::Equal <==> crate::rat::rat_eq_spec(self.value, other.value))
                &&& (o == Ordering::Greater <==> crate::rat::rat_lt_spec(other.value, self.value))
            },
    {
        if self.unit.index() != other.unit.index() {
            return None;
        }
        proof {
            assert(self.unit == other.unit);
        }
        Some(self.value.cmp_val(&other.value))
    }

    /// The value multiplied by a bare amount; the unit is kept.
    pub fn scale_by(&self, k: &Rat) -> (r: Option<Temperature>)
        requires
            rat_wf(self.value),
            rat_wf(*k),
        ensures
            r is Some <==> crate::rat::prod_in_range(self.value, *k),
            r matches Some(q) ==> {
                &&& rat_wf(q.value)
                &&& q.unit == self.unit
                &&& crate::rat::is_prod_of(q.value, self.value, *k)
            },
    {
        match self.value.mul(k) {
            Some(v) => Some(Temperature { value: v, unit: self.unit }),
            None => None,
        }
    }

    /// The value divided by a bare amount; the unit is kept.
    pub fn div_by(&self, k: &Rat) -> (r: Option<Temperature>)
        requires
            rat_wf(self.value),
            rat_wf(*k),
        ensures
            r is Some <==> crate::rat::quot_in_range(self.value, *k),
            r matches Some(q) ==> {
                &&& rat_wf(q.value)
                &&& q.unit == self.unit
                &&& crate::rat::is_quot_of(q.value, self.value, *k)
            },
    {
        match self.value.div(k) {
            Some(v) => Some(Temperature { value: v, unit: self.unit }),
            None => None,
        }
    }

    /// Renders the value as `amount symbol`.
    pub fn to_string(&self) -> (s: String)
        requires
            rat_wf(self.value),
        ensures
            s@ == crate::fmt::with_symbol_chars(self.value, self.unit.symbol_view()),
    {
        let sym = self.unit.symbol();
        proof {
            reveal_strlit("°C");
            reveal_strlit("°F");
            reveal_strlit("K");
        }
        amount_with_symbol(&self.value, sym.as_str())
    }
}

/// The temperature conversion rules:
/// Kelvin to Celsius subtracts 273.15; Kelvin to Fahrenheit multiplies by
/// 9/5 and subtracts 459.67; Celsius to Fahrenheit multiplies by 9/5 and
/// adds 32; each with its exact inverse.
pub open spec fn temperature_rules() -> Seq<ConvEntry> {
    seq![
        ConvEntry {
            from: 2,
            to: 0,
            factor: Rat { num: 1, den: 1 },
            offset: Rat { num: -5463i128, den: 20 },
        },
        ConvEntry {
            from: 0,
            to: 2,
            factor: Rat { num: 1, den: 1 },
            offset: Rat { num: 5463, den: 20 },
        },
        ConvEntry {
            from: 2,
            to: 1,
            factor: Rat { num: 9, den: 5 },
            offset: Rat { num: -45967i128, den: 100 },
        },
        ConvEntry {
            from: 1,
            to: 2,
            factor: Rat { num: 5, den: 9 },
            offset: Rat { num: 45967, den: 180 },
        },
        ConvEntry {
            from: 0,
            to: 1,
            factor: Rat { num: 9, den: 5 },
            offset: Rat { num: 32, den: 1 },
        },
        ConvEntry {
            from: 1,
            to: 0,
            factor: Rat { num: 5, den: 9 },
            offset: Rat { num: -160i128, den: 9 },
        },
    ]
}

/// A converter between temperature units, backed by the affine table.
#[derive(Clone, Debug)]
pub struct TemperatureConverter {
    /// The underlying table of rules.
    pub table: ConversionTable,
}

/// The temperature converter with the standard Kelvin, Celsius and
/// Fahrenheit rules.
pub fn temperature_converter() -> (c: TemperatureConverter)
    ensures
        c.table.entries@ == temperature_rules(),
        table_wf(c.table.entries@),
{
    let entries = vec![
        ConvEntry {
            from: 2,
            to: 0,
            factor: Rat { num: 1, den: 1 },
            offset: Rat { num: -5463, den: 20 },
        },
        ConvEntry {
            from: 0,
            to: 2,
            factor: Rat { num: 1, den: 1 },
            offset: Rat { num: 5463, den: 20 },
        },
        ConvEntry {
            from: 2,
            to: 1,
            factor: Rat { num: 9, den: 5 },
            offset: Rat { num: -45967, den: 100 },
        },
        ConvEntry {
            from: 1,
            to: 2,
            factor: Rat { num: 5, den: 9 },
            offset: Rat { num: 45967, den: 180 },
        },
        ConvEntry {
            from: 0,
            to: 1,
            factor: Rat { num: 9, den: 5 },
            offset: Rat { num: 32, den: 1 },
        },
        ConvEntry {
            from: 1,
            to: 0,
            factor: Rat { num: 5, den: 9 },
            offset: Rat { num: -160, den: 9 },
        },
    ];
    proof {
        assert(entries@ =~= temperature_rules());
    }
    TemperatureConverter { table: ConversionTable { entries } }
}

impl TemperatureConverter {
    /// Converts a temperature to the given unit.
    ///
    /// A value already in the target unit is returned unchanged, without
    /// a table lookup; otherwise the first matching rule is applied, and
    /// `None` reports a pair the table does not cover.
    pub fn convert(&self, q: &Temperature, to: TemperatureUnit) -> (r: Option<Temperature>)
        requires
            rat_wf(q.value),
            table_wf(self.table.entries@),
        ensures
            q.unit == to ==> r == Some(*q),
            r matches Some(c) ==> {
                &&& rat_wf(c.value)
                &&& c.unit == to
                &&& q.unit != to ==> {
                    &&& table_lookup(
                        self.table.entries@,
                        q.unit.index_spec(),
                        to.index_spec(),
                    ) matches Some(e)
                    &&& is_affine_of(
                        c.value,
                        q.value,
                        table_lookup(
                            self.table.entries@,
                            q.unit.index_spec(),
                            to.index_spec(),
                        )->Some_0.factor,
                        table_lookup(
                            self.table.entries@,
                            q.unit.index_spec(),
                            to.index_spec(),
                        )->Some_0.offset,
                    )
                    &&& crate::table::affine_bounds(
                        c.value,
                        q.value,
                        table_lookup(
                            self.table.entries@,
                            q.unit.index_spec(),
                            to.index_spec(),
                        )->Some_0.factor,
                        table_lookup(
                            self.table.entries@,
                            q.unit.index_spec(),
                            to.index_spec(),
                        )->Some_0.offset,
                    )
                }
            },
            q.unit != to && table_lookup(self.table.entries@, q.unit.index_spec(), to.index_spec())
                is None ==> r is None,
            (table_lookup(self.table.entries@, q.unit.index_spec(), to.index_spec()) matches Some(
                e,
            ) && crate::table::affine_in_range(q.value, e.factor, e.offset)) ==> r is Some,
    {
        let from_i = q.unit.index();
        let to_i = to.index();
        if from_i == to_i {
            proof {
                assert(q.unit == to);
            }
            return Some(*q);
        }
        match self.table.convert_amount(&q.value, from_i, to_i) {
            Some(v) => Some(Temperature { value: v, unit: to }),
            None => None,
        }
    }
}

} // verus!
