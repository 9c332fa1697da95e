//! The quantity `Length` and its units.
//!
//! The quantity of distance between two points.
//! Reference unit: Meter. Units are enumerated in ascending
//! scale order; the scales are exact rationals.

use vstd::prelude::*;

use crate::algebra::{
    considered, has_considered, unit_tab_wf, UnitScale,
};
use crate::fmt::amount_with_symbol;
use crate::prefix::SIPrefix;
use crate::rat::{rat_wf, Rat};

verus! {

/// Unit of quantity `Length`, in ascending scale order.
#[derive(Clone, Copy, Debug, PartialEq, Eq, Structural)]
pub enum LengthUnit {
    /// Nanometer (`nm`).
    Nanometer,
    /// Micrometer (`µm`).
    Micrometer,
    /// Millimeter (`mm`).
    Millimeter,
    /// Centimeter (`cm`).
    Centimeter,
    /// Decimeter (`dm`).
    Decimeter,
    /// Meter (`m`).
    Meter,
    /// Kilometer (`km`).
    Kilometer,
}

/// The unit Nanometer.
pub const NANOMETER: LengthUnit = LengthUnit::Nanometer;
/// The unit Micrometer.
pub const MICROMETER: LengthUnit = LengthUnit::Micrometer;
/// The unit Millimeter.
pub const MILLIMETER: LengthUnit = LengthUnit::Millimeter;
/// The unit Centimeter.
pub const CENTIMETER: LengthUnit = LengthUnit::Centimeter;
/// The unit Decimeter.
pub const DECIMETER: LengthUnit = LengthUnit::Decimeter;
/// The unit Meter.
pub const METER: LengthUnit = LengthUnit::Meter;
/// The unit Kilometer.
pub const KILOMETER: LengthUnit = LengthUnit::Kilometer;

impl LengthUnit {
    /// Position in the canonical (ascending-scale) unit order.
    pub open spec fn index_spec(self) -> int {
        match self {
            LengthUnit::Nanometer => 0,
            LengthUnit::Micrometer => 1,
            LengthUnit::Millimeter => 2,
            LengthUnit::Centimeter => 3,
            LengthUnit::Decimeter => 4,
            LengthUnit::Meter => 5,
            LengthUnit::Kilometer => 6,
        }
    }

    /// The unit's scale: its size expressed in the reference unit.
    pub open spec fn scale_spec(self) -> Rat {
        match self {
            LengthUnit::Nanometer => Rat { num: 1, den: 1000000000 },
            LengthUnit::Micrometer => Rat { num: 1, den: 1000000 },
            LengthUnit::Millimeter => Rat { num: 1, den: 1000 },
            LengthUnit::Centimeter => Rat { num: 1, den: 100 },
            LengthUnit::Decimeter => Rat { num: 1, den: 10 },
            LengthUnit::Meter => Rat { num: 1, den: 1 },
            LengthUnit::Kilometer => Rat { num: 1000, den: 1 },
        }
    }

    /// The unit's SI-prefix tag, if it carries one.
    pub open spec fn si_prefix_spec(self) -> Option<SIPrefix> {
        match self {
            LengthUnit::Nanometer => Some(SIPrefix::NANO),
            LengthUnit::Micrometer => Some(SIPrefix::MICRO),
            LengthUnit::Millimeter => Some(SIPrefix::MILLI),
            LengthUnit::Centimeter => Some(SIPrefix::CENTI),
            LengthUnit::Decimeter => Some(SIPrefix::DECI),
            LengthUnit::Meter => Some(SIPrefix::NONE),
            LengthUnit::Kilometer => Some(SIPrefix::KILO),
        }
    }

    /// The unit's printable symbol, as characters.
    pub open spec fn symbol_view(self) -> Seq<char> {
        match self {
            LengthUnit::Nanometer => "nm"@,
            LengthUnit::Micrometer => "µm"@,
            LengthUnit::Millimeter => "mm"@,
            LengthUnit::Centimeter => "cm"@,
            LengthUnit::Decimeter => "dm"@,
            LengthUnit::Meter => "m"@,
            LengthUnit::Kilometer => "km"@,
        }
    }

    /// Position in the canonical unit order.
    pub fn index(self) -> (i: usize)
        ensures
            i == self.index_spec(),
    {
        match self {
            LengthUnit::Nanometer => 0,
            LengthUnit::Micrometer => 1,
            LengthUnit::Millimeter => 2,
            LengthUnit::Centimeter => 3,
            LengthUnit::Decimeter => 4,
            LengthUnit::Meter => 5,
            LengthUnit::Kilometer => 6,
        }
    }

    /// The unit at the given position of the canonical order.
    pub fn from_index(i: usize) -> (unit: LengthUnit)
        requires
            i < 7,
        ensures
            unit.index_spec() == i,
    {
        if i == 0 {
            LengthUnit::Nanometer
        } else if i == 1 {
            LengthUnit::Micrometer
        } else if i == 2 {
            LengthUnit::Millimeter
        } else if i == 3 {
            LengthUnit::Centimeter
        } else if i == 4 {
            LengthUnit::Decimeter
        } else if i == 5 {
            LengthUnit::Meter
        } else {
            LengthUnit::Kilometer
        }
    }

    /// The unit's scale.
    pub fn scale(self) -> (r: Rat)
        ensures
            r == self.scale_spec(),
    {
        match self {
            LengthUnit::Nanometer => Rat { num: 1, den: 1000000000 },
            LengthUnit::Micrometer => Rat { num: 1, den: 1000000 },
            LengthUnit::Millimeter => Rat { num: 1, den: 1000 },
            LengthUnit::Centimeter => Rat { num: 1, den: 100 },
            LengthUnit::Decimeter => Rat { num: 1, den: 10 },
            LengthUnit::Meter => Rat { num: 1, den: 1 },
            LengthUnit::Kilometer => Rat { num: 1000, den: 1 },
        }
    }

    /// The unit's SI-prefix tag, if it carries one.
    pub fn si_prefix(self) -> (p: Option<SIPrefix>)
        ensures
            p == self.si_prefix_spec(),
    {
        match self {
            LengthUnit::Nanometer => Some(SIPrefix::NANO),
            LengthUnit::Micrometer => Some(SIPrefix::MICRO),
            LengthUnit::Millimeter => Some(SIPrefix::MILLI),
            LengthUnit::Centimeter => Some(SIPrefix::CENTI),
            LengthUnit::Decimeter => Some(SIPrefix::DECI),
            LengthUnit::Meter => Some(SIPrefix::NONE),
            LengthUnit::Kilometer => Some(SIPrefix::KILO),
        }
    }

    /// The unit's printable symbol.
    pub fn symbol(self) -> (s: String)
        ensures
            s@ == self.symbol_view(),
    {
        match self {
            LengthUnit::Nanometer => "nm".to_owned(),
            LengthUnit::Micrometer => "µm".to_owned(),
            LengthUnit::Millimeter => "mm".to_owned(),
            LengthUnit::Centimeter => "cm".to_owned(),
            LengthUnit::Decimeter => "dm".to_owned(),
            LengthUnit::Meter => "m".to_owned(),
            LengthUnit::Kilometer => "km".to_owned(),
        }
    }

    /// The unit's display name, as characters.
    pub open spec fn name_view(self) -> Seq<char> {
        match self {
            LengthUnit::Nanometer => "Nanometer"@,
            LengthUnit::Micrometer => "Micrometer"@,
            LengthUnit::Millimeter => "Millimeter"@,
            LengthUnit::Centimeter => "Centimeter"@,
            LengthUnit::Decimeter => "Decimeter"@,
            LengthUnit::Meter => "Meter"@,
            LengthUnit::Kilometer => "Kilometer"@,
        }
    }

    /// The unit's display name.
    pub fn name(self) -> (s: String)
        ensures
            s@ == self.name_view(),
    {
        match self {
            LengthUnit::Nanometer => "Nanometer".to_owned(),
            LengthUnit::Micrometer => "Micrometer".to_owned(),
            LengthUnit::Millimeter => "Millimeter".to_owned(),
            LengthUnit::Centimeter => "Centimeter".to_owned(),
            LengthUnit::Decimeter => "Decimeter".to_owned(),
            LengthUnit::Meter => "Meter".to_owned(),
            LengthUnit::Kilometer => "Kilometer".to_owned(),
        }
    }

    /// The reference unit, of scale 1.
    pub fn ref_unit() -> (unit: LengthUnit)
        ensures
            unit == LengthUnit::Meter,
    {
        LengthUnit::Meter
    }

    /// All units, in canonical order.
    pub open spec fn all_units_spec() -> Seq<LengthUnit> {
        seq![LengthUnit::Nanometer, LengthUnit::Micrometer, LengthUnit::Millimeter, LengthUnit::Centimeter, LengthUnit::Decimeter, LengthUnit::Meter, LengthUnit::Kilometer]
    }

    /// All units, in canonical order.
    pub fn units() -> (v: Vec<LengthUnit>)
        ensures
            v@ == LengthUnit::all_units_spec(),
    {
        let v = vec![LengthUnit::Nanometer, LengthUnit::Micrometer, LengthUnit::Millimeter, LengthUnit::Centimeter, LengthUnit::Decimeter, LengthUnit::Meter, LengthUnit::Kilometer];
        proof {
            assert(v@ =~= LengthUnit::all_units_spec());
        }
        v
    }

    /// The runtime scale table of the quantity.
    pub open spec fn table_spec() -> Seq<UnitScale> {
        seq![
            UnitScale { scale: Rat { num: 1, den: 1000000000 }, tagged: true },
            UnitScale { scale: Rat { num: 1, den: 1000000 }, tagged: true },
            UnitScale { scale: Rat { num: 1, den: 1000 }, tagged: true },
            UnitScale { scale: Rat { num: 1, den: 100 }, tagged: true },
            UnitScale { scale: Rat { num: 1, den: 10 }, tagged: true },
            UnitScale { scale: Rat { num: 1, den: 1 }, tagged: true },
            UnitScale { scale: Rat { num: 1000, den: 1 }, tagged: true },
        ]
    }

    /// The runtime scale table of the quantity.
    pub fn table() -> (t: Vec<UnitScale>)
        ensures
            t@ == LengthUnit::table_spec(),
    {
        let t = vec![
            UnitScale { scale: Rat { num: 1, den: 1000000000 }, tagged: true },
            UnitScale { scale: Rat { num: 1, den: 1000000 }, tagged: true },
            UnitScale { scale: Rat { num: 1, den: 1000 }, tagged: true },
            UnitScale { scale: Rat { num: 1, den: 100 }, tagged: true },
            UnitScale { scale: Rat { num: 1, den: 10 }, tagged: true },
            UnitScale { scale: Rat { num: 1, den: 1 }, tagged: true },
            UnitScale { scale: Rat { num: 1000, den: 1 }, tagged: true },
        ];
        proof {
            assert(t@ =~= LengthUnit::table_spec());
        }
        t
    }
}

/// The scale table is sound: nonempty, usable, ascending, with a
/// considered unit, and each unit's entry carries its own scale and tag.
pub proof fn length_table_ok()
    ensures
        unit_tab_wf(LengthUnit::table_spec()),
        has_considered(LengthUnit::table_spec(), false),
        forall|unit: LengthUnit|
            LengthUnit::table_spec()[#[trigger] unit.index_spec()] == (UnitScale {
                scale: unit.scale_spec(),
                tagged: unit.si_prefix_spec() is Some,
            }),
{
    let t = LengthUnit::table_spec();
    assert(t.len() == 7);
    assert(considered(t, 5, false));
    assert forall|k: int| 0 <= k < t.len() implies crate::schema::scale_ok(
        (#[trigger] t[k]).scale,
    ) by {
        if k == 0 {
            assert(crate::schema::scale_ok(t[0].scale));
        } else if k == 1 {
            assert(crate::schema::scale_ok(t[1].scale));
        } else if k == 2 {
            assert(crate::schema::scale_ok(t[2].scale));
        } else if k == 3 {
            assert(crate::schema::scale_ok(t[3].scale));
        } else if k == 4 {
            assert(crate::schema::scale_ok(t[4].scale));
        } else if k == 5 {
            assert(crate::schema::scale_ok(t[5].scale));
        } else if k == 6 {
            assert(crate::schema::scale_ok(t[6].scale));
        }
    }
    assert forall|k: int| 0 <= k < t.len() - 1 implies crate::rat::rat_le_spec(
        (#[trigger] t[k]).scale,
        t[k + 1].scale,
    ) by {
        if k == 0 {
            assert(crate::rat::rat_le_spec(t[0].scale, t[1].scale));
        } else if k == 1 {
            assert(crate::rat::rat_le_spec(t[1].scale, t[2].scale));
        } else if k == 2 {
            assert(crate::rat::rat_le_spec(t[2].scale, t[3].scale));
        } else if k == 3 {
            assert(crate::rat::rat_le_spec(t[3].scale, t[4].scale));
        } else if k == 4 {
            assert(crate::rat::rat_le_spec(t[4].scale, t[5].scale));
        } else if k == 5 {
            assert(crate::rat::rat_le_spec(t[5].scale, t[6].scale));
        }
    }
    crate::algebra::lemma_tab_sorted_from_adjacent(t);
    assert forall|unit: LengthUnit| t[#[trigger] unit.index_spec()] == (UnitScale {
        scale: unit.scale_spec(),
        tagged: unit.si_prefix_spec() is Some,
    }) by {
        if unit == LengthUnit::Nanometer {
            assert(t[0] == (UnitScale {
                scale: LengthUnit::Nanometer.scale_spec(),
                tagged: LengthUnit::Nanometer.si_prefix_spec() is Some,
            }));
        } else if unit == LengthUnit::Micrometer {
            assert(t[1] == (UnitScale {
                scale: LengthUnit::Micrometer.scale_spec(),
                tagged: LengthUnit::Micrometer.si_prefix_spec() is Some,
            }));
        } else if unit == LengthUnit::Millimeter {
            assert(t[2] == (UnitScale {
                scale: LengthUnit::Millimeter.scale_spec(),
                tagged: LengthUnit::Millimeter.si_prefix_spec() is Some,
            }));
        } else if unit == LengthUnit::Centimeter {
            assert(t[3] == (UnitScale {
                scale: LengthUnit::Centimeter.scale_spec(),
                tagged: LengthUnit::Centimeter.si_prefix_spec() is Some,
            }));
        } else if unit == LengthUnit::Decimeter {
            assert(t[4] == (UnitScale {
                scale: LengthUnit::Decimeter.scale_spec(),
                tagged: LengthUnit::Decimeter.si_prefix_spec() is Some,
            }));
        } else if unit == LengthUnit::Meter {
            assert(t[5] == (UnitScale {
                scale: LengthUnit::Meter.scale_spec(),
                tagged: LengthUnit::Meter.si_prefix_spec() is Some,
            }));
        } else if unit == LengthUnit::Kilometer {
            assert(t[6] == (UnitScale {
                scale: LengthUnit::Kilometer.scale_spec(),
                tagged: LengthUnit::Kilometer.si_prefix_spec() is Some,
            }));
        }
    }
}

/// The quantity of distance between two points.
///
/// An amount together with one of the quantity's units.
#[derive(Clone, Copy, Debug, PartialEq, Eq, Structural)]
pub struct Length {
    /// The amount.
    pub value: Rat,
    /// The unit the amount is expressed in.
    pub unit: LengthUnit,
}

impl Length {
    /// A new quantity value from an amount and a unit.
    pub fn new(value: Rat, unit: LengthUnit) -> (q: Length)
        ensures
            q.value == value,
            q.unit == unit,
    {
        Length { value, unit }
    }

    /// The amount.
    pub fn value(&self) -> (r: Rat)
        ensures
            r == self.value,
    {
        self.value
    }

    /// The unit.
    pub fn unit(&self) -> (unit: LengthUnit)
        ensures
            unit == self.unit,
    {
        self.unit
    }

    /// The same value expressed in the unit `to`: the amount is
    /// rescaled by the ratio of the two unit scales.
    pub fn convert(&self, to: LengthUnit) -> (r: Option<Length>)
        requires
            rat_wf(self.value),
        ensures
            r matches Some(q) ==> {
                &&& rat_wf(q.value)
                &&& q.unit == to
                &&& crate::algebra::is_scaled_of(
                    q.value,
                    self.value,
                    self.unit.scale_spec(),
                    to.scale_spec(),
                )
            },
            crate::algebra::scaled_in_range(self.value, self.unit.scale_spec(), to.scale_spec())
                ==> r is Some,
    {
        match crate::algebra::equiv_amount(&self.value, &self.unit.scale(), &to.scale()) {
            Some(v) => Some(Length { value: v, unit: to }),
            None => None,
        }
    }

    /// The sum of the two values, expressed in `self`'s unit.
    pub fn add(&self, other: &Length) -> (r: Option<Length>)
        requires
            rat_wf(self.value),
            rat_wf(other.value),
        ensures
            r matches Some(q) ==> {
                &&& rat_wf(q.value)
                &&& q.unit == self.unit
                &&& crate::algebra::is_sum_in_left(
                    q.value,
                    self.value,
                    self.unit.scale_spec(),
                    other.value,
                    other.unit.scale_spec(),
                )
            },
            crate::algebra::combine_in_range(
                self.value,
                self.unit.scale_spec(),
                other.value,
                other.unit.scale_spec(),
            ) ==> r is Some,
    {
        match crate::algebra::add_qty(
            &self.value,
            &self.unit.scale(),
            &other.value,
            &other.unit.scale(),
        ) {
            Some(v) => Some(Length { value: v, unit: self.unit }),
            None => None,
        }
    }

    /// The difference of the two values, expressed in `self`'s unit.
    pub fn sub(&self, other: &Length) -> (r: Option<Length>)
        requires
            rat_wf(self.value),
            rat_wf(other.value),
        ensures
            r matches Some(q) ==> {
                &&& rat_wf(q.value)
                &&& q.unit == self.unit
                &&& crate::algebra::is_diff_in_left(
                    q.value,
                    self.value,
                    self.unit.scale_spec(),
                    other.value,
                    other.unit.scale_spec(),
                )
            },
            crate::algebra::combine_in_range(
                self.value,
                self.unit.scale_spec(),
                other.value,
                other.unit.scale_spec(),
            ) ==> r is Some,
    {
        match crate::algebra::sub_qty(
            &self.value,
            &self.unit.scale(),
            &other.value,
            &other.unit.scale(),
        ) {
            Some(v) => Some(Length { value: v, unit: self.unit }),
            None => None,
        }
    }

    /// The dimensionless ratio of the two values.
    pub fn div(&self, other: &Length) -> (r: Option<Rat>)
        requires
            rat_wf(self.value),
            rat_wf(other.value),
        ensures
            r matches Some(v) ==> rat_wf(v) && crate::algebra::is_ratio_of(
                v,
                self.value,
                self.unit.scale_spec(),
                other.value,
                other.unit.scale_spec(),
            ),
            crate::algebra::ratio_in_range(
                self.value,
                self.unit.scale_spec(),
                other.value,
                other.unit.scale_spec(),
            ) ==> r is Some,
    {
        crate::algebra::div_qty(
            &self.value,
            &self.unit.scale(),
            &other.value,
            &other.unit.scale(),
        )
    }

    /// Exact equivalence of the two values, whatever their units.
    pub fn equivalent(&self, other: &Length) -> (b: bool)
        requires
            rat_wf(self.value),
            rat_wf(other.value),
        ensures
            b == crate::algebra::qty_eq_spec(
                self.value,
                self.unit.scale_spec(),
                other.value,
                other.unit.scale_spec(),
            ),
    {
        let r = crate::algebra::cmp_qty(
            &self.value,
            &self.unit.scale(),
            &other.value,
            &other.unit.scale(),
        );
        match r {
            core::cmp::Ordering::Equal => true,
            _ => false,
        }
    }

    /// The best-fitting unit for a magnitude expressed in the
    /// reference unit, with the rescaled amount.
    pub fn fit(amount: Rat) -> (r: Option<Length>)
        requires
            rat_wf(amount),
        ensures
            r matches Some(q) ==> {
                &&& rat_wf(q.value)
                &&& crate::algebra::is_fit_choice(
                    LengthUnit::table_spec(),
                    false,
                    amount.num as int,
                    amount.den as int,
                    q.unit.index_spec(),
                )
                &&& crate::rat::is_quot_of(q.value, amount, q.unit.scale_spec())
            },
            (forall|k: int|
                0 <= k < LengthUnit::table_spec().len()
                    ==> crate::rat::rat_abs(amount.num as int) * (#[trigger] LengthUnit::table_spec()[k]).scale.den
                    <= crate::rat::RAT_BOUND && amount.den * LengthUnit::table_spec()[k].scale.num
                    <= crate::rat::RAT_BOUND) ==> r is Some,
    {
        proof {
            length_table_ok();
        }
        let t = LengthUnit::table();
        let i = crate::algebra::fit_index(&t, false, amount.num, amount.den);
        let unit = LengthUnit::from_index(i);
        proof {
            assert(t@[i as int] == LengthUnit::table_spec()[unit.index_spec()]);
            if forall|k: int|
                0 <= k < LengthUnit::table_spec().len()
                    ==> crate::rat::rat_abs(amount.num as int) * (#[trigger] LengthUnit::table_spec()[k]).scale.den
                    <= crate::rat::RAT_BOUND && amount.den * LengthUnit::table_spec()[k].scale.num
                    <= crate::rat::RAT_BOUND {
                crate::algebra::lemma_final_div_bounds(
                    amount,
                    t@[i as int].scale,
                    crate::rat::rat_abs(amount.num as int),
                    amount.den as int,
                );
            }
        }
        match amount.div(&unit.scale()) {
            Some(v) => Some(Length { value: v, unit }),
            None => None,
        }
    }

    /// Renders the value as `amount symbol`.
    pub fn to_string(&self) -> (s: String)
        requires
            rat_wf(self.value),
        ensures
            self.unit.symbol_view().len() > 0 ==> s@ == crate::fmt::with_symbol_chars(
                self.value,
                self.unit.symbol_view(),
            ),
    {
        let sym = self.unit.symbol();
        amount_with_symbol(&self.value, sym.as_str())
    }
}

impl LengthUnit {
    /// The first unit in canonical order whose symbol is `s`, if any.
    pub open spec fn from_symbol_spec(s: Seq<char>) -> Option<LengthUnit> {
        if s == "nm"@ {
            Some(LengthUnit::Nanometer)
        } else if s == "µm"@ {
            Some(LengthUnit::Micrometer)
        } else if s == "mm"@ {
            Some(LengthUnit::Millimeter)
        } else if s == "cm"@ {
            Some(LengthUnit::Centimeter)
        } else if s == "dm"@ {
            Some(LengthUnit::Decimeter)
        } else if s == "m"@ {
            Some(LengthUnit::Meter)
        } else if s == "km"@ {
            Some(LengthUnit::Kilometer)
        } else {
            None
        }
    }

    /// Looks a unit up by its printable symbol, scanning the canonical
    /// order; `None` when no unit uses the symbol.
    pub fn from_symbol(s: &str) -> (r: Option<LengthUnit>)
        ensures
            r == LengthUnit::from_symbol_spec(s@),
    {
        if crate::text::str_eq(s, "nm") {
            Some(LengthUnit::Nanometer)
        } else if crate::text::str_eq(s, "µm") {
            Some(LengthUnit::Micrometer)
        } else if crate::text::str_eq(s, "mm") {
            Some(LengthUnit::Millimeter)
        } else if crate::text::str_eq(s, "cm") {
            Some(LengthUnit::Centimeter)
        } else if crate::text::str_eq(s, "dm") {
            Some(LengthUnit::Decimeter)
        } else if crate::text::str_eq(s, "m") {
            Some(LengthUnit::Meter)
        } else if crate::text::str_eq(s, "km") {
            Some(LengthUnit::Kilometer)
        } else {
            None
        }
    }

    /// How many of `other` one `self` is: the exact ratio of the two
    /// unit scales.
    pub fn ratio(self, other: LengthUnit) -> (r: Option<Rat>)
        ensures
            r is Some <==> crate::rat::quot_in_range(self.scale_spec(), other.scale_spec()),
            r matches Some(v) ==> rat_wf(v) && crate::rat::is_quot_of(
                v,
                self.scale_spec(),
                other.scale_spec(),
            ),
    {
        self.scale().div(&other.scale())
    }
}

impl Length {
    /// The value multiplied by a bare amount; the unit is kept.
    pub fn scale_by(&self, k: &Rat) -> (r: Option<Length>)
        requires
            rat_wf(self.value),
            rat_wf(*k),
        ensures
            r is Some <==> crate::rat::prod_in_range(self.value, *k),
            r matches Some(q) ==> {
                &&& rat_wf(q.value)
                &&& q.unit == self.unit
                &&& crate::rat::is_prod_of(q.value, self.value, *k)
            },
    {
        match self.value.mul(k) {
            Some(v) => Some(Length { value: v, unit: self.unit }),
            None => None,
        }
    }

    /// The value divided by a bare amount; the unit is kept.
    pub fn div_by(&self, k: &Rat) -> (r: Option<Length>)
        requires
            rat_wf(self.value),
            rat_wf(*k),
        ensures
            r is Some <==> crate::rat::quot_in_range(self.value, *k),
            r matches Some(q) ==> {
                &&& rat_wf(q.value)
                &&& q.unit == self.unit
                &&& crate::rat::is_quot_of(q.value, self.value, *k)
            },
    {
        match self.value.div(k) {
            Some(v) => Some(Length { value: v, unit: self.unit }),
            None => None,
        }
    }

    /// Multiplies by a rate whose per side is a unit of this quantity:
    /// the value, divided by `per_unit_multiple` times the per unit and
    /// multiplied by `term_amount`, as an amount in the rate's term
    /// unit. The rescale goes through the rate's stored units.
    pub fn mul_rate<TU: Copy>(&self, rate: &crate::rate::Rate<TU, LengthUnit>) -> (r: Option<
        (Rat, TU),
    >)
        requires
            rat_wf(self.value),
            rat_wf(rate.term_amount),
            rat_wf(rate.per_unit_multiple),
        ensures
            rate.per_unit_multiple.num == 0 ==> r is None,
            rate.per_unit_multiple.num != 0 && crate::rate::rate_in_range(
                self.value,
                self.unit.scale_spec(),
                rate.per_unit.scale_spec(),
                rate.per_unit_multiple,
                rate.term_amount,
            ) ==> r is Some,
            r matches Some(p) ==> {
                &&& rat_wf(p.0)
                &&& p.1 == rate.term_unit
                &&& rate.per_unit_multiple.num != 0
                &&& crate::rate::is_rate_apply(
                    p.0,
                    self.value,
                    self.unit.scale_spec(),
                    rate.per_unit.scale_spec(),
                    rate.per_unit_multiple,
                    rate.term_amount,
                )
            },
    {
        match crate::rate::rate_apply(
            &self.value,
            &self.unit.scale(),
            &rate.per_unit.scale(),
            &rate.per_unit_multiple,
            &rate.term_amount,
        ) {
            Some(v) => Some((v, rate.term_unit)),
            None => None,
        }
    }

    /// Divides by a rate whose term side is a unit of this quantity:
    /// the value, divided by `term_amount` times the term unit and
    /// multiplied by `per_unit_multiple`, as an amount in the rate's per
    /// unit. The rescale goes through the rate's stored units.
    pub fn div_rate<PU: Copy>(&self, rate: &crate::rate::Rate<LengthUnit, PU>) -> (r: Option<
        (Rat, PU),
    >)
        requires
            rat_wf(self.value),
            rat_wf(rate.term_amount),
            rat_wf(rate.per_unit_multiple),
        ensures
            rate.term_amount.num == 0 ==> r is None,
            rate.term_amount.num != 0 && crate::rate::rate_in_range(
                self.value,
                self.unit.scale_spec(),
                rate.term_unit.scale_spec(),
                rate.term_amount,
                rate.per_unit_multiple,
            ) ==> r is Some,
            r matches Some(p) ==> {
                &&& rat_wf(p.0)
                &&& p.1 == rate.per_unit
                &&& rate.term_amount.num != 0
                &&& crate::rate::is_rate_apply(
                    p.0,
                    self.value,
                    self.unit.scale_spec(),
                    rate.term_unit.scale_spec(),
                    rate.term_amount,
                    rate.per_unit_multiple,
                )
            },
    {
        match crate::rate::rate_apply(
            &self.value,
            &self.unit.scale(),
            &rate.term_unit.scale(),
            &rate.term_amount,
            &rate.per_unit_multiple,
        ) {
            Some(v) => Some((v, rate.per_unit)),
            None => None,
        }
    }
}

/// Units are enumerated in ascending scale order: along the canonical
/// list, every unit's scale is at most any later unit's.
pub proof fn length_units_ascending()
    ensures
        forall|i: int, j: int|
            0 <= i <= j < LengthUnit::all_units_spec().len() ==> crate::rat::rat_le_spec(
                (#[trigger] LengthUnit::all_units_spec()[i]).scale_spec(),
                (#[trigger] LengthUnit::all_units_spec()[j]).scale_spec(),
            ),
{
    length_table_ok();
    assert forall|i: int, j: int|
        0 <= i <= j < LengthUnit::all_units_spec().len() implies crate::rat::rat_le_spec(
        (#[trigger] LengthUnit::all_units_spec()[i]).scale_spec(),
        (#[trigger] LengthUnit::all_units_spec()[j]).scale_spec(),
    ) by {
        let u = LengthUnit::all_units_spec()[i];
        let v = LengthUnit::all_units_spec()[j];
        assert(u.index_spec() == i && v.index_spec() == j);
        assert(LengthUnit::table_spec()[i].scale == u.scale_spec());
        assert(LengthUnit::table_spec()[j].scale == v.scale_spec());
        if i < j {
            assert(crate::rat::rat_le_spec(
                LengthUnit::table_spec()[i].scale,
                LengthUnit::table_spec()[j].scale,
            ));
        }
    }
}

} // verus!
