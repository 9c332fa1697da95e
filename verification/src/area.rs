//! The quantity `Area` and its units.
//!
//! The quantity expressing the extent of a two-dimensional region.
//! Reference unit: Square Meter. Units are enumerated in ascending
//! scale order; the scales are exact rationals.

use vstd::prelude::*;

use crate::algebra::{
    considered, has_considered, unit_tab_wf, UnitScale,
};
use crate::fmt::amount_with_symbol;
use crate::prefix::SIPrefix;
use crate::rat::{rat_wf, Rat};

verus! {

/// Unit of quantity `Area`, in ascending scale order.
#[derive(Clone, Copy, Debug, PartialEq, Eq, Structural)]
pub enum AreaUnit {
    /// Square Millimeter (`mm²`).
    SquareMillimeter,
    /// Square Centimeter (`cm²`).
    SquareCentimeter,
    /// Square Inch (`in²`).
    SquareInch,
    /// Square Decimeter (`dm²`).
    SquareDecimeter,
    /// Square Foot (`ft²`).
    SquareFoot,
    /// Square Yard (`yd²`).
    SquareYard,
    /// Square Meter (`m²`).
    SquareMeter,
    /// Are (`a`).
    Are,
    /// Acre (`ac`).
    Acre,
    /// Hectare (`ha`).
    Hectare,
    /// Square Kilometer (`km²`).
    SquareKilometer,
    /// Square Mile (`mi²`).
    SquareMile,
}

/// The unit Square Millimeter.
pub const SQUARE_MILLIMETER: AreaUnit = AreaUnit::SquareMillimeter;
/// The unit Square Centimeter.
pub const SQUARE_CENTIMETER: AreaUnit = AreaUnit::SquareCentimeter;
/// The unit Square Inch.
pub const SQUARE_INCH: AreaUnit = AreaUnit::SquareInch;
/// The unit Square Decimeter.
pub const SQUARE_DECIMETER: AreaUnit = AreaUnit::SquareDecimeter;
/// The unit Square Foot.
pub const SQUARE_FOOT: AreaUnit = AreaUnit::SquareFoot;
/// The unit Square Yard.
pub const SQUARE_YARD: AreaUnit = AreaUnit::SquareYard;
/// The unit Square Meter.
pub const SQUARE_METER: AreaUnit = AreaUnit::SquareMeter;
/// The unit Are.
pub const ARE: AreaUnit = AreaUnit::Are;
/// The unit Acre.
pub const ACRE: AreaUnit = AreaUnit::Acre;
/// The unit Hectare.
pub const HECTARE: AreaUnit = AreaUnit::Hectare;
/// The unit Square Kilometer.
pub const SQUARE_KILOMETER: AreaUnit = AreaUnit::SquareKilometer;
/// The unit Square Mile.
pub const SQUARE_MILE: AreaUnit = AreaUnit::SquareMile;

impl AreaUnit {
    /// Position in the canonical (ascending-scale) unit order.
    pub open spec fn index_spec(self) -> int {
        match self {
            AreaUnit::SquareMillimeter => 0,
            AreaUnit::SquareCentimeter => 1,
            AreaUnit::SquareInch => 2,
            AreaUnit::SquareDecimeter => 3,
            AreaUnit::SquareFoot => 4,
            AreaUnit::SquareYard => 5,
            AreaUnit::SquareMeter => 6,
            AreaUnit::Are => 7,
            AreaUnit::Acre => 8,
            AreaUnit::Hectare => 9,
            AreaUnit::SquareKilometer => 10,
            AreaUnit::SquareMile => 11,
        }
    }

    /// The unit's scale: its size expressed in the reference unit.
    pub open spec fn scale_spec(self) -> Rat {
        match self {
            AreaUnit::SquareMillimeter => Rat { num: 1, den: 1000000 },
            AreaUnit::SquareCentimeter => Rat { num: 1, den: 10000 },
            AreaUnit::SquareInch => Rat { num: 16129, den: 25000000 },
            AreaUnit::SquareDecimeter => Rat { num: 1, den: 100 },
            AreaUnit::SquareFoot => Rat { num: 145161, den: 1562500 },
            AreaUnit::SquareYard => Rat { num: 1306449, den: 1562500 },
            AreaUnit::SquareMeter => Rat { num: 1, den: 1 },
            AreaUnit::Are => Rat { num: 100, den: 1 },
            AreaUnit::Acre => Rat { num: 316160658, den: 78125 },
            AreaUnit::Hectare => Rat { num: 10000, den: 1 },
            AreaUnit::SquareKilometer => Rat { num: 1000000, den: 1 },
            AreaUnit::SquareMile => Rat { num: 40468564224, den: 15625 },
        }
    }

    /// The unit's SI-prefix tag, if it carries one.
    pub open spec fn si_prefix_spec(self) -> Option<SIPrefix> {
        match self {
            AreaUnit::SquareMillimeter => Some(SIPrefix::MICRO),
            AreaUnit::SquareCentimeter => None,
            AreaUnit::SquareInch => None,
            AreaUnit::SquareDecimeter => Some(SIPrefix::CENTI),
            AreaUnit::SquareFoot => None,
            AreaUnit::SquareYard => None,
            AreaUnit::SquareMeter => Some(SIPrefix::NONE),
            AreaUnit::Are => Some(SIPrefix::HECTO),
            AreaUnit::Acre => None,
            AreaUnit::Hectare => None,
            AreaUnit::SquareKilometer => Some(SIPrefix::MEGA),
            AreaUnit::SquareMile => None,
        }
    }

    /// The unit's printable symbol, as characters.
    pub open spec fn symbol_view(self) -> Seq<char> {
        match self {
            AreaUnit::SquareMillimeter => "mm²"@,
            AreaUnit::SquareCentimeter => "cm²"@,
            AreaUnit::SquareInch => "in²"@,
            AreaUnit::SquareDecimeter => "dm²"@,
            AreaUnit::SquareFoot => "ft²"@,
            AreaUnit::SquareYard => "yd²"@,
            AreaUnit::SquareMeter => "m²"@,
            AreaUnit::Are => "a"@,
            AreaUnit::Acre => "ac"@,
            AreaUnit::Hectare => "ha"@,
            AreaUnit::SquareKilometer => "km²"@,
            AreaUnit::SquareMile => "mi²"@,
        }
    }

    /// Position in the canonical unit order.
    pub fn index(self) -> (i: usize)
        ensures
            i == self.index_spec(),
    {
        match self {
            AreaUnit::SquareMillimeter => 0,
            AreaUnit::SquareCentimeter => 1,
            AreaUnit::SquareInch => 2,
            AreaUnit::SquareDecimeter => 3,
            AreaUnit::SquareFoot => 4,
            AreaUnit::SquareYard => 5,
            AreaUnit::SquareMeter => 6,
            AreaUnit::Are => 7,
            AreaUnit::Acre => 8,
            AreaUnit::Hectare => 9,
            AreaUnit::SquareKilometer => 10,
            AreaUnit::SquareMile => 11,
        }
    }

    /// The unit at the given position of the canonical order.
    pub fn from_index(i: usize) -> (unit: AreaUnit)
        requires
            i < 12,
        ensures
            unit.index_spec() == i,
    {
        if i == 0 {
            AreaUnit::SquareMillimeter
        } else if i == 1 {
            AreaUnit::SquareCentimeter
        } else if i == 2 {
            AreaUnit::SquareInch
        } else if i == 3 {
            AreaUnit::SquareDecimeter
        } else if i == 4 {
            AreaUnit::SquareFoot
        } else if i == 5 {
            AreaUnit::SquareYard
        } else if i == 6 {
            AreaUnit::SquareMeter
        } else if i == 7 {
            AreaUnit::Are
        } else if i == 8 {
            AreaUnit::Acre
        } else if i == 9 {
            AreaUnit::Hectare
        } else if i == 10 {
            AreaUnit::SquareKilometer
        } else {
            AreaUnit::SquareMile
        }
    }

    /// The unit's scale.
    pub fn scale(self) -> (r: Rat)
        ensures
            r == self.scale_spec(),
    {
        match self {
            AreaUnit::SquareMillimeter => Rat { num: 1, den: 1000000 },
            AreaUnit::SquareCentimeter => Rat { num: 1, den: 10000 },
            AreaUnit::SquareInch => Rat { num: 16129, den: 25000000 },
            AreaUnit::SquareDecimeter => Rat { num: 1, den: 100 },
            AreaUnit::SquareFoot => Rat { num: 145161, den: 1562500 },
            AreaUnit::SquareYard => Rat { num: 1306449, den: 1562500 },
            AreaUnit::SquareMeter => Rat { num: 1, den: 1 },
            AreaUnit::Are => Rat { num: 100, den: 1 },
            AreaUnit::Acre => Rat { num: 316160658, den: 78125 },
            AreaUnit::Hectare => Rat { num: 10000, den: 1 },
            AreaUnit::SquareKilometer => Rat { num: 1000000, den: 1 },
            AreaUnit::SquareMile => Rat { num: 40468564224, den: 15625 },
        }
    }

    /// The unit's SI-prefix tag, if it carries one.
    pub fn si_prefix(self) -> (p: Option<SIPrefix>)
        ensures
            p == self.si_prefix_spec(),
    {
        match self {
            AreaUnit::SquareMillimeter => Some(SIPrefix::MICRO),
            AreaUnit::SquareCentimeter => None,
            AreaUnit::SquareInch => None,
            AreaUnit::SquareDecimeter => Some(SIPrefix::CENTI),
            AreaUnit::SquareFoot => None,
            AreaUnit::SquareYard => None,
            AreaUnit::SquareMeter => Some(SIPrefix::NONE),
            AreaUnit::Are => Some(SIPrefix::HECTO),
            AreaUnit::Acre => None,
            AreaUnit::Hectare => None,
            AreaUnit::SquareKilometer => Some(SIPrefix::MEGA),
            AreaUnit::SquareMile => None,
        }
    }

    /// The unit's printable symbol.
    pub fn symbol(self) -> (s: String)
        ensures
            s@ == self.symbol_view(),
    {
        match self {
            AreaUnit::SquareMillimeter => "mm²".to_owned(),
            AreaUnit::SquareCentimeter => "cm²".to_owned(),
            AreaUnit::SquareInch => "in²".to_owned(),
            AreaUnit::SquareDecimeter => "dm²".to_owned(),
            AreaUnit::SquareFoot => "ft²".to_owned(),
            AreaUnit::SquareYard => "yd²".to_owned(),
            AreaUnit::SquareMeter => "m²".to_owned(),
            AreaUnit::Are => "a".to_owned(),
            AreaUnit::Acre => "ac".to_owned(),
            AreaUnit::Hectare => "ha".to_owned(),
            AreaUnit::SquareKilometer => "km²".to_owned(),
            AreaUnit::SquareMile => "mi²".to_owned(),
        }
    }

    /// The unit's display name, as characters.
    pub open spec fn name_view(self) -> Seq<char> {
        match self {
            AreaUnit::SquareMillimeter => "Square Millimeter"@,
            AreaUnit::SquareCentimeter => "Square Centimeter"@,
            AreaUnit::SquareInch => "Square Inch"@,
            AreaUnit::SquareDecimeter => "Square Decimeter"@,
            AreaUnit::SquareFoot => "Square Foot"@,
            AreaUnit::SquareYard => "Square Yard"@,
            AreaUnit::SquareMeter => "Square Meter"@,
            AreaUnit::Are => "Are"@,
            AreaUnit::Acre => "Acre"@,
            AreaUnit::Hectare => "Hectare"@,
            AreaUnit::SquareKilometer => "Square Kilometer"@,
            AreaUnit::SquareMile => "Square Mile"@,
        }
    }

    /// The unit's display name.
    pub fn name(self) -> (s: String)
        ensures
            s@ == self.name_view(),
    {
        match self {
            AreaUnit::SquareMillimeter => "Square Millimeter".to_owned(),
            AreaUnit::SquareCentimeter => "Square Centimeter".to_owned(),
            AreaUnit::SquareInch => "Square Inch".to_owned(),
            AreaUnit::SquareDecimeter => "Square Decimeter".to_owned(),
            AreaUnit::SquareFoot => "Square Foot".to_owned(),
            AreaUnit::SquareYard => "Square Yard".to_owned(),
            AreaUnit::SquareMeter => "Square Meter".to_owned(),
            AreaUnit::Are => "Are".to_owned(),
            AreaUnit::Acre => "Acre".to_owned(),
            AreaUnit::Hectare => "Hectare".to_owned(),
            AreaUnit::SquareKilometer => "Square Kilometer".to_owned(),
            AreaUnit::SquareMile => "Square Mile".to_owned(),
        }
    }

    /// The reference unit, of scale 1.
    pub fn ref_unit() -> (unit: AreaUnit)
        ensures
            unit == AreaUnit::SquareMeter,
    {
        AreaUnit::SquareMeter
    }

    /// All units, in canonical order.
    pub open spec fn all_units_spec() -> Seq<AreaUnit> {
        seq![AreaUnit::SquareMillimeter, AreaUnit::SquareCentimeter, AreaUnit::SquareInch, AreaUnit::SquareDecimeter, AreaUnit::SquareFoot, AreaUnit::SquareYard, AreaUnit::SquareMeter, AreaUnit::Are, AreaUnit::Acre, AreaUnit::Hectare, AreaUnit::SquareKilometer, AreaUnit::SquareMile]
    }

    /// All units, in canonical order.
    pub fn units() -> (v: Vec<AreaUnit>)
        ensures
            v@ == AreaUnit::all_units_spec(),
    {
        let v = vec![AreaUnit::SquareMillimeter, AreaUnit::SquareCentimeter, AreaUnit::SquareInch, AreaUnit::SquareDecimeter, AreaUnit::SquareFoot, AreaUnit::SquareYard, AreaUnit::SquareMeter, AreaUnit::Are, AreaUnit::Acre, AreaUnit::Hectare, AreaUnit::SquareKilometer, AreaUnit::SquareMile];
        proof {
            assert(v@ =~= AreaUnit::all_units_spec());
        }
        v
    }

    /// The runtime scale table of the quantity.
    pub open spec fn table_spec() -> Seq<UnitScale> {
        seq![
            UnitScale { scale: Rat { num: 1, den: 1000000 }, tagged: true },
            UnitScale { scale: Rat { num: 1, den: 10000 }, tagged: false },
            UnitScale { scale: Rat { num: 16129, den: 25000000 }, tagged: false },
            UnitScale { scale: Rat { num: 1, den: 100 }, tagged: true },
            UnitScale { scale: Rat { num: 145161, den: 1562500 }, tagged: false },
            UnitScale { scale: Rat { num: 1306449, den: 1562500 }, tagged: false },
            UnitScale { scale: Rat { num: 1, den: 1 }, tagged: true },
            UnitScale { scale: Rat { num: 100, den: 1 }, tagged: true },
            UnitScale { scale: Rat { num: 316160658, den: 78125 }, tagged: false },
            UnitScale { scale: Rat { num: 10000, den: 1 }, tagged: false },
            UnitScale { scale: Rat { num: 1000000, den: 1 }, tagged: true },
            UnitScale { scale: Rat { num: 40468564224, den: 15625 }, tagged: false },
        ]
    }

    /// The runtime scale table of the quantity.
    pub fn table() -> (t: Vec<UnitScale>)
        ensures
            t@ == AreaUnit::table_spec(),
    {
        let t = vec![
            UnitScale { scale: Rat { num: 1, den: 1000000 }, tagged: true },
            UnitScale { scale: Rat { num: 1, den: 10000 }, tagged: false },
            UnitScale { scale: Rat { num: 16129, den: 25000000 }, tagged: false },
            UnitScale { scale: Rat { num: 1, den: 100 }, tagged: true },
            UnitScale { scale: Rat { num: 145161, den: 1562500 }, tagged: false },
            UnitScale { scale: Rat { num: 1306449, den: 1562500 }, tagged: false },
            UnitScale { scale: Rat { num: 1, den: 1 }, tagged: true },
            UnitScale { scale: Rat { num: 100, den: 1 }, tagged: true },
            UnitScale { scale: Rat { num: 316160658, den: 78125 }, tagged: false },
            UnitScale { scale: Rat { num: 10000, den: 1 }, tagged: false },
            UnitScale { scale: Rat { num: 1000000, den: 1 }, tagged: true },
            UnitScale { scale: Rat { num: 40468564224, den: 15625 }, tagged: false },
        ];
        proof {
            assert(t@ =~= AreaUnit::table_spec());
        }
        t
    }
}

/// The scale table is sound: nonempty, usable, ascending, with a
/// considered unit, and each unit's entry carries its own scale and tag.
pub proof fn area_table_ok()
    ensures
        unit_tab_wf(AreaUnit::table_spec()),
        has_considered(AreaUnit::table_spec(), false),
        forall|unit: AreaUnit|
            AreaUnit::table_spec()[#[trigger] unit.index_spec()] == (UnitScale {
                scale: unit.scale_spec(),
                tagged: unit.si_prefix_spec() is Some,
            }),
{
    let t = AreaUnit::table_spec();
    assert(t.len() == 12);
    assert(considered(t, 6, false));
    assert forall|k: int| 0 <= k < t.len() implies crate::schema::scale_ok(
        (#[trigger] t[k]).scale,
    ) by {
        if k == 0 {
            assert(crate::schema::scale_ok(t[0].scale));
        } else if k == 1 {
            assert(crate::schema::scale_ok(t[1].scale));
        } else if k == 2 {
            assert(crate::schema::scale_ok(t[2].scale));
        } else if k == 3 {
            assert(crate::schema::scale_ok(t[3].scale));
        } else if k == 4 {
            assert(crate::schema::scale_ok(t[4].scale));
        } else if k == 5 {
            assert(crate::schema::scale_ok(t[5].scale));
        } else if k == 6 {
            assert(crate::schema::scale_ok(t[6].scale));
        } else if k == 7 {
            assert(crate::schema::scale_ok(t[7].scale));
        } else if k == 8 {
            assert(crate::schema::scale_ok(t[8].scale));
        } else if k == 9 {
            assert(crate::schema::scale_ok(t[9].scale));
        } else if k == 10 {
            assert(crate::schema::scale_ok(t[10].scale));
        } else if k == 11 {
            assert(crate::schema::scale_ok(t[11].scale));
        }
    }
    assert forall|k: int| 0 <= k < t.len() - 1 implies crate::rat::rat_le_spec(
        (#[trigger] t[k]).scale,
        t[k + 1].scale,
    ) by {
        if k == 0 {
            assert(crate::rat::rat_le_spec(t[0].scale, t[1].scale));
        } else if k == 1 {
            assert(crate::rat::rat_le_spec(t[1].scale, t[2].scale));
        } else if k == 2 {
            assert(crate::rat::rat_le_spec(t[2].scale, t[3].scale));
        } else if k == 3 {
            assert(crate::rat::rat_le_spec(t[3].scale, t[4].scale));
        } else if k == 4 {
            assert(crate::rat::rat_le_spec(t[4].scale, t[5].scale));
        } else if k == 5 {
            assert(crate::rat::rat_le_spec(t[5].scale, t[6].scale));
        } else if k == 6 {
            assert(crate::rat::rat_le_spec(t[6].scale, t[7].scale));
        } else if k == 7 {
            assert(crate::rat::rat_le_spec(t[7].scale, t[8].scale));
        } else if k == 8 {
            assert(crate::rat::rat_le_spec(t[8].scale, t[9].scale));
        } else if k == 9 {
            assert(crate::rat::rat_le_spec(t[9].scale, t[10].scale));
        } else if k == 10 {
            assert(crate::rat::rat_le_spec(t[10].scale, t[11].scale));
        }
    }
    crate::algebra::lemma_tab_sorted_from_adjacent(t);
    assert forall|unit: AreaUnit| t[#[trigger] unit.index_spec()] == (UnitScale {
        scale: unit.scale_spec(),
        tagged: unit.si_prefix_spec() is Some,
    }) by {
        if unit == AreaUnit::SquareMillimeter {
            assert(t[0] == (UnitScale {
                scale: AreaUnit::SquareMillimeter.scale_spec(),
                tagged: AreaUnit::SquareMillimeter.si_prefix_spec() is Some,
            }));
        } else if unit == AreaUnit::SquareCentimeter {
            assert(t[1] == (UnitScale {
                scale: AreaUnit::SquareCentimeter.scale_spec(),
                tagged: AreaUnit::SquareCentimeter.si_prefix_spec() is Some,
            }));
        } else if unit == AreaUnit::SquareInch {
            assert(t[2] == (UnitScale {
                scale: AreaUnit::SquareInch.scale_spec(),
                tagged: AreaUnit::SquareInch.si_prefix_spec() is Some,
            }));
        } else if unit == AreaUnit::SquareDecimeter {
            assert(t[3] == (UnitScale {
                scale: AreaUnit::SquareDecimeter.scale_spec(),
                tagged: AreaUnit::SquareDecimeter.si_prefix_spec() is Some,
            }));
        } else if unit == AreaUnit::SquareFoot {
            assert(t[4] == (UnitScale {
                scale: AreaUnit::SquareFoot.scale_spec(),
                tagged: AreaUnit::SquareFoot.si_prefix_spec() is Some,
            }));
        } else if unit == AreaUnit::SquareYard {
            assert(t[5] == (UnitScale {
                scale: AreaUnit::SquareYard.scale_spec(),
                tagged: AreaUnit::SquareYard.si_prefix_spec() is Some,
            }));
        } else if unit == AreaUnit::SquareMeter {
            assert(t[6] == (UnitScale {
                scale: AreaUnit::SquareMeter.scale_spec(),
                tagged: AreaUnit::SquareMeter.si_prefix_spec() is Some,
            }));
        } else if unit == AreaUnit::Are {
            assert(t[7] == (UnitScale {
                scale: AreaUnit::Are.scale_spec(),
                tagged: AreaUnit::Are.si_prefix_spec() is Some,
            }));
        } else if unit == AreaUnit::Acre {
            assert(t[8] == (UnitScale {
                scale: AreaUnit::Acre.scale_spec(),
                tagged: AreaUnit::Acre.si_prefix_spec() is Some,
            }));
        } else if unit == AreaUnit::Hectare {
            assert(t[9] == (UnitScale {
                scale: AreaUnit::Hectare.scale_spec(),
                tagged: AreaUnit::Hectare.si_prefix_spec() is Some,
            }));
        } else if unit == AreaUnit::SquareKilometer {
            assert(t[10] == (UnitScale {
                scale: AreaUnit::SquareKilometer.scale_spec(),
                tagged: AreaUnit::SquareKilometer.si_prefix_spec() is Some,
            }));
        } else if unit == AreaUnit::SquareMile {
            assert(t[11] == (UnitScale {
                scale: AreaUnit::SquareMile.scale_spec(),
                tagged: AreaUnit::SquareMile.si_prefix_spec() is Some,
            }));
        }
    }
}

/// The quantity expressing the extent of a two-dimensional region.
///
/// An amount together with one of the quantity's units.
#[derive(Clone, Copy, Debug, PartialEq, Eq, Structural)]
pub struct Area {
    /// The amount.
    pub value: Rat,
    /// The unit the amount is expressed in.
    pub unit: AreaUnit,
}

impl Area {
    /// A new quantity value from an amount and a unit.
    pub fn new(value: Rat, unit: AreaUnit) -> (q: Area)
        ensures
            q.value == value,
            q.unit == unit,
    {
        Area { value, unit }
    }

    /// The amount.
    pub fn value(&self) -> (r: Rat)
        ensures
            r == self.value,
    {
        self.value
    }

    /// The unit.
    pub fn unit(&self) -> (unit: AreaUnit)
        ensures
            unit == self.unit,
    {
        self.unit
    }

    /// The same value expressed in the unit `to`: the amount is
    /// rescaled by the ratio of the two unit scales.
    pub fn convert(&self, to: AreaUnit) -> (r: Option<Area>)
        requires
            rat_wf(self.value),
        ensures
            r matches Some(q) ==> {
                &&& rat_wf(q.value)
                &&& q.unit == to
                &&& crate::algebra::is_scaled_of(
                    q.value,
                    self.value,
                    self.unit.scale_spec(),
                    to.scale_spec(),
                )
            },
            crate::algebra::scaled_in_range(self.value, self.unit.scale_spec(), to.scale_spec())
                ==> r is Some,
    {
        match crate::algebra::equiv_amount(&self.value, &self.unit.scale(), &to.scale()) {
            Some(v) => Some(Area { value: v, unit: to }),
            None => None,
        }
    }

    /// The sum of the two values, expressed in `self`'s unit.
    pub fn add(&self, other: &Area) -> (r: Option<Area>)
        requires
            rat_wf(self.value),
            rat_wf(other.value),
        ensures
            r matches Some(q) ==> {
                &&& rat_wf(q.value)
                &&& q.unit == self.unit
                &&& crate::algebra::is_sum_in_left(
                    q.value,
                    self.value,
                    self.unit.scale_spec(),
                    other.value,
                    other.unit.scale_spec(),
                )
            },
            crate::algebra::combine_in_range(
                self.value,
                self.unit.scale_spec(),
                other.value,
                other.unit.scale_spec(),
            ) ==> r is Some,
    {
        match crate::algebra::add_qty(
            &self.value,
            &self.unit.scale(),
            &other.value,
            &other.unit.scale(),
        ) {
            Some(v) => Some(Area { value: v, unit: self.unit }),
            None => None,
        }
    }

    /// The difference of the two values, expressed in `self`'s unit.
    pub fn sub(&self, other: &Area) -> (r: Option<Area>)
        requires
            rat_wf(self.value),
            rat_wf(other.value),
        ensures
            r matches Some(q) ==> {
                &&& rat_wf(q.value)
                &&& q.unit == self.unit
                &&& crate::algebra::is_diff_in_left(
                    q.value,
                    self.value,
                    self.unit.scale_spec(),
                    other.value,
                    other.unit.scale_spec(),
                )
            },
            crate::algebra::combine_in_range(
                self.value,
                self.unit.scale_spec(),
                other.value,
                other.unit.scale_spec(),
            ) ==> r is Some,
    {
        match crate::algebra::sub_qty(
            &self.value,
            &self.unit.scale(),
            &other.value,
            &other.unit.scale(),
        ) {
            Some(v) => Some(Area { value: v, unit: self.unit }),
            None => None,
        }
    }

    /// The dimensionless ratio of the two values.
    pub fn div(&self, other: &Area) -> (r: Option<Rat>)
        requires
            rat_wf(self.value),
            rat_wf(other.value),
        ensures
            r matches Some(v) ==> rat_wf(v) && crate::algebra::is_ratio_of(
                v,
                self.value,
                self.unit.scale_spec(),
                other.value,
                other.unit.scale_spec(),
            ),
            crate::algebra::ratio_in_range(
                self.value,
                self.unit.scale_spec(),
                other.value,
                other.unit.scale_spec(),
            ) ==> r is Some,
    {
        crate::algebra::div_qty(
            &self.value,
            &self.unit.scale(),
            &other.value,
            &other.unit.scale(),
        )
    }

    /// Exact equivalence of the two values, whatever their units.
    pub fn equivalent(&self, other: &Area) -> (b: bool)
        requires
            rat_wf(self.value),
            rat_wf(other.value),
        ensures
            b == crate::algebra::qty_eq_spec(
                self.value,
                self.unit.scale_spec(),
                other.value,
                other.unit.scale_spec(),
            ),
    {
        let r = crate::algebra::cmp_qty(
            &self.value,
            &self.unit.scale(),
            &other.value,
            &other.unit.scale(),
        );
        match r {
            core::cmp::Ordering::Equal => true,
            _ => false,
        }
    }

    /// The best-fitting unit for a magnitude expressed in the
    /// reference unit, with the rescaled amount.
    pub fn fit(amount: Rat) -> (r: Option<Area>)
        requires
            rat_wf(amount),
        ensures
            r matches Some(q) ==> {
                &&& rat_wf(q.value)
                &&& crate::algebra::is_fit_choice(
                    AreaUnit::table_spec(),
                    false,
                    amount.num as int,
                    amount.den as int,
                    q.unit.index_spec(),
                )
                &&& crate::rat::is_quot_of(q.value, amount, q.unit.scale_spec())
            },
            (forall|k: int|
                0 <= k < AreaUnit::table_spec().len()
                    ==> crate::rat::rat_abs(amount.num as int) * (#[trigger] AreaUnit::table_spec()[k]).scale.den
                    <= crate::rat::RAT_BOUND && amount.den * AreaUnit::table_spec()[k].scale.num
                    <= crate::rat::RAT_BOUND) ==> r is Some,
    {
        proof {
            area_table_ok();
        }
        let t = AreaUnit::table();
        let i = crate::algebra::fit_index(&t, false, amount.num, amount.den);
        let unit = AreaUnit::from_index(i);
        proof {
            assert(t@[i as int] == AreaUnit::table_spec()[unit.index_spec()]);
            if forall|k: int|
                0 <= k < AreaUnit::table_spec().len()
                    ==> crate::rat::rat_abs(amount.num as int) * (#[trigger] AreaUnit::table_spec()[k]).scale.den
                    <= crate::rat::RAT_BOUND && amount.den * AreaUnit::table_spec()[k].scale.num
                    <= crate::rat::RAT_BOUND {
                crate::algebra::lemma_final_div_bounds(
                    amount,
                    t@[i as int].scale,
                    crate::rat::rat_abs(amount.num as int),
                    amount.den as int,
                );
            }
        }
        match amount.div(&unit.scale()) {
            Some(v) => Some(Area { value: v, unit }),
            None => None,
        }
    }

    /// Renders the value as `amount symbol`.
    pub fn to_string(&self) -> (s: String)
        requires
            rat_wf(self.value),
        ensures
            self.unit.symbol_view().len() > 0 ==> s@ == crate::fmt::with_symbol_chars(
                self.value,
                self.unit.symbol_view(),
            ),
    {
        let sym = self.unit.symbol();
        amount_with_symbol(&self.value, sym.as_str())
    }
}

impl crate::length::Length {
    /// The product of a length and a length: the result lands in the unit whose
    /// scale is exactly the product of the operand unit scales, or in
    /// the best-fitting unit for the product magnitude.
    pub fn mul_length(&self, rhs: &crate::length::Length) -> (r: Option<crate::area::Area>)
        requires
            rat_wf(self.value),
            rat_wf(rhs.value),
        ensures
            r matches Some(q) ==> {
                &&& rat_wf(q.value)
                &&& crate::algebra::is_prod_result(
                    q.value,
                    q.unit.scale_spec(),
                    self.value,
                    self.unit.scale_spec(),
                    rhs.value,
                    rhs.unit.scale_spec(),
                )
                &&& match crate::algebra::lookup_spec(
                    crate::area::AreaUnit::table_spec(),
                    self.unit.scale_spec().num * rhs.unit.scale_spec().num,
                    self.unit.scale_spec().den * rhs.unit.scale_spec().den,
                ) {
                    Some(j) => q.unit.index_spec() == j,
                    None => crate::algebra::is_fit_choice(
                        crate::area::AreaUnit::table_spec(),
                        false,
                        crate::algebra::prod_num(
                            self.value,
                            self.unit.scale_spec(),
                            rhs.value,
                            rhs.unit.scale_spec(),
                        ),
                        crate::algebra::prod_den(
                            self.value,
                            self.unit.scale_spec(),
                            rhs.value,
                            rhs.unit.scale_spec(),
                        ),
                        q.unit.index_spec(),
                    ),
                }
            },
            crate::algebra::mul_in_range(
                self.value,
                self.unit.scale_spec(),
                rhs.value,
                rhs.unit.scale_spec(),
                crate::area::AreaUnit::table_spec(),
            ) ==> r is Some,
    {
        proof {
            crate::area::area_table_ok();
        }
        let t = crate::area::AreaUnit::table();
        match crate::algebra::qty_mul(
            &self.value,
            &self.unit.scale(),
            &rhs.value,
            &rhs.unit.scale(),
            &t,
            false,
        ) {
            Some((am, i)) => {
                let unit = crate::area::AreaUnit::from_index(i);
                proof {
                    assert(t@[i as int] == crate::area::AreaUnit::table_spec()[unit.index_spec()]);
                }
                Some(crate::area::Area { value: am, unit })
            },
            None => None,
        }
    }
}

impl crate::area::Area {
    /// The quotient of a area by a length: the result lands in the unit whose
    /// scale is exactly the quotient of the operand unit scales, or in
    /// the best-fitting unit for the quotient magnitude.
    pub fn div_length(&self, rhs: &crate::length::Length) -> (r: Option<crate::length::Length>)
        requires
            rat_wf(self.value),
            rat_wf(rhs.value),
        ensures
            r matches Some(q) ==> {
                &&& rat_wf(q.value)
                &&& crate::algebra::is_quot_result(
                    q.value,
                    q.unit.scale_spec(),
                    self.value,
                    self.unit.scale_spec(),
                    rhs.value,
                    rhs.unit.scale_spec(),
                )
                &&& match crate::algebra::lookup_spec(
                    crate::length::LengthUnit::table_spec(),
                    self.unit.scale_spec().num * rhs.unit.scale_spec().den,
                    self.unit.scale_spec().den * rhs.unit.scale_spec().num,
                ) {
                    Some(j) => q.unit.index_spec() == j,
                    None => crate::algebra::is_fit_choice(
                        crate::length::LengthUnit::table_spec(),
                        false,
                        crate::algebra::quot_num(
                            self.value,
                            self.unit.scale_spec(),
                            rhs.value,
                            rhs.unit.scale_spec(),
                        ),
                        crate::algebra::quot_den(
                            self.value,
                            self.unit.scale_spec(),
                            rhs.value,
                            rhs.unit.scale_spec(),
                        ),
                        q.unit.index_spec(),
                    ),
                }
            },
            crate::algebra::div_in_range(
                self.value,
                self.unit.scale_spec(),
                rhs.value,
                rhs.unit.scale_spec(),
                crate::length::LengthUnit::table_spec(),
            ) ==> r is Some,
    {
        proof {
            crate::length::length_table_ok();
        }
        let t = crate::length::LengthUnit::table();
        match crate::algebra::qty_div(
            &self.value,
            &self.unit.scale(),
            &rhs.value,
            &rhs.unit.scale(),
            &t,
            false,
        ) {
            Some((am, i)) => {
                let unit = crate::length::LengthUnit::from_index(i);
                proof {
                    assert(t@[i as int] == crate::length::LengthUnit::table_spec()[unit.index_spec()]);
                }
                Some(crate::length::Length { value: am, unit })
            },
            None => None,
        }
    }
}

impl AreaUnit {
    /// The first unit in canonical order whose symbol is `s`, if any.
    pub open spec fn from_symbol_spec(s: Seq<char>) -> Option<AreaUnit> {
        if s == "mm²"@ {
            Some(AreaUnit::SquareMillimeter)
        } else if s == "cm²"@ {
            Some(AreaUnit::SquareCentimeter)
        } else if s == "in²"@ {
            Some(AreaUnit::SquareInch)
        } else if s == "dm²"@ {
            Some(AreaUnit::SquareDecimeter)
        } else if s == "ft²"@ {
            Some(AreaUnit::SquareFoot)
        } else if s == "yd²"@ {
            Some(AreaUnit::SquareYard)
        } else if s == "m²"@ {
            Some(AreaUnit::SquareMeter)
        } else if s == "a"@ {
            Some(AreaUnit::Are)
        } else if s == "ac"@ {
            Some(AreaUnit::Acre)
        } else if s == "ha"@ {
            Some(AreaUnit::Hectare)
        } else if s == "km²"@ {
            Some(AreaUnit::SquareKilometer)
        } else if s == "mi²"@ {
            Some(AreaUnit::SquareMile)
        } else {
            None
        }
    }

    /// Looks a unit up by its printable symbol, scanning the canonical
    /// order; `None` when no unit uses the symbol.
    pub fn from_symbol(s: &str) -> (r: Option<AreaUnit>)
        ensures
            r == AreaUnit::from_symbol_spec(s@),
    {
        if crate::text::str_eq(s, "mm²") {
            Some(AreaUnit::SquareMillimeter)
        } else if crate::text::str_eq(s, "cm²") {
            Some(AreaUnit::SquareCentimeter)
        } else if crate::text::str_eq(s, "in²") {
            Some(AreaUnit::SquareInch)
        } else if crate::text::str_eq(s, "dm²") {
            Some(AreaUnit::SquareDecimeter)
        } else if crate::text::str_eq(s, "ft²") {
            Some(AreaUnit::SquareFoot)
        } else if crate::text::str_eq(s, "yd²") {
            Some(AreaUnit::SquareYard)
        } else if crate::text::str_eq(s, "m²") {
            Some(AreaUnit::SquareMeter)
        } else if crate::text::str_eq(s, "a") {
            Some(AreaUnit::Are)
        } else if crate::text::str_eq(s, "ac") {
            Some(AreaUnit::Acre)
        } else if crate::text::str_eq(s, "ha") {
            Some(AreaUnit::Hectare)
        } else if crate::text::str_eq(s, "km²") {
            Some(AreaUnit::SquareKilometer)
        } else if crate::text::str_eq(s, "mi²") {
            Some(AreaUnit::SquareMile)
        } else {
            None
        }
    }

    /// How many of `other` one `self` is: the exact ratio of the two
    /// unit scales.
    pub fn ratio(self, other: AreaUnit) -> (r: Option<Rat>)
        ensures
            r is Some <==> crate::rat::quot_in_range(self.scale_spec(), other.scale_spec()),
            r matches Some(v) ==> rat_wf(v) && crate::rat::is_quot_of(
                v,
                self.scale_spec(),
                other.scale_spec(),
            ),
    {
        self.scale().div(&other.scale())
    }
}

impl Area {
    /// The value multiplied by a bare amount; the unit is kept.
    pub fn scale_by(&self, k: &Rat) -> (r: Option<Area>)
        requires
            rat_wf(self.value),
            rat_wf(*k),
        ensures
            r is Some <==> crate::rat::prod_in_range(self.value, *k),
            r matches Some(q) ==> {
                &&& rat_wf(q.value)
                &&& q.unit == self.unit
                &&& crate::rat::is_prod_of(q.value, self.value, *k)
            },
    {
        match self.value.mul(k) {
            Some(v) => Some(Area { value: v, unit: self.unit }),
            None => None,
        }
    }

    /// The value divided by a bare amount; the unit is kept.
    pub fn div_by(&self, k: &Rat) -> (r: Option<Area>)
        requires
            rat_wf(self.value),
            rat_wf(*k),
        ensures
            r is Some <==> crate::rat::quot_in_range(self.value, *k),
            r matches Some(q) ==> {
                &&& rat_wf(q.value)
                &&& q.unit == self.unit
                &&& crate::rat::is_quot_of(q.value, self.value, *k)
            },
    {
        match self.value.div(k) {
            Some(v) => Some(Area { value: v, unit: self.unit }),
            None => None,
        }
    }

    /// Multiplies by a rate whose per side is a unit of this quantity:
    /// the value, divided by `per_unit_multiple` times the per unit and
    /// multiplied by `term_amount`, as an amount in the rate's term
    /// unit. The rescale goes through the rate's stored units.
    pub fn mul_rate<TU: Copy>(&self, rate: &crate::rate::Rate<TU, AreaUnit>) -> (r: Option<
        (Rat, TU),
    >)
        requires
            rat_wf(self.value),
            rat_wf(rate.term_amount),
            rat_wf(rate.per_unit_multiple),
        ensures
            rate.per_unit_multiple.num == 0 ==> r is None,
            rate.per_unit_multiple.num != 0 && crate::rate::rate_in_range(
                self.value,
                self.unit.scale_spec(),
                rate.per_unit.scale_spec(),
                rate.per_unit_multiple,
                rate.term_amount,
            ) ==> r is Some,
            r matches Some(p) ==> {
                &&& rat_wf(p.0)
                &&& p.1 == rate.term_unit
                &&& rate.per_unit_multiple.num != 0
                &&& crate::rate::is_rate_apply(
                    p.0,
                    self.value,
                    self.unit.scale_spec(),
                    rate.per_unit.scale_spec(),
                    rate.per_unit_multiple,
                    rate.term_amount,
                )
            },
    {
        match crate::rate::rate_apply(
            &self.value,
            &self.unit.scale(),
            &rate.per_unit.scale(),
            &rate.per_unit_multiple,
            &rate.term_amount,
        ) {
            Some(v) => Some((v, rate.term_unit)),
            None => None,
        }
    }

    /// Divides by a rate whose term side is a unit of this quantity:
    /// the value, divided by `term_amount` times the term unit and
    /// multiplied by `per_unit_multiple`, as an amount in the rate's per
    /// unit. The rescale goes through the rate's stored units.
    pub fn div_rate<PU: Copy>(&self, rate: &crate::rate::Rate<AreaUnit, PU>) -> (r: Option<
        (Rat, PU),
    >)
        requires
            rat_wf(self.value),
            rat_wf(rate.term_amount),
            rat_wf(rate.per_unit_multiple),
        ensures
            rate.term_amount.num == 0 ==> r is None,
            rate.term_amount.num != 0 && crate::rate::rate_in_range(
                self.value,
                self.unit.scale_spec(),
                rate.term_unit.scale_spec(),
                rate.term_amount,
                rate.per_unit_multiple,
            ) ==> r is Some,
            r matches Some(p) ==> {
                &&& rat_wf(p.0)
                &&& p.1 == rate.per_unit
                &&& rate.term_amount.num != 0
                &&& crate::rate::is_rate_apply(
                    p.0,
                    self.value,
                    self.unit.scale_spec(),
                    rate.term_unit.scale_spec(),
                    rate.term_amount,
                    rate.per_unit_multiple,
                )
            },
    {
        match crate::rate::rate_apply(
            &self.value,
            &self.unit.scale(),
            &rate.term_unit.scale(),
            &rate.term_amount,
            &rate.per_unit_multiple,
        ) {
            Some(v) => Some((v, rate.per_unit)),
            None => None,
        }
    }
}

/// Units are enumerated in ascending scale order: along the canonical
/// list, every unit's scale is at most any later unit's.
pub proof fn area_units_ascending()
    ensures
        forall|i: int, j: int|
            0 <= i <= j < AreaUnit::all_units_spec().len() ==> crate::rat::rat_le_spec(
                (#[trigger] AreaUnit::all_units_spec()[i]).scale_spec(),
                (#[trigger] AreaUnit::all_units_spec()[j]).scale_spec(),
            ),
{
    area_table_ok();
    assert forall|i: int, j: int|
        0 <= i <= j < AreaUnit::all_units_spec().len() implies crate::rat::rat_le_spec(
        (#[trigger] AreaUnit::all_units_spec()[i]).scale_spec(),
        (#[trigger] AreaUnit::all_units_spec()[j]).scale_spec(),
    ) by {
        let u = AreaUnit::all_units_spec()[i];
        let v = AreaUnit::all_units_spec()[j];
        assert(u.index_spec() == i && v.index_spec() == j);
        assert(AreaUnit::table_spec()[i].scale == u.scale_spec());
        assert(AreaUnit::table_spec()[j].scale == v.scale_spec());
        if i < j {
            assert(crate::rat::rat_le_spec(
                AreaUnit::table_spec()[i].scale,
                AreaUnit::table_spec()[j].scale,
            ));
        }
    }
}

} // verus!
