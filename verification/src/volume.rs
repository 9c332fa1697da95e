//! The quantity `Volume` and its units.
//!
//! The quantity expressing the amount of three-dimensional space enclosed by a surface.
//! Reference unit: Cubic Meter. Units are enumerated in ascending
//! scale order; the scales are exact rationals.

use vstd::prelude::*;

use crate::algebra::{
    considered, has_considered, unit_tab_wf, UnitScale,
};
use crate::fmt::amount_with_symbol;
use crate::prefix::SIPrefix;
use crate::rat::{rat_wf, Rat};

verus! {

/// Unit of quantity `Volume`, in ascending scale order.
#[derive(Clone, Copy, Debug, PartialEq, Eq, Structural)]
pub enum VolumeUnit {
    /// Cubic Millimeter (`mm³`).
    CubicMillimeter,
    /// Cubic Centimeter (`cm³`).
    CubicCentimeter,
    /// Milliliter (`ml`).
    Milliliter,
    /// Centiliter (`cl`).
    Centiliter,
    /// Deciliter (`dl`).
    Deciliter,
    /// Cubic Decimeter (`dm³`).
    CubicDecimeter,
    /// Liter (`l`).
    Liter,
    /// Cubic Meter (`m³`).
    CubicMeter,
    /// Cubic Kilometer (`km³`).
    CubicKilometer,
}

/// The unit Cubic Millimeter.
pub const CUBIC_MILLIMETER: VolumeUnit = VolumeUnit::CubicMillimeter;
/// The unit Cubic Centimeter.
pub const CUBIC_CENTIMETER: VolumeUnit = VolumeUnit::CubicCentimeter;
/// The unit Milliliter.
pub const MILLILITER: VolumeUnit = VolumeUnit::Milliliter;
/// The unit Centiliter.
pub const CENTILITER: VolumeUnit = VolumeUnit::Centiliter;
/// The unit Deciliter.
pub const DECILITER: VolumeUnit = VolumeUnit::Deciliter;
/// The unit Cubic Decimeter.
pub const CUBIC_DECIMETER: VolumeUnit = VolumeUnit::CubicDecimeter;
/// The unit Liter.
pub const LITER: VolumeUnit = VolumeUnit::Liter;
/// The unit Cubic Meter.
pub const CUBIC_METER: VolumeUnit = VolumeUnit::CubicMeter;
/// The unit Cubic Kilometer.
pub const CUBIC_KILOMETER: VolumeUnit = VolumeUnit::CubicKilometer;

impl VolumeUnit {
    /// Position in the canonical (ascending-scale) unit order.
    pub open spec fn index_spec(self) -> int {
        match self {
            VolumeUnit::CubicMillimeter => 0,
            VolumeUnit::CubicCentimeter => 1,
            VolumeUnit::Milliliter => 2,
            VolumeUnit::Centiliter => 3,
            VolumeUnit::Deciliter => 4,
            VolumeUnit::CubicDecimeter => 5,
            VolumeUnit::Liter => 6,
            VolumeUnit::CubicMeter => 7,
            VolumeUnit::CubicKilometer => 8,
        }
    }

    /// The unit's scale: its size expressed in the reference unit.
    pub open spec fn scale_spec(self) -> Rat {
        match self {
            VolumeUnit::CubicMillimeter => Rat { num: 1, den: 1000000000 },
            VolumeUnit::CubicCentimeter => Rat { num: 1, den: 1000000 },
            VolumeUnit::Milliliter => Rat { num: 1, den: 1000000 },
            VolumeUnit::Centiliter => Rat { num: 1, den: 100000 },
            VolumeUnit::Deciliter => Rat { num: 1, den: 10000 },
            VolumeUnit::CubicDecimeter => Rat { num: 1, den: 1000 },
            VolumeUnit::Liter => Rat { num: 1, den: 1000 },
            VolumeUnit::CubicMeter => Rat { num: 1, den: 1 },
            VolumeUnit::CubicKilometer => Rat { num: 1000000000, den: 1 },
        }
    }

    /// The unit's SI-prefix tag, if it carries one.
    pub open spec fn si_prefix_spec(self) -> Option<SIPrefix> {
        match self {
            VolumeUnit::CubicMillimeter => Some(SIPrefix::NANO),
            VolumeUnit::CubicCentimeter => Some(SIPrefix::MICRO),
            VolumeUnit::Milliliter => Some(SIPrefix::MICRO),
            VolumeUnit::Centiliter => None,
            VolumeUnit::Deciliter => None,
            VolumeUnit::CubicDecimeter => Some(SIPrefix::MILLI),
            VolumeUnit::Liter => Some(SIPrefix::MILLI),
            VolumeUnit::CubicMeter => Some(SIPrefix::NONE),
            VolumeUnit::CubicKilometer => Some(SIPrefix::GIGA),
        }
    }

    /// The unit's printable symbol, as characters.
    pub open spec fn symbol_view(self) -> Seq<char> {
        match self {
            VolumeUnit::CubicMillimeter => "mm³"@,
            VolumeUnit::CubicCentimeter => "cm³"@,
            VolumeUnit::Milliliter => "ml"@,
            VolumeUnit::Centiliter => "cl"@,
            VolumeUnit::Deciliter => "dl"@,
            VolumeUnit::CubicDecimeter => "dm³"@,
            VolumeUnit::Liter => "l"@,
            VolumeUnit::CubicMeter => "m³"@,
            VolumeUnit::CubicKilometer => "km³"@,
        }
    }

    /// Position in the canonical unit order.
    pub fn index(self) -> (i: usize)
        ensures
            i == self.index_spec(),
    {
        match self {
            VolumeUnit::CubicMillimeter => 0,
            VolumeUnit::CubicCentimeter => 1,
            VolumeUnit::Milliliter => 2,
            VolumeUnit::Centiliter => 3,
            VolumeUnit::Deciliter => 4,
            VolumeUnit::CubicDecimeter => 5,
            VolumeUnit::Liter => 6,
            VolumeUnit::CubicMeter => 7,
            VolumeUnit::CubicKilometer => 8,
        }
    }

    /// The unit at the given position of the canonical order.
    pub fn from_index(i: usize) -> (unit: VolumeUnit)
        requires
            i < 9,
        ensures
            unit.index_spec() == i,
    {
        if i == 0 {
            VolumeUnit::CubicMillimeter
        } else if i == 1 {
            VolumeUnit::CubicCentimeter
        } else if i == 2 {
            VolumeUnit::Milliliter
        } else if i == 3 {
            VolumeUnit::Centiliter
        } else if i == 4 {
            VolumeUnit::Deciliter
        } else if i == 5 {
            VolumeUnit::CubicDecimeter
        } else if i == 6 {
            VolumeUnit::Liter
        } else if i == 7 {
            VolumeUnit::CubicMeter
        } else {
            VolumeUnit::CubicKilometer
        }
    }

    /// The unit's scale.
    pub fn scale(self) -> (r: Rat)
        ensures
            r == self.scale_spec(),
    {
        match self {
            VolumeUnit::CubicMillimeter => Rat { num: 1, den: 1000000000 },
            VolumeUnit::CubicCentimeter => Rat { num: 1, den: 1000000 },
            VolumeUnit::Milliliter => Rat { num: 1, den: 1000000 },
            VolumeUnit::Centiliter => Rat { num: 1, den: 100000 },
            VolumeUnit::Deciliter => Rat { num: 1, den: 10000 },
            VolumeUnit::CubicDecimeter => Rat { num: 1, den: 1000 },
            VolumeUnit::Liter => Rat { num: 1, den: 1000 },
            VolumeUnit::CubicMeter => Rat { num: 1, den: 1 },
            VolumeUnit::CubicKilometer => Rat { num: 1000000000, den: 1 },
        }
    }

    /// The unit's SI-prefix tag, if it carries one.
    pub fn si_prefix(self) -> (p: Option<SIPrefix>)
        ensures
            p == self.si_prefix_spec(),
    {
        match self {
            VolumeUnit::CubicMillimeter => Some(SIPrefix::NANO),
            VolumeUnit::CubicCentimeter => Some(SIPrefix::MICRO),
            VolumeUnit::Milliliter => Some(SIPrefix::MICRO),
            VolumeUnit::Centiliter => None,
            VolumeUnit::Deciliter => None,
            VolumeUnit::CubicDecimeter => Some(SIPrefix::MILLI),
            VolumeUnit::Liter => Some(SIPrefix::MILLI),
            VolumeUnit::CubicMeter => Some(SIPrefix::NONE),
            VolumeUnit::CubicKilometer => Some(SIPrefix::GIGA),
        }
    }

    /// The unit's printable symbol.
    pub fn symbol(self) -> (s: String)
        ensures
            s@ == self.symbol_view(),
    {
        match self {
            VolumeUnit::CubicMillimeter => "mm³".to_owned(),
            VolumeUnit::CubicCentimeter => "cm³".to_owned(),
            VolumeUnit::Milliliter => "ml".to_owned(),
            VolumeUnit::Centiliter => "cl".to_owned(),
            VolumeUnit::Deciliter => "dl".to_owned(),
            VolumeUnit::CubicDecimeter => "dm³".to_owned(),
            VolumeUnit::Liter => "l".to_owned(),
            VolumeUnit::CubicMeter => "m³".to_owned(),
            VolumeUnit::CubicKilometer => "km³".to_owned(),
        }
    }

    /// The unit's display name, as characters.
    pub open spec fn name_view(self) -> Seq<char> {
        match self {
            VolumeUnit::CubicMillimeter => "Cubic Millimeter"@,
            VolumeUnit::CubicCentimeter => "Cubic Centimeter"@,
            VolumeUnit::Milliliter => "Milliliter"@,
            VolumeUnit::Centiliter => "Centiliter"@,
            VolumeUnit::Deciliter => "Deciliter"@,
            VolumeUnit::CubicDecimeter => "Cubic Decimeter"@,
            VolumeUnit::Liter => "Liter"@,
            VolumeUnit::CubicMeter => "Cubic Meter"@,
            VolumeUnit::CubicKilometer => "Cubic Kilometer"@,
        }
    }

    /// The unit's display name.
    pub fn name(self) -> (s: String)
        ensures
            s@ == self.name_view(),
    {
        match self {
            VolumeUnit::CubicMillimeter => "Cubic Millimeter".to_owned(),
            VolumeUnit::CubicCentimeter => "Cubic Centimeter".to_owned(),
            VolumeUnit::Milliliter => "Milliliter".to_owned(),
            VolumeUnit::Centiliter => "Centiliter".to_owned(),
            VolumeUnit::Deciliter => "Deciliter".to_owned(),
            VolumeUnit::CubicDecimeter => "Cubic Decimeter".to_owned(),
            VolumeUnit::Liter => "Liter".to_owned(),
            VolumeUnit::CubicMeter => "Cubic Meter".to_owned(),
            VolumeUnit::CubicKilometer => "Cubic Kilometer".to_owned(),
        }
    }

    /// The reference unit, of scale 1.
    pub fn ref_unit() -> (unit: VolumeUnit)
        ensures
            unit == VolumeUnit::CubicMeter,
    {
        VolumeUnit::CubicMeter
    }

    /// All units, in canonical order.
    pub open spec fn all_units_spec() -> Seq<VolumeUnit> {
        seq![VolumeUnit::CubicMillimeter, VolumeUnit::CubicCentimeter, VolumeUnit::Milliliter, VolumeUnit::Centiliter, VolumeUnit::Deciliter, VolumeUnit::CubicDecimeter, VolumeUnit::Liter, VolumeUnit::CubicMeter, VolumeUnit::CubicKilometer]
    }

    /// All units, in canonical order.
    pub fn units() -> (v: Vec<VolumeUnit>)
        ensures
            v@ == VolumeUnit::all_units_spec(),
    {
        let v = vec![VolumeUnit::CubicMillimeter, VolumeUnit::CubicCentimeter, VolumeUnit::Milliliter, VolumeUnit::Centiliter, VolumeUnit::Deciliter, VolumeUnit::CubicDecimeter, VolumeUnit::Liter, VolumeUnit::CubicMeter, VolumeUnit::CubicKilometer];
        proof {
            assert(v@ =~= VolumeUnit::all_units_spec());
        }
        v
    }

    /// The runtime scale table of the quantity.
    pub open spec fn table_spec() -> Seq<UnitScale> {
        seq![
            UnitScale { scale: Rat { num: 1, den: 1000000000 }, tagged: true },
            UnitScale { scale: Rat { num: 1, den: 1000000 }, tagged: true },
            UnitScale { scale: Rat { num: 1, den: 1000000 }, tagged: true },
            UnitScale { scale: Rat { num: 1, den: 100000 }, tagged: false },
            UnitScale { scale: Rat { num: 1, den: 10000 }, tagged: false },
            UnitScale { scale: Rat { num: 1, den: 1000 }, tagged: true },
            UnitScale { scale: Rat { num: 1, den: 1000 }, tagged: true },
            UnitScale { scale: Rat { num: 1, den: 1 }, tagged: true },
            UnitScale { scale: Rat { num: 1000000000, den: 1 }, tagged: true },
        ]
    }

    /// The runtime scale table of the quantity.
    pub fn table() -> (t: Vec<UnitScale>)
        ensures
            t@ == VolumeUnit::table_spec(),
    {
        let t = vec![
            UnitScale { scale: Rat { num: 1, den: 1000000000 }, tagged: true },
            UnitScale { scale: Rat { num: 1, den: 1000000 }, tagged: true },
            UnitScale { scale: Rat { num: 1, den: 1000000 }, tagged: true },
            UnitScale { scale: Rat { num: 1, den: 100000 }, tagged: false },
            UnitScale { scale: Rat { num: 1, den: 10000 }, tagged: false },
            UnitScale { scale: Rat { num: 1, den: 1000 }, tagged: true },
            UnitScale { scale: Rat { num: 1, den: 1000 }, tagged: true },
            UnitScale { scale: Rat { num: 1, den: 1 }, tagged: true },
            UnitScale { scale: Rat { num: 1000000000, den: 1 }, tagged: true },
        ];
        proof {
            assert(t@ =~= VolumeUnit::table_spec());
        }
        t
    }
}

/// The scale table is sound: nonempty, usable, ascending, with a
/// considered unit, and each unit's entry carries its own scale and tag.
pub proof fn volume_table_ok()
    ensures
        unit_tab_wf(VolumeUnit::table_spec()),
        has_considered(VolumeUnit::table_spec(), false),
        forall|unit: VolumeUnit|
            VolumeUnit::table_spec()[#[trigger] unit.index_spec()] == (UnitScale {
                scale: unit.scale_spec(),
                tagged: unit.si_prefix_spec() is Some,
            }),
{
    let t = VolumeUnit::table_spec();
    assert(t.len() == 9);
    assert(considered(t, 7, false));
    assert forall|k: int| 0 <= k < t.len() implies crate::schema::scale_ok(
        (#[trigger] t[k]).scale,
    ) by {
        if k == 0 {
            assert(crate::schema::scale_ok(t[0].scale));
        } else if k == 1 {
            assert(crate::schema::scale_ok(t[1].scale));
        } else if k == 2 {
            assert(crate::schema::scale_ok(t[2].scale));
        } else if k == 3 {
            assert(crate::schema::scale_ok(t[3].scale));
        } else if k == 4 {
            assert(crate::schema::scale_ok(t[4].scale));
        } else if k == 5 {
            assert(crate::schema::scale_ok(t[5].scale));
        } else if k == 6 {
            assert(crate::schema::scale_ok(t[6].scale));
        } else if k == 7 {
            assert(crate::schema::scale_ok(t[7].scale));
        } else if k == 8 {
            assert(crate::schema::scale_ok(t[8].scale));
        }
    }
    assert forall|k: int| 0 <= k < t.len() - 1 implies crate::rat::rat_le_spec(
        (#[trigger] t[k]).scale,
        t[k + 1].scale,
    ) by {
        if k == 0 {
            assert(crate::rat::rat_le_spec(t[0].scale, t[1].scale));
        } else if k == 1 {
            assert(crate::rat::rat_le_spec(t[1].scale, t[2].scale));
        } else if k == 2 {
            assert(crate::rat::rat_le_spec(t[2].scale, t[3].scale));
        } else if k == 3 {
            assert(crate::rat::rat_le_spec(t[3].scale, t[4].scale));
        } else if k == 4 {
            assert(crate::rat::rat_le_spec(t[4].scale, t[5].scale));
        } else if k == 5 {
            assert(crate::rat::rat_le_spec(t[5].scale, t[6].scale));
        } else if k == 6 {
            assert(crate::rat::rat_le_spec(t[6].scale, t[7].scale));
        } else if k == 7 {
            assert(crate::rat::rat_le_spec(t[7].scale, t[8].scale));
        }
    }
    crate::algebra::lemma_tab_sorted_from_adjacent(t);
    assert forall|unit: VolumeUnit| t[#[trigger] unit.index_spec()] == (UnitScale {
        scale: unit.scale_spec(),
        tagged: unit.si_prefix_spec() is Some,
    }) by {
        if unit == VolumeUnit::CubicMillimeter {
            assert(t[0] == (UnitScale {
                scale: VolumeUnit::CubicMillimeter.scale_spec(),
                tagged: VolumeUnit::CubicMillimeter.si_prefix_spec() is Some,
            }));
        } else if unit == VolumeUnit::CubicCentimeter {
            assert(t[1] == (UnitScale {
                scale: VolumeUnit::CubicCentimeter.scale_spec(),
                tagged: VolumeUnit::CubicCentimeter.si_prefix_spec() is Some,
            }));
        } else if unit == VolumeUnit::Milliliter {
            assert(t[2] == (UnitScale {
                scale: VolumeUnit::Milliliter.scale_spec(),
                tagged: VolumeUnit::Milliliter.si_prefix_spec() is Some,
            }));
        } else if unit == VolumeUnit::Centiliter {
            assert(t[3] == (UnitScale {
                scale: VolumeUnit::Centiliter.scale_spec(),
                tagged: VolumeUnit::Centiliter.si_prefix_spec() is Some,
            }));
        } else if unit == VolumeUnit::Deciliter {
            assert(t[4] == (UnitScale {
                scale: VolumeUnit::Deciliter.scale_spec(),
                tagged: VolumeUnit::Deciliter.si_prefix_spec() is Some,
            }));
        } else if unit == VolumeUnit::CubicDecimeter {
            assert(t[5] == (UnitScale {
                scale: VolumeUnit::CubicDecimeter.scale_spec(),
                tagged: VolumeUnit::CubicDecimeter.si_prefix_spec() is Some,
            }));
        } else if unit == VolumeUnit::Liter {
            assert(t[6] == (UnitScale {
                scale: VolumeUnit::Liter.scale_spec(),
                tagged: VolumeUnit::Liter.si_prefix_spec() is Some,
            }));
        } else if unit == VolumeUnit::CubicMeter {
            assert(t[7] == (UnitScale {
                scale: VolumeUnit::CubicMeter.scale_spec(),
                tagged: VolumeUnit::CubicMeter.si_prefix_spec() is Some,
            }));
        } else if unit == VolumeUnit::CubicKilometer {
            assert(t[8] == (UnitScale {
                scale: VolumeUnit::CubicKilometer.scale_spec(),
                tagged: VolumeUnit::CubicKilometer.si_prefix_spec() is Some,
            }));
        }
    }
}

/// The quantity expressing the amount of three-dimensional space enclosed by a surface.
///
/// An amount together with one of the quantity's units.
#[derive(Clone, Copy, Debug, PartialEq, Eq, Structural)]
pub struct Volume {
    /// The amount.
    pub value: Rat,
    /// The unit the amount is expressed in.
    pub unit: VolumeUnit,
}

impl Volume {
    /// A new quantity value from an amount and a unit.
    pub fn new(value: Rat, unit: VolumeUnit) -> (q: Volume)
        ensures
            q.value == value,
            q.unit == unit,
    {
        Volume { value, unit }
    }

    /// The amount.
    pub fn value(&self) -> (r: Rat)
        ensures
            r == self.value,
    {
        self.value
    }

    /// The unit.
    pub fn unit(&self) -> (unit: VolumeUnit)
        ensures
            unit == self.unit,
    {
        self.unit
    }

    /// The same value expressed in the unit `to`: the amount is
    /// rescaled by the ratio of the two unit scales.
    pub fn convert(&self, to: VolumeUnit) -> (r: Option<Volume>)
        requires
            rat_wf(self.value),
        ensures
            r matches Some(q) ==> {
                &&& rat_wf(q.value)
                &&& q.unit == to
                &&& crate::algebra::is_scaled_of(
                    q.value,
                    self.value,
                    self.unit.scale_spec(),
                    to.scale_spec(),
                )
            },
            crate::algebra::scaled_in_range(self.value, self.unit.scale_spec(), to.scale_spec())
                ==> r is Some,
    {
        match crate::algebra::equiv_amount(&self.value, &self.unit.scale(), &to.scale()) {
            Some(v) => Some(Volume { value: v, unit: to }),
            None => None,
        }
    }

    /// The sum of the two values, expressed in `self`'s unit.
    pub fn add(&self, other: &Volume) -> (r: Option<Volume>)
        requires
            rat_wf(self.value),
            rat_wf(other.value),
        ensures
            r matches Some(q) ==> {
                &&& rat_wf(q.value)
                &&& q.unit == self.unit
                &&& crate::algebra::is_sum_in_left(
                    q.value,
                    self.value,
                    self.unit.scale_spec(),
                    other.value,
                    other.unit.scale_spec(),
                )
            },
            crate::algebra::combine_in_range(
                self.value,
                self.unit.scale_spec(),
                other.value,
                other.unit.scale_spec(),
            ) ==> r is Some,
    {
        match crate::algebra::add_qty(
            &self.value,
            &self.unit.scale(),
            &other.value,
            &other.unit.scale(),
        ) {
            Some(v) => Some(Volume { value: v, unit: self.unit }),
            None => None,
        }
    }

    /// The difference of the two values, expressed in `self`'s unit.
    pub fn sub(&self, other: &Volume) -> (r: Option<Volume>)
        requires
            rat_wf(self.value),
            rat_wf(other.value),
        ensures
            r matches Some(q) ==> {
                &&& rat_wf(q.value)
                &&& q.unit == self.unit
                &&& crate::algebra::is_diff_in_left(
                    q.value,
                    self.value,
                    self.unit.scale_spec(),
                    other.value,
                    other.unit.scale_spec(),
                )
            },
            crate::algebra::combine_in_range(
                self.value,
                self.unit.scale_spec(),
                other.value,
                other.unit.scale_spec(),
            ) ==> r is Some,
    {
        match crate::algebra::sub_qty(
            &self.value,
            &self.unit.scale(),
            &other.value,
            &other.unit.scale(),
        ) {
            Some(v) => Some(Volume { value: v, unit: self.unit }),
            None => None,
        }
    }

    /// The dimensionless ratio of the two values.
    pub fn div(&self, other: &Volume) -> (r: Option<Rat>)
        requires
            rat_wf(self.value),
            rat_wf(other.value),
        ensures
            r matches Some(v) ==> rat_wf(v) && crate::algebra::is_ratio_of(
                v,
                self.value,
                self.unit.scale_spec(),
                other.value,
                other.unit.scale_spec(),
            ),
            crate::algebra::ratio_in_range(
                self.value,
                self.unit.scale_spec(),
                other.value,
                other.unit.scale_spec(),
            ) ==> r is Some,
    {
        crate::algebra::div_qty(
            &self.value,
            &self.unit.scale(),
            &other.value,
            &other.unit.scale(),
        )
    }

    /// Exact equivalence of the two values, whatever their units.
    pub fn equivalent(&self, other: &Volume) -> (b: bool)
        requires
            rat_wf(self.value),
            rat_wf(other.value),
        ensures
            b == crate::algebra::qty_eq_spec(
                self.value,
                self.unit.scale_spec(),
                other.value,
                other.unit.scale_spec(),
            ),
    {
        let r = crate::algebra::cmp_qty(
            &self.value,
            &self.unit.scale(),
            &other.value,
            &other.unit.scale(),
        );
        match r {
            core::cmp::Ordering::Equal => true,
            _ => false,
        }
    }

    /// The best-fitting unit for a magnitude expressed in the
    /// reference unit, with the rescaled amount.
    pub fn fit(amount: Rat) -> (r: Option<Volume>)
        requires
            rat_wf(amount),
        ensures
            r matches Some(q) ==> {
                &&& rat_wf(q.value)
                &&& crate::algebra::is_fit_choice(
                    VolumeUnit::table_spec(),
                    false,
                    amount.num as int,
                    amount.den as int,
                    q.unit.index_spec(),
                )
                &&& crate::rat::is_quot_of(q.value, amount, q.unit.scale_spec())
            },
            (forall|k: int|
                0 <= k < VolumeUnit::table_spec().len()
                    ==> crate::rat::rat_abs(amount.num as int) * (#[trigger] VolumeUnit::table_spec()[k]).scale.den
                    <= crate::rat::RAT_BOUND && amount.den * VolumeUnit::table_spec()[k].scale.num
                    <= crate::rat::RAT_BOUND) ==> r is Some,
    {
        proof {
            volume_table_ok();
        }
        let t = VolumeUnit::table();
        let i = crate::algebra::fit_index(&t, false, amount.num, amount.den);
        let unit = VolumeUnit::from_index(i);
        proof {
            assert(t@[i as int] == VolumeUnit::table_spec()[unit.index_spec()]);
            if forall|k: int|
                0 <= k < VolumeUnit::table_spec().len()
                    ==> crate::rat::rat_abs(amount.num as int) * (#[trigger] VolumeUnit::table_spec()[k]).scale.den
                    <= crate::rat::RAT_BOUND && amount.den * VolumeUnit::table_spec()[k].scale.num
                    <= crate::rat::RAT_BOUND {
                crate::algebra::lemma_final_div_bounds(
                    amount,
                    t@[i as int].scale,
                    crate::rat::rat_abs(amount.num as int),
                    amount.den as int,
                );
            }
        }
        match amount.div(&unit.scale()) {
            Some(v) => Some(Volume { value: v, unit }),
            None => None,
        }
    }

    /// Renders the value as `amount symbol`.
    pub fn to_string(&self) -> (s: String)
        requires
            rat_wf(self.value),
        ensures
            self.unit.symbol_view().len() > 0 ==> s@ == crate::fmt::with_symbol_chars(
                self.value,
                self.unit.symbol_view(),
            ),
    {
        let sym = self.unit.symbol();
        amount_with_symbol(&self.value, sym.as_str())
    }
}

impl crate::length::Length {
    /// The product of a length and an area: the result lands in the unit whose
    /// scale is exactly the product of the operand unit scales, or in
    /// the best-fitting unit for the product magnitude.
    pub fn mul_area(&self, rhs: &crate::area::Area) -> (r: Option<crate::volume::Volume>)
        requires
            rat_wf(self.value),
            rat_wf(rhs.value),
        ensures
            r matches Some(q) ==> {
                &&& rat_wf(q.value)
                &&& crate::algebra::is_prod_result(
                    q.value,
                    q.unit.scale_spec(),
                    self.value,
                    self.unit.scale_spec(),
                    rhs.value,
                    rhs.unit.scale_spec(),
                )
                &&& match crate::algebra::lookup_spec(
                    crate::volume::VolumeUnit::table_spec(),
                    self.unit.scale_spec().num * rhs.unit.scale_spec().num,
                    self.unit.scale_spec().den * rhs.unit.scale_spec().den,
                ) {
                    Some(j) => q.unit.index_spec() == j,
                    None => crate::algebra::is_fit_choice(
                        crate::volume::VolumeUnit::table_spec(),
                        false,
                        crate::algebra::prod_num(
                            self.value,
                            self.unit.scale_spec(),
                            rhs.value,
                            rhs.unit.scale_spec(),
                        ),
                        crate::algebra::prod_den(
                            self.value,
                            self.unit.scale_spec(),
                            rhs.value,
                            rhs.unit.scale_spec(),
                        ),
                        q.unit.index_spec(),
                    ),
                }
            },
            crate::algebra::mul_in_range(
                self.value,
                self.unit.scale_spec(),
                rhs.value,
                rhs.unit.scale_spec(),
                crate::volume::VolumeUnit::table_spec(),
            ) ==> r is Some,
    {
        proof {
            crate::volume::volume_table_ok();
        }
        let t = crate::volume::VolumeUnit::table();
        match crate::algebra::qty_mul(
            &self.value,
            &self.unit.scale(),
            &rhs.value,
            &rhs.unit.scale(),
            &t,
            false,
        ) {
            Some((am, i)) => {
                let unit = crate::volume::VolumeUnit::from_index(i);
                proof {
                    assert(t@[i as int] == crate::volume::VolumeUnit::table_spec()[unit.index_spec()]);
                }
                Some(crate::volume::Volume { value: am, unit })
            },
            None => None,
        }
    }
}

impl crate::area::Area {
    /// The product of a area and a length: the result lands in the unit whose
    /// scale is exactly the product of the operand unit scales, or in
    /// the best-fitting unit for the product magnitude.
    pub fn mul_length(&self, rhs: &crate::length::Length) -> (r: Option<crate::volume::Volume>)
        requires
            rat_wf(self.value),
            rat_wf(rhs.value),
        ensures
            r matches Some(q) ==> {
                &&& rat_wf(q.value)
                &&& crate::algebra::is_prod_result(
                    q.value,
                    q.unit.scale_spec(),
                    self.value,
                    self.unit.scale_spec(),
                    rhs.value,
                    rhs.unit.scale_spec(),
                )
                &&& match crate::algebra::lookup_spec(
                    crate::volume::VolumeUnit::table_spec(),
                    self.unit.scale_spec().num * rhs.unit.scale_spec().num,
                    self.unit.scale_spec().den * rhs.unit.scale_spec().den,
                ) {
                    Some(j) => q.unit.index_spec() == j,
                    None => crate::algebra::is_fit_choice(
                        crate::volume::VolumeUnit::table_spec(),
                        false,
                        crate::algebra::prod_num(
                            self.value,
                            self.unit.scale_spec(),
                            rhs.value,
                            rhs.unit.scale_spec(),
                        ),
                        crate::algebra::prod_den(
                            self.value,
                            self.unit.scale_spec(),
                            rhs.value,
                            rhs.unit.scale_spec(),
                        ),
                        q.unit.index_spec(),
                    ),
                }
            },
            crate::algebra::mul_in_range(
                self.value,
                self.unit.scale_spec(),
                rhs.value,
                rhs.unit.scale_spec(),
                crate::volume::VolumeUnit::table_spec(),
            ) ==> r is Some,
    {
        proof {
            crate::volume::volume_table_ok();
        }
        let t = crate::volume::VolumeUnit::table();
        match crate::algebra::qty_mul(
            &self.value,
            &self.unit.scale(),
            &rhs.value,
            &rhs.unit.scale(),
            &t,
            false,
        ) {
            Some((am, i)) => {
                let unit = crate::volume::VolumeUnit::from_index(i);
                proof {
                    assert(t@[i as int] == crate::volume::VolumeUnit::table_spec()[unit.index_spec()]);
                }
                Some(crate::volume::Volume { value: am, unit })
            },
            None => None,
        }
    }
}

impl crate::volume::Volume {
    /// The quotient of a volume by an area: the result lands in the unit whose
    /// scale is exactly the quotient of the operand unit scales, or in
    /// the best-fitting unit for the quotient magnitude.
    pub fn div_area(&self, rhs: &crate::area::Area) -> (r: Option<crate::length::Length>)
        requires
            rat_wf(self.value),
            rat_wf(rhs.value),
        ensures
            r matches Some(q) ==> {
                &&& rat_wf(q.value)
                &&& crate::algebra::is_quot_result(
                    q.value,
                    q.unit.scale_spec(),
                    self.value,
                    self.unit.scale_spec(),
                    rhs.value,
                    rhs.unit.scale_spec(),
                )
                &&& match crate::algebra::lookup_spec(
                    crate::length::LengthUnit::table_spec(),
                    self.unit.scale_spec().num * rhs.unit.scale_spec().den,
                    self.unit.scale_spec().den * rhs.unit.scale_spec().num,
                ) {
                    Some(j) => q.unit.index_spec() == j,
                    None => crate::algebra::is_fit_choice(
                        crate::length::LengthUnit::table_spec(),
                        false,
                        crate::algebra::quot_num(
                            self.value,
                            self.unit.scale_spec(),
                            rhs.value,
                            rhs.unit.scale_spec(),
                        ),
                        crate::algebra::quot_den(
                            self.value,
                            self.unit.scale_spec(),
                            rhs.value,
                            rhs.unit.scale_spec(),
                        ),
                        q.unit.index_spec(),
                    ),
                }
            },
            crate::algebra::div_in_range(
                self.value,
                self.unit.scale_spec(),
                rhs.value,
                rhs.unit.scale_spec(),
                crate::length::LengthUnit::table_spec(),
            ) ==> r is Some,
    {
        proof {
            crate::length::length_table_ok();
        }
        let t = crate::length::LengthUnit::table();
        match crate::algebra::qty_div(
            &self.value,
            &self.unit.scale(),
            &rhs.value,
            &rhs.unit.scale(),
            &t,
            false,
        ) {
            Some((am, i)) => {
                let unit = crate::length::LengthUnit::from_index(i);
                proof {
                    assert(t@[i as int] == crate::length::LengthUnit::table_spec()[unit.index_spec()]);
                }
                Some(crate::length::Length { value: am, unit })
            },
            None => None,
        }
    }
}

impl crate::volume::Volume {
    /// The quotient of a volume by a length: the result lands in the unit whose
    /// scale is exactly the quotient of the operand unit scales, or in
    /// the best-fitting unit for the quotient magnitude.
    pub fn div_length(&self, rhs: &crate::length::Length) -> (r: Option<crate::area::Area>)
        requires
            rat_wf(self.value),
            rat_wf(rhs.value),
        ensures
            r matches Some(q) ==> {
                &&& rat_wf(q.value)
                &&& crate::algebra::is_quot_result(
                    q.value,
                    q.unit.scale_spec(),
                    self.value,
                    self.unit.scale_spec(),
                    rhs.value,
                    rhs.unit.scale_spec(),
                )
                &&& match crate::algebra::lookup_spec(
                    crate::area::AreaUnit::table_spec(),
                    self.unit.scale_spec().num * rhs.unit.scale_spec().den,
                    self.unit.scale_spec().den * rhs.unit.scale_spec().num,
                ) {
                    Some(j) => q.unit.index_spec() == j,
                    None => crate::algebra::is_fit_choice(
                        crate::area::AreaUnit::table_spec(),
                        false,
                        crate::algebra::quot_num(
                            self.value,
                            self.unit.scale_spec(),
                            rhs.value,
                            rhs.unit.scale_spec(),
                        ),
                        crate::algebra::quot_den(
                            self.value,
                            self.unit.scale_spec(),
                            rhs.value,
                            rhs.unit.scale_spec(),
                        ),
                        q.unit.index_spec(),
                    ),
                }
            },
            crate::algebra::div_in_range(
                self.value,
                self.unit.scale_spec(),
                rhs.value,
                rhs.unit.scale_spec(),
                crate::area::AreaUnit::table_spec(),
            ) ==> r is Some,
    {
        proof {
            crate::area::area_table_ok();
        }
        let t = crate::area::AreaUnit::table();
        match crate::algebra::qty_div(
            &self.value,
            &self.unit.scale(),
            &rhs.value,
            &rhs.unit.scale(),
            &t,
            false,
        ) {
            Some((am, i)) => {
                let unit = crate::area::AreaUnit::from_index(i);
                proof {
                    assert(t@[i as int] == crate::area::AreaUnit::table_spec()[unit.index_spec()]);
                }
                Some(crate::area::Area { value: am, unit })
            },
            None => None,
        }
    }
}

impl VolumeUnit {
    /// The first unit in canonical order whose symbol is `s`, if any.
    pub open spec fn from_symbol_spec(s: Seq<char>) -> Option<VolumeUnit> {
        if s == "mm³"@ {
            Some(VolumeUnit::CubicMillimeter)
        } else if s == "cm³"@ {
            Some(VolumeUnit::CubicCentimeter)
        } else if s == "ml"@ {
            Some(VolumeUnit::Milliliter)
        } else if s == "cl"@ {
            Some(VolumeUnit::Centiliter)
        } else if s == "dl"@ {
            Some(VolumeUnit::Deciliter)
        } else if s == "dm³"@ {
            Some(VolumeUnit::CubicDecimeter)
        } else if s == "l"@ {
            Some(VolumeUnit::Liter)
        } else if s == "m³"@ {
            Some(VolumeUnit::CubicMeter)
        } else if s == "km³"@ {
            Some(VolumeUnit::CubicKilometer)
        } else {
            None
        }
    }

    /// Looks a unit up by its printable symbol, scanning the canonical
    /// order; `None` when no unit uses the symbol.
    pub fn from_symbol(s: &str) -> (r: Option<VolumeUnit>)
        ensures
            r == VolumeUnit::from_symbol_spec(s@),
    {
        if crate::text::str_eq(s, "mm³") {
            Some(VolumeUnit::CubicMillimeter)
        } else if crate::text::str_eq(s, "cm³") {
            Some(VolumeUnit::CubicCentimeter)
        } else if crate::text::str_eq(s, "ml") {
            Some(VolumeUnit::Milliliter)
        } else if crate::text::str_eq(s, "cl") {
            Some(VolumeUnit::Centiliter)
        } else if crate::text::str_eq(s, "dl") {
            Some(VolumeUnit::Deciliter)
        } else if crate::text::str_eq(s, "dm³") {
            Some(VolumeUnit::CubicDecimeter)
        } else if crate::text::str_eq(s, "l") {
            Some(VolumeUnit::Liter)
        } else if crate::text::str_eq(s, "m³") {
            Some(VolumeUnit::CubicMeter)
        } else if crate::text::str_eq(s, "km³") {
            Some(VolumeUnit::CubicKilometer)
        } else {
            None
        }
    }

    /// How many of `other` one `self` is: the exact ratio of the two
    /// unit scales.
    pub fn ratio(self, other: VolumeUnit) -> (r: Option<Rat>)
        ensures
            r is Some <==> crate::rat::quot_in_range(self.scale_spec(), other.scale_spec()),
            r matches Some(v) ==> rat_wf(v) && crate::rat::is_quot_of(
                v,
                self.scale_spec(),
                other.scale_spec(),
            ),
    {
        self.scale().div(&other.scale())
    }
}

impl Volume {
    /// The value multiplied by a bare amount; the unit is kept.
    pub fn scale_by(&self, k: &Rat) -> (r: Option<Volume>)
        requires
            rat_wf(self.value),
            rat_wf(*k),
        ensures
            r is Some <==> crate::rat::prod_in_range(self.value, *k),
            r matches Some(q) ==> {
                &&& rat_wf(q.value)
                &&& q.unit == self.unit
                &&& crate::rat::is_prod_of(q.value, self.value, *k)
            },
    {
        match self.value.mul(k) {
            Some(v) => Some(Volume { value: v, unit: self.unit }),
            None => None,
        }
    }

    /// The value divided by a bare amount; the unit is kept.
    pub fn div_by(&self, k: &Rat) -> (r: Option<Volume>)
        requires
            rat_wf(self.value),
            rat_wf(*k),
        ensures
            r is Some <==> crate::rat::quot_in_range(self.value, *k),
            r matches Some(q) ==> {
                &&& rat_wf(q.value)
                &&& q.unit == self.unit
                &&& crate::rat::is_quot_of(q.value, self.value, *k)
            },
    {
        match self.value.div(k) {
            Some(v) => Some(Volume { value: v, unit: self.unit }),
            None => None,
        }
    }

    /// Multiplies by a rate whose per side is a unit of this quantity:
    /// the value, divided by `per_unit_multiple` times the per unit and
    /// multiplied by `term_amount`, as an amount in the rate's term
    /// unit. The rescale goes through the rate's stored units.
    pub fn mul_rate<TU: Copy>(&self, rate: &crate::rate::Rate<TU, VolumeUnit>) -> (r: Option<
        (Rat, TU),
    >)
        requires
            rat_wf(self.value),
            rat_wf(rate.term_amount),
            rat_wf(rate.per_unit_multiple),
        ensures
            rate.per_unit_multiple.num == 0 ==> r is None,
            rate.per_unit_multiple.num != 0 && crate::rate::rate_in_range(
                self.value,
                self.unit.scale_spec(),
                rate.per_unit.scale_spec(),
                rate.per_unit_multiple,
                rate.term_amount,
            ) ==> r is Some,
            r matches Some(p) ==> {
                &&& rat_wf(p.0)
                &&& p.1 == rate.term_unit
                &&& rate.per_unit_multiple.num != 0
                &&& crate::rate::is_rate_apply(
                    p.0,
                    self.value,
                    self.unit.scale_spec(),
                    rate.per_unit.scale_spec(),
                    rate.per_unit_multiple,
                    rate.term_amount,
                )
            },
    {
        match crate::rate::rate_apply(
            &self.value,
            &self.unit.scale(),
            &rate.per_unit.scale(),
            &rate.per_unit_multiple,
            &rate.term_amount,
        ) {
            Some(v) => Some((v, rate.term_unit)),
            None => None,
        }
    }

    /// Divides by a rate whose term side is a unit of this quantity:
    /// the value, divided by `term_amount` times the term unit and
    /// multiplied by `per_unit_multiple`, as an amount in the rate's per
    /// unit. The rescale goes through the rate's stored units.
    pub fn div_rate<PU: Copy>(&self, rate: &crate::rate::Rate<VolumeUnit, PU>) -> (r: Option<
        (Rat, PU),
    >)
        requires
            rat_wf(self.value),
            rat_wf(rate.term_amount),
            rat_wf(rate.per_unit_multiple),
        ensures
            rate.term_amount.num == 0 ==> r is None,
            rate.term_amount.num != 0 && crate::rate::rate_in_range(
                self.value,
                self.unit.scale_spec(),
                rate.term_unit.scale_spec(),
                rate.term_amount,
                rate.per_unit_multiple,
            ) ==> r is Some,
            r matches Some(p) ==> {
                &&& rat_wf(p.0)
                &&& p.1 == rate.per_unit
                &&& rate.term_amount.num != 0
                &&& crate::rate::is_rate_apply(
                    p.0,
                    self.value,
                    self.unit.scale_spec(),
                    rate.term_unit.scale_spec(),
                    rate.term_amount,
                    rate.per_unit_multiple,
                )
            },
    {
        match crate::rate::rate_apply(
            &self.value,
            &self.unit.scale(),
            &rate.term_unit.scale(),
            &rate.term_amount,
            &rate.per_unit_multiple,
        ) {
            Some(v) => Some((v, rate.per_unit)),
            None => None,
        }
    }
}

/// Units are enumerated in ascending scale order: along the canonical
/// list, every unit's scale is at most any later unit's.
pub proof fn volume_units_ascending()
    ensures
        forall|i: int, j: int|
            0 <= i <= j < VolumeUnit::all_units_spec().len() ==> crate::rat::rat_le_spec(
                (#[trigger] VolumeUnit::all_units_spec()[i]).scale_spec(),
                (#[trigger] VolumeUnit::all_units_spec()[j]).scale_spec(),
            ),
{
    volume_table_ok();
    assert forall|i: int, j: int|
        0 <= i <= j < VolumeUnit::all_units_spec().len() implies crate::rat::rat_le_spec(
        (#[trigger] VolumeUnit::all_units_spec()[i]).scale_spec(),
        (#[trigger] VolumeUnit::all_units_spec()[j]).scale_spec(),
    ) by {
        let u = VolumeUnit::all_units_spec()[i];
        let v = VolumeUnit::all_units_spec()[j];
        assert(u.index_spec() == i && v.index_spec() == j);
        assert(VolumeUnit::table_spec()[i].scale == u.scale_spec());
        assert(VolumeUnit::table_spec()[j].scale == v.scale_spec());
        if i < j {
            assert(crate::rat::rat_le_spec(
                VolumeUnit::table_spec()[i].scale,
                VolumeUnit::table_spec()[j].scale,
            ));
        }
    }
}

} // verus!
