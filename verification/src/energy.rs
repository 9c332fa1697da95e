//! The quantity `Energy` and its units.
//!
//! Property that must be transferred to an object to perform work on it.
//! Reference unit: Joule. Units are enumerated in ascending
//! scale order; the scales are exact rationals.

use vstd::prelude::*;

use crate::algebra::{
    considered, has_considered, unit_tab_wf, UnitScale,
};
use crate::fmt::amount_with_symbol;
use crate::prefix::SIPrefix;
use crate::rat::{rat_wf, Rat};

verus! {

/// Unit of quantity `Energy`, in ascending scale order.
#[derive(Clone, Copy, Debug, PartialEq, Eq, Structural)]
pub enum EnergyUnit {
    /// Joule (`J`).
    Joule,
    /// Newton Meter (`Nm`).
    NewtonMeter,
    /// Watt Second (`Ws`).
    WattSecond,
    /// Kilowatt Hour (`kWh`).
    KilowattHour,
}

/// The unit Joule.
pub const JOULE: EnergyUnit = EnergyUnit::Joule;
/// The unit Newton Meter.
pub const NEWTON_METER: EnergyUnit = EnergyUnit::NewtonMeter;
/// The unit Watt Second.
pub const WATT_SECOND: EnergyUnit = EnergyUnit::WattSecond;
/// The unit Kilowatt Hour.
pub const KILOWATT_HOUR: EnergyUnit = EnergyUnit::KilowattHour;

impl EnergyUnit {
    /// Position in the canonical (ascending-scale) unit order.
    pub open spec fn index_spec(self) -> int {
        match self {
            EnergyUnit::Joule => 0,
            EnergyUnit::NewtonMeter => 1,
            EnergyUnit::WattSecond => 2,
            EnergyUnit::KilowattHour => 3,
        }
    }

    /// The unit's scale: its size expressed in the reference unit.
    pub open spec fn scale_spec(self) -> Rat {
        match self {
            EnergyUnit::Joule => Rat { num: 1, den: 1 },
            EnergyUnit::NewtonMeter => Rat { num: 1, den: 1 },
            EnergyUnit::WattSecond => Rat { num: 1, den: 1 },
            EnergyUnit::KilowattHour => Rat { num: 3600000, den: 1 },
        }
    }

    /// The unit's SI-prefix tag, if it carries one.
    pub open spec fn si_prefix_spec(self) -> Option<SIPrefix> {
        match self {
            EnergyUnit::Joule => Some(SIPrefix::NONE),
            EnergyUnit::NewtonMeter => Some(SIPrefix::NONE),
            EnergyUnit::WattSecond => Some(SIPrefix::NONE),
            EnergyUnit::KilowattHour => None,
        }
    }

    /// The unit's printable symbol, as characters.
    pub open spec fn symbol_view(self) -> Seq<char> {
        match self {
            EnergyUnit::Joule => "J"@,
            EnergyUnit::NewtonMeter => "Nm"@,
            EnergyUnit::WattSecond => "Ws"@,
            EnergyUnit::KilowattHour => "kWh"@,
        }
    }

    /// Position in the canonical unit order.
    pub fn index(self) -> (i: usize)
        ensures
            i == self.index_spec(),
    {
        match self {
            EnergyUnit::Joule => 0,
            EnergyUnit::NewtonMeter => 1,
            EnergyUnit::WattSecond => 2,
            EnergyUnit::KilowattHour => 3,
        }
    }

    /// The unit at the given position of the canonical order.
    pub fn from_index(i: usize) -> (unit: EnergyUnit)
        requires
            i < 4,
        ensures
            unit.index_spec() == i,
    {
        if i == 0 {
            EnergyUnit::Joule
        } else if i == 1 {
            EnergyUnit::NewtonMeter
        } else if i == 2 {
            EnergyUnit::WattSecond
        } else {
            EnergyUnit::KilowattHour
        }
    }

    /// The unit's scale.
    pub fn scale(self) -> (r: Rat)
        ensures
            r == self.scale_spec(),
    {
        match self {
            EnergyUnit::Joule => Rat { num: 1, den: 1 },
            EnergyUnit::NewtonMeter => Rat { num: 1, den: 1 },
            EnergyUnit::WattSecond => Rat { num: 1, den: 1 },
            EnergyUnit::KilowattHour => Rat { num: 3600000, den: 1 },
        }
    }

    /// The unit's SI-prefix tag, if it carries one.
    pub fn si_prefix(self) -> (p: Option<SIPrefix>)
        ensures
            p == self.si_prefix_spec(),
    {
        match self {
            EnergyUnit::Joule => Some(SIPrefix::NONE),
            EnergyUnit::NewtonMeter => Some(SIPrefix::NONE),
            EnergyUnit::WattSecond => Some(SIPrefix::NONE),
            EnergyUnit::KilowattHour => None,
        }
    }

    /// The unit's printable symbol.
    pub fn symbol(self) -> (s: String)
        ensures
            s@ == self.symbol_view(),
    {
        match self {
            EnergyUnit::Joule => "J".to_owned(),
            EnergyUnit::NewtonMeter => "Nm".to_owned(),
            EnergyUnit::WattSecond => "Ws".to_owned(),
            EnergyUnit::KilowattHour => "kWh".to_owned(),
        }
    }

    /// The unit's display name, as characters.
    pub open spec fn name_view(self) -> Seq<char> {
        match self {
            EnergyUnit::Joule => "Joule"@,
            EnergyUnit::NewtonMeter => "Newton Meter"@,
            EnergyUnit::WattSecond => "Watt Second"@,
            EnergyUnit::KilowattHour => "Kilowatt Hour"@,
        }
    }

    /// The unit's display name.
    pub fn name(self) -> (s: String)
        ensures
            s@ == self.name_view(),
    {
        match self {
            EnergyUnit::Joule => "Joule".to_owned(),
            EnergyUnit::NewtonMeter => "Newton Meter".to_owned(),
            EnergyUnit::WattSecond => "Watt Second".to_owned(),
            EnergyUnit::KilowattHour => "Kilowatt Hour".to_owned(),
        }
    }

    /// The reference unit, of scale 1.
    pub fn ref_unit() -> (unit: EnergyUnit)
        ensures
            unit == EnergyUnit::Joule,
    {
        EnergyUnit::Joule
    }

    /// All units, in canonical order.
    pub open spec fn all_units_spec() -> Seq<EnergyUnit> {
        seq![EnergyUnit::Joule, EnergyUnit::NewtonMeter, EnergyUnit::WattSecond, EnergyUnit::KilowattHour]
    }

    /// All units, in canonical order.
    pub fn units() -> (v: Vec<EnergyUnit>)
        ensures
            v@ == EnergyUnit::all_units_spec(),
    {
        let v = vec![EnergyUnit::Joule, EnergyUnit::NewtonMeter, EnergyUnit::WattSecond, EnergyUnit::KilowattHour];
        proof {
            assert(v@ =~= EnergyUnit::all_units_spec());
        }
        v
    }

    /// The runtime scale table of the quantity.
    pub open spec fn table_spec() -> Seq<UnitScale> {
        seq![
            UnitScale { scale: Rat { num: 1, den: 1 }, tagged: true },
            UnitScale { scale: Rat { num: 1, den: 1 }, tagged: true },
            UnitScale { scale: Rat { num: 1, den: 1 }, tagged: true },
            UnitScale { scale: Rat { num: 3600000, den: 1 }, tagged: false },
        ]
    }

    /// The runtime scale table of the quantity.
    pub fn table() -> (t: Vec<UnitScale>)
        ensures
            t@ == EnergyUnit::table_spec(),
    {
        let t = vec![
            UnitScale { scale: Rat { num: 1, den: 1 }, tagged: true },
            UnitScale { scale: Rat { num: 1, den: 1 }, tagged: true },
            UnitScale { scale: Rat { num: 1, den: 1 }, tagged: true },
            UnitScale { scale: Rat { num: 3600000, den: 1 }, tagged: false },
        ];
        proof {
            assert(t@ =~= EnergyUnit::table_spec());
        }
        t
    }
}

/// The scale table is sound: nonempty, usable, ascending, with a
/// considered unit, and each unit's entry carries its own scale and tag.
pub proof fn energy_table_ok()
    ensures
        unit_tab_wf(EnergyUnit::table_spec()),
        has_considered(EnergyUnit::table_spec(), false),
        forall|unit: EnergyUnit|
            EnergyUnit::table_spec()[#[trigger] unit.index_spec()] == (UnitScale {
                scale: unit.scale_spec(),
                tagged: unit.si_prefix_spec() is Some,
            }),
{
    let t = EnergyUnit::table_spec();
    assert(t.len() == 4);
    assert(considered(t, 0, false));
    assert forall|k: int| 0 <= k < t.len() implies crate::schema::scale_ok(
        (#[trigger] t[k]).scale,
    ) by {
        if k == 0 {
            assert(crate::schema::scale_ok(t[0].scale));
        } else if k == 1 {
            assert(crate::schema::scale_ok(t[1].scale));
        } else if k == 2 {
            assert(crate::schema::scale_ok(t[2].scale));
        } else if k == 3 {
            assert(crate::schema::scale_ok(t[3].scale));
        }
    }
    assert forall|k: int| 0 <= k < t.len() - 1 implies crate::rat::rat_le_spec(
        (#[trigger] t[k]).scale,
        t[k + 1].scale,
    ) by {
        if k == 0 {
            assert(crate::rat::rat_le_spec(t[0].scale, t[1].scale));
        } else if k == 1 {
            assert(crate::rat::rat_le_spec(t[1].scale, t[2].scale));
        } else if k == 2 {
            assert(crate::rat::rat_le_spec(t[2].scale, t[3].scale));
        }
    }
    crate::algebra::lemma_tab_sorted_from_adjacent(t);
    assert forall|unit: EnergyUnit| t[#[trigger] unit.index_spec()] == (UnitScale {
        scale: unit.scale_spec(),
        tagged: unit.si_prefix_spec() is Some,
    }) by {
        if unit == EnergyUnit::Joule {
            assert(t[0] == (UnitScale {
                scale: EnergyUnit::Joule.scale_spec(),
                tagged: EnergyUnit::Joule.si_prefix_spec() is Some,
            }));
        } else if unit == EnergyUnit::NewtonMeter {
            assert(t[1] == (UnitScale {
                scale: EnergyUnit::NewtonMeter.scale_spec(),
                tagged: EnergyUnit::NewtonMeter.si_prefix_spec() is Some,
            }));
        } else if unit == EnergyUnit::WattSecond {
            assert(t[2] == (UnitScale {
                scale: EnergyUnit::WattSecond.scale_spec(),
                tagged: EnergyUnit::WattSecond.si_prefix_spec() is Some,
            }));
        } else if unit == EnergyUnit::KilowattHour {
            assert(t[3] == (UnitScale {
                scale: EnergyUnit::KilowattHour.scale_spec(),
                tagged: EnergyUnit::KilowattHour.si_prefix_spec() is Some,
            }));
        }
    }
}

/// Property that must be transferred to an object to perform work on it.
///
/// An amount together with one of the quantity's units.
#[derive(Clone, Copy, Debug, PartialEq, Eq, Structural)]
pub struct Energy {
    /// The amount.
    pub value: Rat,
    /// The unit the amount is expressed in.
    pub unit: EnergyUnit,
}

impl Energy {
    /// A new quantity value from an amount and a unit.
    pub fn new(value: Rat, unit: EnergyUnit) -> (q: Energy)
        ensures
            q.value == value,
            q.unit == unit,
    {
        Energy { value, unit }
    }

    /// The amount.
    pub fn value(&self) -> (r: Rat)
        ensures
            r == self.value,
    {
        self.value
    }

    /// The unit.
    pub fn unit(&self) -> (unit: EnergyUnit)
        ensures
            unit == self.unit,
    {
        self.unit
    }

    /// The same value expressed in the unit `to`: the amount is
    /// rescaled by the ratio of the two unit scales.
    pub fn convert(&self, to: EnergyUnit) -> (r: Option<Energy>)
        requires
            rat_wf(self.value),
        ensures
            r matches Some(q) ==> {
                &&& rat_wf(q.value)
                &&& q.unit == to
                &&& crate::algebra::is_scaled_of(
                    q.value,
                    self.value,
                    self.unit.scale_spec(),
                    to.scale_spec(),
                )
            },
            crate::algebra::scaled_in_range(self.value, self.unit.scale_spec(), to.scale_spec())
                ==> r is Some,
    {
        match crate::algebra::equiv_amount(&self.value, &self.unit.scale(), &to.scale()) {
            Some(v) => Some(Energy { value: v, unit: to }),
            None => None,
        }
    }

    /// The sum of the two values, expressed in `self`'s unit.
    pub fn add(&self, other: &Energy) -> (r: Option<Energy>)
        requires
            rat_wf(self.value),
            rat_wf(other.value),
        ensures
            r matches Some(q) ==> {
                &&& rat_wf(q.value)
                &&& q.unit == self.unit
                &&& crate::algebra::is_sum_in_left(
                    q.value,
                    self.value,
                    self.unit.scale_spec(),
                    other.value,
                    other.unit.scale_spec(),
                )
            },
            crate::algebra::combine_in_range(
                self.value,
                self.unit.scale_spec(),
                other.value,
                other.unit.scale_spec(),
            ) ==> r is Some,
    {
        match crate::algebra::add_qty(
            &self.value,
            &self.unit.scale(),
            &other.value,
            &other.unit.scale(),
        ) {
            Some(v) => Some(Energy { value: v, unit: self.unit }),
            None => None,
        }
    }

    /// The difference of the two values, expressed in `self`'s unit.
    pub fn sub(&self, other: &Energy) -> (r: Option<Energy>)
        requires
            rat_wf(self.value),
            rat_wf(other.value),
        ensures
            r matches Some(q) ==> {
                &&& rat_wf(q.value)
                &&& q.unit == self.unit
                &&& crate::algebra::is_diff_in_left(
                    q.value,
                    self.value,
                    self.unit.scale_spec(),
                    other.value,
                    other.unit.scale_spec(),
                )
            },
            crate::algebra::combine_in_range(
                self.value,
                self.unit.scale_spec(),
                other.value,
                other.unit.scale_spec(),
            ) ==> r is Some,
    {
        match crate::algebra::sub_qty(
            &self.value,
            &self.unit.scale(),
            &other.value,
            &other.unit.scale(),
        ) {
            Some(v) => Some(Energy { value: v, unit: self.unit }),
            None => None,
        }
    }

    /// The dimensionless ratio of the two values.
    pub fn div(&self, other: &Energy) -> (r: Option<Rat>)
        requires
            rat_wf(self.value),
            rat_wf(other.value),
        ensures
            r matches Some(v) ==> rat_wf(v) && crate::algebra::is_ratio_of(
                v,
                self.value,
                self.unit.scale_spec(),
                other.value,
                other.unit.scale_spec(),
            ),
            crate::algebra::ratio_in_range(
                self.value,
                self.unit.scale_spec(),
                other.value,
                other.unit.scale_spec(),
            ) ==> r is Some,
    {
        crate::algebra::div_qty(
            &self.value,
            &self.unit.scale(),
            &other.value,
            &other.unit.scale(),
        )
    }

    /// Exact equivalence of the two values, whatever their units.
    pub fn equivalent(&self, other: &Energy) -> (b: bool)
        requires
            rat_wf(self.value),
            rat_wf(other.value),
        ensures
            b == crate::algebra::qty_eq_spec(
                self.value,
                self.unit.scale_spec(),
                other.value,
                other.unit.scale_spec(),
            ),
    {
        let r = crate::algebra::cmp_qty(
            &self.value,
            &self.unit.scale(),
            &other.value,
            &other.unit.scale(),
        );
        match r {
            core::cmp::Ordering::Equal => true,
            _ => false,
        }
    }

    /// The best-fitting unit for a magnitude expressed in the
    /// reference unit, with the rescaled amount.
    pub fn fit(amount: Rat) -> (r: Option<Energy>)
        requires
            rat_wf(amount),
        ensures
            r matches Some(q) ==> {
                &&& rat_wf(q.value)
                &&& crate::algebra::is_fit_choice(
                    EnergyUnit::table_spec(),
                    false,
                    amount.num as int,
                    amount.den as int,
                    q.unit.index_spec(),
                )
                &&& crate::rat::is_quot_of(q.value, amount, q.unit.scale_spec())
            },
            (forall|k: int|
                0 <= k < EnergyUnit::table_spec().len()
                    ==> crate::rat::rat_abs(amount.num as int) * (#[trigger] EnergyUnit::table_spec()[k]).scale.den
                    <= crate::rat::RAT_BOUND && amount.den * EnergyUnit::table_spec()[k].scale.num
                    <= crate::rat::RAT_BOUND) ==> r is Some,
    {
        proof {
            energy_table_ok();
        }
        let t = EnergyUnit::table();
        let i = crate::algebra::fit_index(&t, false, amount.num, amount.den);
        let unit = EnergyUnit::from_index(i);
        proof {
            assert(t@[i as int] == EnergyUnit::table_spec()[unit.index_spec()]);
            if forall|k: int|
                0 <= k < EnergyUnit::table_spec().len()
                    ==> crate::rat::rat_abs(amount.num as int) * (#[trigger] EnergyUnit::table_spec()[k]).scale.den
                    <= crate::rat::RAT_BOUND && amount.den * EnergyUnit::table_spec()[k].scale.num
                    <= crate::rat::RAT_BOUND {
                crate::algebra::lemma_final_div_bounds(
                    amount,
                    t@[i as int].scale,
                    crate::rat::rat_abs(amount.num as int),
                    amount.den as int,
                );
            }
        }
        match amount.div(&unit.scale()) {
            Some(v) => Some(Energy { value: v, unit }),
            None => None,
        }
    }

    /// Renders the value as `amount symbol`.
    pub fn to_string(&self) -> (s: String)
        requires
            rat_wf(self.value),
        ensures
            self.unit.symbol_view().len() > 0 ==> s@ == crate::fmt::with_symbol_chars(
                self.value,
                self.unit.symbol_view(),
            ),
    {
        let sym = self.unit.symbol();
        amount_with_symbol(&self.value, sym.as_str())
    }
}

impl crate::force::Force {
    /// The product of a force and a length: the result lands in the unit whose
    /// scale is exactly the product of the operand unit scales, or in
    /// the best-fitting unit for the product magnitude.
    pub fn mul_length(&self, rhs: &crate::length::Length) -> (r: Option<crate::energy::Energy>)
        requires
            rat_wf(self.value),
            rat_wf(rhs.value),
        ensures
            r matches Some(q) ==> {
                &&& rat_wf(q.value)
                &&& crate::algebra::is_prod_result(
                    q.value,
                    q.unit.scale_spec(),
                    self.value,
                    self.unit.scale_spec(),
                    rhs.value,
                    rhs.unit.scale_spec(),
                )
                &&& match crate::algebra::lookup_spec(
                    crate::energy::EnergyUnit::table_spec(),
                    self.unit.scale_spec().num * rhs.unit.scale_spec().num,
                    self.unit.scale_spec().den * rhs.unit.scale_spec().den,
                ) {
                    Some(j) => q.unit.index_spec() == j,
                    None => crate::algebra::is_fit_choice(
                        crate::energy::EnergyUnit::table_spec(),
                        false,
                        crate::algebra::prod_num(
                            self.value,
                            self.unit.scale_spec(),
                            rhs.value,
                            rhs.unit.scale_spec(),
                        ),
                        crate::algebra::prod_den(
                            self.value,
                            self.unit.scale_spec(),
                            rhs.value,
                            rhs.unit.scale_spec(),
                        ),
                        q.unit.index_spec(),
                    ),
                }
            },
            crate::algebra::mul_in_range(
                self.value,
                self.unit.scale_spec(),
                rhs.value,
                rhs.unit.scale_spec(),
                crate::energy::EnergyUnit::table_spec(),
            ) ==> r is Some,
    {
        proof {
            crate::energy::energy_table_ok();
        }
        let t = crate::energy::EnergyUnit::table();
        match crate::algebra::qty_mul(
            &self.value,
            &self.unit.scale(),
            &rhs.value,
            &rhs.unit.scale(),
            &t,
            false,
        ) {
            Some((am, i)) => {
                let unit = crate::energy::EnergyUnit::from_index(i);
                proof {
                    assert(t@[i as int] == crate::energy::EnergyUnit::table_spec()[unit.index_spec()]);
                }
                Some(crate::energy::Energy { value: am, unit })
            },
            None => None,
        }
    }
}

impl crate::length::Length {
    /// The product of a length and a force: the result lands in the unit whose
    /// scale is exactly the product of the operand unit scales, or in
    /// the best-fitting unit for the product magnitude.
    pub fn mul_force(&self, rhs: &crate::force::Force) -> (r: Option<crate::energy::Energy>)
        requires
            rat_wf(self.value),
            rat_wf(rhs.value),
        ensures
            r matches Some(q) ==> {
                &&& rat_wf(q.value)
                &&& crate::algebra::is_prod_result(
                    q.value,
                    q.unit.scale_spec(),
                    self.value,
                    self.unit.scale_spec(),
                    rhs.value,
                    rhs.unit.scale_spec(),
                )
                &&& match crate::algebra::lookup_spec(
                    crate::energy::EnergyUnit::table_spec(),
                    self.unit.scale_spec().num * rhs.unit.scale_spec().num,
                    self.unit.scale_spec().den * rhs.unit.scale_spec().den,
                ) {
                    Some(j) => q.unit.index_spec() == j,
                    None => crate::algebra::is_fit_choice(
                        crate::energy::EnergyUnit::table_spec(),
                        false,
                        crate::algebra::prod_num(
                            self.value,
                            self.unit.scale_spec(),
                            rhs.value,
                            rhs.unit.scale_spec(),
                        ),
                        crate::algebra::prod_den(
                            self.value,
                            self.unit.scale_spec(),
                            rhs.value,
                            rhs.unit.scale_spec(),
                        ),
                        q.unit.index_spec(),
                    ),
                }
            },
            crate::algebra::mul_in_range(
                self.value,
                self.unit.scale_spec(),
                rhs.value,
                rhs.unit.scale_spec(),
                crate::energy::EnergyUnit::table_spec(),
            ) ==> r is Some,
    {
        proof {
            crate::energy::energy_table_ok();
        }
        let t = crate::energy::EnergyUnit::table();
        match crate::algebra::qty_mul(
            &self.value,
            &self.unit.scale(),
            &rhs.value,
            &rhs.unit.scale(),
            &t,
            false,
        ) {
            Some((am, i)) => {
                let unit = crate::energy::EnergyUnit::from_index(i);
                proof {
                    assert(t@[i as int] == crate::energy::EnergyUnit::table_spec()[unit.index_spec()]);
                }
                Some(crate::energy::Energy { value: am, unit })
            },
            None => None,
        }
    }
}

impl crate::energy::Energy {
    /// The quotient of a energy by a length: the result lands in the unit whose
    /// scale is exactly the quotient of the operand unit scales, or in
    /// the best-fitting unit for the quotient magnitude.
    pub fn div_length(&self, rhs: &crate::length::Length) -> (r: Option<crate::force::Force>)
        requires
            rat_wf(self.value),
            rat_wf(rhs.value),
        ensures
            r matches Some(q) ==> {
                &&& rat_wf(q.value)
                &&& crate::algebra::is_quot_result(
                    q.value,
                    q.unit.scale_spec(),
                    self.value,
                    self.unit.scale_spec(),
                    rhs.value,
                    rhs.unit.scale_spec(),
                )
                &&& match crate::algebra::lookup_spec(
                    crate::force::ForceUnit::table_spec(),
                    self.unit.scale_spec().num * rhs.unit.scale_spec().den,
                    self.unit.scale_spec().den * rhs.unit.scale_spec().num,
                ) {
                    Some(j) => q.unit.index_spec() == j,
                    None => crate::algebra::is_fit_choice(
                        crate::force::ForceUnit::table_spec(),
                        false,
                        crate::algebra::quot_num(
                            self.value,
                            self.unit.scale_spec(),
                            rhs.value,
                            rhs.unit.scale_spec(),
                        ),
                        crate::algebra::quot_den(
                            self.value,
                            self.unit.scale_spec(),
                            rhs.value,
                            rhs.unit.scale_spec(),
                        ),
                        q.unit.index_spec(),
                    ),
                }
            },
            crate::algebra::div_in_range(
                self.value,
                self.unit.scale_spec(),
                rhs.value,
                rhs.unit.scale_spec(),
                crate::force::ForceUnit::table_spec(),
            ) ==> r is Some,
    {
        proof {
            crate::force::force_table_ok();
        }
        let t = crate::force::ForceUnit::table();
        match crate::algebra::qty_div(
            &self.value,
            &self.unit.scale(),
            &rhs.value,
            &rhs.unit.scale(),
            &t,
            false,
        ) {
            Some((am, i)) => {
                let unit = crate::force::ForceUnit::from_index(i);
                proof {
                    assert(t@[i as int] == crate::force::ForceUnit::table_spec()[unit.index_spec()]);
                }
                Some(crate::force::Force { value: am, unit })
            },
            None => None,
        }
    }
}

impl crate::energy::Energy {
    /// The quotient of a energy by a force: the result lands in the unit whose
    /// scale is exactly the quotient of the operand unit scales, or in
    /// the best-fitting unit for the quotient magnitude.
    pub fn div_force(&self, rhs: &crate::force::Force) -> (r: Option<crate::length::Length>)
        requires
            rat_wf(self.value),
            rat_wf(rhs.value),
        ensures
            r matches Some(q) ==> {
                &&& rat_wf(q.value)
                &&& crate::algebra::is_quot_result(
                    q.value,
                    q.unit.scale_spec(),
                    self.value,
                    self.unit.scale_spec(),
                    rhs.value,
                    rhs.unit.scale_spec(),
                )
                &&& match crate::algebra::lookup_spec(
                    crate::length::LengthUnit::table_spec(),
                    self.unit.scale_spec().num * rhs.unit.scale_spec().den,
                    self.unit.scale_spec().den * rhs.unit.scale_spec().num,
                ) {
                    Some(j) => q.unit.index_spec() == j,
                    None => crate::algebra::is_fit_choice(
                        crate::length::LengthUnit::table_spec(),
                        false,
                        crate::algebra::quot_num(
                            self.value,
                            self.unit.scale_spec(),
                            rhs.value,
                            rhs.unit.scale_spec(),
                        ),
                        crate::algebra::quot_den(
                            self.value,
                            self.unit.scale_spec(),
                            rhs.value,
                            rhs.unit.scale_spec(),
                        ),
                        q.unit.index_spec(),
                    ),
                }
            },
            crate::algebra::div_in_range(
                self.value,
                self.unit.scale_spec(),
                rhs.value,
                rhs.unit.scale_spec(),
                crate::length::LengthUnit::table_spec(),
            ) ==> r is Some,
    {
        proof {
            crate::length::length_table_ok();
        }
        let t = crate::length::LengthUnit::table();
        match crate::algebra::qty_div(
            &self.value,
            &self.unit.scale(),
            &rhs.value,
            &rhs.unit.scale(),
            &t,
            false,
        ) {
            Some((am, i)) => {
                let unit = crate::length::LengthUnit::from_index(i);
                proof {
                    assert(t@[i as int] == crate::length::LengthUnit::table_spec()[unit.index_spec()]);
                }
                Some(crate::length::Length { value: am, unit })
            },
            None => None,
        }
    }
}

impl EnergyUnit {
    /// The first unit in canonical order whose symbol is `s`, if any.
    pub open spec fn from_symbol_spec(s: Seq<char>) -> Option<EnergyUnit> {
        if s == "J"@ {
            Some(EnergyUnit::Joule)
        } else if s == "Nm"@ {
            Some(EnergyUnit::NewtonMeter)
        } else if s == "Ws"@ {
            Some(EnergyUnit::WattSecond)
        } else if s == "kWh"@ {
            Some(EnergyUnit::KilowattHour)
        } else {
            None
        }
    }

    /// Looks a unit up by its printable symbol, scanning the canonical
    /// order; `None` when no unit uses the symbol.
    pub fn from_symbol(s: &str) -> (r: Option<EnergyUnit>)
        ensures
            r == EnergyUnit::from_symbol_spec(s@),
    {
        if crate::text::str_eq(s, "J") {
            Some(EnergyUnit::Joule)
        } else if crate::text::str_eq(s, "Nm") {
            Some(EnergyUnit::NewtonMeter)
        } else if crate::text::str_eq(s, "Ws") {
            Some(EnergyUnit::WattSecond)
        } else if crate::text::str_eq(s, "kWh") {
            Some(EnergyUnit::KilowattHour)
        } else {
            None
        }
    }

    /// How many of `other` one `self` is: the exact ratio of the two
    /// unit scales.
    pub fn ratio(self, other: EnergyUnit) -> (r: Option<Rat>)
        ensures
            r is Some <==> crate::rat::quot_in_range(self.scale_spec(), other.scale_spec()),
            r matches Some(v) ==> rat_wf(v) && crate::rat::is_quot_of(
                v,
                self.scale_spec(),
                other.scale_spec(),
            ),
    {
        self.scale().div(&other.scale())
    }
}

impl Energy {
    /// The value multiplied by a bare amount; the unit is kept.
    pub fn scale_by(&self, k: &Rat) -> (r: Option<Energy>)
        requires
            rat_wf(self.value),
            rat_wf(*k),
        ensures
            r is Some <==> crate::rat::prod_in_range(self.value, *k),
            r matches Some(q) ==> {
                &&& rat_wf(q.value)
                &&& q.unit == self.unit
                &&& crate::rat::is_prod_of(q.value, self.value, *k)
            },
    {
        match self.value.mul(k) {
            Some(v) => Some(Energy { value: v, unit: self.unit }),
            None => None,
        }
    }

    /// The value divided by a bare amount; the unit is kept.
    pub fn div_by(&self, k: &Rat) -> (r: Option<Energy>)
        requires
            rat_wf(self.value),
            rat_wf(*k),
        ensures
            r is Some <==> crate::rat::quot_in_range(self.value, *k),
            r matches Some(q) ==> {
                &&& rat_wf(q.value)
                &&& q.unit == self.unit
                &&& crate::rat::is_quot_of(q.value, self.value, *k)
            },
    {
        match self.value.div(k) {
            Some(v) => Some(Energy { value: v, unit: self.unit }),
            None => None,
        }
    }

    /// Multiplies by a rate whose per side is a unit of this quantity:
    /// the value, divided by `per_unit_multiple` times the per unit and
    /// multiplied by `term_amount`, as an amount in the rate's term
    /// unit. The rescale goes through the rate's stored units.
    pub fn mul_rate<TU: Copy>(&self, rate: &crate::rate::Rate<TU, EnergyUnit>) -> (r: Option<
        (Rat, TU),
    >)
        requires
            rat_wf(self.value),
            rat_wf(rate.term_amount),
            rat_wf(rate.per_unit_multiple),
        ensures
            rate.per_unit_multiple.num == 0 ==> r is None,
            rate.per_unit_multiple.num != 0 && crate::rate::rate_in_range(
                self.value,
                self.unit.scale_spec(),
                rate.per_unit.scale_spec(),
                rate.per_unit_multiple,
                rate.term_amount,
            ) ==> r is Some,
            r matches Some(p) ==> {
                &&& rat_wf(p.0)
                &&& p.1 == rate.term_unit
                &&& rate.per_unit_multiple.num != 0
                &&& crate::rate::is_rate_apply(
                    p.0,
                    self.value,
                    self.unit.scale_spec(),
                    rate.per_unit.scale_spec(),
                    rate.per_unit_multiple,
                    rate.term_amount,
                )
            },
    {
        match crate::rate::rate_apply(
            &self.value,
            &self.unit.scale(),
            &rate.per_unit.scale(),
            &rate.per_unit_multiple,
            &rate.term_amount,
        ) {
            Some(v) => Some((v, rate.term_unit)),
            None => None,
        }
    }

    /// Divides by a rate whose term side is a unit of this quantity:
    /// the value, divided by `term_amount` times the term unit and
    /// multiplied by `per_unit_multiple`, as an amount in the rate's per
    /// unit. The rescale goes through the rate's stored units.
    pub fn div_rate<PU: Copy>(&self, rate: &crate::rate::Rate<EnergyUnit, PU>) -> (r: Option<
        (Rat, PU),
    >)
        requires
            rat_wf(self.value),
            rat_wf(rate.term_amount),
            rat_wf(rate.per_unit_multiple),
        ensures
            rate.term_amount.num == 0 ==> r is None,
            rate.term_amount.num != 0 && crate::rate::rate_in_range(
                self.value,
                self.unit.scale_spec(),
                rate.term_unit.scale_spec(),
                rate.term_amount,
                rate.per_unit_multiple,
            ) ==> r is Some,
            r matches Some(p) ==> {
                &&& rat_wf(p.0)
                &&& p.1 == rate.per_unit
                &&& rate.term_amount.num != 0
                &&& crate::rate::is_rate_apply(
                    p.0,
                    self.value,
                    self.unit.scale_spec(),
                    rate.term_unit.scale_spec(),
                    rate.term_amount,
                    rate.per_unit_multiple,
                )
            },
    {
        match crate::rate::rate_apply(
            &self.value,
            &self.unit.scale(),
            &rate.term_unit.scale(),
            &rate.term_amount,
            &rate.per_unit_multiple,
        ) {
            Some(v) => Some((v, rate.per_unit)),
            None => None,
        }
    }
}

/// Units are enumerated in ascending scale order: along the canonical
/// list, every unit's scale is at most any later unit's.
pub proof fn energy_units_ascending()
    ensures
        forall|i: int, j: int|
            0 <= i <= j < EnergyUnit::all_units_spec().len() ==> crate::rat::rat_le_spec(
                (#[trigger] EnergyUnit::all_units_spec()[i]).scale_spec(),
                (#[trigger] EnergyUnit::all_units_spec()[j]).scale_spec(),
            ),
{
    energy_table_ok();
    assert forall|i: int, j: int|
        0 <= i <= j < EnergyUnit::all_units_spec().len() implies crate::rat::rat_le_spec(
        (#[trigger] EnergyUnit::all_units_spec()[i]).scale_spec(),
        (#[trigger] EnergyUnit::all_units_spec()[j]).scale_spec(),
    ) by {
        let u = EnergyUnit::all_units_spec()[i];
        let v = EnergyUnit::all_units_spec()[j];
        assert(u.index_spec() == i && v.index_spec() == j);
        assert(EnergyUnit::table_spec()[i].scale == u.scale_spec());
        assert(EnergyUnit::table_spec()[j].scale == v.scale_spec());
        if i < j {
            assert(crate::rat::rat_le_spec(
                EnergyUnit::table_spec()[i].scale,
                EnergyUnit::table_spec()[j].scale,
            ));
        }
    }
}

} // verus!
