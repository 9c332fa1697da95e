//! The quantity `Acceleration` and its units.
//!
//! Rate of change of an object's speed with respect to time.
//! Reference unit: Meter Per Second Squared. Units are enumerated in ascending
//! scale order; the scales are exact rationals.

use vstd::prelude::*;

use crate::algebra::{
    considered, has_considered, unit_tab_wf, UnitScale,
};
use crate::fmt::amount_with_symbol;
use crate::prefix::SIPrefix;
use crate::rat::{rat_wf, Rat};

verus! {

/// Unit of quantity `Acceleration`, in ascending scale order.
#[derive(Clone, Copy, Debug, PartialEq, Eq, Structural)]
pub enum AccelerationUnit {
    /// Meter Per Second Squared (`m/s²`).
    MeterPerSecondSquared,
}

/// The unit Meter Per Second Squared.
pub const METER_PER_SECOND_SQUARED: AccelerationUnit = AccelerationUnit::MeterPerSecondSquared;

impl AccelerationUnit {
    /// Position in the canonical (ascending-scale) unit order.
    pub open spec fn index_spec(self) -> int {
        match self {
            AccelerationUnit::MeterPerSecondSquared => 0,
        }
    }

    /// The unit's scale: its size expressed in the reference unit.
    pub open spec fn scale_spec(self) -> Rat {
        match self {
            AccelerationUnit::MeterPerSecondSquared => Rat { num: 1, den: 1 },
        }
    }

    /// The unit's SI-prefix tag, if it carries one.
    pub open spec fn si_prefix_spec(self) -> Option<SIPrefix> {
        match self {
            AccelerationUnit::MeterPerSecondSquared => Some(SIPrefix::NONE),
        }
    }

    /// The unit's printable symbol, as characters.
    pub open spec fn symbol_view(self) -> Seq<char> {
        match self {
            AccelerationUnit::MeterPerSecondSquared => "m/s²"@,
        }
    }

    /// Position in the canonical unit order.
    pub fn index(self) -> (i: usize)
        ensures
            i == self.index_spec(),
    {
        match self {
            AccelerationUnit::MeterPerSecondSquared => 0,
        }
    }

    /// The unit at the given position of the canonical order.
    pub fn from_index(i: usize) -> (unit: AccelerationUnit)
        requires
            i < 1,
        ensures
            unit.index_spec() == i,
    {
        AccelerationUnit::MeterPerSecondSquared
    }

    /// The unit's scale.
    pub fn scale(self) -> (r: Rat)
        ensures
            r == self.scale_spec(),
    {
        match self {
            AccelerationUnit::MeterPerSecondSquared => Rat { num: 1, den: 1 },
        }
    }

    /// The unit's SI-prefix tag, if it carries one.
    pub fn si_prefix(self) -> (p: Option<SIPrefix>)
        ensures
            p == self.si_prefix_spec(),
    {
        match self {
            AccelerationUnit::MeterPerSecondSquared => Some(SIPrefix::NONE),
        }
    }

    /// The unit's printable symbol.
    pub fn symbol(self) -> (s: String)
        ensures
            s@ == self.symbol_view(),
    {
        match self {
            AccelerationUnit::MeterPerSecondSquared => "m/s²".to_owned(),
        }
    }

    /// The unit's display name, as characters.
    pub open spec fn name_view(self) -> Seq<char> {
        match self {
            AccelerationUnit::MeterPerSecondSquared => "Meter Per Second Squared"@,
        }
    }

    /// The unit's display name.
    pub fn name(self) -> (s: String)
        ensures
            s@ == self.name_view(),
    {
        match self {
            AccelerationUnit::MeterPerSecondSquared => "Meter Per Second Squared".to_owned(),
        }
    }

    /// The reference unit, of scale 1.
    pub fn ref_unit() -> (unit: AccelerationUnit)
        ensures
            unit == AccelerationUnit::MeterPerSecondSquared,
    {
        AccelerationUnit::MeterPerSecondSquared
    }

    /// All units, in canonical order.
    pub open spec fn all_units_spec() -> Seq<AccelerationUnit> {
        seq![AccelerationUnit::MeterPerSecondSquared]
    }

    /// All units, in canonical order.
    pub fn units() -> (v: Vec<AccelerationUnit>)
        ensures
            v@ == AccelerationUnit::all_units_spec(),
    {
        let v = vec![AccelerationUnit::MeterPerSecondSquared];
        proof {
            assert(v@ =~= AccelerationUnit::all_units_spec());
        }
        v
    }

    /// The runtime scale table of the quantity.
    pub open spec fn table_spec() -> Seq<UnitScale> {
        seq![
            UnitScale { scale: Rat { num: 1, den: 1 }, tagged: true },
        ]
    }

    /// The runtime scale table of the quantity.
    pub fn table() -> (t: Vec<UnitScale>)
        ensures
            t@ == AccelerationUnit::table_spec(),
    {
        let t = vec![
            UnitScale { scale: Rat { num: 1, den: 1 }, tagged: true },
        ];
        proof {
            assert(t@ =~= AccelerationUnit::table_spec());
        }
        t
    }
}

/// The scale table is sound: nonempty, usable, ascending, with a
/// considered unit, and each unit's entry carries its own scale and tag.
pub proof fn acceleration_table_ok()
    ensures
        unit_tab_wf(AccelerationUnit::table_spec()),
        has_considered(AccelerationUnit::table_spec(), false),
        forall|unit: AccelerationUnit|
            AccelerationUnit::table_spec()[#[trigger] unit.index_spec()] == (UnitScale {
                scale: unit.scale_spec(),
                tagged: unit.si_prefix_spec() is Some,
            }),
{
    let t = AccelerationUnit::table_spec();
    assert(t.len() == 1);
    assert(considered(t, 0, false));
    assert forall|k: int| 0 <= k < t.len() implies crate::schema::scale_ok(
        (#[trigger] t[k]).scale,
    ) by {
        assert(crate::schema::scale_ok(t[0].scale));
    }
    crate::algebra::lemma_tab_sorted_from_adjacent(t);
    assert forall|unit: AccelerationUnit| t[#[trigger] unit.index_spec()] == (UnitScale {
        scale: unit.scale_spec(),
        tagged: unit.si_prefix_spec() is Some,
    }) by {
        if unit == AccelerationUnit::MeterPerSecondSquared {
            assert(t[0] == (UnitScale {
                scale: AccelerationUnit::MeterPerSecondSquared.scale_spec(),
                tagged: AccelerationUnit::MeterPerSecondSquared.si_prefix_spec() is Some,
            }));
        }
    }
}

/// Rate of change of an object's speed with respect to time.
///
/// An amount together with one of the quantity's units.
#[derive(Clone, Copy, Debug, PartialEq, Eq, Structural)]
pub struct Acceleration {
    /// The amount.
    pub value: Rat,
    /// The unit the amount is expressed in.
    pub unit: AccelerationUnit,
}

impl Acceleration {
    /// A new quantity value from an amount and a unit.
    pub fn new(value: Rat, unit: AccelerationUnit) -> (q: Acceleration)
        ensures
            q.value == value,
            q.unit == unit,
    {
        Acceleration { value, unit }
    }

    /// The amount.
    pub fn value(&self) -> (r: Rat)
        ensures
            r == self.value,
    {
        self.value
    }

    /// The unit.
    pub fn unit(&self) -> (unit: AccelerationUnit)
        ensures
            unit == self.unit,
    {
        self.unit
    }

    /// The same value expressed in the unit `to`: the amount is
    /// rescaled by the ratio of the two unit scales.
    pub fn convert(&self, to: AccelerationUnit) -> (r: Option<Acceleration>)
        requires
            rat_wf(self.value),
        ensures
            r matches Some(q) ==> {
                &&& rat_wf(q.value)
                &&& q.unit == to
                &&& crate::algebra::is_scaled_of(
                    q.value,
                    self.value,
                    self.unit.scale_spec(),
                    to.scale_spec(),
                )
            },
            crate::algebra::scaled_in_range(self.value, self.unit.scale_spec(), to.scale_spec())
                ==> r is Some,
    {
        match crate::algebra::equiv_amount(&self.value, &self.unit.scale(), &to.scale()) {
            Some(v) => Some(Acceleration { value: v, unit: to }),
            None => None,
        }
    }

    /// The sum of the two values, expressed in `self`'s unit.
    pub fn add(&self, other: &Acceleration) -> (r: Option<Acceleration>)
        requires
            rat_wf(self.value),
            rat_wf(other.value),
        ensures
            r matches Some(q) ==> {
                &&& rat_wf(q.value)
                &&& q.unit == self.unit
                &&& crate::algebra::is_sum_in_left(
                    q.value,
                    self.value,
                    self.unit.scale_spec(),
                    other.value,
                    other.unit.scale_spec(),
                )
            },
            crate::algebra::combine_in_range(
                self.value,
                self.unit.scale_spec(),
                other.value,
                other.unit.scale_spec(),
            ) ==> r is Some,
    {
        match crate::algebra::add_qty(
            &self.value,
            &self.unit.scale(),
            &other.value,
            &other.unit.scale(),
        ) {
            Some(v) => Some(Acceleration { value: v, unit: self.unit }),
            None => None,
        }
    }

    /// The difference of the two values, expressed in `self`'s unit.
    pub fn sub(&self, other: &Acceleration) -> (r: Option<Acceleration>)
        requires
            rat_wf(self.value),
            rat_wf(other.value),
        ensures
            r matches Some(q) ==> {
                &&& rat_wf(q.value)
                &&& q.unit == self.unit
                &&& crate::algebra::is_diff_in_left(
                    q.value,
                    self.value,
                    self.unit.scale_spec(),
                    other.value,
                    other.unit.scale_spec(),
                )
            },
            crate::algebra::combine_in_range(
                self.value,
                self.unit.scale_spec(),
                other.value,
                other.unit.scale_spec(),
            ) ==> r is Some,
    {
        match crate::algebra::sub_qty(
            &self.value,
            &self.unit.scale(),
            &other.value,
            &other.unit.scale(),
        ) {
            Some(v) => Some(Acceleration { value: v, unit: self.unit }),
            None => None,
        }
    }

    /// The dimensionless ratio of the two values.
    pub fn div(&self, other: &Acceleration) -> (r: Option<Rat>)
        requires
            rat_wf(self.value),
            rat_wf(other.value),
        ensures
            r matches Some(v) ==> rat_wf(v) && crate::algebra::is_ratio_of(
                v,
                self.value,
                self.unit.scale_spec(),
                other.value,
                other.unit.scale_spec(),
            ),
            crate::algebra::ratio_in_range(
                self.value,
                self.unit.scale_spec(),
                other.value,
                other.unit.scale_spec(),
            ) ==> r is Some,
    {
        crate::algebra::div_qty(
            &self.value,
            &self.unit.scale(),
            &other.value,
            &other.unit.scale(),
        )
    }

    /// Exact equivalence of the two values, whatever their units.
    pub fn equivalent(&self, other: &Acceleration) -> (b: bool)
        requires
            rat_wf(self.value),
            rat_wf(other.value),
        ensures
            b == crate::algebra::qty_eq_spec(
                self.value,
                self.unit.scale_spec(),
                other.value,
                other.unit.scale_spec(),
            ),
    {
        let r = crate::algebra::cmp_qty(
            &self.value,
            &self.unit.scale(),
            &other.value,
            &other.unit.scale(),
        );
        match r {
            core::cmp::Ordering::Equal => true,
            _ => false,
        }
    }

    /// The best-fitting unit for a magnitude expressed in the
    /// reference unit, with the rescaled amount.
    pub fn fit(amount: Rat) -> (r: Option<Acceleration>)
        requires
            rat_wf(amount),
        ensures
            r matches Some(q) ==> {
                &&& rat_wf(q.value)
                &&& crate::algebra::is_fit_choice(
                    AccelerationUnit::table_spec(),
                    false,
                    amount.num as int,
                    amount.den as int,
                    q.unit.index_spec(),
                )
                &&& crate::rat::is_quot_of(q.value, amount, q.unit.scale_spec())
            },
            (forall|k: int|
                0 <= k < AccelerationUnit::table_spec().len()
                    ==> crate::rat::rat_abs(amount.num as int) * (#[trigger] AccelerationUnit::table_spec()[k]).scale.den
                    <= crate::rat::RAT_BOUND && amount.den * AccelerationUnit::table_spec()[k].scale.num
                    <= crate::rat::RAT_BOUND) ==> r is Some,
    {
        proof {
            acceleration_table_ok();
        }
        let t = AccelerationUnit::table();
        let i = crate::algebra::fit_index(&t, false, amount.num, amount.den);
        let unit = AccelerationUnit::from_index(i);
        proof {
            assert(t@[i as int] == AccelerationUnit::table_spec()[unit.index_spec()]);
            if forall|k: int|
                0 <= k < AccelerationUnit::table_spec().len()
                    ==> crate::rat::rat_abs(amount.num as int) * (#[trigger] AccelerationUnit::table_spec()[k]).scale.den
                    <= crate::rat::RAT_BOUND && amount.den * AccelerationUnit::table_spec()[k].scale.num
                    <= crate::rat::RAT_BOUND {
                crate::algebra::lemma_final_div_bounds(
                    amount,
                    t@[i as int].scale,
                    crate::rat::rat_abs(amount.num as int),
                    amount.den as int,
                );
            }
        }
        match amount.div(&unit.scale()) {
            Some(v) => Some(Acceleration { value: v, unit }),
            None => None,
        }
    }

    /// Renders the value as `amount symbol`.
    pub fn to_string(&self) -> (s: String)
        requires
            rat_wf(self.value),
        ensures
            self.unit.symbol_view().len() > 0 ==> s@ == crate::fmt::with_symbol_chars(
                self.value,
                self.unit.symbol_view(),
            ),
    {
        let sym = self.unit.symbol();
        amount_with_symbol(&self.value, sym.as_str())
    }
}

impl crate::velocity::Velocity {
    /// The quotient of a velocity by a time: the result lands in the unit whose
    /// scale is exactly the quotient of the operand unit scales, or in
    /// the best-fitting unit for the quotient magnitude.
    pub fn div_time(&self, rhs: &crate::time::Time) -> (r: Option<crate::acceleration::Acceleration>)
        requires
            rat_wf(self.value),
            rat_wf(rhs.value),
        ensures
            r matches Some(q) ==> {
                &&& rat_wf(q.value)
                &&& crate::algebra::is_quot_result(
                    q.value,
                    q.unit.scale_spec(),
                    self.value,
                    self.unit.scale_spec(),
                    rhs.value,
                    rhs.unit.scale_spec(),
                )
                &&& match crate::algebra::lookup_spec(
                    crate::acceleration::AccelerationUnit::table_spec(),
                    self.unit.scale_spec().num * rhs.unit.scale_spec().den,
                    self.unit.scale_spec().den * rhs.unit.scale_spec().num,
                ) {
                    Some(j) => q.unit.index_spec() == j,
                    None => crate::algebra::is_fit_choice(
                        crate::acceleration::AccelerationUnit::table_spec(),
                        false,
                        crate::algebra::quot_num(
                            self.value,
                            self.unit.scale_spec(),
                            rhs.value,
                            rhs.unit.scale_spec(),
                        ),
                        crate::algebra::quot_den(
                            self.value,
                            self.unit.scale_spec(),
                            rhs.value,
                            rhs.unit.scale_spec(),
                        ),
                        q.unit.index_spec(),
                    ),
                }
            },
            crate::algebra::div_in_range(
                self.value,
                self.unit.scale_spec(),
                rhs.value,
                rhs.unit.scale_spec(),
                crate::acceleration::AccelerationUnit::table_spec(),
            ) ==> r is Some,
    {
        proof {
            crate::acceleration::acceleration_table_ok();
        }
        let t = crate::acceleration::AccelerationUnit::table();
        match crate::algebra::qty_div(
            &self.value,
            &self.unit.scale(),
            &rhs.value,
            &rhs.unit.scale(),
            &t,
            false,
        ) {
            Some((am, i)) => {
                let unit = crate::acceleration::AccelerationUnit::from_index(i);
                proof {
                    assert(t@[i as int] == crate::acceleration::AccelerationUnit::table_spec()[unit.index_spec()]);
                }
                Some(crate::acceleration::Acceleration { value: am, unit })
            },
            None => None,
        }
    }
}

impl crate::acceleration::Acceleration {
    /// The product of a acceleration and a time: the result lands in the unit whose
    /// scale is exactly the product of the operand unit scales, or in
    /// the best-fitting unit for the product magnitude.
    pub fn mul_time(&self, rhs: &crate::time::Time) -> (r: Option<crate::velocity::Velocity>)
        requires
            rat_wf(self.value),
            rat_wf(rhs.value),
        ensures
            r matches Some(q) ==> {
                &&& rat_wf(q.value)
                &&& crate::algebra::is_prod_result(
                    q.value,
                    q.unit.scale_spec(),
                    self.value,
                    self.unit.scale_spec(),
                    rhs.value,
                    rhs.unit.scale_spec(),
                )
                &&& match crate::algebra::lookup_spec(
                    crate::velocity::VelocityUnit::table_spec(),
                    self.unit.scale_spec().num * rhs.unit.scale_spec().num,
                    self.unit.scale_spec().den * rhs.unit.scale_spec().den,
                ) {
                    Some(j) => q.unit.index_spec() == j,
                    None => crate::algebra::is_fit_choice(
                        crate::velocity::VelocityUnit::table_spec(),
                        false,
                        crate::algebra::prod_num(
                            self.value,
                            self.unit.scale_spec(),
                            rhs.value,
                            rhs.unit.scale_spec(),
                        ),
                        crate::algebra::prod_den(
                            self.value,
                            self.unit.scale_spec(),
                            rhs.value,
                            rhs.unit.scale_spec(),
                        ),
                        q.unit.index_spec(),
                    ),
                }
            },
            crate::algebra::mul_in_range(
                self.value,
                self.unit.scale_spec(),
                rhs.value,
                rhs.unit.scale_spec(),
                crate::velocity::VelocityUnit::table_spec(),
            ) ==> r is Some,
    {
        proof {
            crate::velocity::velocity_table_ok();
        }
        let t = crate::velocity::VelocityUnit::table();
        match crate::algebra::qty_mul(
            &self.value,
            &self.unit.scale(),
            &rhs.value,
            &rhs.unit.scale(),
            &t,
            false,
        ) {
            Some((am, i)) => {
                let unit = crate::velocity::VelocityUnit::from_index(i);
                proof {
                    assert(t@[i as int] == crate::velocity::VelocityUnit::table_spec()[unit.index_spec()]);
                }
                Some(crate::velocity::Velocity { value: am, unit })
            },
            None => None,
        }
    }
}

impl crate::time::Time {
    /// The product of a time and an acceleration: the result lands in the unit whose
    /// scale is exactly the product of the operand unit scales, or in
    /// the best-fitting unit for the product magnitude.
    pub fn mul_acceleration(&self, rhs: &crate::acceleration::Acceleration) -> (r: Option<crate::velocity::Velocity>)
        requires
            rat_wf(self.value),
            rat_wf(rhs.value),
        ensures
            r matches Some(q) ==> {
                &&& rat_wf(q.value)
                &&& crate::algebra::is_prod_result(
                    q.value,
                    q.unit.scale_spec(),
                    self.value,
                    self.unit.scale_spec(),
                    rhs.value,
                    rhs.unit.scale_spec(),
                )
                &&& match crate::algebra::lookup_spec(
                    crate::velocity::VelocityUnit::table_spec(),
                    self.unit.scale_spec().num * rhs.unit.scale_spec().num,
                    self.unit.scale_spec().den * rhs.unit.scale_spec().den,
                ) {
                    Some(j) => q.unit.index_spec() == j,
                    None => crate::algebra::is_fit_choice(
                        crate::velocity::VelocityUnit::table_spec(),
                        false,
                        crate::algebra::prod_num(
                            self.value,
                            self.unit.scale_spec(),
                            rhs.value,
                            rhs.unit.scale_spec(),
                        ),
                        crate::algebra::prod_den(
                            self.value,
                            self.unit.scale_spec(),
                            rhs.value,
                            rhs.unit.scale_spec(),
                        ),
                        q.unit.index_spec(),
                    ),
                }
            },
            crate::algebra::mul_in_range(
                self.value,
                self.unit.scale_spec(),
                rhs.value,
                rhs.unit.scale_spec(),
                crate::velocity::VelocityUnit::table_spec(),
            ) ==> r is Some,
    {
        proof {
            crate::velocity::velocity_table_ok();
        }
        let t = crate::velocity::VelocityUnit::table();
        match crate::algebra::qty_mul(
            &self.value,
            &self.unit.scale(),
            &rhs.value,
            &rhs.unit.scale(),
            &t,
            false,
        ) {
            Some((am, i)) => {
                let unit = crate::velocity::VelocityUnit::from_index(i);
                proof {
                    assert(t@[i as int] == crate::velocity::VelocityUnit::table_spec()[unit.index_spec()]);
                }
                Some(crate::velocity::Velocity { value: am, unit })
            },
            None => None,
        }
    }
}

impl crate::velocity::Velocity {
    /// The quotient of a velocity by an acceleration: the result lands in the unit whose
    /// scale is exactly the quotient of the operand unit scales, or in
    /// the best-fitting unit for the quotient magnitude.
    pub fn div_acceleration(&self, rhs: &crate::acceleration::Acceleration) -> (r: Option<crate::time::Time>)
        requires
            rat_wf(self.value),
            rat_wf(rhs.value),
        ensures
            r matches Some(q) ==> {
                &&& rat_wf(q.value)
                &&& crate::algebra::is_quot_result(
                    q.value,
                    q.unit.scale_spec(),
                    self.value,
                    self.unit.scale_spec(),
                    rhs.value,
                    rhs.unit.scale_spec(),
                )
                &&& match crate::algebra::lookup_spec(
                    crate::time::TimeUnit::table_spec(),
                    self.unit.scale_spec().num * rhs.unit.scale_spec().den,
                    self.unit.scale_spec().den * rhs.unit.scale_spec().num,
                ) {
                    Some(j) => q.unit.index_spec() == j,
                    None => crate::algebra::is_fit_choice(
                        crate::time::TimeUnit::table_spec(),
                        false,
                        crate::algebra::quot_num(
                            self.value,
                            self.unit.scale_spec(),
                            rhs.value,
                            rhs.unit.scale_spec(),
                        ),
                        crate::algebra::quot_den(
                            self.value,
                            self.unit.scale_spec(),
                            rhs.value,
                            rhs.unit.scale_spec(),
                        ),
                        q.unit.index_spec(),
                    ),
                }
            },
            crate::algebra::div_in_range(
                self.value,
                self.unit.scale_spec(),
                rhs.value,
                rhs.unit.scale_spec(),
                crate::time::TimeUnit::table_spec(),
            ) ==> r is Some,
    {
        proof {
            crate::time::time_table_ok();
        }
        let t = crate::time::TimeUnit::table();
        match crate::algebra::qty_div(
            &self.value,
            &self.unit.scale(),
            &rhs.value,
            &rhs.unit.scale(),
            &t,
            false,
        ) {
            Some((am, i)) => {
                let unit = crate::time::TimeUnit::from_index(i);
                proof {
                    assert(t@[i as int] == crate::time::TimeUnit::table_spec()[unit.index_spec()]);
                }
                Some(crate::time::Time { value: am, unit })
            },
            None => None,
        }
    }
}

impl AccelerationUnit {
    /// The first unit in canonical order whose symbol is `s`, if any.
    pub open spec fn from_symbol_spec(s: Seq<char>) -> Option<AccelerationUnit> {
        if s == "m/s²"@ {
            Some(AccelerationUnit::MeterPerSecondSquared)
        } else {
            None
        }
    }

    /// Looks a unit up by its printable symbol, scanning the canonical
    /// order; `None` when no unit uses the symbol.
    pub fn from_symbol(s: &str) -> (r: Option<AccelerationUnit>)
        ensures
            r == AccelerationUnit::from_symbol_spec(s@),
    {
        if crate::text::str_eq(s, "m/s²") {
            Some(AccelerationUnit::MeterPerSecondSquared)
        } else {
            None
        }
    }

    /// How many of `other` one `self` is: the exact ratio of the two
    /// unit scales.
    pub fn ratio(self, other: AccelerationUnit) -> (r: Option<Rat>)
        ensures
            r is Some <==> crate::rat::quot_in_range(self.scale_spec(), other.scale_spec()),
            r matches Some(v) ==> rat_wf(v) && crate::rat::is_quot_of(
                v,
                self.scale_spec(),
                other.scale_spec(),
            ),
    {
        self.scale().div(&other.scale())
    }
}

impl Acceleration {
    /// The value multiplied by a bare amount; the unit is kept.
    pub fn scale_by(&self, k: &Rat) -> (r: Option<Acceleration>)
        requires
            rat_wf(self.value),
            rat_wf(*k),
        ensures
            r is Some <==> crate::rat::prod_in_range(self.value, *k),
            r matches Some(q) ==> {
                &&& rat_wf(q.value)
                &&& q.unit == self.unit
                &&& crate::rat::is_prod_of(q.value, self.value, *k)
            },
    {
        match self.value.mul(k) {
            Some(v) => Some(Acceleration { value: v, unit: self.unit }),
            None => None,
        }
    }

    /// The value divided by a bare amount; the unit is kept.
    pub fn div_by(&self, k: &Rat) -> (r: Option<Acceleration>)
        requires
            rat_wf(self.value),
            rat_wf(*k),
        ensures
            r is Some <==> crate::rat::quot_in_range(self.value, *k),
            r matches Some(q) ==> {
                &&& rat_wf(q.value)
                &&& q.unit == self.unit
                &&& crate::rat::is_quot_of(q.value, self.value, *k)
            },
    {
        match self.value.div(k) {
            Some(v) => Some(Acceleration { value: v, unit: self.unit }),
            None => None,
        }
    }

    /// Multiplies by a rate whose per side is a unit of this quantity:
    /// the value, divided by `per_unit_multiple` times the per unit and
    /// multiplied by `term_amount`, as an amount in the rate's term
    /// unit. The rescale goes through the rate's stored units.
    pub fn mul_rate<TU: Copy>(&self, rate: &crate::rate::Rate<TU, AccelerationUnit>) -> (r: Option<
        (Rat, TU),
    >)
        requires
            rat_wf(self.value),
            rat_wf(rate.term_amount),
            rat_wf(rate.per_unit_multiple),
        ensures
            rate.per_unit_multiple.num == 0 ==> r is None,
            rate.per_unit_multiple.num != 0 && crate::rate::rate_in_range(
                self.value,
                self.unit.scale_spec(),
                rate.per_unit.scale_spec(),
                rate.per_unit_multiple,
                rate.term_amount,
            ) ==> r is Some,
            r matches Some(p) ==> {
                &&& rat_wf(p.0)
                &&& p.1 == rate.term_unit
                &&& rate.per_unit_multiple.num != 0
                &&& crate::rate::is_rate_apply(
                    p.0,
                    self.value,
                    self.unit.scale_spec(),
                    rate.per_unit.scale_spec(),
                    rate.per_unit_multiple,
                    rate.term_amount,
                )
            },
    {
        match crate::rate::rate_apply(
            &self.value,
            &self.unit.scale(),
            &rate.per_unit.scale(),
            &rate.per_unit_multiple,
            &rate.term_amount,
        ) {
            Some(v) => Some((v, rate.term_unit)),
            None => None,
        }
    }

    /// Divides by a rate whose term side is a unit of this quantity:
    /// the value, divided by `term_amount` times the term unit and
    /// multiplied by `per_unit_multiple`, as an amount in the rate's per
    /// unit. The rescale goes through the rate's stored units.
    pub fn div_rate<PU: Copy>(&self, rate: &crate::rate::Rate<AccelerationUnit, PU>) -> (r: Option<
        (Rat, PU),
    >)
        requires
            rat_wf(self.value),
            rat_wf(rate.term_amount),
            rat_wf(rate.per_unit_multiple),
        ensures
            rate.term_amount.num == 0 ==> r is None,
            rate.term_amount.num != 0 && crate::rate::rate_in_range(
                self.value,
                self.unit.scale_spec(),
                rate.term_unit.scale_spec(),
                rate.term_amount,
                rate.per_unit_multiple,
            ) ==> r is Some,
            r matches Some(p) ==> {
                &&& rat_wf(p.0)
                &&& p.1 == rate.per_unit
                &&& rate.term_amount.num != 0
                &&& crate::rate::is_rate_apply(
                    p.0,
                    self.value,
                    self.unit.scale_spec(),
                    rate.term_unit.scale_spec(),
                    rate.term_amount,
                    rate.per_unit_multiple,
                )
            },
    {
        match crate::rate::rate_apply(
            &self.value,
            &self.unit.scale(),
            &rate.term_unit.scale(),
            &rate.term_amount,
            &rate.per_unit_multiple,
        ) {
            Some(v) => Some((v, rate.per_unit)),
            None => None,
        }
    }
}

/// Units are enumerated in ascending scale order: along the canonical
/// list, every unit's scale is at most any later unit's.
pub proof fn acceleration_units_ascending()
    ensures
        forall|i: int, j: int|
            0 <= i <= j < AccelerationUnit::all_units_spec().len() ==> crate::rat::rat_le_spec(
                (#[trigger] AccelerationUnit::all_units_spec()[i]).scale_spec(),
                (#[trigger] AccelerationUnit::all_units_spec()[j]).scale_spec(),
            ),
{
    acceleration_table_ok();
    assert forall|i: int, j: int|
        0 <= i <= j < AccelerationUnit::all_units_spec().len() implies crate::rat::rat_le_spec(
        (#[trigger] AccelerationUnit::all_units_spec()[i]).scale_spec(),
        (#[trigger] AccelerationUnit::all_units_spec()[j]).scale_spec(),
    ) by {
        let u = AccelerationUnit::all_units_spec()[i];
        let v = AccelerationUnit::all_units_spec()[j];
        assert(u.index_spec() == i && v.index_spec() == j);
        assert(AccelerationUnit::table_spec()[i].scale == u.scale_spec());
        assert(AccelerationUnit::table_spec()[j].scale == v.scale_spec());
        if i < j {
            assert(crate::rat::rat_le_spec(
                AccelerationUnit::table_spec()[i].scale,
                AccelerationUnit::table_spec()[j].scale,
            ));
        }
    }
}

} // verus!
