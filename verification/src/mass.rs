//! The quantity `Mass` and its units.
//!
//! The quantity of matter in a physical body.
//! Reference unit: Kilogram. Units are enumerated in ascending
//! scale order; the scales are exact rationals.

use vstd::prelude::*;

use crate::algebra::{
    considered, has_considered, unit_tab_wf, UnitScale,
};
use crate::fmt::amount_with_symbol;
use crate::prefix::SIPrefix;
use crate::rat::{rat_wf, Rat};

verus! {

/// Unit of quantity `Mass`, in ascending scale order.
#[derive(Clone, Copy, Debug, PartialEq, Eq, Structural)]
pub enum MassUnit {
    /// Milligram (`mg`).
    Milligram,
    /// Gram (`g`).
    Gram,
    /// Kilogram (`kg`).
    Kilogram,
    /// Tonne (`t`).
    Tonne,
}

/// The unit Milligram.
pub const MILLIGRAM: MassUnit = MassUnit::Milligram;
/// The unit Gram.
pub const GRAM: MassUnit = MassUnit::Gram;
/// The unit Kilogram.
pub const KILOGRAM: MassUnit = MassUnit::Kilogram;
/// The unit Tonne.
pub const TONNE: MassUnit = MassUnit::Tonne;

impl MassUnit {
    /// Position in the canonical (ascending-scale) unit order.
    pub open spec fn index_spec(self) -> int {
        match self {
            MassUnit::Milligram => 0,
            MassUnit::Gram => 1,
            MassUnit::Kilogram => 2,
            MassUnit::Tonne => 3,
        }
    }

    /// The unit's scale: its size expressed in the reference unit.
    pub open spec fn scale_spec(self) -> Rat {
        match self {
            MassUnit::Milligram => Rat { num: 1, den: 1000000 },
            MassUnit::Gram => Rat { num: 1, den: 1000 },
            MassUnit::Kilogram => Rat { num: 1, den: 1 },
            MassUnit::Tonne => Rat { num: 1000, den: 1 },
        }
    }

    /// The unit's SI-prefix tag, if it carries one.
    pub open spec fn si_prefix_spec(self) -> Option<SIPrefix> {
        match self {
            MassUnit::Milligram => Some(SIPrefix::MILLI),
            MassUnit::Gram => Some(SIPrefix::NONE),
            MassUnit::Kilogram => Some(SIPrefix::KILO),
            MassUnit::Tonne => Some(SIPrefix::MEGA),
        }
    }

    /// The unit's printable symbol, as characters.
    pub open spec fn symbol_view(self) -> Seq<char> {
        match self {
            MassUnit::Milligram => "mg"@,
            MassUnit::Gram => "g"@,
            MassUnit::Kilogram => "kg"@,
            MassUnit::Tonne => "t"@,
        }
    }

    /// Position in the canonical unit order.
    pub fn index(self) -> (i: usize)
        ensures
            i == self.index_spec(),
    {
        match self {
            MassUnit::Milligram => 0,
            MassUnit::Gram => 1,
            MassUnit::Kilogram => 2,
            MassUnit::Tonne => 3,
        }
    }

    /// The unit at the given position of the canonical order.
    pub fn from_index(i: usize) -> (unit: MassUnit)
        requires
            i < 4,
        ensures
            unit.index_spec() == i,
    {
        if i == 0 {
            MassUnit::Milligram
        } else if i == 1 {
            MassUnit::Gram
        } else if i == 2 {
            MassUnit::Kilogram
        } else {
            MassUnit::Tonne
        }
    }

    /// The unit's scale.
    pub fn scale(self) -> (r: Rat)
        ensures
            r == self.scale_spec(),
    {
        match self {
            MassUnit::Milligram => Rat { num: 1, den: 1000000 },
            MassUnit::Gram => Rat { num: 1, den: 1000 },
            MassUnit::Kilogram => Rat { num: 1, den: 1 },
            MassUnit::Tonne => Rat { num: 1000, den: 1 },
        }
    }

    /// The unit's SI-prefix tag, if it carries one.
    pub fn si_prefix(self) -> (p: Option<SIPrefix>)
        ensures
            p == self.si_prefix_spec(),
    {
        match self {
            MassUnit::Milligram => Some(SIPrefix::MILLI),
            MassUnit::Gram => Some(SIPrefix::NONE),
            MassUnit::Kilogram => Some(SIPrefix::KILO),
            MassUnit::Tonne => Some(SIPrefix::MEGA),
        }
    }

    /// The unit's printable symbol.
    pub fn symbol(self) -> (s: String)
        ensures
            s@ == self.symbol_view(),
    {
        match self {
            MassUnit::Milligram => "mg".to_owned(),
            MassUnit::Gram => "g".to_owned(),
            MassUnit::Kilogram => "kg".to_owned(),
            MassUnit::Tonne => "t".to_owned(),
        }
    }

    /// The unit's display name, as characters.
    pub open spec fn name_view(self) -> Seq<char> {
        match self {
            MassUnit::Milligram => "Milligram"@,
            MassUnit::Gram => "Gram"@,
            MassUnit::Kilogram => "Kilogram"@,
            MassUnit::Tonne => "Tonne"@,
        }
    }

    /// The unit's display name.
    pub fn name(self) -> (s: String)
        ensures
            s@ == self.name_view(),
    {
        match self {
            MassUnit::Milligram => "Milligram".to_owned(),
            MassUnit::Gram => "Gram".to_owned(),
            MassUnit::Kilogram => "Kilogram".to_owned(),
            MassUnit::Tonne => "Tonne".to_owned(),
        }
    }

    /// The reference unit, of scale 1.
    pub fn ref_unit() -> (unit: MassUnit)
        ensures
            unit == MassUnit::Kilogram,
    {
        MassUnit::Kilogram
    }

    /// All units, in canonical order.
    pub open spec fn all_units_spec() -> Seq<MassUnit> {
        seq![MassUnit::Milligram, MassUnit::Gram, MassUnit::Kilogram, MassUnit::Tonne]
    }

    /// All units, in canonical order.
    pub fn units() -> (v: Vec<MassUnit>)
        ensures
            v@ == MassUnit::all_units_spec(),
    {
        let v = vec![MassUnit::Milligram, MassUnit::Gram, MassUnit::Kilogram, MassUnit::Tonne];
        proof {
            assert(v@ =~= MassUnit::all_units_spec());
        }
        v
    }

    /// The runtime scale table of the quantity.
    pub open spec fn table_spec() -> Seq<UnitScale> {
        seq![
            UnitScale { scale: Rat { num: 1, den: 1000000 }, tagged: true },
            UnitScale { scale: Rat { num: 1, den: 1000 }, tagged: true },
            UnitScale { scale: Rat { num: 1, den: 1 }, tagged: true },
            UnitScale { scale: Rat { num: 1000, den: 1 }, tagged: true },
        ]
    }

    /// The runtime scale table of the quantity.
    pub fn table() -> (t: Vec<UnitScale>)
        ensures
            t@ == MassUnit::table_spec(),
    {
        let t = vec![
            UnitScale { scale: Rat { num: 1, den: 1000000 }, tagged: true },
            UnitScale { scale: Rat { num: 1, den: 1000 }, tagged: true },
            UnitScale { scale: Rat { num: 1, den: 1 }, tagged: true },
            UnitScale { scale: Rat { num: 1000, den: 1 }, tagged: true },
        ];
        proof {
            assert(t@ =~= MassUnit::table_spec());
        }
        t
    }
}

/// The scale table is sound: nonempty, usable, ascending, with a
/// considered unit, and each unit's entry carries its own scale and tag.
pub proof fn mass_table_ok()
    ensures
        unit_tab_wf(MassUnit::table_spec()),
        has_considered(MassUnit::table_spec(), false),
        forall|unit: MassUnit|
            MassUnit::table_spec()[#[trigger] unit.index_spec()] == (UnitScale {
                scale: unit.scale_spec(),
                tagged: unit.si_prefix_spec() is Some,
            }),
{
    let t = MassUnit::table_spec();
    assert(t.len() == 4);
    assert(considered(t, 2, false));
    assert forall|k: int| 0 <= k < t.len() implies crate::schema::scale_ok(
        (#[trigger] t[k]).scale,
    ) by {
        if k == 0 {
            assert(crate::schema::scale_ok(t[0].scale));
        } else if k == 1 {
            assert(crate::schema::scale_ok(t[1].scale));
        } else if k == 2 {
            assert(crate::schema::scale_ok(t[2].scale));
        } else if k == 3 {
            assert(crate::schema::scale_ok(t[3].scale));
        }
    }
    assert forall|k: int| 0 <= k < t.len() - 1 implies crate::rat::rat_le_spec(
        (#[trigger] t[k]).scale,
        t[k + 1].scale,
    ) by {
        if k == 0 {
            assert(crate::rat::rat_le_spec(t[0].scale, t[1].scale));
        } else if k == 1 {
            assert(crate::rat::rat_le_spec(t[1].scale, t[2].scale));
        } else if k == 2 {
            assert(crate::rat::rat_le_spec(t[2].scale, t[3].scale));
        }
    }
    crate::algebra::lemma_tab_sorted_from_adjacent(t);
    assert forall|unit: MassUnit| t[#[trigger] unit.index_spec()] == (UnitScale {
        scale: unit.scale_spec(),
        tagged: unit.si_prefix_spec() is Some,
    }) by {
        if unit == MassUnit::Milligram {
            assert(t[0] == (UnitScale {
                scale: MassUnit::Milligram.scale_spec(),
                tagged: MassUnit::Milligram.si_prefix_spec() is Some,
            }));
        } else if unit == MassUnit::Gram {
            assert(t[1] == (UnitScale {
                scale: MassUnit::Gram.scale_spec(),
                tagged: MassUnit::Gram.si_prefix_spec() is Some,
            }));
        } else if unit == MassUnit::Kilogram {
            assert(t[2] == (UnitScale {
                scale: MassUnit::Kilogram.scale_spec(),
                tagged: MassUnit::Kilogram.si_prefix_spec() is Some,
            }));
        } else if unit == MassUnit::Tonne {
            assert(t[3] == (UnitScale {
                scale: MassUnit::Tonne.scale_spec(),
                tagged: MassUnit::Tonne.si_prefix_spec() is Some,
            }));
        }
    }
}

/// The quantity of matter in a physical body.
///
/// An amount together with one of the quantity's units.
#[derive(Clone, Copy, Debug, PartialEq, Eq, Structural)]
pub struct Mass {
    /// The amount.
    pub value: Rat,
    /// The unit the amount is expressed in.
    pub unit: MassUnit,
}

impl Mass {
    /// A new quantity value from an amount and a unit.
    pub fn new(value: Rat, unit: MassUnit) -> (q: Mass)
        ensures
            q.value == value,
            q.unit == unit,
    {
        Mass { value, unit }
    }

    /// The amount.
    pub fn value(&self) -> (r: Rat)
        ensures
            r == self.value,
    {
        self.value
    }

    /// The unit.
    pub fn unit(&self) -> (unit: MassUnit)
        ensures
            unit == self.unit,
    {
        self.unit
    }

    /// The same value expressed in the unit `to`: the amount is
    /// rescaled by the ratio of the two unit scales.
    pub fn convert(&self, to: MassUnit) -> (r: Option<Mass>)
        requires
            rat_wf(self.value),
        ensures
            r matches Some(q) ==> {
                &&& rat_wf(q.value)
                &&& q.unit == to
                &&& crate::algebra::is_scaled_of(
                    q.value,
                    self.value,
                    self.unit.scale_spec(),
                    to.scale_spec(),
                )
            },
            crate::algebra::scaled_in_range(self.value, self.unit.scale_spec(), to.scale_spec())
                ==> r is Some,
    {
        match crate::algebra::equiv_amount(&self.value, &self.unit.scale(), &to.scale()) {
            Some(v) => Some(Mass { value: v, unit: to }),
            None => None,
        }
    }

    /// The sum of the two values, expressed in `self`'s unit.
    pub fn add(&self, other: &Mass) -> (r: Option<Mass>)
        requires
            rat_wf(self.value),
            rat_wf(other.value),
        ensures
            r matches Some(q) ==> {
                &&& rat_wf(q.value)
                &&& q.unit == self.unit
                &&& crate::algebra::is_sum_in_left(
                    q.value,
                    self.value,
                    self.unit.scale_spec(),
                    other.value,
                    other.unit.scale_spec(),
                )
            },
            crate::algebra::combine_in_range(
                self.value,
                self.unit.scale_spec(),
                other.value,
                other.unit.scale_spec(),
            ) ==> r is Some,
    {
        match crate::algebra::add_qty(
            &self.value,
            &self.unit.scale(),
            &other.value,
            &other.unit.scale(),
        ) {
            Some(v) => Some(Mass { value: v, unit: self.unit }),
            None => None,
        }
    }

    /// The difference of the two values, expressed in `self`'s unit.
    pub fn sub(&self, other: &Mass) -> (r: Option<Mass>)
        requires
            rat_wf(self.value),
            rat_wf(other.value),
        ensures
            r matches Some(q) ==> {
                &&& rat_wf(q.value)
                &&& q.unit == self.unit
                &&& crate::algebra::is_diff_in_left(
                    q.value,
                    self.value,
                    self.unit.scale_spec(),
                    other.value,
                    other.unit.scale_spec(),
                )
            },
            crate::algebra::combine_in_range(
                self.value,
                self.unit.scale_spec(),
                other.value,
                other.unit.scale_spec(),
            ) ==> r is Some,
    {
        match crate::algebra::sub_qty(
            &self.value,
            &self.unit.scale(),
            &other.value,
            &other.unit.scale(),
        ) {
            Some(v) => Some(Mass { value: v, unit: self.unit }),
            None => None,
        }
    }

    /// The dimensionless ratio of the two values.
    pub fn div(&self, other: &Mass) -> (r: Option<Rat>)
        requires
            rat_wf(self.value),
            rat_wf(other.value),
        ensures
            r matches Some(v) ==> rat_wf(v) && crate::algebra::is_ratio_of(
                v,
                self.value,
                self.unit.scale_spec(),
                other.value,
                other.unit.scale_spec(),
            ),
            crate::algebra::ratio_in_range(
                self.value,
                self.unit.scale_spec(),
                other.value,
                other.unit.scale_spec(),
            ) ==> r is Some,
    {
        crate::algebra::div_qty(
            &self.value,
            &self.unit.scale(),
            &other.value,
            &other.unit.scale(),
        )
    }

    /// Exact equivalence of the two values, whatever their units.
    pub fn equivalent(&self, other: &Mass) -> (b: bool)
        requires
            rat_wf(self.value),
            rat_wf(other.value),
        ensures
            b == crate::algebra::qty_eq_spec(
                self.value,
                self.unit.scale_spec(),
                other.value,
                other.unit.scale_spec(),
            ),
    {
        let r = crate::algebra::cmp_qty(
            &self.value,
            &self.unit.scale(),
            &other.value,
            &other.unit.scale(),
        );
        match r {
            core::cmp::Ordering::Equal => true,
            _ => false,
        }
    }

    /// The best-fitting unit for a magnitude expressed in the
    /// reference unit, with the rescaled amount.
    pub fn fit(amount: Rat) -> (r: Option<Mass>)
        requires
            rat_wf(amount),
        ensures
            r matches Some(q) ==> {
                &&& rat_wf(q.value)
                &&& crate::algebra::is_fit_choice(
                    MassUnit::table_spec(),
                    false,
                    amount.num as int,
                    amount.den as int,
                    q.unit.index_spec(),
                )
                &&& crate::rat::is_quot_of(q.value, amount, q.unit.scale_spec())
            },
            (forall|k: int|
                0 <= k < MassUnit::table_spec().len()
                    ==> crate::rat::rat_abs(amount.num as int) * (#[trigger] MassUnit::table_spec()[k]).scale.den
                    <= crate::rat::RAT_BOUND && amount.den * MassUnit::table_spec()[k].scale.num
                    <= crate::rat::RAT_BOUND) ==> r is Some,
    {
        proof {
            mass_table_ok();
        }
        let t = MassUnit::table();
        let i = crate::algebra::fit_index(&t, false, amount.num, amount.den);
        let unit = MassUnit::from_index(i);
        proof {
            assert(t@[i as int] == MassUnit::table_spec()[unit.index_spec()]);
            if forall|k: int|
                0 <= k < MassUnit::table_spec().len()
                    ==> crate::rat::rat_abs(amount.num as int) * (#[trigger] MassUnit::table_spec()[k]).scale.den
                    <= crate::rat::RAT_BOUND && amount.den * MassUnit::table_spec()[k].scale.num
                    <= crate::rat::RAT_BOUND {
                crate::algebra::lemma_final_div_bounds(
                    amount,
                    t@[i as int].scale,
                    crate::rat::rat_abs(amount.num as int),
                    amount.den as int,
                );
            }
        }
        match amount.div(&unit.scale()) {
            Some(v) => Some(Mass { value: v, unit }),
            None => None,
        }
    }

    /// Renders the value as `amount symbol`.
    pub fn to_string(&self) -> (s: String)
        requires
            rat_wf(self.value),
        ensures
            self.unit.symbol_view().len() > 0 ==> s@ == crate::fmt::with_symbol_chars(
                self.value,
                self.unit.symbol_view(),
            ),
    {
        let sym = self.unit.symbol();
        amount_with_symbol(&self.value, sym.as_str())
    }
}


/// A fixed example quantity: 47 kilograms.
pub fn my_weight() -> (m: Mass)
    ensures
        m.value == (Rat { num: 47, den: 1 }),
        m.unit == MassUnit::Kilogram,
{
    Mass { value: Rat { num: 47, den: 1 }, unit: KILOGRAM }
}

impl MassUnit {
    /// The first unit in canonical order whose symbol is `s`, if any.
    pub open spec fn from_symbol_spec(s: Seq<char>) -> Option<MassUnit> {
        if s == "mg"@ {
            Some(MassUnit::Milligram)
        } else if s == "g"@ {
            Some(MassUnit::Gram)
        } else if s == "kg"@ {
            Some(MassUnit::Kilogram)
        } else if s == "t"@ {
            Some(MassUnit::Tonne)
        } else {
            None
        }
    }

    /// Looks a unit up by its printable symbol, scanning the canonical
    /// order; `None` when no unit uses the symbol.
    pub fn from_symbol(s: &str) -> (r: Option<MassUnit>)
        ensures
            r == MassUnit::from_symbol_spec(s@),
    {
        if crate::text::str_eq(s, "mg") {
            Some(MassUnit::Milligram)
        } else if crate::text::str_eq(s, "g") {
            Some(MassUnit::Gram)
        } else if crate::text::str_eq(s, "kg") {
            Some(MassUnit::Kilogram)
        } else if crate::text::str_eq(s, "t") {
            Some(MassUnit::Tonne)
        } else {
            None
        }
    }

    /// How many of `other` one `self` is: the exact ratio of the two
    /// unit scales.
    pub fn ratio(self, other: MassUnit) -> (r: Option<Rat>)
        ensures
            r is Some <==> crate::rat::quot_in_range(self.scale_spec(), other.scale_spec()),
            r matches Some(v) ==> rat_wf(v) && crate::rat::is_quot_of(
                v,
                self.scale_spec(),
                other.scale_spec(),
            ),
    {
        self.scale().div(&other.scale())
    }
}

impl Mass {
    /// The value multiplied by a bare amount; the unit is kept.
    pub fn scale_by(&self, k: &Rat) -> (r: Option<Mass>)
        requires
            rat_wf(self.value),
            rat_wf(*k),
        ensures
            r is Some <==> crate::rat::prod_in_range(self.value, *k),
            r matches Some(q) ==> {
                &&& rat_wf(q.value)
                &&& q.unit == self.unit
                &&& crate::rat::is_prod_of(q.value, self.value, *k)
            },
    {
        match self.value.mul(k) {
            Some(v) => Some(Mass { value: v, unit: self.unit }),
            None => None,
        }
    }

    /// The value divided by a bare amount; the unit is kept.
    pub fn div_by(&self, k: &Rat) -> (r: Option<Mass>)
        requires
            rat_wf(self.value),
            rat_wf(*k),
        ensures
            r is Some <==> crate::rat::quot_in_range(self.value, *k),
            r matches Some(q) ==> {
                &&& rat_wf(q.value)
                &&& q.unit == self.unit
                &&& crate::rat::is_quot_of(q.value, self.value, *k)
            },
    {
        match self.value.div(k) {
            Some(v) => Some(Mass { value: v, unit: self.unit }),
            None => None,
        }
    }

    /// Multiplies by a rate whose per side is a unit of this quantity:
    /// the value, divided by `per_unit_multiple` times the per unit and
    /// multiplied by `term_amount`, as an amount in the rate's term
    /// unit. The rescale goes through the rate's stored units.
    pub fn mul_rate<TU: Copy>(&self, rate: &crate::rate::Rate<TU, MassUnit>) -> (r: Option<
        (Rat, TU),
    >)
        requires
            rat_wf(self.value),
            rat_wf(rate.term_amount),
            rat_wf(rate.per_unit_multiple),
        ensures
            rate.per_unit_multiple.num == 0 ==> r is None,
            rate.per_unit_multiple.num != 0 && crate::rate::rate_in_range(
                self.value,
                self.unit.scale_spec(),
                rate.per_unit.scale_spec(),
                rate.per_unit_multiple,
                rate.term_amount,
            ) ==> r is Some,
            r matches Some(p) ==> {
                &&& rat_wf(p.0)
                &&& p.1 == rate.term_unit
                &&& rate.per_unit_multiple.num != 0
                &&& crate::rate::is_rate_apply(
                    p.0,
                    self.value,
                    self.unit.scale_spec(),
                    rate.per_unit.scale_spec(),
                    rate.per_unit_multiple,
                    rate.term_amount,
                )
            },
    {
        match crate::rate::rate_apply(
            &self.value,
            &self.unit.scale(),
            &rate.per_unit.scale(),
            &rate.per_unit_multiple,
            &rate.term_amount,
        ) {
            Some(v) => Some((v, rate.term_unit)),
            None => None,
        }
    }

    /// Divides by a rate whose term side is a unit of this quantity:
    /// the value, divided by `term_amount` times the term unit and
    /// multiplied by `per_unit_multiple`, as an amount in the rate's per
    /// unit. The rescale goes through the rate's stored units.
    pub fn div_rate<PU: Copy>(&self, rate: &crate::rate::Rate<MassUnit, PU>) -> (r: Option<
        (Rat, PU),
    >)
        requires
            rat_wf(self.value),
            rat_wf(rate.term_amount),
            rat_wf(rate.per_unit_multiple),
        ensures
            rate.term_amount.num == 0 ==> r is None,
            rate.term_amount.num != 0 && crate::rate::rate_in_range(
                self.value,
                self.unit.scale_spec(),
                rate.term_unit.scale_spec(),
                rate.term_amount,
                rate.per_unit_multiple,
            ) ==> r is Some,
            r matches Some(p) ==> {
                &&& rat_wf(p.0)
                &&& p.1 == rate.per_unit
                &&& rate.term_amount.num != 0
                &&& crate::rate::is_rate_apply(
                    p.0,
                    self.value,
                    self.unit.scale_spec(),
                    rate.term_unit.scale_spec(),
                    rate.term_amount,
                    rate.per_unit_multiple,
                )
            },
    {
        match crate::rate::rate_apply(
            &self.value,
            &self.unit.scale(),
            &rate.term_unit.scale(),
            &rate.term_amount,
            &rate.per_unit_multiple,
        ) {
            Some(v) => Some((v, rate.per_unit)),
            None => None,
        }
    }
}

/// Units are enumerated in ascending scale order: along the canonical
/// list, every unit's scale is at most any later unit's.
pub proof fn mass_units_ascending()
    ensures
        forall|i: int, j: int|
            0 <= i <= j < MassUnit::all_units_spec().len() ==> crate::rat::rat_le_spec(
                (#[trigger] MassUnit::all_units_spec()[i]).scale_spec(),
                (#[trigger] MassUnit::all_units_spec()[j]).scale_spec(),
            ),
{
    mass_table_ok();
    assert forall|i: int, j: int|
        0 <= i <= j < MassUnit::all_units_spec().len() implies crate::rat::rat_le_spec(
        (#[trigger] MassUnit::all_units_spec()[i]).scale_spec(),
        (#[trigger] MassUnit::all_units_spec()[j]).scale_spec(),
    ) by {
        let u = MassUnit::all_units_spec()[i];
        let v = MassUnit::all_units_spec()[j];
        assert(u.index_spec() == i && v.index_spec() == j);
        assert(MassUnit::table_spec()[i].scale == u.scale_spec());
        assert(MassUnit::table_spec()[j].scale == v.scale_spec());
        if i < j {
            assert(crate::rat::rat_le_spec(
                MassUnit::table_spec()[i].scale,
                MassUnit::table_spec()[j].scale,
            ));
        }
    }
}

} // verus!
