//! The quantity `Frequency` and its units.
//!
//! Number of occurrences of a repeating event per unit of time.
//! Reference unit: Hertz. Units are enumerated in ascending
//! scale order; the scales are exact rationals.

use vstd::prelude::*;

use crate::algebra::{
    considered, has_considered, unit_tab_wf, UnitScale,
};
use crate::fmt::amount_with_symbol;
use crate::prefix::SIPrefix;
use crate::rat::{rat_wf, Rat};

verus! {

/// Unit of quantity `Frequency`, in ascending scale order.
#[derive(Clone, Copy, Debug, PartialEq, Eq, Structural)]
pub enum FrequencyUnit {
    /// Hertz (`Hz`).
    Hertz,
    /// Kilohertz (`kHz`).
    Kilohertz,
    /// Megahertz (`MHz`).
    Megahertz,
    /// Gigahertz (`GHz`).
    Gigahertz,
}

/// The unit Hertz.
pub const HERTZ: FrequencyUnit = FrequencyUnit::Hertz;
/// The unit Kilohertz.
pub const KILOHERTZ: FrequencyUnit = FrequencyUnit::Kilohertz;
/// The unit Megahertz.
pub const MEGAHERTZ: FrequencyUnit = FrequencyUnit::Megahertz;
/// The unit Gigahertz.
pub const GIGAHERTZ: FrequencyUnit = FrequencyUnit::Gigahertz;

impl FrequencyUnit {
    /// Position in the canonical (ascending-scale) unit order.
    pub open spec fn index_spec(self) -> int {
        match self {
            FrequencyUnit::Hertz => 0,
            FrequencyUnit::Kilohertz => 1,
            FrequencyUnit::Megahertz => 2,
            FrequencyUnit::Gigahertz => 3,
        }
    }

    /// The unit's scale: its size expressed in the reference unit.
    pub open spec fn scale_spec(self) -> Rat {
        match self {
            FrequencyUnit::Hertz => Rat { num: 1, den: 1 },
            FrequencyUnit::Kilohertz => Rat { num: 1000, den: 1 },
            FrequencyUnit::Megahertz => Rat { num: 1000000, den: 1 },
            FrequencyUnit::Gigahertz => Rat { num: 1000000000, den: 1 },
        }
    }

    /// The unit's SI-prefix tag, if it carries one.
    pub open spec fn si_prefix_spec(self) -> Option<SIPrefix> {
        match self {
            FrequencyUnit::Hertz => Some(SIPrefix::NONE),
            FrequencyUnit::Kilohertz => Some(SIPrefix::KILO),
            FrequencyUnit::Megahertz => Some(SIPrefix::MEGA),
            FrequencyUnit::Gigahertz => Some(SIPrefix::GIGA),
        }
    }

    /// The unit's printable symbol, as characters.
    pub open spec fn symbol_view(self) -> Seq<char> {
        match self {
            FrequencyUnit::Hertz => "Hz"@,
            FrequencyUnit::Kilohertz => "kHz"@,
            FrequencyUnit::Megahertz => "MHz"@,
            FrequencyUnit::Gigahertz => "GHz"@,
        }
    }

    /// Position in the canonical unit order.
    pub fn index(self) -> (i: usize)
        ensures
            i == self.index_spec(),
    {
        match self {
            FrequencyUnit::Hertz => 0,
            FrequencyUnit::Kilohertz => 1,
            FrequencyUnit::Megahertz => 2,
            FrequencyUnit::Gigahertz => 3,
        }
    }

    /// The unit at the given position of the canonical order.
    pub fn from_index(i: usize) -> (unit: FrequencyUnit)
        requires
            i < 4,
        ensures
            unit.index_spec() == i,
    {
        if i == 0 {
            FrequencyUnit::Hertz
        } else if i == 1 {
            FrequencyUnit::Kilohertz
        } else if i == 2 {
            FrequencyUnit::Megahertz
        } else {
            FrequencyUnit::Gigahertz
        }
    }

    /// The unit's scale.
    pub fn scale(self) -> (r: Rat)
        ensures
            r == self.scale_spec(),
    {
        match self {
            FrequencyUnit::Hertz => Rat { num: 1, den: 1 },
            FrequencyUnit::Kilohertz => Rat { num: 1000, den: 1 },
            FrequencyUnit::Megahertz => Rat { num: 1000000, den: 1 },
            FrequencyUnit::Gigahertz => Rat { num: 1000000000, den: 1 },
        }
    }

    /// The unit's SI-prefix tag, if it carries one.
    pub fn si_prefix(self) -> (p: Option<SIPrefix>)
        ensures
            p == self.si_prefix_spec(),
    {
        match self {
            FrequencyUnit::Hertz => Some(SIPrefix::NONE),
            FrequencyUnit::Kilohertz => Some(SIPrefix::KILO),
            FrequencyUnit::Megahertz => Some(SIPrefix::MEGA),
            FrequencyUnit::Gigahertz => Some(SIPrefix::GIGA),
        }
    }

    /// The unit's printable symbol.
    pub fn symbol(self) -> (s: String)
        ensures
            s@ == self.symbol_view(),
    {
        match self {
            FrequencyUnit::Hertz => "Hz".to_owned(),
            FrequencyUnit::Kilohertz => "kHz".to_owned(),
            FrequencyUnit::Megahertz => "MHz".to_owned(),
            FrequencyUnit::Gigahertz => "GHz".to_owned(),
        }
    }

    /// The unit's display name, as characters.
    pub open spec fn name_view(self) -> Seq<char> {
        match self {
            FrequencyUnit::Hertz => "Hertz"@,
            FrequencyUnit::Kilohertz => "Kilohertz"@,
            FrequencyUnit::Megahertz => "Megahertz"@,
            FrequencyUnit::Gigahertz => "Gigahertz"@,
        }
    }

    /// The unit's display name.
    pub fn name(self) -> (s: String)
        ensures
            s@ == self.name_view(),
    {
        match self {
            FrequencyUnit::Hertz => "Hertz".to_owned(),
            FrequencyUnit::Kilohertz => "Kilohertz".to_owned(),
            FrequencyUnit::Megahertz => "Megahertz".to_owned(),
            FrequencyUnit::Gigahertz => "Gigahertz".to_owned(),
        }
    }

    /// The reference unit, of scale 1.
    pub fn ref_unit() -> (unit: FrequencyUnit)
        ensures
            unit == FrequencyUnit::Hertz,
    {
        FrequencyUnit::Hertz
    }

    /// All units, in canonical order.
    pub open spec fn all_units_spec() -> Seq<FrequencyUnit> {
        seq![FrequencyUnit::Hertz, FrequencyUnit::Kilohertz, FrequencyUnit::Megahertz, FrequencyUnit::Gigahertz]
    }

    /// All units, in canonical order.
    pub fn units() -> (v: Vec<FrequencyUnit>)
        ensures
            v@ == FrequencyUnit::all_units_spec(),
    {
        let v = vec![FrequencyUnit::Hertz, FrequencyUnit::Kilohertz, FrequencyUnit::Megahertz, FrequencyUnit::Gigahertz];
        proof {
            assert(v@ =~= FrequencyUnit::all_units_spec());
        }
        v
    }

    /// The runtime scale table of the quantity.
    pub open spec fn table_spec() -> Seq<UnitScale> {
        seq![
            UnitScale { scale: Rat { num: 1, den: 1 }, tagged: true },
            UnitScale { scale: Rat { num: 1000, den: 1 }, tagged: true },
            UnitScale { scale: Rat { num: 1000000, den: 1 }, tagged: true },
            UnitScale { scale: Rat { num: 1000000000, den: 1 }, tagged: true },
        ]
    }

    /// The runtime scale table of the quantity.
    pub fn table() -> (t: Vec<UnitScale>)
        ensures
            t@ == FrequencyUnit::table_spec(),
    {
        let t = vec![
            UnitScale { scale: Rat { num: 1, den: 1 }, tagged: true },
            UnitScale { scale: Rat { num: 1000, den: 1 }, tagged: true },
            UnitScale { scale: Rat { num: 1000000, den: 1 }, tagged: true },
            UnitScale { scale: Rat { num: 1000000000, den: 1 }, tagged: true },
        ];
        proof {
            assert(t@ =~= FrequencyUnit::table_spec());
        }
        t
    }
}

/// The scale table is sound: nonempty, usable, ascending, with a
/// considered unit, and each unit's entry carries its own scale and tag.
pub proof fn frequency_table_ok()
    ensures
        unit_tab_wf(FrequencyUnit::table_spec()),
        has_considered(FrequencyUnit::table_spec(), false),
        forall|unit: FrequencyUnit|
            FrequencyUnit::table_spec()[#[trigger] unit.index_spec()] == (UnitScale {
                scale: unit.scale_spec(),
                tagged: unit.si_prefix_spec() is Some,
            }),
{
    let t = FrequencyUnit::table_spec();
    assert(t.len() == 4);
    assert(considered(t, 0, false));
    assert forall|k: int| 0 <= k < t.len() implies crate::schema::scale_ok(
        (#[trigger] t[k]).scale,
    ) by {
        if k == 0 {
            assert(crate::schema::scale_ok(t[0].scale));
        } else if k == 1 {
            assert(crate::schema::scale_ok(t[1].scale));
        } else if k == 2 {
            assert(crate::schema::scale_ok(t[2].scale));
        } else if k == 3 {
            assert(crate::schema::scale_ok(t[3].scale));
        }
    }
    assert forall|k: int| 0 <= k < t.len() - 1 implies crate::rat::rat_le_spec(
        (#[trigger] t[k]).scale,
        t[k + 1].scale,
    ) by {
        if k == 0 {
            assert(crate::rat::rat_le_spec(t[0].scale, t[1].scale));
        } else if k == 1 {
            assert(crate::rat::rat_le_spec(t[1].scale, t[2].scale));
        } else if k == 2 {
            assert(crate::rat::rat_le_spec(t[2].scale, t[3].scale));
        }
    }
    crate::algebra::lemma_tab_sorted_from_adjacent(t);
    assert forall|unit: FrequencyUnit| t[#[trigger] unit.index_spec()] == (UnitScale {
        scale: unit.scale_spec(),
        tagged: unit.si_prefix_spec() is Some,
    }) by {
        if unit == FrequencyUnit::Hertz {
            assert(t[0] == (UnitScale {
                scale: FrequencyUnit::Hertz.scale_spec(),
                tagged: FrequencyUnit::Hertz.si_prefix_spec() is Some,
            }));
        } else if unit == FrequencyUnit::Kilohertz {
            assert(t[1] == (UnitScale {
                scale: FrequencyUnit::Kilohertz.scale_spec(),
                tagged: FrequencyUnit::Kilohertz.si_prefix_spec() is Some,
            }));
        } else if unit == FrequencyUnit::Megahertz {
            assert(t[2] == (UnitScale {
                scale: FrequencyUnit::Megahertz.scale_spec(),
                tagged: FrequencyUnit::Megahertz.si_prefix_spec() is Some,
            }));
        } else if unit == FrequencyUnit::Gigahertz {
            assert(t[3] == (UnitScale {
                scale: FrequencyUnit::Gigahertz.scale_spec(),
                tagged: FrequencyUnit::Gigahertz.si_prefix_spec() is Some,
            }));
        }
    }
}

/// Number of occurrences of a repeating event per unit of time.
///
/// An amount together with one of the quantity's units.
#[derive(Clone, Copy, Debug, PartialEq, Eq, Structural)]
pub struct Frequency {
    /// The amount.
    pub value: Rat,
    /// The unit the amount is expressed in.
    pub unit: FrequencyUnit,
}

impl Frequency {
    /// A new quantity value from an amount and a unit.
    pub fn new(value: Rat, unit: FrequencyUnit) -> (q: Frequency)
        ensures
            q.value == value,
            q.unit == unit,
    {
        Frequency { value, unit }
    }

    /// The amount.
    pub fn value(&self) -> (r: Rat)
        ensures
            r == self.value,
    {
        self.value
    }

    /// The unit.
    pub fn unit(&self) -> (unit: FrequencyUnit)
        ensures
            unit == self.unit,
    {
        self.unit
    }

    /// The same value expressed in the unit `to`: the amount is
    /// rescaled by the ratio of the two unit scales.
    pub fn convert(&self, to: FrequencyUnit) -> (r: Option<Frequency>)
        requires
            rat_wf(self.value),
        ensures
            r matches Some(q) ==> {
                &&& rat_wf(q.value)
                &&& q.unit == to
                &&& crate::algebra::is_scaled_of(
                    q.value,
                    self.value,
                    self.unit.scale_spec(),
                    to.scale_spec(),
                )
            },
            crate::algebra::scaled_in_range(self.value, self.unit.scale_spec(), to.scale_spec())
                ==> r is Some,
    {
        match crate::algebra::equiv_amount(&self.value, &self.unit.scale(), &to.scale()) {
            Some(v) => Some(Frequency { value: v, unit: to }),
            None => None,
        }
    }

    /// The sum of the two values, expressed in `self`'s unit.
    pub fn add(&self, other: &Frequency) -> (r: Option<Frequency>)
        requires
            rat_wf(self.value),
            rat_wf(other.value),
        ensures
            r matches Some(q) ==> {
                &&& rat_wf(q.value)
                &&& q.unit == self.unit
                &&& crate::algebra::is_sum_in_left(
                    q.value,
                    self.value,
                    self.unit.scale_spec(),
                    other.value,
                    other.unit.scale_spec(),
                )
            },
            crate::algebra::combine_in_range(
                self.value,
                self.unit.scale_spec(),
                other.value,
                other.unit.scale_spec(),
            ) ==> r is Some,
    {
        match crate::algebra::add_qty(
            &self.value,
            &self.unit.scale(),
            &other.value,
            &other.unit.scale(),
        ) {
            Some(v) => Some(Frequency { value: v, unit: self.unit }),
            None => None,
        }
    }

    /// The difference of the two values, expressed in `self`'s unit.
    pub fn sub(&self, other: &Frequency) -> (r: Option<Frequency>)
        requires
            rat_wf(self.value),
            rat_wf(other.value),
        ensures
            r matches Some(q) ==> {
                &&& rat_wf(q.value)
                &&& q.unit == self.unit
                &&& crate::algebra::is_diff_in_left(
                    q.value,
                    self.value,
                    self.unit.scale_spec(),
                    other.value,
                    other.unit.scale_spec(),
                )
            },
            crate::algebra::combine_in_range(
                self.value,
                self.unit.scale_spec(),
                other.value,
                other.unit.scale_spec(),
            ) ==> r is Some,
    {
        match crate::algebra::sub_qty(
            &self.value,
            &self.unit.scale(),
            &other.value,
            &other.unit.scale(),
        ) {
            Some(v) => Some(Frequency { value: v, unit: self.unit }),
            None => None,
        }
    }

    /// The dimensionless ratio of the two values.
    pub fn div(&self, other: &Frequency) -> (r: Option<Rat>)
        requires
            rat_wf(self.value),
            rat_wf(other.value),
        ensures
            r matches Some(v) ==> rat_wf(v) && crate::algebra::is_ratio_of(
                v,
                self.value,
                self.unit.scale_spec(),
                other.value,
                other.unit.scale_spec(),
            ),
            crate::algebra::ratio_in_range(
                self.value,
                self.unit.scale_spec(),
                other.value,
                other.unit.scale_spec(),
            ) ==> r is Some,
    {
        crate::algebra::div_qty(
            &self.value,
            &self.unit.scale(),
            &other.value,
            &other.unit.scale(),
        )
    }

    /// Exact equivalence of the two values, whatever their units.
    pub fn equivalent(&self, other: &Frequency) -> (b: bool)
        requires
            rat_wf(self.value),
            rat_wf(other.value),
        ensures
            b == crate::algebra::qty_eq_spec(
                self.value,
                self.unit.scale_spec(),
                other.value,
                other.unit.scale_spec(),
            ),
    {
        let r = crate::algebra::cmp_qty(
            &self.value,
            &self.unit.scale(),
            &other.value,
            &other.unit.scale(),
        );
        match r {
            core::cmp::Ordering::Equal => true,
            _ => false,
        }
    }

    /// The best-fitting unit for a magnitude expressed in the
    /// reference unit, with the rescaled amount.
    pub fn fit(amount: Rat) -> (r: Option<Frequency>)
        requires
            rat_wf(amount),
        ensures
            r matches Some(q) ==> {
                &&& rat_wf(q.value)
                &&& crate::algebra::is_fit_choice(
                    FrequencyUnit::table_spec(),
                    false,
                    amount.num as int,
                    amount.den as int,
                    q.unit.index_spec(),
                )
                &&& crate::rat::is_quot_of(q.value, amount, q.unit.scale_spec())
            },
            (forall|k: int|
                0 <= k < FrequencyUnit::table_spec().len()
                    ==> crate::rat::rat_abs(amount.num as int) * (#[trigger] FrequencyUnit::table_spec()[k]).scale.den
                    <= crate::rat::RAT_BOUND && amount.den * FrequencyUnit::table_spec()[k].scale.num
                    <= crate::rat::RAT_BOUND) ==> r is Some,
    {
        proof {
            frequency_table_ok();
        }
        let t = FrequencyUnit::table();
        let i = crate::algebra::fit_index(&t, false, amount.num, amount.den);
        let unit = FrequencyUnit::from_index(i);
        proof {
            assert(t@[i as int] == FrequencyUnit::table_spec()[unit.index_spec()]);
            if forall|k: int|
                0 <= k < FrequencyUnit::table_spec().len()
                    ==> crate::rat::rat_abs(amount.num as int) * (#[trigger] FrequencyUnit::table_spec()[k]).scale.den
                    <= crate::rat::RAT_BOUND && amount.den * FrequencyUnit::table_spec()[k].scale.num
                    <= crate::rat::RAT_BOUND {
                crate::algebra::lemma_final_div_bounds(
                    amount,
                    t@[i as int].scale,
                    crate::rat::rat_abs(amount.num as int),
                    amount.den as int,
                );
            }
        }
        match amount.div(&unit.scale()) {
            Some(v) => Some(Frequency { value: v, unit }),
            None => None,
        }
    }

    /// Renders the value as `amount symbol`.
    pub fn to_string(&self) -> (s: String)
        requires
            rat_wf(self.value),
        ensures
            self.unit.symbol_view().len() > 0 ==> s@ == crate::fmt::with_symbol_chars(
                self.value,
                self.unit.symbol_view(),
            ),
    {
        let sym = self.unit.symbol();
        amount_with_symbol(&self.value, sym.as_str())
    }
}


/// The number of events per time: a dimensionless count divided by a
/// duration yields a frequency, in the unit whose scale is exactly the
/// reciprocal of the duration unit's scale, or in the best-fitting unit.
pub fn amount_div_time(amount: &Rat, t: &crate::time::Time) -> (r: Option<Frequency>)
    requires
        rat_wf(*amount),
        rat_wf(t.value),
    ensures
        r matches Some(q) ==> {
            &&& rat_wf(q.value)
            &&& crate::algebra::is_quot_result(
                q.value,
                q.unit.scale_spec(),
                *amount,
                Rat { num: 1, den: 1 },
                t.value,
                t.unit.scale_spec(),
            )
            &&& match crate::algebra::lookup_spec(
                FrequencyUnit::table_spec(),
                1 * t.unit.scale_spec().den,
                1 * t.unit.scale_spec().num,
            ) {
                Some(j) => q.unit.index_spec() == j,
                None => crate::algebra::is_fit_choice(
                    FrequencyUnit::table_spec(),
                    false,
                    crate::algebra::quot_num(
                        *amount,
                        Rat { num: 1, den: 1 },
                        t.value,
                        t.unit.scale_spec(),
                    ),
                    crate::algebra::quot_den(
                        *amount,
                        Rat { num: 1, den: 1 },
                        t.value,
                        t.unit.scale_spec(),
                    ),
                    q.unit.index_spec(),
                ),
            }
        },
        crate::algebra::div_in_range(
            *amount,
            Rat { num: 1, den: 1 },
            t.value,
            t.unit.scale_spec(),
            FrequencyUnit::table_spec(),
        ) ==> r is Some,
{
    proof {
        frequency_table_ok();
    }
    let t_tab = FrequencyUnit::table();
    let one = Rat { num: 1, den: 1 };
    match crate::algebra::qty_div(amount, &one, &t.value, &t.unit.scale(), &t_tab, false) {
        Some((am, i)) => {
            let unit = FrequencyUnit::from_index(i);
            proof {
                assert(t_tab@[i as int] == FrequencyUnit::table_spec()[unit.index_spec()]);
            }
            Some(Frequency { value: am, unit })
        },
        None => None,
    }
}

impl FrequencyUnit {
    /// The first unit in canonical order whose symbol is `s`, if any.
    pub open spec fn from_symbol_spec(s: Seq<char>) -> Option<FrequencyUnit> {
        if s == "Hz"@ {
            Some(FrequencyUnit::Hertz)
        } else if s == "kHz"@ {
            Some(FrequencyUnit::Kilohertz)
        } else if s == "MHz"@ {
            Some(FrequencyUnit::Megahertz)
        } else if s == "GHz"@ {
            Some(FrequencyUnit::Gigahertz)
        } else {
            None
        }
    }

    /// Looks a unit up by its printable symbol, scanning the canonical
    /// order; `None` when no unit uses the symbol.
    pub fn from_symbol(s: &str) -> (r: Option<FrequencyUnit>)
        ensures
            r == FrequencyUnit::from_symbol_spec(s@),
    {
        if crate::text::str_eq(s, "Hz") {
            Some(FrequencyUnit::Hertz)
        } else if crate::text::str_eq(s, "kHz") {
            Some(FrequencyUnit::Kilohertz)
        } else if crate::text::str_eq(s, "MHz") {
            Some(FrequencyUnit::Megahertz)
        } else if crate::text::str_eq(s, "GHz") {
            Some(FrequencyUnit::Gigahertz)
        } else {
            None
        }
    }

    /// How many of `other` one `self` is: the exact ratio of the two
    /// unit scales.
    pub fn ratio(self, other: FrequencyUnit) -> (r: Option<Rat>)
        ensures
            r is Some <==> crate::rat::quot_in_range(self.scale_spec(), other.scale_spec()),
            r matches Some(v) ==> rat_wf(v) && crate::rat::is_quot_of(
                v,
                self.scale_spec(),
                other.scale_spec(),
            ),
    {
        self.scale().div(&other.scale())
    }
}

impl Frequency {
    /// The value multiplied by a bare amount; the unit is kept.
    pub fn scale_by(&self, k: &Rat) -> (r: Option<Frequency>)
        requires
            rat_wf(self.value),
            rat_wf(*k),
        ensures
            r is Some <==> crate::rat::prod_in_range(self.value, *k),
            r matches Some(q) ==> {
                &&& rat_wf(q.value)
                &&& q.unit == self.unit
                &&& crate::rat::is_prod_of(q.value, self.value, *k)
            },
    {
        match self.value.mul(k) {
            Some(v) => Some(Frequency { value: v, unit: self.unit }),
            None => None,
        }
    }

    /// The value divided by a bare amount; the unit is kept.
    pub fn div_by(&self, k: &Rat) -> (r: Option<Frequency>)
        requires
            rat_wf(self.value),
            rat_wf(*k),
        ensures
            r is Some <==> crate::rat::quot_in_range(self.value, *k),
            r matches Some(q) ==> {
                &&& rat_wf(q.value)
                &&& q.unit == self.unit
                &&& crate::rat::is_quot_of(q.value, self.value, *k)
            },
    {
        match self.value.div(k) {
            Some(v) => Some(Frequency { value: v, unit: self.unit }),
            None => None,
        }
    }

    /// Multiplies by a rate whose per side is a unit of this quantity:
    /// the value, divided by `per_unit_multiple` times the per unit and
    /// multiplied by `term_amount`, as an amount in the rate's term
    /// unit. The rescale goes through the rate's stored units.
    pub fn mul_rate<TU: Copy>(&self, rate: &crate::rate::Rate<TU, FrequencyUnit>) -> (r: Option<
        (Rat, TU),
    >)
        requires
            rat_wf(self.value),
            rat_wf(rate.term_amount),
            rat_wf(rate.per_unit_multiple),
        ensures
            rate.per_unit_multiple.num == 0 ==> r is None,
            rate.per_unit_multiple.num != 0 && crate::rate::rate_in_range(
                self.value,
                self.unit.scale_spec(),
                rate.per_unit.scale_spec(),
                rate.per_unit_multiple,
                rate.term_amount,
            ) ==> r is Some,
            r matches Some(p) ==> {
                &&& rat_wf(p.0)
                &&& p.1 == rate.term_unit
                &&& rate.per_unit_multiple.num != 0
                &&& crate::rate::is_rate_apply(
                    p.0,
                    self.value,
                    self.unit.scale_spec(),
                    rate.per_unit.scale_spec(),
                    rate.per_unit_multiple,
                    rate.term_amount,
                )
            },
    {
        match crate::rate::rate_apply(
            &self.value,
            &self.unit.scale(),
            &rate.per_unit.scale(),
            &rate.per_unit_multiple,
            &rate.term_amount,
        ) {
            Some(v) => Some((v, rate.term_unit)),
            None => None,
        }
    }

    /// Divides by a rate whose term side is a unit of this quantity:
    /// the value, divided by `term_amount` times the term unit and
    /// multiplied by `per_unit_multiple`, as an amount in the rate's per
    /// unit. The rescale goes through the rate's stored units.
    pub fn div_rate<PU: Copy>(&self, rate: &crate::rate::Rate<FrequencyUnit, PU>) -> (r: Option<
        (Rat, PU),
    >)
        requires
            rat_wf(self.value),
            rat_wf(rate.term_amount),
            rat_wf(rate.per_unit_multiple),
        ensures
            rate.term_amount.num == 0 ==> r is None,
            rate.term_amount.num != 0 && crate::rate::rate_in_range(
                self.value,
                self.unit.scale_spec(),
                rate.term_unit.scale_spec(),
                rate.term_amount,
                rate.per_unit_multiple,
            ) ==> r is Some,
            r matches Some(p) ==> {
                &&& rat_wf(p.0)
                &&& p.1 == rate.per_unit
                &&& rate.term_amount.num != 0
                &&& crate::rate::is_rate_apply(
                    p.0,
                    self.value,
                    self.unit.scale_spec(),
                    rate.term_unit.scale_spec(),
                    rate.term_amount,
                    rate.per_unit_multiple,
                )
            },
    {
        match crate::rate::rate_apply(
            &self.value,
            &self.unit.scale(),
            &rate.term_unit.scale(),
            &rate.term_amount,
            &rate.per_unit_multiple,
        ) {
            Some(v) => Some((v, rate.per_unit)),
            None => None,
        }
    }
}

/// Units are enumerated in ascending scale order: along the canonical
/// list, every unit's scale is at most any later unit's.
pub proof fn frequency_units_ascending()
    ensures
        forall|i: int, j: int|
            0 <= i <= j < FrequencyUnit::all_units_spec().len() ==> crate::rat::rat_le_spec(
                (#[trigger] FrequencyUnit::all_units_spec()[i]).scale_spec(),
                (#[trigger] FrequencyUnit::all_units_spec()[j]).scale_spec(),
            ),
{
    frequency_table_ok();
    assert forall|i: int, j: int|
        0 <= i <= j < FrequencyUnit::all_units_spec().len() implies crate::rat::rat_le_spec(
        (#[trigger] FrequencyUnit::all_units_spec()[i]).scale_spec(),
        (#[trigger] FrequencyUnit::all_units_spec()[j]).scale_spec(),
    ) by {
        let u = FrequencyUnit::all_units_spec()[i];
        let v = FrequencyUnit::all_units_spec()[j];
        assert(u.index_spec() == i && v.index_spec() == j);
        assert(FrequencyUnit::table_spec()[i].scale == u.scale_spec());
        assert(FrequencyUnit::table_spec()[j].scale == v.scale_spec());
        if i < j {
            assert(crate::rat::rat_le_spec(
                FrequencyUnit::table_spec()[i].scale,
                FrequencyUnit::table_spec()[j].scale,
            ));
        }
    }
}

} // verus!
