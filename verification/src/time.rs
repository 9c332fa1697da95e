//! The quantity `Time` and its units.
//!
//! The quantity of duration between two events.
//! Reference unit: Second. Units are enumerated in ascending
//! scale order; the scales are exact rationals.

use vstd::prelude::*;

use crate::algebra::{
    considered, has_considered, unit_tab_wf, UnitScale,
};
use crate::fmt::amount_with_symbol;
use crate::prefix::SIPrefix;
use crate::rat::{rat_wf, Rat};

verus! {

/// Unit of quantity `Time`, in ascending scale order.
#[derive(Clone, Copy, Debug, PartialEq, Eq, Structural)]
pub enum TimeUnit {
    /// Nanosecond (`ns`).
    Nanosecond,
    /// Microsecond (`µs`).
    Microsecond,
    /// Millisecond (`ms`).
    Millisecond,
    /// Second (`s`).
    Second,
    /// Minute (`min`).
    Minute,
    /// Hour (`h`).
    Hour,
    /// Day (`d`).
    Day,
}

/// The unit Nanosecond.
pub const NANOSECOND: TimeUnit = TimeUnit::Nanosecond;
/// The unit Microsecond.
pub const MICROSECOND: TimeUnit = TimeUnit::Microsecond;
/// The unit Millisecond.
pub const MILLISECOND: TimeUnit = TimeUnit::Millisecond;
/// The unit Second.
pub const SECOND: TimeUnit = TimeUnit::Second;
/// The unit Minute.
pub const MINUTE: TimeUnit = TimeUnit::Minute;
/// The unit Hour.
pub const HOUR: TimeUnit = TimeUnit::Hour;
/// The unit Day.
pub const DAY: TimeUnit = TimeUnit::Day;

impl TimeUnit {
    /// Position in the canonical (ascending-scale) unit order.
    pub open spec fn index_spec(self) -> int {
        match self {
            TimeUnit::Nanosecond => 0,
            TimeUnit::Microsecond => 1,
            TimeUnit::Millisecond => 2,
            TimeUnit::Second => 3,
            TimeUnit::Minute => 4,
            TimeUnit::Hour => 5,
            TimeUnit::Day => 6,
        }
    }

    /// The unit's scale: its size expressed in the reference unit.
    pub open spec fn scale_spec(self) -> Rat {
        match self {
            TimeUnit::Nanosecond => Rat { num: 1, den: 1000000000 },
            TimeUnit::Microsecond => Rat { num: 1, den: 1000000 },
            TimeUnit::Millisecond => Rat { num: 1, den: 1000 },
            TimeUnit::Second => Rat { num: 1, den: 1 },
            TimeUnit::Minute => Rat { num: 60, den: 1 },
            TimeUnit::Hour => Rat { num: 3600, den: 1 },
            TimeUnit::Day => Rat { num: 86400, den: 1 },
        }
    }

    /// The unit's SI-prefix tag, if it carries one.
    pub open spec fn si_prefix_spec(self) -> Option<SIPrefix> {
        match self {
            TimeUnit::Nanosecond => Some(SIPrefix::NANO),
            TimeUnit::Microsecond => Some(SIPrefix::MICRO),
            TimeUnit::Millisecond => Some(SIPrefix::MILLI),
            TimeUnit::Second => Some(SIPrefix::NONE),
            TimeUnit::Minute => None,
            TimeUnit::Hour => None,
            TimeUnit::Day => None,
        }
    }

    /// The unit's printable symbol, as characters.
    pub open spec fn symbol_view(self) -> Seq<char> {
        match self {
            TimeUnit::Nanosecond => "ns"@,
            TimeUnit::Microsecond => "µs"@,
            TimeUnit::Millisecond => "ms"@,
            TimeUnit::Second => "s"@,
            TimeUnit::Minute => "min"@,
            TimeUnit::Hour => "h"@,
            TimeUnit::Day => "d"@,
        }
    }

    /// Position in the canonical unit order.
    pub fn index(self) -> (i: usize)
        ensures
            i == self.index_spec(),
    {
        match self {
            TimeUnit::Nanosecond => 0,
            TimeUnit::Microsecond => 1,
            TimeUnit::Millisecond => 2,
            TimeUnit::Second => 3,
            TimeUnit::Minute => 4,
            TimeUnit::Hour => 5,
            TimeUnit::Day => 6,
        }
    }

    /// The unit at the given position of the canonical order.
    pub fn from_index(i: usize) -> (unit: TimeUnit)
        requires
            i < 7,
        ensures
            unit.index_spec() == i,
    {
        if i == 0 {
            TimeUnit::Nanosecond
        } else if i == 1 {
            TimeUnit::Microsecond
        } else if i == 2 {
            TimeUnit::Millisecond
        } else if i == 3 {
            TimeUnit::Second
        } else if i == 4 {
            TimeUnit::Minute
        } else if i == 5 {
            TimeUnit::Hour
        } else {
            TimeUnit::Day
        }
    }

    /// The unit's scale.
    pub fn scale(self) -> (r: Rat)
        ensures
            r == self.scale_spec(),
    {
        match self {
            TimeUnit::Nanosecond => Rat { num: 1, den: 1000000000 },
            TimeUnit::Microsecond => Rat { num: 1, den: 1000000 },
            TimeUnit::Millisecond => Rat { num: 1, den: 1000 },
            TimeUnit::Second => Rat { num: 1, den: 1 },
            TimeUnit::Minute => Rat { num: 60, den: 1 },
            TimeUnit::Hour => Rat { num: 3600, den: 1 },
            TimeUnit::Day => Rat { num: 86400, den: 1 },
        }
    }

    /// The unit's SI-prefix tag, if it carries one.
    pub fn si_prefix(self) -> (p: Option<SIPrefix>)
        ensures
            p == self.si_prefix_spec(),
    {
        match self {
            TimeUnit::Nanosecond => Some(SIPrefix::NANO),
            TimeUnit::Microsecond => Some(SIPrefix::MICRO),
            TimeUnit::Millisecond => Some(SIPrefix::MILLI),
            TimeUnit::Second => Some(SIPrefix::NONE),
            TimeUnit::Minute => None,
            TimeUnit::Hour => None,
            TimeUnit::Day => None,
        }
    }

    /// The unit's printable symbol.
    pub fn symbol(self) -> (s: String)
        ensures
            s@ == self.symbol_view(),
    {
        match self {
            TimeUnit::Nanosecond => "ns".to_owned(),
            TimeUnit::Microsecond => "µs".to_owned(),
            TimeUnit::Millisecond => "ms".to_owned(),
            TimeUnit::Second => "s".to_owned(),
            TimeUnit::Minute => "min".to_owned(),
            TimeUnit::Hour => "h".to_owned(),
            TimeUnit::Day => "d".to_owned(),
        }
    }

    /// The unit's display name, as characters.
    pub open spec fn name_view(self) -> Seq<char> {
        match self {
            TimeUnit::Nanosecond => "Nanosecond"@,
            TimeUnit::Microsecond => "Microsecond"@,
            TimeUnit::Millisecond => "Millisecond"@,
            TimeUnit::Second => "Second"@,
            TimeUnit::Minute => "Minute"@,
            TimeUnit::Hour => "Hour"@,
            TimeUnit::Day => "Day"@,
        }
    }

    /// The unit's display name.
    pub fn name(self) -> (s: String)
        ensures
            s@ == self.name_view(),
    {
        match self {
            TimeUnit::Nanosecond => "Nanosecond".to_owned(),
            TimeUnit::Microsecond => "Microsecond".to_owned(),
            TimeUnit::Millisecond => "Millisecond".to_owned(),
            TimeUnit::Second => "Second".to_owned(),
            TimeUnit::Minute => "Minute".to_owned(),
            TimeUnit::Hour => "Hour".to_owned(),
            TimeUnit::Day => "Day".to_owned(),
        }
    }

    /// The reference unit, of scale 1.
    pub fn ref_unit() -> (unit: TimeUnit)
        ensures
            unit == TimeUnit::Second,
    {
        TimeUnit::Second
    }

    /// All units, in canonical order.
    pub open spec fn all_units_spec() -> Seq<TimeUnit> {
        seq![TimeUnit::Nanosecond, TimeUnit::Microsecond, TimeUnit::Millisecond, TimeUnit::Second, TimeUnit::Minute, TimeUnit::Hour, TimeUnit::Day]
    }

    /// All units, in canonical order.
    pub fn units() -> (v: Vec<TimeUnit>)
        ensures
            v@ == TimeUnit::all_units_spec(),
    {
        let v = vec![TimeUnit::Nanosecond, TimeUnit::Microsecond, TimeUnit::Millisecond, TimeUnit::Second, TimeUnit::Minute, TimeUnit::Hour, TimeUnit::Day];
        proof {
            assert(v@ =~= TimeUnit::all_units_spec());
        }
        v
    }

    /// The runtime scale table of the quantity.
    pub open spec fn table_spec() -> Seq<UnitScale> {
        seq![
            UnitScale { scale: Rat { num: 1, den: 1000000000 }, tagged: true },
            UnitScale { scale: Rat { num: 1, den: 1000000 }, tagged: true },
            UnitScale { scale: Rat { num: 1, den: 1000 }, tagged: true },
            UnitScale { scale: Rat { num: 1, den: 1 }, tagged: true },
            UnitScale { scale: Rat { num: 60, den: 1 }, tagged: false },
            UnitScale { scale: Rat { num: 3600, den: 1 }, tagged: false },
            UnitScale { scale: Rat { num: 86400, den: 1 }, tagged: false },
        ]
    }

    /// The runtime scale table of the quantity.
    pub fn table() -> (t: Vec<UnitScale>)
        ensures
            t@ == TimeUnit::table_spec(),
    {
        let t = vec![
            UnitScale { scale: Rat { num: 1, den: 1000000000 }, tagged: true },
            UnitScale { scale: Rat { num: 1, den: 1000000 }, tagged: true },
            UnitScale { scale: Rat { num: 1, den: 1000 }, tagged: true },
            UnitScale { scale: Rat { num: 1, den: 1 }, tagged: true },
            UnitScale { scale: Rat { num: 60, den: 1 }, tagged: false },
            UnitScale { scale: Rat { num: 3600, den: 1 }, tagged: false },
            UnitScale { scale: Rat { num: 86400, den: 1 }, tagged: false },
        ];
        proof {
            assert(t@ =~= TimeUnit::table_spec());
        }
        t
    }
}

/// The scale table is sound: nonempty, usable, ascending, with a
/// considered unit, and each unit's entry carries its own scale and tag.
pub proof fn time_table_ok()
    ensures
        unit_tab_wf(TimeUnit::table_spec()),
        has_considered(TimeUnit::table_spec(), false),
        forall|unit: TimeUnit|
            TimeUnit::table_spec()[#[trigger] unit.index_spec()] == (UnitScale {
                scale: unit.scale_spec(),
                tagged: unit.si_prefix_spec() is Some,
            }),
{
    let t = TimeUnit::table_spec();
    assert(t.len() == 7);
    assert(considered(t, 3, false));
    assert forall|k: int| 0 <= k < t.len() implies crate::schema::scale_ok(
        (#[trigger] t[k]).scale,
    ) by {
        if k == 0 {
            assert(crate::schema::scale_ok(t[0].scale));
        } else if k == 1 {
            assert(crate::schema::scale_ok(t[1].scale));
        } else if k == 2 {
            assert(crate::schema::scale_ok(t[2].scale));
        } else if k == 3 {
            assert(crate::schema::scale_ok(t[3].scale));
        } else if k == 4 {
            assert(crate::schema::scale_ok(t[4].scale));
        } else if k == 5 {
            assert(crate::schema::scale_ok(t[5].scale));
        } else if k == 6 {
            assert(crate::schema::scale_ok(t[6].scale));
        }
    }
    assert forall|k: int| 0 <= k < t.len() - 1 implies crate::rat::rat_le_spec(
        (#[trigger] t[k]).scale,
        t[k + 1].scale,
    ) by {
        if k == 0 {
            assert(crate::rat::rat_le_spec(t[0].scale, t[1].scale));
        } else if k == 1 {
            assert(crate::rat::rat_le_spec(t[1].scale, t[2].scale));
        } else if k == 2 {
            assert(crate::rat::rat_le_spec(t[2].scale, t[3].scale));
        } else if k == 3 {
            assert(crate::rat::rat_le_spec(t[3].scale, t[4].scale));
        } else if k == 4 {
            assert(crate::rat::rat_le_spec(t[4].scale, t[5].scale));
        } else if k == 5 {
            assert(crate::rat::rat_le_spec(t[5].scale, t[6].scale));
        }
    }
    crate::algebra::lemma_tab_sorted_from_adjacent(t);
    assert forall|unit: TimeUnit| t[#[trigger] unit.index_spec()] == (UnitScale {
        scale: unit.scale_spec(),
        tagged: unit.si_prefix_spec() is Some,
    }) by {
        if unit == TimeUnit::Nanosecond {
            assert(t[0] == (UnitScale {
                scale: TimeUnit::Nanosecond.scale_spec(),
                tagged: TimeUnit::Nanosecond.si_prefix_spec() is Some,
            }));
        } else if unit == TimeUnit::Microsecond {
            assert(t[1] == (UnitScale {
                scale: TimeUnit::Microsecond.scale_spec(),
                tagged: TimeUnit::Microsecond.si_prefix_spec() is Some,
            }));
        } else if unit == TimeUnit::Millisecond {
            assert(t[2] == (UnitScale {
                scale: TimeUnit::Millisecond.scale_spec(),
                tagged: TimeUnit::Millisecond.si_prefix_spec() is Some,
            }));
        } else if unit == TimeUnit::Second {
            assert(t[3] == (UnitScale {
                scale: TimeUnit::Second.scale_spec(),
                tagged: TimeUnit::Second.si_prefix_spec() is Some,
            }));
        } else if unit == TimeUnit::Minute {
            assert(t[4] == (UnitScale {
                scale: TimeUnit::Minute.scale_spec(),
                tagged: TimeUnit::Minute.si_prefix_spec() is Some,
            }));
        } else if unit == TimeUnit::Hour {
            assert(t[5] == (UnitScale {
                scale: TimeUnit::Hour.scale_spec(),
                tagged: TimeUnit::Hour.si_prefix_spec() is Some,
            }));
        } else if unit == TimeUnit::Day {
            assert(t[6] == (UnitScale {
                scale: TimeUnit::Day.scale_spec(),
                tagged: TimeUnit::Day.si_prefix_spec() is Some,
            }));
        }
    }
}

/// The quantity of duration between two events.
///
/// An amount together with one of the quantity's units.
#[derive(Clone, Copy, Debug, PartialEq, Eq, Structural)]
pub struct Time {
    /// The amount.
    pub value: Rat,
    /// The unit the amount is expressed in.
    pub unit: TimeUnit,
}

impl Time {
    /// A new quantity value from an amount and a unit.
    pub fn new(value: Rat, unit: TimeUnit) -> (q: Time)
        ensures
            q.value == value,
            q.unit == unit,
    {
        Time { value, unit }
    }

    /// The amount.
    pub fn value(&self) -> (r: Rat)
        ensures
            r == self.value,
    {
        self.value
    }

    /// The unit.
    pub fn unit(&self) -> (unit: TimeUnit)
        ensures
            unit == self.unit,
    {
        self.unit
    }

    /// The same value expressed in the unit `to`: the amount is
    /// rescaled by the ratio of the two unit scales.
    pub fn convert(&self, to: TimeUnit) -> (r: Option<Time>)
        requires
            rat_wf(self.value),
        ensures
            r matches Some(q) ==> {
                &&& rat_wf(q.value)
                &&& q.unit == to
                &&& crate::algebra::is_scaled_of(
                    q.value,
                    self.value,
                    self.unit.scale_spec(),
                    to.scale_spec(),
                )
            },
            crate::algebra::scaled_in_range(self.value, self.unit.scale_spec(), to.scale_spec())
                ==> r is Some,
    {
        match crate::algebra::equiv_amount(&self.value, &self.unit.scale(), &to.scale()) {
            Some(v) => Some(Time { value: v, unit: to }),
            None => None,
        }
    }

    /// The sum of the two values, expressed in `self`'s unit.
    pub fn add(&self, other: &Time) -> (r: Option<Time>)
        requires
            rat_wf(self.value),
            rat_wf(other.value),
        ensures
            r matches Some(q) ==> {
                &&& rat_wf(q.value)
                &&& q.unit == self.unit
                &&& crate::algebra::is_sum_in_left(
                    q.value,
                    self.value,
                    self.unit.scale_spec(),
                    other.value,
                    other.unit.scale_spec(),
                )
            },
            crate::algebra::combine_in_range(
                self.value,
                self.unit.scale_spec(),
                other.value,
                other.unit.scale_spec(),
            ) ==> r is Some,
    {
        match crate::algebra::add_qty(
            &self.value,
            &self.unit.scale(),
            &other.value,
            &other.unit.scale(),
        ) {
            Some(v) => Some(Time { value: v, unit: self.unit }),
            None => None,
        }
    }

    /// The difference of the two values, expressed in `self`'s unit.
    pub fn sub(&self, other: &Time) -> (r: Option<Time>)
        requires
            rat_wf(self.value),
            rat_wf(other.value),
        ensures
            r matches Some(q) ==> {
                &&& rat_wf(q.value)
                &&& q.unit == self.unit
                &&& crate::algebra::is_diff_in_left(
                    q.value,
                    self.value,
                    self.unit.scale_spec(),
                    other.value,
                    other.unit.scale_spec(),
                )
            },
            crate::algebra::combine_in_range(
                self.value,
                self.unit.scale_spec(),
                other.value,
                other.unit.scale_spec(),
            ) ==> r is Some,
    {
        match crate::algebra::sub_qty(
            &self.value,
            &self.unit.scale(),
            &other.value,
            &other.unit.scale(),
        ) {
            Some(v) => Some(Time { value: v, unit: self.unit }),
            None => None,
        }
    }

    /// The dimensionless ratio of the two values.
    pub fn div(&self, other: &Time) -> (r: Option<Rat>)
        requires
            rat_wf(self.value),
            rat_wf(other.value),
        ensures
            r matches Some(v) ==> rat_wf(v) && crate::algebra::is_ratio_of(
                v,
                self.value,
                self.unit.scale_spec(),
                other.value,
                other.unit.scale_spec(),
            ),
            crate::algebra::ratio_in_range(
                self.value,
                self.unit.scale_spec(),
                other.value,
                other.unit.scale_spec(),
            ) ==> r is Some,
    {
        crate::algebra::div_qty(
            &self.value,
            &self.unit.scale(),
            &other.value,
            &other.unit.scale(),
        )
    }

    /// Exact equivalence of the two values, whatever their units.
    pub fn equivalent(&self, other: &Time) -> (b: bool)
        requires
            rat_wf(self.value),
            rat_wf(other.value),
        ensures
            b == crate::algebra::qty_eq_spec(
                self.value,
                self.unit.scale_spec(),
                other.value,
                other.unit.scale_spec(),
            ),
    {
        let r = crate::algebra::cmp_qty(
            &self.value,
            &self.unit.scale(),
            &other.value,
            &other.unit.scale(),
        );
        match r {
            core::cmp::Ordering::Equal => true,
            _ => false,
        }
    }

    /// The best-fitting unit for a magnitude expressed in the
    /// reference unit, with the rescaled amount.
    pub fn fit(amount: Rat) -> (r: Option<Time>)
        requires
            rat_wf(amount),
        ensures
            r matches Some(q) ==> {
                &&& rat_wf(q.value)
                &&& crate::algebra::is_fit_choice(
                    TimeUnit::table_spec(),
                    false,
                    amount.num as int,
                    amount.den as int,
                    q.unit.index_spec(),
                )
                &&& crate::rat::is_quot_of(q.value, amount, q.unit.scale_spec())
            },
            (forall|k: int|
                0 <= k < TimeUnit::table_spec().len()
                    ==> crate::rat::rat_abs(amount.num as int) * (#[trigger] TimeUnit::table_spec()[k]).scale.den
                    <= crate::rat::RAT_BOUND && amount.den * TimeUnit::table_spec()[k].scale.num
                    <= crate::rat::RAT_BOUND) ==> r is Some,
    {
        proof {
            time_table_ok();
        }
        let t = TimeUnit::table();
        let i = crate::algebra::fit_index(&t, false, amount.num, amount.den);
        let unit = TimeUnit::from_index(i);
        proof {
            assert(t@[i as int] == TimeUnit::table_spec()[unit.index_spec()]);
            if forall|k: int|
                0 <= k < TimeUnit::table_spec().len()
                    ==> crate::rat::rat_abs(amount.num as int) * (#[trigger] TimeUnit::table_spec()[k]).scale.den
                    <= crate::rat::RAT_BOUND && amount.den * TimeUnit::table_spec()[k].scale.num
                    <= crate::rat::RAT_BOUND {
                crate::algebra::lemma_final_div_bounds(
                    amount,
                    t@[i as int].scale,
                    crate::rat::rat_abs(amount.num as int),
                    amount.den as int,
                );
            }
        }
        match amount.div(&unit.scale()) {
            Some(v) => Some(Time { value: v, unit }),
            None => None,
        }
    }

    /// Renders the value as `amount symbol`.
    pub fn to_string(&self) -> (s: String)
        requires
            rat_wf(self.value),
        ensures
            self.unit.symbol_view().len() > 0 ==> s@ == crate::fmt::with_symbol_chars(
                self.value,
                self.unit.symbol_view(),
            ),
    {
        let sym = self.unit.symbol();
        amount_with_symbol(&self.value, sym.as_str())
    }
}

impl TimeUnit {
    /// The first unit in canonical order whose symbol is `s`, if any.
    pub open spec fn from_symbol_spec(s: Seq<char>) -> Option<TimeUnit> {
        if s == "ns"@ {
            Some(TimeUnit::Nanosecond)
        } else if s == "µs"@ {
            Some(TimeUnit::Microsecond)
        } else if s == "ms"@ {
            Some(TimeUnit::Millisecond)
        } else if s == "s"@ {
            Some(TimeUnit::Second)
        } else if s == "min"@ {
            Some(TimeUnit::Minute)
        } else if s == "h"@ {
            Some(TimeUnit::Hour)
        } else if s == "d"@ {
            Some(TimeUnit::Day)
        } else {
            None
        }
    }

    /// Looks a unit up by its printable symbol, scanning the canonical
    /// order; `None` when no unit uses the symbol.
    pub fn from_symbol(s: &str) -> (r: Option<TimeUnit>)
        ensures
            r == TimeUnit::from_symbol_spec(s@),
    {
        if crate::text::str_eq(s, "ns") {
            Some(TimeUnit::Nanosecond)
        } else if crate::text::str_eq(s, "µs") {
            Some(TimeUnit::Microsecond)
        } else if crate::text::str_eq(s, "ms") {
            Some(TimeUnit::Millisecond)
        } else if crate::text::str_eq(s, "s") {
            Some(TimeUnit::Second)
        } else if crate::text::str_eq(s, "min") {
            Some(TimeUnit::Minute)
        } else if crate::text::str_eq(s, "h") {
            Some(TimeUnit::Hour)
        } else if crate::text::str_eq(s, "d") {
            Some(TimeUnit::Day)
        } else {
            None
        }
    }

    /// How many of `other` one `self` is: the exact ratio of the two
    /// unit scales.
    pub fn ratio(self, other: TimeUnit) -> (r: Option<Rat>)
        ensures
            r is Some <==> crate::rat::quot_in_range(self.scale_spec(), other.scale_spec()),
            r matches Some(v) ==> rat_wf(v) && crate::rat::is_quot_of(
                v,
                self.scale_spec(),
                other.scale_spec(),
            ),
    {
        self.scale().div(&other.scale())
    }
}

impl Time {
    /// The value multiplied by a bare amount; the unit is kept.
    pub fn scale_by(&self, k: &Rat) -> (r: Option<Time>)
        requires
            rat_wf(self.value),
            rat_wf(*k),
        ensures
            r is Some <==> crate::rat::prod_in_range(self.value, *k),
            r matches Some(q) ==> {
                &&& rat_wf(q.value)
                &&& q.unit == self.unit
                &&& crate::rat::is_prod_of(q.value, self.value, *k)
            },
    {
        match self.value.mul(k) {
            Some(v) => Some(Time { value: v, unit: self.unit }),
            None => None,
        }
    }

    /// The value divided by a bare amount; the unit is kept.
    pub fn div_by(&self, k: &Rat) -> (r: Option<Time>)
        requires
            rat_wf(self.value),
            rat_wf(*k),
        ensures
            r is Some <==> crate::rat::quot_in_range(self.value, *k),
            r matches Some(q) ==> {
                &&& rat_wf(q.value)
                &&& q.unit == self.unit
                &&& crate::rat::is_quot_of(q.value, self.value, *k)
            },
    {
        match self.value.div(k) {
            Some(v) => Some(Time { value: v, unit: self.unit }),
            None => None,
        }
    }

    /// Multiplies by a rate whose per side is a unit of this quantity:
    /// the value, divided by `per_unit_multiple` times the per unit and
    /// multiplied by `term_amount`, as an amount in the rate's term
    /// unit. The rescale goes through the rate's stored units.
    pub fn mul_rate<TU: Copy>(&self, rate: &crate::rate::Rate<TU, TimeUnit>) -> (r: Option<
        (Rat, TU),
    >)
        requires
            rat_wf(self.value),
            rat_wf(rate.term_amount),
            rat_wf(rate.per_unit_multiple),
        ensures
            rate.per_unit_multiple.num == 0 ==> r is None,
            rate.per_unit_multiple.num != 0 && crate::rate::rate_in_range(
                self.value,
                self.unit.scale_spec(),
                rate.per_unit.scale_spec(),
                rate.per_unit_multiple,
                rate.term_amount,
            ) ==> r is Some,
            r matches Some(p) ==> {
                &&& rat_wf(p.0)
                &&& p.1 == rate.term_unit
                &&& rate.per_unit_multiple.num != 0
                &&& crate::rate::is_rate_apply(
                    p.0,
                    self.value,
                    self.unit.scale_spec(),
                    rate.per_unit.scale_spec(),
                    rate.per_unit_multiple,
                    rate.term_amount,
                )
            },
    {
        match crate::rate::rate_apply(
            &self.value,
            &self.unit.scale(),
            &rate.per_unit.scale(),
            &rate.per_unit_multiple,
            &rate.term_amount,
        ) {
            Some(v) => Some((v, rate.term_unit)),
            None => None,
        }
    }

    /// Divides by a rate whose term side is a unit of this quantity:
    /// the value, divided by `term_amount` times the term unit and
    /// multiplied by `per_unit_multiple`, as an amount in the rate's per
    /// unit. The rescale goes through the rate's stored units.
    pub fn div_rate<PU: Copy>(&self, rate: &crate::rate::Rate<TimeUnit, PU>) -> (r: Option<
        (Rat, PU),
    >)
        requires
            rat_wf(self.value),
            rat_wf(rate.term_amount),
            rat_wf(rate.per_unit_multiple),
        ensures
            rate.term_amount.num == 0 ==> r is None,
            rate.term_amount.num != 0 && crate::rate::rate_in_range(
                self.value,
                self.unit.scale_spec(),
                rate.term_unit.scale_spec(),
                rate.term_amount,
                rate.per_unit_multiple,
            ) ==> r is Some,
            r matches Some(p) ==> {
                &&& rat_wf(p.0)
                &&& p.1 == rate.per_unit
                &&& rate.term_amount.num != 0
                &&& crate::rate::is_rate_apply(
                    p.0,
                    self.value,
                    self.unit.scale_spec(),
                    rate.term_unit.scale_spec(),
                    rate.term_amount,
                    rate.per_unit_multiple,
                )
            },
    {
        match crate::rate::rate_apply(
            &self.value,
            &self.unit.scale(),
            &rate.term_unit.scale(),
            &rate.term_amount,
            &rate.per_unit_multiple,
        ) {
            Some(v) => Some((v, rate.per_unit)),
            None => None,
        }
    }
}

/// Units are enumerated in ascending scale order: along the canonical
/// list, every unit's scale is at most any later unit's.
pub proof fn time_units_ascending()
    ensures
        forall|i: int, j: int|
            0 <= i <= j < TimeUnit::all_units_spec().len() ==> crate::rat::rat_le_spec(
                (#[trigger] TimeUnit::all_units_spec()[i]).scale_spec(),
                (#[trigger] TimeUnit::all_units_spec()[j]).scale_spec(),
            ),
{
    time_table_ok();
    assert forall|i: int, j: int|
        0 <= i <= j < TimeUnit::all_units_spec().len() implies crate::rat::rat_le_spec(
        (#[trigger] TimeUnit::all_units_spec()[i]).scale_spec(),
        (#[trigger] TimeUnit::all_units_spec()[j]).scale_spec(),
    ) by {
        let u = TimeUnit::all_units_spec()[i];
        let v = TimeUnit::all_units_spec()[j];
        assert(u.index_spec() == i && v.index_spec() == j);
        assert(TimeUnit::table_spec()[i].scale == u.scale_spec());
        assert(TimeUnit::table_spec()[j].scale == v.scale_spec());
        if i < j {
            assert(crate::rat::rat_le_spec(
                TimeUnit::table_spec()[i].scale,
                TimeUnit::table_spec()[j].scale,
            ));
        }
    }
}

} // verus!
