//! Affine conversion tables.
//!
//! For quantities whose units are not linearly related through a single
//! scale (temperature is the canonical example) the engine emits no
//! automatic conversion; the client supplies explicit per-pair rules
//! `value_in_to = value_in_from * factor + offset`. The table need not be
//! symmetric or complete; a missing pair is an ordinary lookup failure.

use vstd::prelude::*;

use crate::rat::{rat_wf, Rat};

verus! {

/// One conversion rule of an affine table.
#[derive(Clone, Copy, Debug, PartialEq, Eq, Structural)]
pub struct ConvEntry {
    /// Index of the source unit.
    pub from: usize,
    /// Index of the target unit.
    pub to: usize,
    /// Multiplier.
    pub factor: Rat,
    /// Additive offset.
    pub offset: Rat,
}

/// An affine conversion table: explicit rules, in lookup order.
#[derive(Clone, Debug)]
pub struct ConversionTable {
    /// The rules; the first matching pair wins.
    pub entries: Vec<ConvEntry>,
}

/// All factors and offsets of the table are well-formed rationals.
pub open spec fn table_wf(t: Seq<ConvEntry>) -> bool {
    forall|i: int|
        0 <= i < t.len() ==> rat_wf((#[trigger] t[i]).factor) && rat_wf(t[i].offset)
}

/// The first rule converting `from` to `to`, if any.
pub open spec fn table_lookup(t: Seq<ConvEntry>, from: int, to: int) -> Option<ConvEntry>
    decreases t.len(),
{
    if t.len() == 0 {
        None
    } else if t[0].from == from && t[0].to == to {
        Some(t[0])
    } else {
        table_lookup(t.drop_first(), from, to)
    }
}

/// `v == a * factor + offset` as rational values.
pub open spec fn is_affine_of(v: Rat, a: Rat, factor: Rat, offset: Rat) -> bool {
    v.num * ((a.den * factor.den) * offset.den) == ((a.num * factor.num) * offset.den + offset.num
        * (a.den * factor.den)) * v.den
}

/// Component bounds of an affine application: the result of
/// `a * factor + offset` has a numerator no larger in magnitude than the
/// raw numerator of the sum, and a denominator no larger than its raw
/// denominator. These let a caller chain conversions, since they bound
/// the next application's [`affine_in_range`] condition.
pub open spec fn affine_bounds(v: Rat, a: Rat, factor: Rat, offset: Rat) -> bool {
    &&& crate::rat::rat_abs(v.num as int) <= crate::rat::rat_abs(a.num * factor.num) * offset.den
        + crate::rat::rat_abs(offset.num as int) * (a.den * factor.den)
    &&& v.den <= (a.den * factor.den) * offset.den
}

/// The affine application stays within bounds at every step.
pub open spec fn affine_in_range(a: Rat, factor: Rat, offset: Rat) -> bool {
    &&& -crate::rat::RAT_BOUND <= a.num * factor.num <= crate::rat::RAT_BOUND
    &&& a.den * factor.den <= crate::rat::RAT_BOUND
    &&& crate::rat::rat_abs(a.num * factor.num) * offset.den + crate::rat::rat_abs(
        offset.num as int,
    ) * (a.den * factor.den) <= crate::rat::RAT_BOUND
    &&& (a.den * factor.den) * offset.den <= crate::rat::RAT_BOUND
}

/// Applies one affine rule to an amount.
fn apply_entry(a: &Rat, factor: &Rat, offset: &Rat) -> (r: Option<Rat>)
    requires
        rat_wf(*a),
        rat_wf(*factor),
        rat_wf(*offset),
    ensures
        r matches Some(v) ==> rat_wf(v) && is_affine_of(v, *a, *factor, *offset) && affine_bounds(
            v,
            *a,
            *factor,
            *offset,
        ),
        affine_in_range(*a, *factor, *offset) ==> r is Some,
{
    let p = match a.mul(factor) {
        Some(p) => p,
        None => {
            return None;
        },
    };
    let v = match p.add(offset) {
        Some(v) => v,
        None => {
            proof {
                if affine_in_range(*a, *factor, *offset) {
                    crate::algebra::lemma_abs_mul_pos(p.num as int, offset.den as int);
                    crate::algebra::lemma_mul_le_pos(
                        crate::rat::rat_abs(p.num as int),
                        crate::rat::rat_abs(a.num * factor.num),
                        offset.den as int,
                    );
                    crate::algebra::lemma_abs_mul_pos(offset.num as int, p.den as int);
                    crate::algebra::lemma_mul_le_pos_left(
                        crate::rat::rat_abs(offset.num as int),
                        p.den as int,
                        a.den * factor.den,
                    );
                    crate::algebra::lemma_mul_le_pos(
                        p.den as int,
                        a.den * factor.den,
                        offset.den as int,
                    );
                }
            }
            return None;
        },
    };
    proof {
        lemma_affine(v, *a, *factor, *offset, p);
        let s = p.num * offset.den + offset.num * p.den;
        assert(-(crate::rat::rat_abs(a.num * factor.num) * offset.den + crate::rat::rat_abs(
            offset.num as int,
        ) * (a.den * factor.den)) <= s <= crate::rat::rat_abs(a.num * factor.num) * offset.den
            + crate::rat::rat_abs(offset.num as int) * (a.den * factor.den)) by (nonlinear_arith)
            requires
                s == p.num * offset.den + offset.num * p.den,
                -crate::rat::rat_abs(p.num as int) <= p.num <= crate::rat::rat_abs(p.num as int),
                0 <= crate::rat::rat_abs(p.num as int) <= crate::rat::rat_abs(
                    a.num * factor.num,
                ),
                -crate::rat::rat_abs(offset.num as int) <= offset.num <= crate::rat::rat_abs(
                    offset.num as int,
                ),
                0 <= crate::rat::rat_abs(offset.num as int),
                1 <= p.den <= a.den * factor.den,
                1 <= offset.den,
        ;
        assert(v.den <= (a.den * factor.den) * offset.den) by (nonlinear_arith)
            requires
                v.den <= p.den * offset.den,
                1 <= p.den <= a.den * factor.den,
                1 <= offset.den,
        ;
    }
    Some(v)
}

/// Combines the product equation with the sum equation.
proof fn lemma_affine(v: Rat, a: Rat, f: Rat, o: Rat, p: Rat)
    requires
        rat_wf(v),
        rat_wf(a),
        rat_wf(f),
        rat_wf(o),
        rat_wf(p),
        crate::rat::is_prod_of(p, a, f),
        crate::rat::is_sum_of(v, p, o),
    ensures
        is_affine_of(v, a, f, o),
{
    let c = a.den * f.den;
    // goal times p.den, reassociated towards the hypotheses
    assert((v.num * (c * o.den)) * p.den == (v.num * (p.den * o.den)) * c) by (nonlinear_arith);
    crate::algebra::lemma_mul_eq(
        v.num * (p.den * o.den),
        (p.num * o.den + o.num * p.den) * v.den,
        c,
    );
    crate::algebra::lemma_distribute_sum(
        p.num as int,
        o.den as int,
        o.num as int,
        p.den as int,
        v.den as int,
        c,
    );
    crate::algebra::lemma_mul_eq(p.num * c, (a.num * f.num) * p.den, o.den * v.den);
    assert((p.num * c) * (o.den * v.den) == (p.num * c) * (o.den * v.den));
    assert((p.num * c) * (o.den * v.den) == ((p.num * o.den + o.num * p.den) * v.den) * c - (o.num
        * c) * (p.den * v.den));
    assert(((a.num * f.num) * p.den) * (o.den * v.den) + (o.num * c) * (p.den * v.den) == (((a.num
        * f.num) * o.den + o.num * c) * v.den) * p.den) by (nonlinear_arith);
    crate::algebra::lemma_cancel(
        v.num * (c * o.den),
        ((a.num * f.num) * o.den + o.num * c) * v.den,
        p.den as int,
    );
    assert(v.num * ((a.den * f.den) * o.den) == (((a.num * f.num) * o.den) + o.num * (a.den
        * f.den)) * v.den);
}

impl ConversionTable {
    /// Converts `amount`, given in the unit with index `unit`, to the unit
    /// with index `to`, using the table's rules.
    ///
    /// When source and target unit coincide the amount is returned
    /// unchanged, without consulting the table at all; otherwise the first
    /// matching rule is applied, and a missing pair is a lookup failure.
    pub fn convert_amount(&self, amount: &Rat, unit: usize, to: usize) -> (r: Option<Rat>)
        requires
            rat_wf(*amount),
            table_wf(self.entries@),
        ensures
            unit == to ==> r == Some(*amount),
            unit != to && table_lookup(self.entries@, unit as int, to as int) is None ==> r
                is None,
            r matches Some(v) ==> rat_wf(v) && (unit != to ==> {
                &&& table_lookup(self.entries@, unit as int, to as int) matches Some(e)
                &&& is_affine_of(
                    v,
                    *amount,
                    table_lookup(self.entries@, unit as int, to as int)->Some_0.factor,
                    table_lookup(self.entries@, unit as int, to as int)->Some_0.offset,
                )
                &&& affine_bounds(
                    v,
                    *amount,
                    table_lookup(self.entries@, unit as int, to as int)->Some_0.factor,
                    table_lookup(self.entries@, unit as int, to as int)->Some_0.offset,
                )
            }),
            (table_lookup(self.entries@, unit as int, to as int) matches Some(e)
                && affine_in_range(*amount, e.factor, e.offset)) ==> r is Some,
    {
        if unit == to {
            return Some(*amount);
        }
        proof {
            lemma_lookup_at_zero(self.entries@, unit as int, to as int);
        }
        let mut i: usize = 0;
        while i < self.entries.len()
            invariant
                0 <= i <= self.entries@.len(),
                table_wf(self.entries@),
                rat_wf(*amount),
                unit != to,
                table_lookup(self.entries@, unit as int, to as int) == lookup_at(
                    self.entries@,
                    unit as int,
                    to as int,
                    i as int,
                ),
            decreases self.entries@.len() - i,
        {
            let e = &self.entries[i];
            if e.from == unit && e.to == to {
                return apply_entry(amount, &e.factor, &e.offset);
            }
            i += 1;
        }
        None
    }
}

/// The lookup restarted at position `j`.
pub open spec fn lookup_at(t: Seq<ConvEntry>, from: int, to: int, j: int) -> Option<ConvEntry>
    decreases t.len() - j,
    when 0 <= j <= t.len()
{
    if j >= t.len() {
        None
    } else if t[j].from == from && t[j].to == to {
        Some(t[j])
    } else {
        lookup_at(t, from, to, j + 1)
    }
}

/// The front-recursion and the position scan agree.
pub proof fn lemma_lookup_at_zero(t: Seq<ConvEntry>, from: int, to: int)
    ensures
        table_lookup(t, from, to) == lookup_at(t, from, to, 0),
    decreases t.len(),
{
    if t.len() > 0 {
        lemma_lookup_at_zero(t.drop_first(), from, to);
        lemma_lookup_at_shift(t, from, to, 0);
    }
}

/// Shifting the scan into the tail.
proof fn lemma_lookup_at_shift(t: Seq<ConvEntry>, from: int, to: int, j: int)
    requires
        0 <= j <= t.len() - 1,
    ensures
        lookup_at(t, from, to, j + 1) == lookup_at(t.drop_first(), from, to, j),
    decreases t.len() - j,
{
    if j < t.len() - 1 {
        assert(t.drop_first()[j] == t[j + 1]);
        lemma_lookup_at_shift(t, from, to, j + 1);
    }
}

} // verus!
