//! Rates: a quantity amount per a multiple of another quantity's unit.
//!
//! A rate `term_amount * term_unit / (per_unit_multiple * per_unit)` keeps
//! both sides' units, so applying it rescales through the stored units
//! directly instead of forcing both operands into their reference units
//! first. A rate over dimensionless quantities behaves as a plain ratio.

use vstd::prelude::*;

use crate::algebra::frac_eq;
use crate::rat::{rat_abs, rat_wf, Rat, RAT_BOUND};
use crate::schema::scale_ok;

verus! {

/// The ratio between two related quantity values, generic in the two
/// unit types.
#[derive(Clone, Copy, Debug, PartialEq, Eq, Structural)]
pub struct Rate<TU, PU> {
    /// Amount on the term side.
    pub term_amount: Rat,
    /// Unit on the term side.
    pub term_unit: TU,
    /// Multiple of the per-side unit; positive in a well-formed rate.
    pub per_unit_multiple: Rat,
    /// Unit on the per side.
    pub per_unit: PU,
}

impl<TU, PU> Rate<TU, PU> {
    /// A new rate from its four components.
    pub fn new(term_amount: Rat, term_unit: TU, per_unit_multiple: Rat, per_unit: PU) -> (r: Rate<
        TU,
        PU,
    >)
        ensures
            r.term_amount == term_amount,
            r.term_unit == term_unit,
            r.per_unit_multiple == per_unit_multiple,
            r.per_unit == per_unit,
    {
        Rate { term_amount, term_unit, per_unit_multiple, per_unit }
    }

    /// Renders the rate as `term / per`, each side an amount followed by
    /// its unit symbol; an empty symbol leaves the bare amount, so a rate
    /// over dimensionless quantities prints as a plain ratio.
    pub fn to_string_with(&self, term_symbol: &str, per_symbol: &str) -> (s: String)
        requires
            rat_wf(self.term_amount),
            rat_wf(self.per_unit_multiple),
        ensures
            s@ == crate::fmt::rate_chars(
                self.term_amount,
                term_symbol@,
                self.per_unit_multiple,
                per_symbol@,
            ),
    {
        let mut s = crate::fmt::amount_with_symbol(&self.term_amount, term_symbol);
        s.append(" / ");
        let tail = crate::fmt::amount_with_symbol(&self.per_unit_multiple, per_symbol);
        s.append(tail.as_str());
        proof {
            reveal_strlit(" / ");
            assert(s@ =~= crate::fmt::rate_chars(
                self.term_amount,
                term_symbol@,
                self.per_unit_multiple,
                per_symbol@,
            ));
        }
        s
    }

    /// The multiplicative inverse: term and per side swap places.
    pub fn reciprocal(self) -> (r: Rate<PU, TU>)
        ensures
            r.term_amount == self.per_unit_multiple,
            r.term_unit == self.per_unit,
            r.per_unit_multiple == self.term_amount,
            r.per_unit == self.term_unit,
    {
        Rate {
            term_amount: self.per_unit_multiple,
            term_unit: self.per_unit,
            per_unit_multiple: self.term_amount,
            per_unit: self.term_unit,
        }
    }
}

/// `v == (x_a * x_s) / (u_s * k) * m`: the amount of an operand with
/// amount `x_a` in a unit of scale `x_s`, divided by `k` times the unit
/// with scale `u_s`, times `m`.
pub open spec fn is_rate_apply(v: Rat, x_a: Rat, x_s: Rat, u_s: Rat, k: Rat, m: Rat) -> bool {
    v.num * (((x_a.den * x_s.den) * (u_s.num * k.num)) * m.den) == (((x_a.num * x_s.num) * (
    u_s.den * k.den)) * m.num) * v.den
}

/// Every checked step of the rate arithmetic stays within [`RAT_BOUND`]:
/// both raw products, the cross products of the quotient, and the final
/// scaling by `m`.
pub open spec fn rate_in_range(x_a: Rat, x_s: Rat, u_s: Rat, k: Rat, m: Rat) -> bool {
    &&& -RAT_BOUND <= x_a.num * x_s.num <= RAT_BOUND
    &&& x_a.den * x_s.den <= RAT_BOUND
    &&& -RAT_BOUND <= u_s.num * k.num <= RAT_BOUND
    &&& u_s.den * k.den <= RAT_BOUND
    &&& rat_abs(x_a.num * x_s.num) * (u_s.den * k.den) <= RAT_BOUND
    &&& (x_a.den * x_s.den) * rat_abs(u_s.num * k.num) <= RAT_BOUND
    &&& (rat_abs(x_a.num * x_s.num) * (u_s.den * k.den)) * rat_abs(m.num as int) <= RAT_BOUND
    &&& ((x_a.den * x_s.den) * rat_abs(u_s.num * k.num)) * m.den <= RAT_BOUND
}

/// The arithmetic shared by both directions of applying a rate: divides
/// the operand value by `k` times the unit with scale `u_s`, then
/// multiplies by `m`. `None` when `k` is zero or a bound is exceeded; a
/// nonzero multiple within [`rate_in_range`] always succeeds.
pub fn rate_apply(x_a: &Rat, x_s: &Rat, u_s: &Rat, k: &Rat, m: &Rat) -> (r: Option<Rat>)
    requires
        rat_wf(*x_a),
        scale_ok(*x_s),
        scale_ok(*u_s),
        rat_wf(*k),
        rat_wf(*m),
    ensures
        k.num == 0 ==> r is None,
        k.num != 0 && rate_in_range(*x_a, *x_s, *u_s, *k, *m) ==> r is Some,
        r matches Some(v) ==> rat_wf(v) && k.num != 0 && is_rate_apply(v, *x_a, *x_s, *u_s, *k, *m),
{
    if k.num == 0 {
        return None;
    }
    let q1 = match x_a.mul(x_s) {
        Some(q1) => q1,
        None => {
            return None;
        },
    };
    let q2 = match u_s.mul(k) {
        Some(q2) => q2,
        None => {
            return None;
        },
    };
    proof {
        assert(q2.num != 0) by (nonlinear_arith)
            requires
                q2.num * (u_s.den * k.den) == (u_s.num * k.num) * q2.den,
                u_s.num >= 1,
                k.num != 0,
                q2.den >= 1,
                u_s.den >= 1,
                k.den >= 1,
        ;
    }
    let q3 = match q1.div(&q2) {
        Some(q3) => q3,
        None => {
            proof {
                if rate_in_range(*x_a, *x_s, *u_s, *k, *m) {
                    assert(-RAT_BOUND <= q1.num * q2.den <= RAT_BOUND) by (nonlinear_arith)
                        requires
                            -rat_abs(q1.num as int) <= q1.num <= rat_abs(q1.num as int),
                            0 <= rat_abs(q1.num as int) <= rat_abs(x_a.num * x_s.num),
                            1 <= q2.den <= u_s.den * k.den,
                            rat_abs(x_a.num * x_s.num) * (u_s.den * k.den) <= RAT_BOUND,
                    ;
                    assert(q1.den * rat_abs(q2.num as int) <= RAT_BOUND) by (nonlinear_arith)
                        requires
                            1 <= q1.den <= x_a.den * x_s.den,
                            0 <= rat_abs(q2.num as int) <= rat_abs(u_s.num * k.num),
                            (x_a.den * x_s.den) * rat_abs(u_s.num * k.num) <= RAT_BOUND,
                    ;
                }
            }
            return None;
        },
    };
    let v = match q3.mul(m) {
        Some(v) => v,
        None => {
            proof {
                if rate_in_range(*x_a, *x_s, *u_s, *k, *m) {
                    assert(-(rat_abs(x_a.num * x_s.num) * (u_s.den * k.den)) <= q1.num * q2.den <= rat_abs(
                        x_a.num * x_s.num,
                    ) * (u_s.den * k.den)) by (nonlinear_arith)
                        requires
                            -rat_abs(q1.num as int) <= q1.num <= rat_abs(q1.num as int),
                            0 <= rat_abs(q1.num as int) <= rat_abs(x_a.num * x_s.num),
                            1 <= q2.den <= u_s.den * k.den,
                    ;
                    assert(-RAT_BOUND <= q3.num * m.num <= RAT_BOUND) by (nonlinear_arith)
                        requires
                            -rat_abs(q3.num as int) <= q3.num <= rat_abs(q3.num as int),
                            0 <= rat_abs(q3.num as int) <= rat_abs(x_a.num * x_s.num) * (u_s.den
                                * k.den),
                            -rat_abs(m.num as int) <= m.num <= rat_abs(m.num as int),
                            0 <= rat_abs(m.num as int),
                            (rat_abs(x_a.num * x_s.num) * (u_s.den * k.den)) * rat_abs(
                                m.num as int,
                            ) <= RAT_BOUND,
                    ;
                    assert(q1.den * rat_abs(q2.num as int) <= (x_a.den * x_s.den) * rat_abs(
                        u_s.num * k.num,
                    )) by (nonlinear_arith)
                        requires
                            1 <= q1.den <= x_a.den * x_s.den,
                            0 <= rat_abs(q2.num as int) <= rat_abs(u_s.num * k.num),
                    ;
                    assert(q3.den * m.den <= RAT_BOUND) by (nonlinear_arith)
                        requires
                            1 <= q3.den <= (x_a.den * x_s.den) * rat_abs(u_s.num * k.num),
                            1 <= m.den,
                            ((x_a.den * x_s.den) * rat_abs(u_s.num * k.num)) * m.den <= RAT_BOUND,
                    ;
                }
            }
            return None;
        },
    };
    proof {
        // q3 == (x_a * x_s) / (u_s * k) as a value
        assert(frac_eq(q1.num as int, q1.den as int, x_a.num * x_s.num, x_a.den * x_s.den));
        assert(frac_eq(q2.num as int, q2.den as int, u_s.num * k.num, u_s.den * k.den));
        assert(q2.den * (u_s.num * k.num) == (u_s.num * k.num) * q2.den) by (nonlinear_arith);
        assert((u_s.den * k.den) * q2.num == q2.num * (u_s.den * k.den)) by (nonlinear_arith);
        assert(frac_eq(q2.den as int, q2.num as int, u_s.den * k.den, u_s.num * k.num));
        assert(frac_eq(q3.num as int, q3.den as int, q1.num * q2.den, q2.num * q1.den));
        crate::algebra::lemma_frac_mul_cong(
            q1.num as int,
            q1.den as int,
            x_a.num * x_s.num,
            x_a.den * x_s.den,
            q2.den as int,
            q2.num as int,
            u_s.den * k.den,
            u_s.num * k.num,
        );
        assert(q2.num * q1.den == q1.den * q2.num) by (nonlinear_arith);
        assert(frac_eq(
            q1.num * q2.den,
            q1.den * q2.num,
            (x_a.num * x_s.num) * (u_s.den * k.den),
            (x_a.den * x_s.den) * (u_s.num * k.num),
        ));
        assert((x_a.den * x_s.den) * (u_s.num * k.num) != 0) by (nonlinear_arith)
            requires
                x_a.den >= 1,
                x_s.den >= 1,
                u_s.num >= 1,
                k.num != 0,
        ;
        assert(q1.den * q2.num != 0) by (nonlinear_arith)
            requires
                q1.den >= 1,
                q2.num * (u_s.den * k.den) == (u_s.num * k.num) * q2.den,
                u_s.num >= 1,
                k.num != 0,
                u_s.den >= 1,
                k.den >= 1,
                q2.den >= 1,
        ;
        crate::algebra::lemma_frac_trans(
            q3.num as int,
            q3.den as int,
            q1.num * q2.den,
            q1.den * q2.num,
            (x_a.num * x_s.num) * (u_s.den * k.den),
            (x_a.den * x_s.den) * (u_s.num * k.num),
        );
        // v == q3 * m
        crate::algebra::lemma_frac_mul_cong(
            q3.num as int,
            q3.den as int,
            (x_a.num * x_s.num) * (u_s.den * k.den),
            (x_a.den * x_s.den) * (u_s.num * k.num),
            m.num as int,
            m.den as int,
            m.num as int,
            m.den as int,
        );
        assert(frac_eq(
            v.num as int,
            v.den as int,
            q3.num * m.num,
            q3.den * m.den,
        ));
        assert(q3.den * m.den != 0) by (nonlinear_arith)
            requires
                q3.den >= 1,
                m.den >= 1,
        ;
        crate::algebra::lemma_frac_trans(
            v.num as int,
            v.den as int,
            q3.num * m.num,
            q3.den * m.den,
            ((x_a.num * x_s.num) * (u_s.den * k.den)) * m.num,
            ((x_a.den * x_s.den) * (u_s.num * k.num)) * m.den,
        );
    }
    Some(v)
}

} // verus!
