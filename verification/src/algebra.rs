//! The runtime quantity/unit algebra.
//!
//! Every emitted quantity type relies on the operations here: conversion
//! between linearly scaled units, equality and ordering across units,
//! addition and subtraction in the left operand's unit, division to a
//! dimensionless ratio, best-fit unit selection for a raw magnitude, and
//! the lookup-or-fit step behind derived multiplications and divisions.
//!
//! A unit is represented by its scale (a positive rational, the unit's
//! size in the reference unit) and whether it carries an SI-prefix tag;
//! a quantity value by an exact rational amount and a unit index into an
//! ascending-scale table.

use core::cmp::Ordering;
use vstd::prelude::*;

use crate::rat::{
    compare_frac, rat_abs, rat_eq_spec, rat_le_spec, rat_lt_spec, rat_make, rat_wf, Rat, RAT_BOUND,
};
use crate::schema::scale_ok;

verus! {

/// What the runtime needs to know of one unit: its scale and whether it
/// carries an SI-prefix tag.
#[derive(Clone, Copy, Debug, PartialEq, Eq, Structural)]
pub struct UnitScale {
    /// The unit's size expressed in the reference unit.
    pub scale: Rat,
    /// Whether the unit carries an SI-prefix tag.
    pub tagged: bool,
}

/// A usable unit table: nonempty, usable scales, ascending by scale.
pub open spec fn unit_tab_wf(t: Seq<UnitScale>) -> bool {
    &&& t.len() >= 1
    &&& forall|i: int| 0 <= i < t.len() ==> scale_ok((#[trigger] t[i]).scale)
    &&& forall|i: int, j: int|
        0 <= i < j < t.len() ==> rat_le_spec((#[trigger] t[i]).scale, (#[trigger] t[j]).scale)
}

/// `r == a * f / t` as rational values: the amount `a`, expressed in a
/// unit of scale `f`, rescaled to a unit of scale `t`.
pub open spec fn is_scaled_of(r: Rat, a: Rat, f: Rat, t: Rat) -> bool {
    r.num * (a.den * f.den * t.num) == (a.num * f.num * t.den) * r.den
}

/// The rescale stays within bounds at every step.
pub open spec fn scaled_in_range(a: Rat, f: Rat, t: Rat) -> bool {
    &&& -RAT_BOUND <= a.num * f.num * t.den <= RAT_BOUND
    &&& a.den * f.den * t.num <= RAT_BOUND
}

/// Cancellation of a positive factor.
pub proof fn lemma_cancel(a: int, b: int, c: int)
    by (nonlinear_arith)
    requires
        a * c == b * c,
        c >= 1,
    ensures
        a == b,
{
}

/// Multiplying both sides of an equation by the same factor.
pub proof fn lemma_mul_eq(x: int, y: int, z: int)
    by (nonlinear_arith)
    requires
        x == y,
    ensures
        x * z == y * z,
{
}

/// The absolute value of a product with a nonnegative factor.
pub proof fn lemma_abs_mul_pos(x: int, t: int)
    by (nonlinear_arith)
    requires
        t >= 0,
    ensures
        rat_abs(x * t) == rat_abs(x) * t,
{
}

/// Multiplying a nonnegative inequality by a nonnegative factor.
pub proof fn lemma_mul_le_pos(x: int, y: int, t: int)
    by (nonlinear_arith)
    requires
        0 <= x <= y,
        t >= 0,
    ensures
        x * t <= y * t,
{
}

/// Multiplying a nonnegative inequality by a nonnegative left factor.
pub proof fn lemma_mul_le_pos_left(t: int, x: int, y: int)
    by (nonlinear_arith)
    requires
        0 <= x <= y,
        t >= 0,
    ensures
        t * x <= t * y,
{
}

/// A nonnegative value does not shrink under a factor of at least one.
proof fn lemma_grow_pos(x: int, t: int)
    by (nonlinear_arith)
    requires
        0 <= x,
        t >= 1,
    ensures
        x <= x * t,
{
}

/// A product of six factors, regrouped.
#[verifier::rlimit(50)]
proof fn lemma_mul6_shuffle(x1: int, x2: int, x3: int, x4: int, x5: int, x6: int)
    by (nonlinear_arith)
    ensures
        ((x1 * x2 * x3) * x4) * (x5 * x6) == (x1 * x6) * ((x4 * x3 * x2) * x5),
{
}

/// A product of four factors, regrouped.
proof fn lemma_mul4_shuffle(a: int, b: int, e: int, f: int)
    by (nonlinear_arith)
    ensures
        ((a * b) * e) * f == (a * f) * (b * e),
{
}

/// The ratio regrouping identity.
proof fn lemma_regroup_ratio(v: int, a: int, b: int, c: int, d: int, e: int)
    by (nonlinear_arith)
    ensures
        (v * (a * b * c * d)) * e == (v * (a * e)) * (b * (c * d)),
{
}

/// A sum or difference of two products, multiplied out and regrouped.
pub proof fn lemma_distribute_sum(a: int, b: int, c: int, d: int, e: int, f: int)
    ensures
        ((a * b + c * d) * e) * f == (a * f) * (b * e) + (c * f) * (d * e),
        ((a * b - c * d) * e) * f == (a * f) * (b * e) - (c * f) * (d * e),
{
    assert((a * b + c * d) * e == (a * b) * e + (c * d) * e) by (nonlinear_arith);
    assert(((a * b) * e + (c * d) * e) * f == ((a * b) * e) * f + ((c * d) * e) * f)
        by (nonlinear_arith);
    assert((a * b - c * d) * e == (a * b) * e - (c * d) * e) by (nonlinear_arith);
    assert(((a * b) * e - (c * d) * e) * f == ((a * b) * e) * f - ((c * d) * e) * f)
        by (nonlinear_arith);
    lemma_mul4_shuffle(a, b, e, f);
    lemma_mul4_shuffle(c, d, e, f);
}

/// The amount `a` of a unit with scale `from`, expressed in the unit with
/// scale `to`; exact, or `None` when an intermediate result leaves the
/// representable range.
pub fn equiv_amount(a: &Rat, from: &Rat, to: &Rat) -> (r: Option<Rat>)
    requires
        rat_wf(*a),
        scale_ok(*from),
        scale_ok(*to),
    ensures
        r matches Some(v) ==> {
            &&& rat_wf(v)
            &&& is_scaled_of(v, *a, *from, *to)
            &&& rat_abs(v.num as int) <= rat_abs(a.num * from.num * to.den)
            &&& v.den <= a.den * from.den * to.num
        },
        scaled_in_range(*a, *from, *to) ==> r is Some,
{
    let p = match a.mul(from) {
        Some(p) => p,
        None => {
            proof {
                if scaled_in_range(*a, *from, *to) {
                    lemma_abs_mul_pos(a.num * from.num, to.den as int);
                    lemma_grow_pos(rat_abs(a.num * from.num), to.den as int);
                    lemma_grow_pos(a.den * from.den, to.num as int);
                }
            }
            return None;
        },
    };
    let q = match p.div(to) {
        Some(q) => q,
        None => {
            proof {
                if scaled_in_range(*a, *from, *to) {
                    lemma_abs_mul_pos(p.num as int, to.den as int);
                    lemma_mul_le_pos(
                        rat_abs(p.num as int),
                        rat_abs(a.num * from.num),
                        to.den as int,
                    );
                    lemma_abs_mul_pos(a.num * from.num, to.den as int);
                    lemma_mul_le_pos(p.den as int, a.den * from.den, to.num as int);
                }
            }
            return None;
        },
    };
    proof {
        // is_prod_of(p, a, from) and is_quot_of(q, p, to) combine to the
        // rescale equation once p.den is cancelled.
        assert((q.num * (a.den * from.den * to.num)) * p.den == (q.num * (to.num * p.den)) * (
        a.den * from.den)) by (nonlinear_arith);
        lemma_mul_eq(q.num * (to.num * p.den), (p.num * to.den) * q.den, a.den * from.den);
        assert(((p.num * to.den) * q.den) * (a.den * from.den) == (p.num * (a.den * from.den)) * (
        to.den * q.den)) by (nonlinear_arith);
        lemma_mul_eq(p.num * (a.den * from.den), (a.num * from.num) * p.den, to.den * q.den);
        assert(((a.num * from.num) * p.den) * (to.den * q.den) == ((a.num * from.num * to.den)
            * q.den) * p.den) by (nonlinear_arith);
        lemma_cancel(
            q.num * (a.den * from.den * to.num),
            (a.num * from.num * to.den) * q.den,
            p.den as int,
        );
        // bound bookkeeping
        lemma_abs_mul_pos(p.num as int, to.den as int);
        lemma_mul_le_pos(rat_abs(q.num as int), rat_abs(p.num * to.den), 1);
        lemma_mul_le_pos(rat_abs(p.num as int), rat_abs(a.num * from.num), to.den as int);
        lemma_abs_mul_pos(a.num * from.num, to.den as int);
        lemma_mul_le_pos(p.den as int, a.den * from.den, to.num as int);
    }
    Some(q)
}

/// Rescaling from `s1` to `s2` and back returns the original value: the
/// conversion round trip is exact.
pub proof fn lemma_convert_round_trip(a: Rat, s1: Rat, s2: Rat, e: Rat, b: Rat)
    requires
        rat_wf(a),
        rat_wf(e),
        rat_wf(b),
        scale_ok(s1),
        scale_ok(s2),
        is_scaled_of(e, a, s1, s2),
        is_scaled_of(b, e, s2, s1),
    ensures
        rat_eq_spec(b, a),
{
    let c = (e.den * s2.den * s1.num) * s1.den;
    assert((b.num * a.den) * c == (b.num * (e.den * s2.den * s1.num)) * (a.den * s1.den))
        by (nonlinear_arith)
        requires
            c == (e.den * s2.den * s1.num) * s1.den,
    ;
    lemma_mul_eq(
        b.num * (e.den * s2.den * s1.num),
        (e.num * s2.num * s1.den) * b.den,
        a.den * s1.den,
    );
    assert(((e.num * s2.num * s1.den) * b.den) * (a.den * s1.den) == (e.num * (a.den * s1.den
        * s2.num)) * (s1.den * b.den)) by (nonlinear_arith);
    lemma_mul_eq(
        e.num * (a.den * s1.den * s2.num),
        (a.num * s1.num * s2.den) * e.den,
        s1.den * b.den,
    );
    lemma_mul6_shuffle(
        a.num as int,
        s1.num as int,
        s2.den as int,
        e.den as int,
        s1.den as int,
        b.den as int,
    );
    assert(((a.num * s1.num * s2.den) * e.den) * (s1.den * b.den) == (a.num * b.den) * c);
    assert(c >= 1) by (nonlinear_arith)
        requires
            e.den >= 1,
            s2.den >= 1,
            s1.num >= 1,
            s1.den >= 1,
            c == (e.den * s2.den * s1.num) * s1.den,
    ;
    lemma_cancel(b.num * a.den, a.num * b.den, c);
}

/// `a1 * s1 < a2 * s2` as rational values: the first quantity is smaller
/// once both are expressed in the reference unit.
pub open spec fn qty_lt_spec(a1: Rat, s1: Rat, a2: Rat, s2: Rat) -> bool {
    (a1.num * s1.num) * (a2.den * s2.den) < (a2.num * s2.num) * (a1.den * s1.den)
}

/// `a1 * s1 == a2 * s2` as rational values: the two quantities denote the
/// same magnitude of the underlying quantity.
pub open spec fn qty_eq_spec(a1: Rat, s1: Rat, a2: Rat, s2: Rat) -> bool {
    (a1.num * s1.num) * (a2.den * s2.den) == (a2.num * s2.num) * (a1.den * s1.den)
}

/// Compares two quantity values of the same quantity kind exactly,
/// whatever their units.
pub fn cmp_qty(a1: &Rat, s1: &Rat, a2: &Rat, s2: &Rat) -> (r: Ordering)
    requires
        rat_wf(*a1),
        rat_wf(*a2),
        scale_ok(*s1),
        scale_ok(*s2),
    ensures
        r == Ordering::Less <==> qty_lt_spec(*a1, *s1, *a2, *s2),
        r == Ordering::Equal <==> qty_eq_spec(*a1, *s1, *a2, *s2),
        r == Ordering::Greater <==> qty_lt_spec(*a2, *s2, *a1, *s1),
{
    proof {
        lemma_prod_bounds(*a1, *s1);
        lemma_prod_bounds(*a2, *s2);
    }
    let n1 = a1.num * s1.num;
    let d1 = a1.den * s1.den;
    let n2 = a2.num * s2.num;
    let d2 = a2.den * s2.den;
    let r = compare_frac(n1, d1, n2, d2);
    proof {
        if qty_eq_spec(*a2, *s2, *a1, *s1) || qty_lt_spec(*a2, *s2, *a1, *s1) || qty_lt_spec(
            *a1,
            *s1,
            *a2,
            *s2,
        ) {
        }
    }
    r
}

/// Componentwise products of two well-formed rationals stay within the
/// comparator's bounds.
proof fn lemma_prod_bounds(a: Rat, s: Rat)
    by (nonlinear_arith)
    requires
        rat_wf(a),
        rat_wf(s),
    ensures
        -0x40000000000000000000000000000000 < a.num * s.num < 0x40000000000000000000000000000000,
        1 <= a.den * s.den < 0x40000000000000000000000000000000,
{
}

/// `v` is the sum of `a1` (in a unit of scale `s1`) and `a2` (in a unit
/// of scale `s2`), expressed in the left operand's unit.
pub open spec fn is_sum_in_left(v: Rat, a1: Rat, s1: Rat, a2: Rat, s2: Rat) -> bool {
    v.num * (a1.den * (a2.den * s2.den * s1.num)) == (a1.num * (a2.den * s2.den * s1.num) + (
    a2.num * s2.num * s1.den) * a1.den) * v.den
}

/// `v` is the difference of `a1` and `a2`, expressed in the left
/// operand's unit.
pub open spec fn is_diff_in_left(v: Rat, a1: Rat, s1: Rat, a2: Rat, s2: Rat) -> bool {
    v.num * (a1.den * (a2.den * s2.den * s1.num)) == (a1.num * (a2.den * s2.den * s1.num) - (
    a2.num * s2.num * s1.den) * a1.den) * v.den
}

/// The combination of two amounts stays within bounds at every step.
pub open spec fn combine_in_range(a1: Rat, s1: Rat, a2: Rat, s2: Rat) -> bool {
    &&& scaled_in_range(a2, s2, s1)
    &&& rat_abs(a1.num as int) * (a2.den * s2.den * s1.num) + rat_abs(a2.num * s2.num * s1.den)
        * a1.den <= RAT_BOUND
    &&& a1.den * (a2.den * s2.den * s1.num) <= RAT_BOUND
}

/// A bounded equivalent amount keeps the checked sum and difference in
/// range.
proof fn lemma_combine_bounds(a1: Rat, s1: Rat, a2: Rat, s2: Rat, e: Rat)
    requires
        rat_wf(a1),
        rat_wf(a2),
        rat_wf(e),
        scale_ok(s1),
        scale_ok(s2),
        combine_in_range(a1, s1, a2, s2),
        rat_abs(e.num as int) <= rat_abs(a2.num * s2.num * s1.den),
        e.den <= a2.den * s2.den * s1.num,
    ensures
        -RAT_BOUND <= a1.num * e.den + e.num * a1.den <= RAT_BOUND,
        -RAT_BOUND <= a1.num * e.den - e.num * a1.den <= RAT_BOUND,
        a1.den * e.den <= RAT_BOUND,
{
    lemma_abs_mul_pos(a1.num as int, e.den as int);
    lemma_mul_le_pos_left(rat_abs(a1.num as int), e.den as int, a2.den * s2.den * s1.num);
    lemma_abs_mul_pos(e.num as int, a1.den as int);
    lemma_mul_le_pos(rat_abs(e.num as int), rat_abs(a2.num * s2.num * s1.den), a1.den as int);
    lemma_mul_le_pos_left(a1.den as int, e.den as int, a2.den * s2.den * s1.num);
}

/// Adds two quantity values; the result is expressed in the left
/// operand's unit.
pub fn add_qty(a1: &Rat, s1: &Rat, a2: &Rat, s2: &Rat) -> (r: Option<Rat>)
    requires
        rat_wf(*a1),
        rat_wf(*a2),
        scale_ok(*s1),
        scale_ok(*s2),
    ensures
        r matches Some(v) ==> rat_wf(v) && is_sum_in_left(v, *a1, *s1, *a2, *s2),
        combine_in_range(*a1, *s1, *a2, *s2) ==> r is Some,
{
    let e = match equiv_amount(a2, s2, s1) {
        Some(e) => e,
        None => {
            return None;
        },
    };
    let v = match a1.add(&e) {
        Some(v) => v,
        None => {
            proof {
                if combine_in_range(*a1, *s1, *a2, *s2) {
                    lemma_combine_bounds(*a1, *s1, *a2, *s2, e);
                }
            }
            return None;
        },
    };
    proof {
        lemma_sum_in_left(v, *a1, *s1, *a2, *s2, e);
    }
    Some(v)
}

/// Subtracts the second quantity value from the first; the result is
/// expressed in the left operand's unit.
pub fn sub_qty(a1: &Rat, s1: &Rat, a2: &Rat, s2: &Rat) -> (r: Option<Rat>)
    requires
        rat_wf(*a1),
        rat_wf(*a2),
        scale_ok(*s1),
        scale_ok(*s2),
    ensures
        r matches Some(v) ==> rat_wf(v) && is_diff_in_left(v, *a1, *s1, *a2, *s2),
        combine_in_range(*a1, *s1, *a2, *s2) ==> r is Some,
{
    let e = match equiv_amount(a2, s2, s1) {
        Some(e) => e,
        None => {
            return None;
        },
    };
    let v = match a1.sub(&e) {
        Some(v) => v,
        None => {
            proof {
                if combine_in_range(*a1, *s1, *a2, *s2) {
                    lemma_combine_bounds(*a1, *s1, *a2, *s2, e);
                }
            }
            return None;
        },
    };
    proof {
        lemma_diff_in_left(v, *a1, *s1, *a2, *s2, e);
    }
    Some(v)
}

/// Combines the equivalent-amount equation with the plain sum equation.
proof fn lemma_sum_in_left(v: Rat, a1: Rat, s1: Rat, a2: Rat, s2: Rat, e: Rat)
    requires
        rat_wf(v),
        rat_wf(a1),
        rat_wf(a2),
        rat_wf(e),
        scale_ok(s1),
        scale_ok(s2),
        is_scaled_of(e, a2, s2, s1),
        crate::rat::is_sum_of(v, a1, e),
    ensures
        is_sum_in_left(v, a1, s1, a2, s2),
{
    let c = a2.den * s2.den * s1.num;
    assert((v.num * (a1.den * c)) * e.den == (v.num * (a1.den * e.den)) * c) by (nonlinear_arith);
    lemma_mul_eq(v.num * (a1.den * e.den), (a1.num * e.den + e.num * a1.den) * v.den, c);
    lemma_distribute_sum(a1.num as int, e.den as int, e.num as int, a1.den as int, v.den as int, c);
    assert(((a1.num * e.den + e.num * a1.den) * v.den) * c == (a1.num * c) * (e.den * v.den) + (
    e.num * c) * (a1.den * v.den));
    lemma_mul_eq(e.num * (a2.den * s2.den * s1.num), (a2.num * s2.num * s1.den) * e.den,
        a1.den * v.den);
    lemma_distribute_sum(
        a1.num as int,
        c,
        (a2.num * s2.num * s1.den),
        a1.den as int,
        v.den as int,
        e.den as int,
    );
    lemma_mul4_pairs(a1.num as int, e.den as int, c, v.den as int);
    assert((a1.num * c) * (e.den * v.den) + ((a2.num * s2.num * s1.den) * e.den) * (a1.den * v.den)
        == ((a1.num * c + (a2.num * s2.num * s1.den) * a1.den) * v.den) * e.den);
    lemma_cancel(
        v.num * (a1.den * c),
        (a1.num * c + (a2.num * s2.num * s1.den) * a1.den) * v.den,
        e.den as int,
    );
}

/// Combines the equivalent-amount equation with the plain difference
/// equation.
proof fn lemma_diff_in_left(v: Rat, a1: Rat, s1: Rat, a2: Rat, s2: Rat, e: Rat)
    requires
        rat_wf(v),
        rat_wf(a1),
        rat_wf(a2),
        rat_wf(e),
        scale_ok(s1),
        scale_ok(s2),
        is_scaled_of(e, a2, s2, s1),
        crate::rat::is_diff_of(v, a1, e),
    ensures
        is_diff_in_left(v, a1, s1, a2, s2),
{
    let c = a2.den * s2.den * s1.num;
    assert((v.num * (a1.den * c)) * e.den == (v.num * (a1.den * e.den)) * c) by (nonlinear_arith);
    lemma_mul_eq(v.num * (a1.den * e.den), (a1.num * e.den - e.num * a1.den) * v.den, c);
    lemma_distribute_sum(a1.num as int, e.den as int, e.num as int, a1.den as int, v.den as int, c);
    assert(((a1.num * e.den - e.num * a1.den) * v.den) * c == (a1.num * c) * (e.den * v.den) - (
    e.num * c) * (a1.den * v.den));
    lemma_mul_eq(e.num * (a2.den * s2.den * s1.num), (a2.num * s2.num * s1.den) * e.den,
        a1.den * v.den);
    lemma_distribute_sum(
        a1.num as int,
        c,
        (a2.num * s2.num * s1.den),
        a1.den as int,
        v.den as int,
        e.den as int,
    );
    lemma_mul4_pairs(a1.num as int, e.den as int, c, v.den as int);
    assert((a1.num * c) * (e.den * v.den) - ((a2.num * s2.num * s1.den) * e.den) * (a1.den * v.den)
        == ((a1.num * c - (a2.num * s2.num * s1.den) * a1.den) * v.den) * e.den);
    lemma_cancel(
        v.num * (a1.den * c),
        (a1.num * c - (a2.num * s2.num * s1.den) * a1.den) * v.den,
        e.den as int,
    );
}

/// `v == (a1 * s1) / (a2 * s2)`: the dimensionless ratio of two quantity
/// values of the same quantity kind.
pub open spec fn is_ratio_of(v: Rat, a1: Rat, s1: Rat, a2: Rat, s2: Rat) -> bool {
    v.num * (a2.num * s2.num * a1.den * s1.den) == (a1.num * s1.num * a2.den * s2.den) * v.den
}

/// Divides the first quantity value by the second, yielding the
/// dimensionless ratio; `None` when the divisor is zero or a bound is
/// exceeded.
/// The ratio of two amounts stays within bounds at every step.
pub open spec fn ratio_in_range(a1: Rat, s1: Rat, a2: Rat, s2: Rat) -> bool {
    &&& scaled_in_range(a1, s1, s2)
    &&& a2.num != 0
    &&& rat_abs(a1.num * s1.num * s2.den) * a2.den <= RAT_BOUND
    &&& (a1.den * s1.den * s2.num) * rat_abs(a2.num as int) <= RAT_BOUND
}

pub fn div_qty(a1: &Rat, s1: &Rat, a2: &Rat, s2: &Rat) -> (r: Option<Rat>)
    requires
        rat_wf(*a1),
        rat_wf(*a2),
        scale_ok(*s1),
        scale_ok(*s2),
    ensures
        r matches Some(v) ==> rat_wf(v) && is_ratio_of(v, *a1, *s1, *a2, *s2),
        ratio_in_range(*a1, *s1, *a2, *s2) ==> r is Some,
{
    let e = match equiv_amount(a1, s1, s2) {
        Some(e) => e,
        None => {
            return None;
        },
    };
    let v = match e.div(a2) {
        Some(v) => v,
        None => {
            proof {
                if ratio_in_range(*a1, *s1, *a2, *s2) {
                    lemma_abs_mul_pos(e.num as int, a2.den as int);
                    lemma_mul_le_pos(
                        rat_abs(e.num as int),
                        rat_abs(a1.num * s1.num * s2.den),
                        a2.den as int,
                    );
                    lemma_mul_le_pos(
                        e.den as int,
                        a1.den * s1.den * s2.num,
                        rat_abs(a2.num as int),
                    );
                }
            }
            return None;
        },
    };
    proof {
        lemma_regroup_ratio(
            v.num as int,
            a2.num as int,
            s2.num as int,
            a1.den as int,
            s1.den as int,
            e.den as int,
        );
        lemma_mul_eq(v.num * (a2.num * e.den), (e.num * a2.den) * v.den,
            s2.num * (a1.den * s1.den));
        assert(((e.num * a2.den) * v.den) * (s2.num * (a1.den * s1.den)) == (e.num * (a1.den
            * s1.den * s2.num)) * (a2.den * v.den)) by (nonlinear_arith);
        lemma_mul_eq(e.num * (a1.den * s1.den * s2.num), (a1.num * s1.num * s2.den) * e.den,
            a2.den * v.den);
        assert(((a1.num * s1.num * s2.den) * e.den) * (a2.den * v.den) == ((a1.num * s1.num
            * a2.den * s2.den) * v.den) * e.den) by (nonlinear_arith);
        lemma_cancel(
            v.num * (a2.num * s2.num * a1.den * s1.den),
            (a1.num * s1.num * a2.den * s2.den) * v.den,
            e.den as int,
        );
    }
    Some(v)
}


/// Is the unit at index `j` taken into account? When the reference unit
/// carries an SI-prefix tag, only tagged units are.
pub open spec fn considered(t: Seq<UnitScale>, j: int, take_all: bool) -> bool {
    take_all || t[j].tagged
}

/// The table has at least one considered unit.
pub open spec fn has_considered(t: Seq<UnitScale>, take_all: bool) -> bool {
    exists|j: int| 0 <= j < t.len() && #[trigger] considered(t, j, take_all)
}

/// The first considered index at or after `j`; the length if none.
pub open spec fn first_considered_from(t: Seq<UnitScale>, take_all: bool, j: int) -> int
    decreases t.len() - j,
    when 0 <= j <= t.len()
{
    if j >= t.len() {
        t.len() as int
    } else if considered(t, j, take_all) {
        j
    } else {
        first_considered_from(t, take_all, j + 1)
    }
}

/// The first considered index of the table.
pub open spec fn first_considered(t: Seq<UnitScale>, take_all: bool) -> int {
    first_considered_from(t, take_all, 0)
}

/// A scan that stopped at the first considered index found it.
proof fn lemma_first_considered_is(t: Seq<UnitScale>, take_all: bool, f: int, j: int)
    requires
        0 <= j <= f < t.len(),
        considered(t, f, take_all),
        forall|k: int| 0 <= k < f ==> !#[trigger] considered(t, k, take_all),
    ensures
        first_considered_from(t, take_all, j) == f,
    decreases f - j,
{
    if j < f {
        lemma_first_considered_is(t, take_all, f, j + 1);
    }
}

/// The scale does not exceed the magnitude `|mn| / md`.
pub open spec fn scale_le_frac(s: Rat, mn: int, md: int) -> bool {
    s.num * md <= rat_abs(mn) * s.den
}

/// A candidate for the best-fit unit: considered, strictly above the
/// smallest considered scale, and no larger than the magnitude.
pub open spec fn fit_cand(t: Seq<UnitScale>, take_all: bool, mn: int, md: int, j: int) -> bool {
    let fc = first_considered(t, take_all);
    &&& 0 <= j < t.len()
    &&& considered(t, j, take_all)
    &&& rat_lt_spec(t[fc].scale, t[j].scale)
    &&& scale_le_frac(t[j].scale, mn, md)
}

/// The best-fit choice for the magnitude `|mn| / md`: the last candidate,
/// or the first considered unit when no candidate exists.
pub open spec fn is_fit_choice(
    t: Seq<UnitScale>,
    take_all: bool,
    mn: int,
    md: int,
    i: int,
) -> bool {
    if exists|j: int| fit_cand(t, take_all, mn, md, j) {
        fit_cand(t, take_all, mn, md, i) && forall|j: int|
            i < j < t.len() ==> !(#[trigger] fit_cand(t, take_all, mn, md, j))
    } else {
        i == first_considered(t, take_all)
    }
}

/// Selects the unit a raw magnitude fits best: scanning the considered
/// units in ascending-scale order, the last one whose scale is above the
/// smallest considered scale and does not exceed the magnitude, or the
/// smallest considered unit if there is none.
#[verifier::loop_isolation(false)]
pub fn fit_index(tab: &Vec<UnitScale>, take_all: bool, mnum: i128, mden: i128) -> (i: usize)
    requires
        unit_tab_wf(tab@),
        has_considered(tab@, take_all),
        1 <= mden < 0x40000000000000000000000000000000,
        -0x40000000000000000000000000000000 < mnum < 0x40000000000000000000000000000000,
    ensures
        0 <= i < tab@.len(),
        considered(tab@, i as int, take_all),
        is_fit_choice(tab@, take_all, mnum as int, mden as int, i as int),
{
    let am = if mnum < 0 {
        -mnum
    } else {
        mnum
    };
    let n = tab.len();
    let mut f: usize = 0;
    while !(take_all || tab[f].tagged)
        invariant
            0 <= f < n,
            n == tab@.len(),
            forall|k: int| 0 <= k < f ==> !#[trigger] considered(tab@, k, take_all),
        decreases tab@.len() - f,
    {
        proof {
            let w = choose|j: int| 0 <= j < tab@.len() && #[trigger] considered(tab@, j, take_all);
            assert(w > f);
        }
        f += 1;
    }
    proof {
        lemma_first_considered_is(tab@, take_all, f as int, 0);
    }
    let ghost fc = f as int;
    let mut best: usize = f;
    let mut j: usize = f + 1;
    while j < tab.len()
        invariant
            fc < j,
            best == fc || fit_cand(tab@, take_all, mnum as int, mden as int, best as int),
            best < j,
            forall|k: int|
                best < k < j ==> !(#[trigger] fit_cand(tab@, take_all, mnum as int, mden as int, k)),
            best == fc ==> forall|k: int|
                0 <= k < j ==> !(#[trigger] fit_cand(tab@, take_all, mnum as int, mden as int, k)),
        decreases tab@.len() - j,
    {
        let is_considered = take_all || tab[j].tagged;
        if is_considered {
            let above_first = !tab[j].scale.le_val(&tab[f].scale);
            if above_first {
                let within = match compare_frac(tab[j].scale.num, tab[j].scale.den, am, mden) {
                    Ordering::Greater => false,
                    _ => true,
                };
                proof {
                    assert(rat_abs(mnum as int) == am as int);
                }
                if within {
                    best = j;
                }
            }
        }
        j += 1;
    }
    proof {
        if best == fc {
            assert forall|k: int| !fit_cand(
                tab@,
                take_all,
                mnum as int,
                mden as int,
                k,
            ) by {
                if 0 <= k < tab@.len() {
                }
            }
        }
        assert(!rat_lt_spec(tab@[fc].scale, tab@[fc].scale));
    }
    best
}

/// `fit` is idempotent on a magnitude already exactly expressible in a
/// considered unit with no equal-scale twin: handing a unit's own scale
/// to the best-fit search selects that unit.
pub proof fn lemma_fit_idempotent(t: Seq<UnitScale>, take_all: bool, u: int, i: int)
    requires
        unit_tab_wf(t),
        has_considered(t, take_all),
        0 <= u < t.len(),
        considered(t, u, take_all),
        forall|j: int|
            0 <= j < t.len() && j != u && #[trigger] considered(t, j, take_all) ==> !rat_eq_spec(
                t[j].scale,
                t[u].scale,
            ),
        is_fit_choice(t, take_all, t[u].scale.num as int, t[u].scale.den as int, i),
    ensures
        i == u,
{
    let fc = first_considered(t, take_all);
    lemma_first_considered_in_range(t, take_all);
    let mn = t[u].scale.num as int;
    let md = t[u].scale.den as int;
    assert(rat_abs(mn) == mn);
    assert(scale_le_frac(t[u].scale, mn, md));
    if u == fc {
        assert forall|j: int| !fit_cand(t, take_all, mn, md, j) by {
            if 0 <= j < t.len() && considered(t, j, take_all) && rat_lt_spec(
                t[fc].scale,
                t[j].scale,
            ) {
                // a candidate is strictly above the magnitude's own scale
                if scale_le_frac(t[j].scale, mn, md) {
                    assert(rat_le_spec(t[j].scale, t[u].scale));
                    assert(rat_eq_spec(t[j].scale, t[u].scale));
                }
            }
        }
    } else {
        assert(fc < u || u < fc || fc == u);
        if u < fc {
            assert(!considered(t, u, take_all)) by {
                lemma_first_considered_none_before(t, take_all, u);
            }
        }
        assert(fc < u);
        assert(rat_le_spec(t[fc].scale, t[u].scale));
        assert(considered(t, fc, take_all)) by {
            lemma_first_considered_in_range(t, take_all);
        }
        assert(!rat_eq_spec(t[fc].scale, t[u].scale));
        assert(rat_lt_spec(t[fc].scale, t[u].scale));
        assert(fit_cand(t, take_all, mn, md, u));
        assert(fit_cand(t, take_all, mn, md, i) && forall|j: int|
            i < j < t.len() ==> !(#[trigger] fit_cand(t, take_all, mn, md, j)));
        if i < u {
            assert(!fit_cand(t, take_all, mn, md, u));
        }
        if u < i {
            // the later candidate's scale sits between u's and the magnitude
            assert(rat_le_spec(t[u].scale, t[i].scale));
            assert(scale_le_frac(t[i].scale, mn, md));
            assert(rat_le_spec(t[i].scale, t[u].scale));
            assert(rat_eq_spec(t[i].scale, t[u].scale));
        }
    }
}

/// The first considered index is a considered index when one exists.
proof fn lemma_first_considered_in_range(t: Seq<UnitScale>, take_all: bool)
    requires
        has_considered(t, take_all),
    ensures
        0 <= first_considered(t, take_all) < t.len(),
        considered(t, first_considered(t, take_all), take_all),
        forall|k: int|
            0 <= k < first_considered(t, take_all) ==> !#[trigger] considered(t, k, take_all),
{
    lemma_first_considered_props(t, take_all, 0);
}

/// Properties of the scan from position `j`.
proof fn lemma_first_considered_props(t: Seq<UnitScale>, take_all: bool, j: int)
    requires
        0 <= j <= t.len(),
        exists|k: int| j <= k < t.len() && #[trigger] considered(t, k, take_all),
    ensures
        j <= first_considered_from(t, take_all, j) < t.len(),
        considered(t, first_considered_from(t, take_all, j), take_all),
        forall|k: int|
            j <= k < first_considered_from(t, take_all, j) ==> !(#[trigger] considered(
                t,
                k,
                take_all,
            )),
    decreases t.len() - j,
{
    if !considered(t, j, take_all) {
        let w = choose|k: int| j <= k < t.len() && #[trigger] considered(t, k, take_all);
        assert(j + 1 <= w);
        lemma_first_considered_props(t, take_all, j + 1);
    }
}

/// No index before the first considered one is considered.
proof fn lemma_first_considered_none_before(t: Seq<UnitScale>, take_all: bool, u: int)
    requires
        has_considered(t, take_all),
        0 <= u < first_considered(t, take_all),
    ensures
        !considered(t, u, take_all),
{
    lemma_first_considered_in_range(t, take_all);
}


/// Two integer fractions denote the same value.
pub open spec fn frac_eq(n1: int, d1: int, n2: int, d2: int) -> bool {
    n1 * d2 == n2 * d1
}

/// Transitivity of fraction equality through a fraction with a nonzero
/// denominator.
pub proof fn lemma_frac_trans(n1: int, d1: int, n2: int, d2: int, n3: int, d3: int)
    requires
        frac_eq(n1, d1, n2, d2),
        frac_eq(n2, d2, n3, d3),
        d2 != 0,
    ensures
        frac_eq(n1, d1, n3, d3),
{
    lemma_mul_eq(n1 * d2, n2 * d1, d3);
    lemma_mul_eq(n2 * d3, n3 * d2, d1);
    assert((n2 * d1) * d3 == (n2 * d3) * d1) by (nonlinear_arith);
    assert((n1 * d2) * d3 == (n1 * d3) * d2) by (nonlinear_arith);
    assert((n3 * d2) * d1 == (n3 * d1) * d2) by (nonlinear_arith);
    assert((n1 * d3) * d2 == (n3 * d1) * d2);
    lemma_cancel_nonzero(n1 * d3, n3 * d1, d2);
}

/// Cancellation of a nonzero factor.
proof fn lemma_cancel_nonzero(a: int, b: int, c: int)
    by (nonlinear_arith)
    requires
        a * c == b * c,
        c != 0,
    ensures
        a == b,
{
}

/// Pairwise regrouping of a product of four factors.
proof fn lemma_mul4_pairs(a: int, b: int, c: int, d: int)
    by (nonlinear_arith)
    ensures
        (a * b) * (c * d) == (a * c) * (b * d),
{
}

/// Multiplying two fraction equalities gives the equality of the products.
pub proof fn lemma_frac_mul_cong(
    na: int,
    da: int,
    nb: int,
    db: int,
    nc: int,
    dc: int,
    nd: int,
    dd: int,
)
    requires
        frac_eq(na, da, nb, db),
        frac_eq(nc, dc, nd, dd),
    ensures
        frac_eq(na * nc, da * dc, nb * nd, db * dd),
{
    lemma_mul_eq(na * db, nb * da, nc * dd);
    lemma_mul_eq(nc * dd, nd * dc, nb * da);
    assert((nc * dd) * (nb * da) == (nb * da) * (nc * dd)) by (nonlinear_arith);
    assert((na * db) * (nc * dd) == (nd * dc) * (nb * da)) by {
        assert((nb * da) * (nc * dd) == (nd * dc) * (nb * da)) by (nonlinear_arith)
            requires
                (nc * dd) * (nb * da) == (nd * dc) * (nb * da),
        ;
    }
    lemma_mul4_pairs(na, db, nc, dd);
    lemma_mul4_pairs(nd, dc, nb, da);
    assert((na * nc) * (db * dd) == (nd * dc) * (nb * da));
    assert((nd * dc) * (nb * da) == (nd * nb) * (dc * da)) by (nonlinear_arith);
    assert((nd * nb) * (dc * da) == (nb * nd) * (da * dc)) by (nonlinear_arith);
}

/// The numerator of the product of two quantity values, as a fraction
/// over [`prod_den`].
pub open spec fn prod_num(a1: Rat, s1: Rat, a2: Rat, s2: Rat) -> int {
    (a1.num * a2.num) * (s1.num * s2.num)
}

/// The (positive) denominator of the product of two quantity values.
pub open spec fn prod_den(a1: Rat, s1: Rat, a2: Rat, s2: Rat) -> int {
    (a1.den * a2.den) * (s1.den * s2.den)
}

/// The result amount `am`, in the unit with scale `sc`, denotes exactly
/// the product of the two quantity values.
pub open spec fn is_prod_result(am: Rat, sc: Rat, a1: Rat, s1: Rat, a2: Rat, s2: Rat) -> bool {
    frac_eq(am.num * sc.num, am.den * sc.den, prod_num(a1, s1, a2, s2), prod_den(a1, s1, a2, s2))
}

/// The result amount `am`, in the unit with scale `sc`, denotes exactly
/// the quotient of the two quantity values.
pub open spec fn is_quot_result(am: Rat, sc: Rat, a1: Rat, s1: Rat, a2: Rat, s2: Rat) -> bool {
    (am.num * sc.num) * ((a2.num * a1.den) * (s1.den * s2.num)) == ((a1.num * a2.den) * (s1.num
        * s2.den)) * (am.den * sc.den)
}

/// The first index whose scale equals the fraction `sn / sd`, if any.
pub open spec fn lookup_spec(t: Seq<UnitScale>, sn: int, sd: int) -> Option<int>
    decreases t.len(),
{
    if t.len() == 0 {
        None
    } else if frac_eq(t[0].scale.num as int, t[0].scale.den as int, sn, sd) {
        Some(0)
    } else {
        match lookup_spec(t.drop_first(), sn, sd) {
            Some(i) => Some(i + 1),
            None => None,
        }
    }
}

/// Looks up the first unit whose scale equals `sn / sd` exactly.
#[verifier::loop_isolation(false)]
pub fn lookup_scale(tab: &Vec<UnitScale>, sn: i128, sd: i128) -> (r: Option<usize>)
    requires
        unit_tab_wf(tab@),
        1 <= sd < 0x40000000000000000000000000000000,
        -0x40000000000000000000000000000000 < sn < 0x40000000000000000000000000000000,
    ensures
        r matches Some(i) ==> 0 <= i < tab@.len() && lookup_spec(tab@, sn as int, sd as int)
            == Some(i as int),
        r is None ==> lookup_spec(tab@, sn as int, sd as int) is None,
{
    let mut i: usize = 0;
    while i < tab.len()
        invariant
            0 <= i <= tab@.len(),
            lookup_from(tab@, sn as int, sd as int, 0) == lookup_from(
                tab@,
                sn as int,
                sd as int,
                i as int,
            ),
            forall|k: int|
                0 <= k < i ==> !frac_eq(
                    (#[trigger] tab@[k]).scale.num as int,
                    tab@[k].scale.den as int,
                    sn as int,
                    sd as int,
                ),
        decreases tab@.len() - i,
    {
        let found = match compare_frac(tab[i].scale.num, tab[i].scale.den, sn, sd) {
            Ordering::Equal => true,
            _ => false,
        };
        if found {
            proof {
                lemma_lookup_from_here(tab@, sn as int, sd as int, i as int);
                lemma_lookup_is_from(tab@, sn as int, sd as int);
            }
            return Some(i);
        }
        proof {
            lemma_lookup_from_skip(tab@, sn as int, sd as int, i as int);
        }
        i += 1;
    }
    proof {
        lemma_lookup_from_end(tab@, sn as int, sd as int);
        lemma_lookup_is_from(tab@, sn as int, sd as int);
    }
    None
}

/// The scan position view of `lookup_spec`.
pub open spec fn lookup_from(t: Seq<UnitScale>, sn: int, sd: int, j: int) -> Option<int>
    decreases t.len() - j,
    when 0 <= j <= t.len()
{
    if j >= t.len() {
        None
    } else if frac_eq(t[j].scale.num as int, t[j].scale.den as int, sn, sd) {
        Some(j)
    } else {
        lookup_from(t, sn, sd, j + 1)
    }
}

/// `lookup_spec` agrees with the scan from the front.
proof fn lemma_lookup_is_from(t: Seq<UnitScale>, sn: int, sd: int)
    ensures
        lookup_spec(t, sn, sd) == lookup_from(t, sn, sd, 0),
    decreases t.len(),
{
    if t.len() > 0 {
        lemma_lookup_is_from(t.drop_first(), sn, sd);
        lemma_lookup_shift(t, sn, sd, 0);
    }
}

/// Scanning the tail shifted by one matches scanning the whole from 1.
proof fn lemma_lookup_shift(t: Seq<UnitScale>, sn: int, sd: int, j: int)
    requires
        0 <= j <= t.len() - 1,
    ensures
        lookup_from(t, sn, sd, j + 1) == match lookup_from(t.drop_first(), sn, sd, j) {
            Some(i) => Some(i + 1),
            None => None,
        },
    decreases t.len() - j,
{
    if j < t.len() - 1 {
        assert(t.drop_first()[j] == t[j + 1]);
        lemma_lookup_shift(t, sn, sd, j + 1);
    }
}

/// A hit at the scan position is the scan's result.
proof fn lemma_lookup_from_here(t: Seq<UnitScale>, sn: int, sd: int, j: int)
    requires
        0 <= j < t.len(),
        frac_eq(t[j].scale.num as int, t[j].scale.den as int, sn, sd),
    ensures
        lookup_from(t, sn, sd, j) == Some(j),
{
}

/// A miss advances the scan.
proof fn lemma_lookup_from_skip(t: Seq<UnitScale>, sn: int, sd: int, j: int)
    requires
        0 <= j < t.len(),
        !frac_eq(t[j].scale.num as int, t[j].scale.den as int, sn, sd),
    ensures
        lookup_from(t, sn, sd, j) == lookup_from(t, sn, sd, j + 1),
{
}

/// A scan past the end finds nothing.
proof fn lemma_lookup_from_end(t: Seq<UnitScale>, sn: int, sd: int)
    ensures
        lookup_from(t, sn, sd, t.len() as int) is None,
{
}


/// The derived product stays within bounds at every step, whichever unit
/// the table yields.
pub open spec fn mul_in_range(a1: Rat, s1: Rat, a2: Rat, s2: Rat, t: Seq<UnitScale>) -> bool {
    &&& -RAT_BOUND <= a1.num * a2.num <= RAT_BOUND
    &&& a1.den * a2.den <= RAT_BOUND
    &&& -RAT_BOUND <= s1.num * s2.num <= RAT_BOUND
    &&& s1.den * s2.den <= RAT_BOUND
    &&& -RAT_BOUND <= prod_num(a1, s1, a2, s2) <= RAT_BOUND
    &&& prod_den(a1, s1, a2, s2) <= RAT_BOUND
    &&& forall|k: int|
        0 <= k < t.len() ==> rat_abs(prod_num(a1, s1, a2, s2)) * (#[trigger] t[k]).scale.den
            <= RAT_BOUND && prod_den(a1, s1, a2, s2) * t[k].scale.num <= RAT_BOUND
}

/// Derived multiplication of two quantity values: if some unit's scale is
/// exactly the product of the operand unit scales, the result keeps the
/// product of the amounts in that unit; otherwise the product magnitude,
/// expressed in the reference unit, is handed to the best-fit search.
#[verifier::loop_isolation(false)]
pub fn qty_mul(
    a1: &Rat,
    s1: &Rat,
    a2: &Rat,
    s2: &Rat,
    tab: &Vec<UnitScale>,
    take_all: bool,
) -> (r: Option<(Rat, usize)>)
    requires
        rat_wf(*a1),
        rat_wf(*a2),
        scale_ok(*s1),
        scale_ok(*s2),
        unit_tab_wf(tab@),
        has_considered(tab@, take_all),
    ensures
        r matches Some(p) ==> {
            &&& 0 <= p.1 < tab@.len()
            &&& rat_wf(p.0)
            &&& is_prod_result(p.0, tab@[p.1 as int].scale, *a1, *s1, *a2, *s2)
            &&& match lookup_spec(tab@, s1.num * s2.num, s1.den * s2.den) {
                Some(j) => p.1 as int == j,
                None => is_fit_choice(
                    tab@,
                    take_all,
                    prod_num(*a1, *s1, *a2, *s2),
                    prod_den(*a1, *s1, *a2, *s2),
                    p.1 as int,
                ),
            }
        },
        mul_in_range(*a1, *s1, *a2, *s2, tab@) ==> r is Some,
{
    proof {
        lemma_prod_bounds(*s1, *s2);
    }
    let ghost ok = mul_in_range(*a1, *s1, *a2, *s2, tab@);
    let sn = s1.num * s2.num;
    let sd = s1.den * s2.den;
    match lookup_scale(tab, sn, sd) {
        Some(i) => {
            let am = match a1.mul(a2) {
                Some(am) => am,
                None => {
                    return None;
                },
            };
            proof {
                let sc = tab@[i as int].scale;
                // the chosen scale equals s1 * s2, and am equals a1 * a2;
                // multiplying the two fraction equalities gives the result.
                lemma_lookup_scale_hit(tab@, sn as int, sd as int, i as int);
                lemma_frac_mul_cong(
                    am.num as int,
                    am.den as int,
                    a1.num * a2.num,
                    a1.den * a2.den,
                    sc.num as int,
                    sc.den as int,
                    sn as int,
                    sd as int,
                );
            }
            Some((am, i))
        },
        None => {
            let q = match a1.mul(a2) {
                Some(q) => q,
                None => {
                    return None;
                },
            };
            let sprod = match rat_make(sn, sd) {
                Some(sprod) => sprod,
                None => {
                    return None;
                },
            };
            proof {
                if ok {
                    assert(1 <= s1.num * s2.num && 1 <= s1.den * s2.den) by (nonlinear_arith)
                        requires
                            scale_ok(*s1),
                            scale_ok(*s2),
                    ;
                    lemma_mul_stage_bounds(*a1, *s1, *a2, *s2, q, sprod, sn as int, sd as int);
                }
            }
            let m2 = match q.mul(&sprod) {
                Some(m2) => m2,
                None => {
                    return None;
                },
            };
            let i = fit_index(tab, take_all, m2.num, m2.den);
            proof {
                if ok {
                    lemma_mul_final_bounds(
                        *a1,
                        *s1,
                        *a2,
                        *s2,
                        q,
                        sprod,
                        m2,
                        tab@[i as int].scale,
                        sn as int,
                        sd as int,
                    );
                }
            }
            let am = match m2.div(&tab[i].scale) {
                Some(am) => am,
                None => {
                    return None;
                },
            };
            proof {
                let sc = tab@[i as int].scale;
                // m2 == (a1 * a2) * (s1 * s2) as a value
                lemma_frac_mul_cong(
                    q.num as int,
                    q.den as int,
                    a1.num * a2.num,
                    a1.den * a2.den,
                    sprod.num as int,
                    sprod.den as int,
                    sn as int,
                    sd as int,
                );
                lemma_frac_trans(
                    m2.num as int,
                    m2.den as int,
                    q.num * sprod.num,
                    q.den * sprod.den,
                    (a1.num * a2.num) * (sn as int),
                    (a1.den * a2.den) * (sd as int),
                );
                assert(prod_num(*a1, *s1, *a2, *s2) == (a1.num * a2.num) * (sn as int));
                assert(prod_den(*a1, *s1, *a2, *s2) == (a1.den * a2.den) * (sd as int));
                // am * sc == m2 as a value
                lemma_mul4_pairs(am.num as int, sc.num as int, 1, m2.den as int);
                assert((am.num * sc.num) * m2.den == m2.num * (am.den * sc.den)) by {
                    assert(am.num * (sc.num * m2.den) == (m2.num * sc.den) * am.den);
                    assert((am.num * sc.num) * m2.den == am.num * (sc.num * m2.den))
                        by (nonlinear_arith);
                    assert((m2.num * sc.den) * am.den == m2.num * (am.den * sc.den))
                        by (nonlinear_arith);
                }
                lemma_frac_trans(
                    am.num * sc.num,
                    am.den * sc.den,
                    m2.num as int,
                    m2.den as int,
                    prod_num(*a1, *s1, *a2, *s2),
                    prod_den(*a1, *s1, *a2, *s2),
                );
                // the fit choice is taken on m2, which denotes the same
                // magnitude as the product fraction
                assert(prod_den(*a1, *s1, *a2, *s2) >= 1) by (nonlinear_arith)
                    requires
                        a1.den >= 1,
                        a2.den >= 1,
                        s1.den >= 1,
                        s2.den >= 1,
                        prod_den(*a1, *s1, *a2, *s2) == (a1.den * a2.den) * (s1.den * s2.den),
                ;
                lemma_fit_choice_frac_eq(
                    tab@,
                    take_all,
                    m2.num as int,
                    m2.den as int,
                    prod_num(*a1, *s1, *a2, *s2),
                    prod_den(*a1, *s1, *a2, *s2),
                    i as int,
                );
            }
            Some((am, i))
        },
    }
}

/// Within `mul_in_range`, the product of the reduced amount and scale
/// factors stays in bounds.
proof fn lemma_mul_stage_bounds(
    a1: Rat,
    s1: Rat,
    a2: Rat,
    s2: Rat,
    q: Rat,
    sprod: Rat,
    sn: int,
    sd: int,
)
    requires
        rat_wf(a1),
        rat_wf(a2),
        scale_ok(s1),
        scale_ok(s2),
        rat_wf(q),
        rat_wf(sprod),
        sn == s1.num * s2.num,
        sd == s1.den * s2.den,
        1 <= sn,
        rat_abs(q.num as int) <= rat_abs(a1.num * a2.num),
        q.den <= a1.den * a2.den,
        -sn <= sprod.num <= sn,
        sprod.den <= sd,
        -RAT_BOUND <= prod_num(a1, s1, a2, s2) <= RAT_BOUND,
        prod_den(a1, s1, a2, s2) <= RAT_BOUND,
    ensures
        -RAT_BOUND <= q.num * sprod.num <= RAT_BOUND,
        q.den * sprod.den <= RAT_BOUND,
        rat_abs(q.num * sprod.num) <= rat_abs(prod_num(a1, s1, a2, s2)),
        q.den * sprod.den <= prod_den(a1, s1, a2, s2),
{
    assert(rat_abs(q.num * sprod.num) <= rat_abs(a1.num * a2.num) * sn) by (nonlinear_arith)
        requires
            rat_abs(q.num as int) <= rat_abs(a1.num * a2.num),
            -sn <= sprod.num <= sn,
            1 <= sn,
    ;
    assert(rat_abs(a1.num * a2.num) * sn == rat_abs(prod_num(a1, s1, a2, s2)))
        by (nonlinear_arith)
        requires
            sn == s1.num * s2.num,
            1 <= sn,
            prod_num(a1, s1, a2, s2) == (a1.num * a2.num) * (s1.num * s2.num),
    ;
    assert(q.den * sprod.den <= (a1.den * a2.den) * sd) by (nonlinear_arith)
        requires
            q.den <= a1.den * a2.den,
            1 <= sprod.den <= sd,
            1 <= q.den,
    ;
    assert((a1.den * a2.den) * sd == prod_den(a1, s1, a2, s2));
    assert(rat_abs(q.num * sprod.num) <= RAT_BOUND);
    assert(-RAT_BOUND <= q.num * sprod.num <= RAT_BOUND);
}

/// Within `mul_in_range`, the final division by the chosen unit's scale
/// stays in bounds.
proof fn lemma_mul_final_bounds(
    a1: Rat,
    s1: Rat,
    a2: Rat,
    s2: Rat,
    q: Rat,
    sprod: Rat,
    m2: Rat,
    sc: Rat,
    sn: int,
    sd: int,
)
    requires
        rat_wf(m2),
        scale_ok(sc),
        rat_abs(m2.num as int) <= rat_abs(q.num * sprod.num),
        m2.den <= q.den * sprod.den,
        rat_abs(q.num * sprod.num) <= rat_abs(prod_num(a1, s1, a2, s2)),
        q.den * sprod.den <= prod_den(a1, s1, a2, s2),
        rat_abs(prod_num(a1, s1, a2, s2)) * sc.den <= RAT_BOUND,
        prod_den(a1, s1, a2, s2) * sc.num <= RAT_BOUND,
    ensures
        -RAT_BOUND <= m2.num * sc.den <= RAT_BOUND,
        m2.den * rat_abs(sc.num as int) <= RAT_BOUND,
{
    lemma_abs_mul_pos(m2.num as int, sc.den as int);
    lemma_mul_le_pos(rat_abs(m2.num as int), rat_abs(prod_num(a1, s1, a2, s2)), sc.den as int);
    assert(rat_abs(sc.num as int) == sc.num);
    lemma_mul_le_pos(m2.den as int, prod_den(a1, s1, a2, s2), sc.num as int);
}

/// A successful lookup returns an index whose scale equals the fraction.
proof fn lemma_lookup_scale_hit(t: Seq<UnitScale>, sn: int, sd: int, i: int)
    requires
        lookup_spec(t, sn, sd) == Some(i),
    ensures
        0 <= i < t.len(),
        frac_eq(t[i].scale.num as int, t[i].scale.den as int, sn, sd),
    decreases t.len(),
{
    if t.len() > 0 {
        if !frac_eq(t[0].scale.num as int, t[0].scale.den as int, sn, sd) {
            lemma_lookup_scale_hit(t.drop_first(), sn, sd, i - 1);
            assert(t.drop_first()[i - 1] == t[i]);
        }
    }
}

/// The best-fit choice depends on the magnitude only through its value:
/// equal fractions with positive denominators give the same choice.
proof fn lemma_fit_choice_frac_eq(
    t: Seq<UnitScale>,
    take_all: bool,
    n1: int,
    d1: int,
    n2: int,
    d2: int,
    i: int,
)
    requires
        unit_tab_wf(t),
        frac_eq(n1, d1, n2, d2),
        d1 >= 1,
        d2 >= 1,
        is_fit_choice(t, take_all, n1, d1, i),
    ensures
        is_fit_choice(t, take_all, n2, d2, i),
{
    assert(rat_abs(n1) * d2 == rat_abs(n2) * d1) by (nonlinear_arith)
        requires
            n1 * d2 == n2 * d1,
            d1 >= 1,
            d2 >= 1,
    ;
    assert forall|j: int| #[trigger] fit_cand(t, take_all, n1, d1, j) implies fit_cand(
        t,
        take_all,
        n2,
        d2,
        j,
    ) by {
        lemma_scale_le_frac_eq(t[j].scale, n1, d1, n2, d2);
    }
    assert forall|j: int| #[trigger] fit_cand(t, take_all, n2, d2, j) implies fit_cand(
        t,
        take_all,
        n1,
        d1,
        j,
    ) by {
        lemma_scale_le_frac_eq(t[j].scale, n1, d1, n2, d2);
    }
    if exists|j: int| #[trigger] fit_cand(t, take_all, n1, d1, j) {
        let w = choose|j: int| #[trigger] fit_cand(t, take_all, n1, d1, j);
        assert(fit_cand(t, take_all, n2, d2, w));
        assert(fit_cand(t, take_all, n2, d2, i));
        assert forall|j: int| i < j < t.len() implies !(#[trigger] fit_cand(
            t,
            take_all,
            n2,
            d2,
            j,
        )) by {
            assert(!fit_cand(t, take_all, n1, d1, j));
        }
    } else {
        if exists|j: int| #[trigger] fit_cand(t, take_all, n2, d2, j) {
            let w = choose|j: int| #[trigger] fit_cand(t, take_all, n2, d2, j);
            assert(fit_cand(t, take_all, n1, d1, w));
        }
    }
}

/// Whether a scale stays below a magnitude depends only on the
/// magnitude's value.
proof fn lemma_scale_le_frac_eq(s: Rat, n1: int, d1: int, n2: int, d2: int)
    by (nonlinear_arith)
    requires
        rat_abs(n1) * d2 == rat_abs(n2) * d1,
        d1 >= 1,
        d2 >= 1,
        s.den >= 1,
    ensures
        scale_le_frac(s, n1, d1) == scale_le_frac(s, n2, d2),
{
}


/// The numerator of the quotient of two quantity values, sign-normalized
/// so that [`quot_den`] is positive.
pub open spec fn quot_num(a1: Rat, s1: Rat, a2: Rat, s2: Rat) -> int {
    if a2.num < 0 {
        -((a1.num * a2.den) * (s1.num * s2.den))
    } else {
        (a1.num * a2.den) * (s1.num * s2.den)
    }
}

/// The (positive, when the divisor is nonzero) denominator of the
/// quotient of two quantity values.
pub open spec fn quot_den(a1: Rat, s1: Rat, a2: Rat, s2: Rat) -> int {
    if a2.num < 0 {
        -((a1.den * a2.num) * (s1.den * s2.num))
    } else {
        (a1.den * a2.num) * (s1.den * s2.num)
    }
}

/// The derived quotient stays within bounds at every step, whichever
/// unit the table yields.
pub open spec fn quot_abs_den(a1: Rat, s1: Rat, a2: Rat, s2: Rat) -> int {
    (a1.den * rat_abs(a2.num as int)) * (s1.den * s2.num)
}

/// The derived quotient stays within bounds at every step.
pub open spec fn div_in_range(a1: Rat, s1: Rat, a2: Rat, s2: Rat, t: Seq<UnitScale>) -> bool {
    &&& a2.num != 0
    &&& -RAT_BOUND <= a1.num * a2.den <= RAT_BOUND
    &&& a1.den * rat_abs(a2.num as int) <= RAT_BOUND
    &&& s1.num * s2.den <= RAT_BOUND
    &&& s1.den * s2.num <= RAT_BOUND
    &&& -RAT_BOUND <= (a1.num * a2.den) * (s1.num * s2.den) <= RAT_BOUND
    &&& quot_abs_den(a1, s1, a2, s2) <= RAT_BOUND
    &&& forall|k: int|
        0 <= k < t.len() ==> rat_abs((a1.num * a2.den) * (s1.num * s2.den)) * (#[trigger] t[k])
            .scale.den <= RAT_BOUND && quot_abs_den(a1, s1, a2, s2) * t[k].scale.num <= RAT_BOUND
}

/// Within bounds, the final division by the chosen unit's scale succeeds.
pub proof fn lemma_final_div_bounds(m2: Rat, sc: Rat, na: int, d: int)
    requires
        rat_wf(m2),
        scale_ok(sc),
        0 <= na,
        rat_abs(m2.num as int) <= na,
        m2.den <= d,
        na * sc.den <= RAT_BOUND,
        d * sc.num <= RAT_BOUND,
    ensures
        -RAT_BOUND <= m2.num * sc.den <= RAT_BOUND,
        m2.den * rat_abs(sc.num as int) <= RAT_BOUND,
{
    lemma_abs_mul_pos(m2.num as int, sc.den as int);
    lemma_mul_le_pos(rat_abs(m2.num as int), na, sc.den as int);
    assert(rat_abs(sc.num as int) == sc.num);
    lemma_mul_le_pos(m2.den as int, d, sc.num as int);
}

/// Within `div_in_range`, the product of the reduced ratio and scale
/// factors stays in bounds.
proof fn lemma_div_stage_bounds(
    a1: Rat,
    s1: Rat,
    a2: Rat,
    s2: Rat,
    q: Rat,
    squot: Rat,
    sn: int,
    sd: int,
)
    requires
        rat_wf(a1),
        rat_wf(a2),
        scale_ok(s1),
        scale_ok(s2),
        rat_wf(q),
        rat_wf(squot),
        sn == s1.num * s2.den,
        sd == s1.den * s2.num,
        1 <= sn,
        1 <= sd,
        rat_abs(q.num as int) <= rat_abs(a1.num * a2.den),
        q.den <= a1.den * rat_abs(a2.num as int),
        -sn <= squot.num <= sn,
        squot.den <= sd,
        -RAT_BOUND <= (a1.num * a2.den) * (s1.num * s2.den) <= RAT_BOUND,
        quot_abs_den(a1, s1, a2, s2) <= RAT_BOUND,
    ensures
        -RAT_BOUND <= q.num * squot.num <= RAT_BOUND,
        q.den * squot.den <= RAT_BOUND,
        rat_abs(q.num * squot.num) <= rat_abs((a1.num * a2.den) * (s1.num * s2.den)),
        q.den * squot.den <= quot_abs_den(a1, s1, a2, s2),
{
    assert(rat_abs(q.num * squot.num) <= rat_abs(a1.num * a2.den) * sn) by (nonlinear_arith)
        requires
            rat_abs(q.num as int) <= rat_abs(a1.num * a2.den),
            -sn <= squot.num <= sn,
            1 <= sn,
    ;
    assert(rat_abs(a1.num * a2.den) * sn == rat_abs((a1.num * a2.den) * (s1.num * s2.den)))
        by (nonlinear_arith)
        requires
            sn == s1.num * s2.den,
            1 <= sn,
    ;
    assert(q.den * squot.den <= (a1.den * rat_abs(a2.num as int)) * sd) by (nonlinear_arith)
        requires
            q.den <= a1.den * rat_abs(a2.num as int),
            1 <= squot.den <= sd,
            1 <= q.den,
    ;
    assert((a1.den * rat_abs(a2.num as int)) * sd == quot_abs_den(a1, s1, a2, s2));
    assert(rat_abs(q.num * squot.num) <= RAT_BOUND);
    assert(-RAT_BOUND <= q.num * squot.num <= RAT_BOUND);
}

/// Derived division of two quantity values: if some unit's scale is
/// exactly the quotient of the operand unit scales, the result keeps the
/// quotient of the amounts in that unit; otherwise the quotient magnitude,
/// expressed in the reference unit, is handed to the best-fit search.
/// Dividing by a zero amount yields `None`.
#[verifier::loop_isolation(false)]
pub fn qty_div(
    a1: &Rat,
    s1: &Rat,
    a2: &Rat,
    s2: &Rat,
    tab: &Vec<UnitScale>,
    take_all: bool,
) -> (r: Option<(Rat, usize)>)
    requires
        rat_wf(*a1),
        rat_wf(*a2),
        scale_ok(*s1),
        scale_ok(*s2),
        unit_tab_wf(tab@),
        has_considered(tab@, take_all),
    ensures
        a2.num == 0 ==> r is None,
        r matches Some(p) ==> {
            &&& 0 <= p.1 < tab@.len()
            &&& rat_wf(p.0)
            &&& a2.num != 0
            &&& is_quot_result(p.0, tab@[p.1 as int].scale, *a1, *s1, *a2, *s2)
            &&& match lookup_spec(tab@, s1.num * s2.den, s1.den * s2.num) {
                Some(j) => p.1 as int == j,
                None => is_fit_choice(
                    tab@,
                    take_all,
                    quot_num(*a1, *s1, *a2, *s2),
                    quot_den(*a1, *s1, *a2, *s2),
                    p.1 as int,
                ),
            }
        },
        div_in_range(*a1, *s1, *a2, *s2, tab@) ==> r is Some,
{
    if a2.num == 0 {
        return None;
    }
    let ghost ok = div_in_range(*a1, *s1, *a2, *s2, tab@);
    proof {
        assert(-0x40000000000000000000000000000000 < s1.num * s2.den
            < 0x40000000000000000000000000000000 && 1 <= s1.den * s2.num
            < 0x40000000000000000000000000000000 && 1 <= s1.num * s2.den) by (nonlinear_arith)
            requires
                scale_ok(*s1),
                scale_ok(*s2),
        ;
    }
    let sn = s1.num * s2.den;
    let sd = s1.den * s2.num;
    match lookup_scale(tab, sn, sd) {
        Some(i) => {
            let am = match a1.div(a2) {
                Some(am) => am,
                None => {
                    return None;
                },
            };
            proof {
                let sc = tab@[i as int].scale;
                lemma_lookup_scale_hit(tab@, sn as int, sd as int, i as int);
                lemma_frac_mul_cong(
                    am.num as int,
                    am.den as int,
                    a1.num * a2.den,
                    a2.num * a1.den,
                    sc.num as int,
                    sc.den as int,
                    sn as int,
                    sd as int,
                );
                assert(((a1.num * a2.den) * (sn as int)) == (a1.num * a2.den) * (s1.num * s2.den));
                assert(((a2.num * a1.den) * (sd as int)) == (a2.num * a1.den) * (s1.den * s2.num));
                assert(is_quot_result(am, sc, *a1, *s1, *a2, *s2));
            }
            Some((am, i))
        },
        None => {
            let q = match a1.div(a2) {
                Some(q) => q,
                None => {
                    return None;
                },
            };
            let squot = match rat_make(sn, sd) {
                Some(squot) => squot,
                None => {
                    return None;
                },
            };
            proof {
                if ok {
                    assert(1 <= s1.num * s2.den && 1 <= s1.den * s2.num) by (nonlinear_arith)
                        requires
                            scale_ok(*s1),
                            scale_ok(*s2),
                    ;
                    lemma_div_stage_bounds(*a1, *s1, *a2, *s2, q, squot, sn as int, sd as int);
                }
            }
            let m2 = match q.mul(&squot) {
                Some(m2) => m2,
                None => {
                    return None;
                },
            };
            let i = fit_index(tab, take_all, m2.num, m2.den);
            proof {
                if ok {
                    lemma_final_div_bounds(
                        m2,
                        tab@[i as int].scale,
                        rat_abs((a1.num * a2.den) * (s1.num * s2.den)),
                        quot_abs_den(*a1, *s1, *a2, *s2),
                    );
                }
            }
            let am = match m2.div(&tab[i].scale) {
                Some(am) => am,
                None => {
                    return None;
                },
            };
            proof {
                let sc = tab@[i as int].scale;
                let pn = (a1.num * a2.den) * (s1.num * s2.den);
                let pd = (a2.num * a1.den) * (s1.den * s2.num);
                // m2 denotes the quotient magnitude
                lemma_frac_mul_cong(
                    q.num as int,
                    q.den as int,
                    a1.num * a2.den,
                    a2.num * a1.den,
                    squot.num as int,
                    squot.den as int,
                    sn as int,
                    sd as int,
                );
                lemma_frac_trans(
                    m2.num as int,
                    m2.den as int,
                    q.num * squot.num,
                    q.den * squot.den,
                    (a1.num * a2.den) * (sn as int),
                    (a2.num * a1.den) * (sd as int),
                );
                assert(((a1.num * a2.den) * (sn as int)) == pn);
                assert(((a2.num * a1.den) * (sd as int)) == pd);
                // am * sc == m2 as a value
                assert((am.num * sc.num) * m2.den == m2.num * (am.den * sc.den)) by {
                    assert(am.num * (sc.num * m2.den) == (m2.num * sc.den) * am.den);
                    assert((am.num * sc.num) * m2.den == am.num * (sc.num * m2.den))
                        by (nonlinear_arith);
                    assert((m2.num * sc.den) * am.den == m2.num * (am.den * sc.den))
                        by (nonlinear_arith);
                }
                lemma_frac_trans(
                    am.num * sc.num,
                    am.den * sc.den,
                    m2.num as int,
                    m2.den as int,
                    pn,
                    pd,
                );
                assert(is_quot_result(am, sc, *a1, *s1, *a2, *s2));
                // the fit choice on m2 carries to the sign-normalized
                // quotient fraction
                if a2.num < 0 {
                    assert(frac_eq(m2.num as int, m2.den as int, -pn, -pd)) by (nonlinear_arith)
                        requires
                            frac_eq(m2.num as int, m2.den as int, pn, pd),
                    ;
                    assert(quot_num(*a1, *s1, *a2, *s2) == -pn && quot_den(*a1, *s1, *a2, *s2)
                        == -pd);
                } else {
                    assert(quot_num(*a1, *s1, *a2, *s2) == pn && quot_den(*a1, *s1, *a2, *s2)
                        == pd);
                }
                assert(quot_den(*a1, *s1, *a2, *s2) >= 1) by (nonlinear_arith)
                    requires
                        a1.den >= 1,
                        s1.den >= 1,
                        s2.num >= 1,
                        a2.num != 0,
                        quot_den(*a1, *s1, *a2, *s2) == if a2.num < 0 {
                            -((a1.den * a2.num) * (s1.den * s2.num))
                        } else {
                            (a1.den * a2.num) * (s1.den * s2.num)
                        },
                ;
                lemma_fit_choice_frac_eq(
                    tab@,
                    take_all,
                    m2.num as int,
                    m2.den as int,
                    quot_num(*a1, *s1, *a2, *s2),
                    quot_den(*a1, *s1, *a2, *s2),
                    i as int,
                );
            }
            Some((am, i))
        },
    }
}

/// Multiplying two quantity values and dividing the result by the second
/// operand returns the first operand's value: the generated relations of
/// a declared product are mutually consistent.
pub proof fn lemma_product_division_consistent(
    a1: Rat,
    s1: Rat,
    a2: Rat,
    s2: Rat,
    am: Rat,
    scm: Rat,
    ad: Rat,
    scd: Rat,
)
    requires
        rat_wf(a1),
        rat_wf(a2),
        scale_ok(s1),
        scale_ok(s2),
        rat_wf(am),
        scale_ok(scm),
        rat_wf(ad),
        scale_ok(scd),
        a2.num != 0,
        is_prod_result(am, scm, a1, s1, a2, s2),
        is_quot_result(ad, scd, am, scm, a2, s2),
    ensures
        qty_eq_spec(ad, scd, a1, s1),
{
    let pn = (a1.num * a2.num) * (s1.num * s2.num);
    let pd = (a1.den * a2.den) * (s1.den * s2.den);
    let x = a2.den * s2.den;
    let y = a2.num * s2.num;
    // the quotient target fraction, regrouped
    assert((a2.num * am.den) * (scm.den * s2.num) == (am.den * scm.den) * (a2.num * s2.num))
        by (nonlinear_arith);
    assert((am.num * a2.den) * (scm.num * s2.den) == (am.num * scm.num) * (a2.den * s2.den))
        by (nonlinear_arith);
    assert(frac_eq(
        ad.num * scd.num,
        ad.den * scd.den,
        (am.num * scm.num) * x,
        (am.den * scm.den) * y,
    ));
    // extend the product equation by the fraction x / y
    lemma_frac_mul_cong(am.num * scm.num, am.den * scm.den, pn, pd, x, y, x, y);
    assert((am.den * scm.den) * y != 0) by (nonlinear_arith)
        requires
            am.den >= 1,
            scm.den >= 1,
            y == a2.num * s2.num,
            a2.num != 0,
            s2.num >= 1,
    ;
    lemma_frac_trans(
        ad.num * scd.num,
        ad.den * scd.den,
        (am.num * scm.num) * x,
        (am.den * scm.den) * y,
        pn * x,
        pd * y,
    );
    // pn * x == (a1.num * s1.num) * c and pd * y == (a1.den * s1.den) * c
    let c = (a2.num * s2.num) * (a2.den * s2.den);
    assert(pn * x == (a1.num * s1.num) * c) by (nonlinear_arith)
        requires
            pn == (a1.num * a2.num) * (s1.num * s2.num),
            x == a2.den * s2.den,
            c == (a2.num * s2.num) * (a2.den * s2.den),
    ;
    assert(pd * y == (a1.den * s1.den) * c) by (nonlinear_arith)
        requires
            pd == (a1.den * a2.den) * (s1.den * s2.den),
            y == a2.num * s2.num,
            c == (a2.num * s2.num) * (a2.den * s2.den),
    ;
    assert(c != 0) by (nonlinear_arith)
        requires
            a2.num != 0,
            s2.num >= 1,
            a2.den >= 1,
            s2.den >= 1,
            c == (a2.num * s2.num) * (a2.den * s2.den),
    ;
    assert(frac_eq((a1.num * s1.num) * c, (a1.den * s1.den) * c, a1.num * s1.num, a1.den * s1.den))
        by (nonlinear_arith);
    assert((a1.den * s1.den) * c != 0) by (nonlinear_arith)
        requires
            a1.den >= 1,
            s1.den >= 1,
            c != 0,
    ;
    lemma_frac_trans(
        ad.num * scd.num,
        ad.den * scd.den,
        (a1.num * s1.num) * c,
        (a1.den * s1.den) * c,
        a1.num * s1.num,
        a1.den * s1.den,
    );
    assert(qty_eq_spec(ad, scd, a1, s1)) by (nonlinear_arith)
        requires
            frac_eq(ad.num * scd.num, ad.den * scd.den, a1.num * s1.num, a1.den * s1.den),
    ;
}

/// Multiplication of quantity values is commutative: the product relation
/// and the unit chosen for it do not depend on the operand order.
pub proof fn lemma_product_commutative(
    t: Seq<UnitScale>,
    take_all: bool,
    a1: Rat,
    s1: Rat,
    a2: Rat,
    s2: Rat,
    am: Rat,
    sc: Rat,
    i: int,
)
    ensures
        is_prod_result(am, sc, a1, s1, a2, s2) == is_prod_result(am, sc, a2, s2, a1, s1),
        lookup_spec(t, s1.num * s2.num, s1.den * s2.den) == lookup_spec(
            t,
            s2.num * s1.num,
            s2.den * s1.den,
        ),
        prod_num(a1, s1, a2, s2) == prod_num(a2, s2, a1, s1),
        prod_den(a1, s1, a2, s2) == prod_den(a2, s2, a1, s1),
{
    assert(s1.num * s2.num == s2.num * s1.num) by (nonlinear_arith);
    assert(s1.den * s2.den == s2.den * s1.den) by (nonlinear_arith);
    assert(prod_num(a1, s1, a2, s2) == prod_num(a2, s2, a1, s1)) by (nonlinear_arith);
    assert(prod_den(a1, s1, a2, s2) == prod_den(a2, s2, a1, s1)) by (nonlinear_arith);
}


/// Transitivity of the rational order.
pub proof fn lemma_rat_le_trans(a: Rat, b: Rat, c: Rat)
    requires
        a.den >= 1,
        b.den >= 1,
        c.den >= 1,
        rat_le_spec(a, b),
        rat_le_spec(b, c),
    ensures
        rat_le_spec(a, c),
{
    assert((a.num * b.den) * c.den <= (b.num * a.den) * c.den) by (nonlinear_arith)
        requires
            a.num * b.den <= b.num * a.den,
            c.den >= 1,
    ;
    assert((b.num * c.den) * a.den <= (c.num * b.den) * a.den) by (nonlinear_arith)
        requires
            b.num * c.den <= c.num * b.den,
            a.den >= 1,
    ;
    assert((b.num * a.den) * c.den == (b.num * c.den) * a.den) by (nonlinear_arith);
    assert((a.num * b.den) * c.den == (a.num * c.den) * b.den) by (nonlinear_arith);
    assert((c.num * b.den) * a.den == (c.num * a.den) * b.den) by (nonlinear_arith);
    assert((a.num * c.den) * b.den <= (c.num * a.den) * b.den);
    assert(a.num * c.den <= c.num * a.den) by (nonlinear_arith)
        requires
            (a.num * c.den) * b.den <= (c.num * a.den) * b.den,
            b.den >= 1,
    ;
}

/// A chain of adjacent order steps gives the full pairwise order.
proof fn lemma_le_chain(t: Seq<UnitScale>, i: int, j: int)
    requires
        forall|k: int| 0 <= k < t.len() ==> (#[trigger] t[k]).scale.den >= 1,
        forall|k: int|
            0 <= k < t.len() - 1 ==> rat_le_spec((#[trigger] t[k]).scale, t[k + 1].scale),
        0 <= i < j < t.len(),
    ensures
        rat_le_spec(t[i].scale, t[j].scale),
    decreases j - i,
{
    if i + 1 < j {
        lemma_le_chain(t, i, j - 1);
        lemma_rat_le_trans(t[i].scale, t[j - 1].scale, t[j].scale);
    }
}

/// A table whose adjacent scales are ordered is ordered throughout.
pub proof fn lemma_tab_sorted_from_adjacent(t: Seq<UnitScale>)
    requires
        forall|k: int| 0 <= k < t.len() ==> (#[trigger] t[k]).scale.den >= 1,
        forall|k: int|
            0 <= k < t.len() - 1 ==> rat_le_spec((#[trigger] t[k]).scale, t[k + 1].scale),
    ensures
        forall|i: int, j: int|
            0 <= i < j < t.len() ==> rat_le_spec((#[trigger] t[i]).scale, (#[trigger] t[j]).scale),
{
    assert forall|i: int, j: int| 0 <= i < j < t.len() implies rat_le_spec(
        (#[trigger] t[i]).scale,
        (#[trigger] t[j]).scale,
    ) by {
        lemma_le_chain(t, i, j);
    }
}

} // verus!
