//! Exact rational numbers with bounded components.
//!
//! Amounts and unit scales are fractions `num / den` of `i128` values with
//! `den >= 1` and both components bounded by [`RAT_BOUND`], so that every
//! cross product of two well-formed rationals fits in an `i128`. Operations
//! whose raw result would leave those bounds return `None`; the contracts
//! state exactly when that happens.

use core::cmp::Ordering;
use vstd::prelude::*;

verus! {

/// Largest magnitude allowed for the numerator and denominator of a
/// well-formed rational: 2^62.
pub const RAT_BOUND: i128 = 4611686018427387904;

/// An exact rational number `num / den`.
///
/// Checked constructors and operations always return fully reduced values
/// with a positive denominator, so on their results the derived `==`
/// (componentwise) coincides with equality of rational values; `eq_val`
/// compares values regardless of representation.
#[derive(Clone, Copy, Debug, PartialEq, Eq, Structural)]
pub struct Rat {
    /// Numerator; carries the sign.
    pub num: i128,
    /// Denominator; always positive in a well-formed value.
    pub den: i128,
}

/// Well-formedness: the denominator is positive and both components are
/// small enough that a product of any two well-formed components fits in
/// an `i128`.
pub open spec fn rat_wf(r: Rat) -> bool {
    &&& 1 <= r.den <= RAT_BOUND
    &&& -RAT_BOUND <= r.num <= RAT_BOUND
}

/// `a` and `b` denote the same rational value.
pub open spec fn rat_eq_spec(a: Rat, b: Rat) -> bool {
    a.num * b.den == b.num * a.den
}

/// `a <= b` as rational values (meaningful for positive denominators).
pub open spec fn rat_le_spec(a: Rat, b: Rat) -> bool {
    a.num * b.den <= b.num * a.den
}

/// `a < b` as rational values.
pub open spec fn rat_lt_spec(a: Rat, b: Rat) -> bool {
    a.num * b.den < b.num * a.den
}

/// `r == a + b` as rational values.
pub open spec fn is_sum_of(r: Rat, a: Rat, b: Rat) -> bool {
    r.num * (a.den * b.den) == (a.num * b.den + b.num * a.den) * r.den
}

/// `r == a - b` as rational values.
pub open spec fn is_diff_of(r: Rat, a: Rat, b: Rat) -> bool {
    r.num * (a.den * b.den) == (a.num * b.den - b.num * a.den) * r.den
}

/// `r == a * b` as rational values.
pub open spec fn is_prod_of(r: Rat, a: Rat, b: Rat) -> bool {
    r.num * (a.den * b.den) == (a.num * b.num) * r.den
}

/// `r == a / b` as rational values (meaningful when `b.num != 0`).
pub open spec fn is_quot_of(r: Rat, a: Rat, b: Rat) -> bool {
    r.num * (b.num * a.den) == (a.num * b.den) * r.den
}

/// The raw components of the sum `a + b` stay within [`RAT_BOUND`]:
/// exactly when checked addition succeeds.
pub open spec fn sum_in_range(a: Rat, b: Rat) -> bool {
    &&& -RAT_BOUND <= a.num * b.den + b.num * a.den <= RAT_BOUND
    &&& a.den * b.den <= RAT_BOUND
}

/// The raw components of the difference `a - b` stay within [`RAT_BOUND`]:
/// exactly when checked subtraction succeeds.
pub open spec fn diff_in_range(a: Rat, b: Rat) -> bool {
    &&& -RAT_BOUND <= a.num * b.den - b.num * a.den <= RAT_BOUND
    &&& a.den * b.den <= RAT_BOUND
}

/// The raw components of the product `a * b` stay within [`RAT_BOUND`]:
/// exactly when checked multiplication succeeds.
pub open spec fn prod_in_range(a: Rat, b: Rat) -> bool {
    &&& -RAT_BOUND <= a.num * b.num <= RAT_BOUND
    &&& a.den * b.den <= RAT_BOUND
}

/// The divisor is nonzero and the raw components of the quotient `a / b`
/// stay within [`RAT_BOUND`]: exactly when checked division succeeds.
pub open spec fn quot_in_range(a: Rat, b: Rat) -> bool {
    &&& b.num != 0
    &&& -RAT_BOUND <= a.num * b.den <= RAT_BOUND
    &&& a.den * rat_abs(b.num as int) <= RAT_BOUND
}

/// The absolute value of an integer.
pub open spec fn rat_abs(n: int) -> int {
    if n < 0 {
        -n
    } else {
        n
    }
}

/// `d` divides `n` over the integers.
pub open spec fn divides(d: int, n: int) -> bool {
    exists|k: int| n == #[trigger] (d * k)
}

/// The product of two components bounded by [`RAT_BOUND`] stays well
/// within the `i128` range.
proof fn lemma_cross_bound(a: i128, b: i128)
    by (nonlinear_arith)
    requires
        -RAT_BOUND <= a <= RAT_BOUND,
        -RAT_BOUND <= b <= RAT_BOUND,
    ensures
        -0x10000000000000000000000000000000 <= a * b <= 0x10000000000000000000000000000000,
        1 <= a && 1 <= b ==> 1 <= a * b,
{
}

/// A positive divisor of a positive integer is no larger than it.
proof fn lemma_divisor_le(d: int, n: int)
    requires
        divides(d, n),
        d >= 1,
        n >= 1,
    ensures
        d <= n,
{
    let k = choose|k: int| n == #[trigger] (d * k);
    assert(k >= 1 && d * k >= d) by (nonlinear_arith)
        requires
            n == d * k,
            d >= 1,
            n >= 1,
    ;
}

/// Greatest-common-divisor computation by Euclid's algorithm. Only the
/// facts needed for fraction reduction are stated: the result is positive
/// and divides both arguments.
fn gcd_step(x: i128, y: i128) -> (g: i128)
    requires
        0 <= x,
        1 <= y,
    ensures
        1 <= g <= y,
        divides(g as int, x as int),
        divides(g as int, y as int),
    decreases x,
{
    if x == 0 {
        proof {
            assert(y as int == y as int * 1);
            assert(x as int == y as int * 0);
        }
        y
    } else {
        let r = y % x;
        proof {
            assert(0 <= r < x);
        }
        let g = gcd_step(r, x);
        proof {
            let q = y as int / x as int;
            assert(y as int == q * (x as int) + (r as int)) by (nonlinear_arith)
                requires
                    x as int >= 1,
                    y as int >= 1,
                    q == y as int / x as int,
                    r as int == y as int % x as int,
            ;
            let k1 = choose|k: int| x as int == #[trigger] (g as int * k);
            let k2 = choose|k: int| r as int == #[trigger] (g as int * k);
            assert(y as int == g as int * (q * k1 + k2)) by (nonlinear_arith)
                requires
                    y as int == q * (x as int) + (r as int),
                    x as int == g as int * k1,
                    r as int == g as int * k2,
            ;
            lemma_divisor_le(g as int, y as int);
        }
        g
    }
}

/// Divides `n` (a multiple of `g`) exactly by `g`.
fn exact_div(n: i128, g: i128) -> (q: i128)
    requires
        0 <= n,
        1 <= g,
        divides(g as int, n as int),
    ensures
        0 <= q <= n,
        n as int == g as int * q as int,
{
    let q = n / g;
    proof {
        let k = choose|k: int| n as int == #[trigger] (g as int * k);
        assert((g as int * k) / g as int == k && 0 <= k <= g as int * k) by (nonlinear_arith)
            requires
                g as int >= 1,
                k >= 0 || g as int * k >= 0,
                n as int == g as int * k,
                n >= 0,
        ;
    }
    q
}

/// Builds a well-formed rational with the value `n / d`, reduced to lowest
/// terms, or `None` when `n` or `d` is out of bounds.
pub fn rat_make(n: i128, d: i128) -> (r: Option<Rat>)
    requires
        1 <= d,
        -0x40000000000000000000000000000000 < n < 0x40000000000000000000000000000000,
        d < 0x40000000000000000000000000000000,
    ensures
        r is Some <==> -RAT_BOUND <= n <= RAT_BOUND && d <= RAT_BOUND,
        r matches Some(v) ==> {
            &&& rat_wf(v)
            &&& v.num * d == n * v.den
            &&& -n <= v.num <= n || n <= v.num <= -n
            &&& v.den <= d
        },
{
    if n < -RAT_BOUND || n > RAT_BOUND || d > RAT_BOUND {
        return None;
    }
    let neg = n < 0;
    let m = if neg { -n } else { n };
    let g = gcd_step(m, d);
    let rm = exact_div(m, g);
    let rd = exact_div(d, g);
    let rn = if neg { -rm } else { rm };
    proof {
        assert(rd >= 1) by (nonlinear_arith)
            requires
                d as int == g as int * rd as int,
                d >= 1,
                g >= 1,
                rd >= 0,
        ;
        assert(rm as int * d as int == m as int * rd as int) by (nonlinear_arith)
            requires
                m as int == g as int * rm as int,
                d as int == g as int * rd as int,
        ;
        if neg {
            assert(rn as int * d as int == n as int * rd as int) by (nonlinear_arith)
                requires
                    rm as int * d as int == m as int * rd as int,
                    m as int == -(n as int),
                    rn as int == -(rm as int),
            ;
        }
    }
    Some(Rat { num: rn, den: rd })
}

/// Compares the fractions `n1 / d1` and `n2 / d2` exactly, without ever
/// overflowing, by descending through their continued-fraction expansions.
pub fn compare_frac(n1: i128, d1: i128, n2: i128, d2: i128) -> (r: Ordering)
    requires
        1 <= d1 < 0x40000000000000000000000000000000,
        1 <= d2 < 0x40000000000000000000000000000000,
        -0x40000000000000000000000000000000 < n1 < 0x40000000000000000000000000000000,
        -0x40000000000000000000000000000000 < n2 < 0x40000000000000000000000000000000,
    ensures
        r == Ordering::Less <==> n1 * d2 < n2 * d1,
        r == Ordering::Equal <==> n1 * d2 == n2 * d1,
        r == Ordering::Greater <==> n1 * d2 > n2 * d1,
    decreases d1 + d2, (if n1 < 0 || n2 < 0 { 1int } else { 0int }),
{
    if n1 < 0 || n2 < 0 {
        if n1 >= 0 {
            proof {
                assert(n2 * d1 < 0 && n1 * d2 >= 0) by (nonlinear_arith)
                    requires
                        n2 < 0 && n1 >= 0 && d1 >= 1 && d2 >= 1,
                ;
            }
            Ordering::Greater
        } else if n2 >= 0 {
            proof {
                assert(n1 * d2 < 0 && n2 * d1 >= 0) by (nonlinear_arith)
                    requires
                        n1 < 0 && n2 >= 0 && d1 >= 1 && d2 >= 1,
                ;
            }
            Ordering::Less
        } else {
            let r = compare_frac(-n2, d2, -n1, d1);
            proof {
                assert((-n2) * d1 == -(n2 * d1) && (-n1) * d2 == -(n1 * d2)) by (nonlinear_arith);
            }
            r
        }
    } else {
        let q1 = n1 / d1;
        let r1 = n1 % d1;
        let q2 = n2 / d2;
        let r2 = n2 % d2;
        proof {
            assert(n1 == d1 * q1 + r1 && 0 <= r1 < d1 && q1 >= 0) by (nonlinear_arith)
                requires
                    n1 >= 0 && d1 >= 1 && q1 == n1 as int / d1 as int && r1 == n1 as int % d1 as int,
            ;
            assert(n2 == d2 * q2 + r2 && 0 <= r2 < d2 && q2 >= 0) by (nonlinear_arith)
                requires
                    n2 >= 0 && d2 >= 1 && q2 == n2 as int / d2 as int && r2 == n2 as int % d2 as int,
            ;
        }
        if q1 < q2 {
            proof {
                assert(n1 * d2 < n2 * d1) by (nonlinear_arith)
                    requires
                        n1 == d1 * q1 + r1 && 0 <= r1 < d1,
                        n2 == d2 * q2 + r2 && 0 <= r2 < d2,
                        q1 < q2 && d1 >= 1 && d2 >= 1,
                ;
            }
            Ordering::Less
        } else if q2 < q1 {
            proof {
                assert(n2 * d1 < n1 * d2) by (nonlinear_arith)
                    requires
                        n1 == d1 * q1 + r1 && 0 <= r1 < d1,
                        n2 == d2 * q2 + r2 && 0 <= r2 < d2,
                        q2 < q1 && d1 >= 1 && d2 >= 1,
                ;
            }
            Ordering::Greater
        } else if r1 == 0 && r2 == 0 {
            proof {
                assert(n1 * d2 == n2 * d1) by (nonlinear_arith)
                    requires
                        n1 == d1 * q1 && n2 == d2 * q1,
                ;
            }
            Ordering::Equal
        } else if r1 == 0 {
            proof {
                assert(n1 * d2 < n2 * d1) by (nonlinear_arith)
                    requires
                        n1 == d1 * q1 && n2 == d2 * q1 + r2 && r2 > 0 && d1 >= 1 && d2 >= 1,
                ;
            }
            Ordering::Less
        } else if r2 == 0 {
            proof {
                assert(n2 * d1 < n1 * d2) by (nonlinear_arith)
                    requires
                        n2 == d2 * q1 && n1 == d1 * q1 + r1 && r1 > 0 && d1 >= 1 && d2 >= 1,
                ;
            }
            Ordering::Greater
        } else {
            let r = compare_frac(d2, r2, d1, r1);
            proof {
                assert((d2 * r1 < d1 * r2 <==> n1 * d2 < n2 * d1) && (d2 * r1 == d1 * r2
                    <==> n1 * d2 == n2 * d1)) by (nonlinear_arith)
                    requires
                        n1 == d1 * q1 + r1,
                        n2 == d2 * q1 + r2,
                        d1 >= 1 && d2 >= 1,
                ;
            }
            r
        }
    }
}

impl Rat {
    /// The rational value `n / d`, reduced.
    ///
    /// The components must be within [`RAT_BOUND`]; use the checked
    /// operations for values that may not be.
    pub fn new(n: i128, d: i128) -> (r: Rat)
        requires
            1 <= d <= RAT_BOUND,
            -RAT_BOUND <= n <= RAT_BOUND,
        ensures
            rat_wf(r),
            r.num * d == n * r.den,
    {
        rat_make(n, d).unwrap()
    }

    /// The rational value of the integer `n`.
    pub fn whole(n: i32) -> (r: Rat)
        ensures
            rat_wf(r),
            r.num == n as int,
            r.den == 1,
    {
        Rat { num: n as i128, den: 1 }
    }

    /// True iff the value is zero.
    pub fn is_zero(&self) -> (b: bool)
        ensures
            b <==> self.num == 0,
    {
        self.num == 0
    }

    /// Checked addition: `None` exactly when the raw components of the sum
    /// leave [`RAT_BOUND`].
    pub fn add(&self, other: &Rat) -> (r: Option<Rat>)
        requires
            rat_wf(*self),
            rat_wf(*other),
        ensures
            r is Some <==> {
                &&& -RAT_BOUND <= self.num * other.den + other.num * self.den <= RAT_BOUND
                &&& self.den * other.den <= RAT_BOUND
            },
            r matches Some(v) ==> {
                &&& rat_wf(v)
                &&& is_sum_of(v, *self, *other)
                &&& rat_abs(v.num as int) <= rat_abs(self.num * other.den + other.num * self.den)
                &&& v.den <= self.den * other.den
            },
    {
        proof {
            lemma_cross_bound(self.num, other.den);
            lemma_cross_bound(other.num, self.den);
            lemma_cross_bound(self.den, other.den);
        }
        let n = self.num * other.den + other.num * self.den;
        let d = self.den * other.den;
        if n < -RAT_BOUND || n > RAT_BOUND || d > RAT_BOUND {
            return None;
        }
        rat_make(n, d)
    }

    /// Checked subtraction: `None` exactly when the raw components of the
    /// difference leave [`RAT_BOUND`].
    pub fn sub(&self, other: &Rat) -> (r: Option<Rat>)
        requires
            rat_wf(*self),
            rat_wf(*other),
        ensures
            r is Some <==> {
                &&& -RAT_BOUND <= self.num * other.den - other.num * self.den <= RAT_BOUND
                &&& self.den * other.den <= RAT_BOUND
            },
            r matches Some(v) ==> {
                &&& rat_wf(v)
                &&& is_diff_of(v, *self, *other)
                &&& rat_abs(v.num as int) <= rat_abs(self.num * other.den - other.num * self.den)
                &&& v.den <= self.den * other.den
            },
    {
        proof {
            lemma_cross_bound(self.num, other.den);
            lemma_cross_bound(other.num, self.den);
            lemma_cross_bound(self.den, other.den);
        }
        let n = self.num * other.den - other.num * self.den;
        let d = self.den * other.den;
        if n < -RAT_BOUND || n > RAT_BOUND || d > RAT_BOUND {
            return None;
        }
        rat_make(n, d)
    }

    /// Checked multiplication: `None` exactly when the raw components of
    /// the product leave [`RAT_BOUND`].
    pub fn mul(&self, other: &Rat) -> (r: Option<Rat>)
        requires
            rat_wf(*self),
            rat_wf(*other),
        ensures
            r is Some <==> {
                &&& -RAT_BOUND <= self.num * other.num <= RAT_BOUND
                &&& self.den * other.den <= RAT_BOUND
            },
            r matches Some(v) ==> {
                &&& rat_wf(v)
                &&& is_prod_of(v, *self, *other)
                &&& rat_abs(v.num as int) <= rat_abs(self.num * other.num)
                &&& v.den <= self.den * other.den
            },
    {
        proof {
            lemma_cross_bound(self.num, other.num);
            lemma_cross_bound(self.den, other.den);
        }
        let n = self.num * other.num;
        let d = self.den * other.den;
        if n < -RAT_BOUND || n > RAT_BOUND || d > RAT_BOUND {
            return None;
        }
        rat_make(n, d)
    }

    /// Checked division: `None` when dividing by zero or exactly when the
    /// raw components of the quotient leave [`RAT_BOUND`].
    pub fn div(&self, other: &Rat) -> (r: Option<Rat>)
        requires
            rat_wf(*self),
            rat_wf(*other),
        ensures
            r is Some <==> {
                &&& other.num != 0
                &&& -RAT_BOUND <= self.num * other.den <= RAT_BOUND
                &&& self.den * rat_abs(other.num as int) <= RAT_BOUND
            },
            r matches Some(v) ==> {
                &&& rat_wf(v)
                &&& is_quot_of(v, *self, *other)
                &&& rat_abs(v.num as int) <= rat_abs(self.num * other.den)
                &&& v.den <= self.den * rat_abs(other.num as int)
            },
    {
        if other.num == 0 {
            return None;
        }
        proof {
            lemma_cross_bound(self.num, other.den);
            lemma_cross_bound(self.den, other.num);
            lemma_cross_bound(self.den, (-other.num) as i128);
        }
        let n = if other.num < 0 { -(self.num * other.den) } else { self.num * other.den };
        let d = if other.num < 0 { self.den * -other.num } else { self.den * other.num };
        proof {
            assert(d >= 1 && d == self.den * rat_abs(other.num as int) && rat_abs(n as int) == rat_abs(
                self.num * other.den,
            )) by (nonlinear_arith)
                requires
                    rat_wf(*self),
                    rat_wf(*other),
                    other.num != 0,
                    n == if other.num < 0 {
                        -(self.num * other.den)
                    } else {
                        self.num * other.den
                    },
                    d == if other.num < 0 {
                        self.den * -other.num
                    } else {
                        self.den * other.num
                    },
            ;
        }
        if n < -RAT_BOUND || n > RAT_BOUND || d > RAT_BOUND {
            return None;
        }
        let v = rat_make(n, d).unwrap();
        proof {
            assert(is_quot_of(v, *self, *other)) by (nonlinear_arith)
                requires
                    v.num * d == n * v.den,
                    d == self.den * rat_abs(other.num as int),
                    n == if other.num < 0 {
                        -(self.num * other.den)
                    } else {
                        self.num * other.den
                    },
                    d == if other.num < 0 {
                        self.den * -other.num
                    } else {
                        self.den * other.num
                    },
                    other.num != 0,
            ;
        }
        Some(v)
    }

    /// Exact value equality, regardless of representation.
    pub fn eq_val(&self, other: &Rat) -> (b: bool)
        requires
            rat_wf(*self),
            rat_wf(*other),
        ensures
            b <==> rat_eq_spec(*self, *other),
    {
        proof {
            lemma_cross_bound(self.num, other.den);
            lemma_cross_bound(other.num, self.den);
        }
        self.num * other.den == other.num * self.den
    }

    /// Exact value comparison, regardless of representation.
    pub fn cmp_val(&self, other: &Rat) -> (r: Ordering)
        requires
            rat_wf(*self),
            rat_wf(*other),
        ensures
            r == Ordering::Less <==> rat_lt_spec(*self, *other),
            r == Ordering::Equal <==> rat_eq_spec(*self, *other),
            r == Ordering::Greater <==> rat_lt_spec(*other, *self),
    {
        proof {
            lemma_cross_bound(self.num, other.den);
            lemma_cross_bound(other.num, self.den);
        }
        let p = self.num * other.den;
        let q = other.num * self.den;
        if p < q {
            Ordering::Less
        } else if p == q {
            Ordering::Equal
        } else {
            Ordering::Greater
        }
    }

    /// Exact value ordering: `self <= other`.
    pub fn le_val(&self, other: &Rat) -> (b: bool)
        requires
            rat_wf(*self),
            rat_wf(*other),
        ensures
            b <==> rat_le_spec(*self, *other),
    {
        proof {
            lemma_cross_bound(self.num, other.den);
            lemma_cross_bound(other.num, self.den);
        }
        self.num * other.den <= other.num * self.den
    }

    /// The additive inverse.
    pub fn neg(&self) -> (r: Rat)
        requires
            rat_wf(*self),
        ensures
            rat_wf(r),
            r.num == -self.num,
            r.den == self.den,
    {
        Rat { num: -self.num, den: self.den }
    }

    /// The absolute value.
    pub fn abs(&self) -> (r: Rat)
        requires
            rat_wf(*self),
        ensures
            rat_wf(r),
            r.num == if self.num < 0 { -self.num as int } else { self.num as int },
            r.den == self.den,
    {
        if self.num < 0 {
            Rat { num: -self.num, den: self.den }
        } else {
            *self
        }
    }
}

} // verus!
