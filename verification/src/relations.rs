//! The derivation closure.
//!
//! A schema author declares a single relation, `R = A * B` or `R = A / B`.
//! Physical consistency requires the whole family implied by it: the
//! commuted multiplication, both reverse divisions — or, for a declared
//! division, the reverse multiplications and the derived division. The
//! self-product `R = A * A` gets exactly one multiplication and one
//! reverse division; the third relation would be redundant and is omitted.

use vstd::prelude::*;

use crate::schema::RawDerivation;
use crate::text::str_eq;

verus! {

/// The operation of a generated relation.
#[derive(Clone, Copy, Debug, PartialEq, Eq, Structural)]
pub enum RelOp {
    /// The relation multiplies its operands.
    Mul,
    /// The relation divides its operands.
    Div,
}

/// One generated relation: `lhs op rhs` yields `result`.
#[derive(Clone, Debug)]
pub struct Relation {
    /// The operation.
    pub op: RelOp,
    /// Quantity identifier of the left operand.
    pub lhs: String,
    /// Quantity identifier of the right operand.
    pub rhs: String,
    /// Quantity identifier of the result.
    pub result: String,
}

/// The mathematical image of a relation.
pub struct RelationV {
    /// The operation.
    pub op: RelOp,
    /// Left operand identifier.
    pub lhs: Seq<char>,
    /// Right operand identifier.
    pub rhs: Seq<char>,
    /// Result identifier.
    pub result: Seq<char>,
}

impl View for Relation {
    type V = RelationV;

    open spec fn view(&self) -> RelationV {
        RelationV { op: self.op, lhs: self.lhs@, rhs: self.rhs@, result: self.result@ }
    }
}

/// A multiplication relation.
pub open spec fn rel_mul(lhs: Seq<char>, rhs: Seq<char>, result: Seq<char>) -> RelationV {
    RelationV { op: RelOp::Mul, lhs, rhs, result }
}

/// A division relation.
pub open spec fn rel_div(lhs: Seq<char>, rhs: Seq<char>, result: Seq<char>) -> RelationV {
    RelationV { op: RelOp::Div, lhs, rhs, result }
}

/// The views of a relation vector.
pub open spec fn relation_views(v: Seq<Relation>) -> Seq<RelationV> {
    v.map_values(|r: Relation| r@)
}

/// The complete family of relations implied by one declared derivation of
/// the quantity `qty`.
pub open spec fn closure_spec(qty: Seq<char>, d: RawDerivation) -> Seq<RelationV> {
    if d.op == '*' {
        if d.lhs@ == d.rhs@ {
            seq![rel_mul(d.lhs@, d.rhs@, qty), rel_div(qty, d.rhs@, d.lhs@)]
        } else {
            seq![
                rel_mul(d.lhs@, d.rhs@, qty),
                rel_mul(d.rhs@, d.lhs@, qty),
                rel_div(qty, d.rhs@, d.lhs@),
                rel_div(qty, d.lhs@, d.rhs@),
            ]
        }
    } else {
        if qty == d.rhs@ {
            seq![
                rel_div(d.lhs@, d.rhs@, qty),
                rel_mul(qty, qty, d.lhs@),
                rel_div(d.lhs@, qty, d.rhs@),
            ]
        } else {
            seq![
                rel_div(d.lhs@, d.rhs@, qty),
                rel_mul(qty, d.rhs@, d.lhs@),
                rel_mul(d.rhs@, qty, d.lhs@),
                rel_div(d.lhs@, qty, d.rhs@),
            ]
        }
    }
}

/// For a self-product declaration `R = A * A` the closure holds exactly
/// one multiplication and one reverse division; no redundant third
/// relation exists.
pub proof fn lemma_self_product_closure(qty: Seq<char>, d: RawDerivation)
    requires
        d.op == '*',
        d.lhs@ == d.rhs@,
    ensures
        closure_spec(qty, d).len() == 2,
        closure_spec(qty, d)[0] == rel_mul(d.lhs@, d.lhs@, qty),
        closure_spec(qty, d)[1] == rel_div(qty, d.lhs@, d.lhs@),
{
}

/// For distinct operands `R = A * B` the closure holds the forward
/// multiplication, its commuted form, and both reverse divisions.
pub proof fn lemma_product_closure(qty: Seq<char>, d: RawDerivation)
    requires
        d.op == '*',
        d.lhs@ != d.rhs@,
    ensures
        closure_spec(qty, d).len() == 4,
        closure_spec(qty, d)[0] == rel_mul(d.lhs@, d.rhs@, qty),
        closure_spec(qty, d)[1] == rel_mul(d.rhs@, d.lhs@, qty),
        closure_spec(qty, d)[2] == rel_div(qty, d.rhs@, d.lhs@),
        closure_spec(qty, d)[3] == rel_div(qty, d.lhs@, d.rhs@),
{
}

/// Expands one declared derivation of `qty` into its full closure.
pub fn derive_closure(qty: &str, d: &RawDerivation) -> (r: Vec<Relation>)
    requires
        d.op == '*' || d.op == '/',
    ensures
        relation_views(r@) == closure_spec(qty@, *d),
{
    let q: String = qty.to_owned();
    let mut out: Vec<Relation> = Vec::new();
    if d.op == '*' {
        if str_eq(d.lhs.as_str(), d.rhs.as_str()) {
            out.push(
                Relation {
                    op: RelOp::Mul,
                    lhs: d.lhs.clone(),
                    rhs: d.rhs.clone(),
                    result: q.clone(),
                },
            );
            out.push(
                Relation {
                    op: RelOp::Div,
                    lhs: q.clone(),
                    rhs: d.rhs.clone(),
                    result: d.lhs.clone(),
                },
            );
        } else {
            out.push(
                Relation {
                    op: RelOp::Mul,
                    lhs: d.lhs.clone(),
                    rhs: d.rhs.clone(),
                    result: q.clone(),
                },
            );
            out.push(
                Relation {
                    op: RelOp::Mul,
                    lhs: d.rhs.clone(),
                    rhs: d.lhs.clone(),
                    result: q.clone(),
                },
            );
            out.push(
                Relation {
                    op: RelOp::Div,
                    lhs: q.clone(),
                    rhs: d.rhs.clone(),
                    result: d.lhs.clone(),
                },
            );
            out.push(
                Relation {
                    op: RelOp::Div,
                    lhs: q.clone(),
                    rhs: d.lhs.clone(),
                    result: d.rhs.clone(),
                },
            );
        }
    } else {
        if str_eq(q.as_str(), d.rhs.as_str()) {
            out.push(
                Relation {
                    op: RelOp::Div,
                    lhs: d.lhs.clone(),
                    rhs: d.rhs.clone(),
                    result: q.clone(),
                },
            );
            out.push(
                Relation { op: RelOp::Mul, lhs: q.clone(), rhs: q.clone(), result: d.lhs.clone() },
            );
            out.push(
                Relation {
                    op: RelOp::Div,
                    lhs: d.lhs.clone(),
                    rhs: q.clone(),
                    result: d.rhs.clone(),
                },
            );
        } else {
            out.push(
                Relation {
                    op: RelOp::Div,
                    lhs: d.lhs.clone(),
                    rhs: d.rhs.clone(),
                    result: q.clone(),
                },
            );
            out.push(
                Relation {
                    op: RelOp::Mul,
                    lhs: q.clone(),
                    rhs: d.rhs.clone(),
                    result: d.lhs.clone(),
                },
            );
            out.push(
                Relation {
                    op: RelOp::Mul,
                    lhs: d.rhs.clone(),
                    rhs: q.clone(),
                    result: d.lhs.clone(),
                },
            );
            out.push(
                Relation {
                    op: RelOp::Div,
                    lhs: d.lhs.clone(),
                    rhs: q.clone(),
                    result: d.rhs.clone(),
                },
            );
        }
    }
    proof {
        assert(relation_views(out@) =~= closure_spec(qty@, *d));
    }
    out
}

/// The closures of all declared derivations of `qty`, concatenated in
/// declaration order.
pub open spec fn closures_spec(qty: Seq<char>, ds: Seq<RawDerivation>) -> Seq<RelationV>
    decreases ds.len(),
{
    if ds.len() == 0 {
        Seq::empty()
    } else {
        closures_spec(qty, ds.drop_last()) + closure_spec(qty, ds.last())
    }
}

/// Expands every declared derivation of `qty`.
pub fn derive_closures(qty: &str, ds: &Vec<RawDerivation>) -> (r: Vec<Relation>)
    requires
        forall|i: int| 0 <= i < ds@.len() ==> crate::schema::derivation_ok(#[trigger] ds@[i]),
    ensures
        relation_views(r@) == closures_spec(qty@, ds@),
{
    let mut out: Vec<Relation> = Vec::new();
    let mut i: usize = 0;
    while i < ds.len()
        invariant
            0 <= i <= ds@.len(),
            forall|j: int| 0 <= j < ds@.len() ==> crate::schema::derivation_ok(#[trigger] ds@[j]),
            relation_views(out@) == closures_spec(qty@, ds@.subrange(0, i as int)),
        decreases ds@.len() - i,
    {
        let d = &ds[i];
        let mut one = derive_closure(qty, d);
        let ghost out0 = out@;
        let ghost one0 = one@;
        out.append(&mut one);
        proof {
            assert(ds@.subrange(0, i + 1).drop_last() =~= ds@.subrange(0, i as int));
            assert(ds@.subrange(0, i + 1).last() == ds@[i as int]);
            assert(relation_views(out@) =~= relation_views(out0) + relation_views(one0));
        }
        i += 1;
    }
    proof {
        assert(ds@.subrange(0, ds@.len() as int) =~= ds@);
    }
    out
}

} // verus!
