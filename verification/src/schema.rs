//! The declarative schema surface: raw quantity descriptions and their
//! validation.
//!
//! A quantity declaration consists of an identifier, optional derivation
//! expressions, at most one reference-unit clause and one or more unit
//! clauses. Each clause carries 2 to 5 positional arguments: an identifier,
//! a symbol, an optional SI-prefix name, an optional scale and an optional
//! documentation string. Every malformed shape is rejected here, before
//! any code or descriptor is derived from the schema.

use vstd::prelude::*;

use crate::prefix::{spec_prefix_from_name, SIPrefix};
use crate::rat::{rat_wf, Rat, RAT_BOUND};
use crate::text::{is_identifier, spec_is_identifier};

verus! {

/// One positional argument of a unit clause.
#[derive(Clone, Debug)]
pub enum RawArg {
    /// An identifier-like argument (unit identifier or SI-prefix name).
    Word(String),
    /// A string-literal argument (symbol or documentation).
    Text(String),
    /// A numeric argument (a scale).
    Number(Rat),
}

/// One clause of a quantity declaration.
#[derive(Clone, Debug)]
pub enum RawClause {
    /// A reference-unit description.
    RefUnit(Vec<RawArg>),
    /// An ordinary unit description.
    Unit(Vec<RawArg>),
}

/// A declared derivation `lhs op rhs`, with the operator still unchecked.
#[derive(Clone, Debug)]
pub struct RawDerivation {
    /// Left operand.
    pub lhs: String,
    /// Operator character; only `*` and `/` are meaningful.
    pub op: char,
    /// Right operand.
    pub rhs: String,
}

/// A whole quantity declaration, as the schema author wrote it.
#[derive(Clone, Debug)]
pub struct RawQty {
    /// The quantity identifier.
    pub ident: String,
    /// The declared derivations, possibly empty.
    pub derivations: Vec<RawDerivation>,
    /// The reference-unit and unit clauses, in declaration order.
    pub clauses: Vec<RawClause>,
}

/// The schema-time rejections. Each aborts processing of the quantity.
#[derive(Clone, Copy, Debug, PartialEq, Eq, Structural)]
pub enum SchemaError {
    /// No unit clause was given.
    NoUnits,
    /// More than one reference-unit clause was given.
    DuplicateRefUnit,
    /// The reference-unit clause carries a scale; its scale is implicitly 1.
    UnexpectedScale,
    /// A unit clause lacks a scale although a reference unit exists.
    MissingScale,
    /// A unit clause carries a scale or SI prefix although no reference
    /// unit exists.
    UnexpectedArgument,
    /// A clause does not fit any of the supported positional shapes.
    MalformedUnit,
    /// A derivation uses an operator other than `*` or `/`, or an operand
    /// that is not a simple identifier.
    InvalidDerivation,
}

/// A validated unit description, before normalization.
#[derive(Clone, Debug)]
pub struct UnitDesc {
    /// The author-supplied unit identifier.
    pub ident: String,
    /// The printable symbol.
    pub symbol: String,
    /// The SI-prefix tag, if any.
    pub si_prefix: Option<SIPrefix>,
    /// The scale relative to the reference unit, if any.
    pub scale: Option<Rat>,
    /// Documentation text, if any.
    pub doc: Option<String>,
}

/// A usable scale: a well-formed, strictly positive rational.
pub open spec fn scale_ok(r: Rat) -> bool {
    rat_wf(r) && r.num >= 1
}

/// What parsing the positional arguments of one unit clause yields.
pub open spec fn parse_unit_spec(args: Seq<RawArg>) -> Result<UnitDesc, SchemaError> {
    if args.len() < 2 || args.len() > 5 {
        Err(SchemaError::MalformedUnit)
    } else {
        match (args[0], args[1]) {
            (RawArg::Word(id), RawArg::Text(sym)) => {
                if !spec_is_identifier(id@) {
                    Err(SchemaError::MalformedUnit)
                } else if args.len() == 2 {
                    Ok(
                        UnitDesc {
                            ident: id,
                            symbol: sym,
                            si_prefix: None,
                            scale: None,
                            doc: None,
                        },
                    )
                } else if args.len() == 3 {
                    match args[2] {
                        RawArg::Word(p) => match spec_prefix_from_name(p@) {
                            Some(pref) => Ok(
                                UnitDesc {
                                    ident: id,
                                    symbol: sym,
                                    si_prefix: Some(pref),
                                    scale: None,
                                    doc: None,
                                },
                            ),
                            None => Err(SchemaError::MalformedUnit),
                        },
                        RawArg::Number(sc) => if scale_ok(sc) {
                            Ok(
                                UnitDesc {
                                    ident: id,
                                    symbol: sym,
                                    si_prefix: None,
                                    scale: Some(sc),
                                    doc: None,
                                },
                            )
                        } else {
                            Err(SchemaError::MalformedUnit)
                        },
                        RawArg::Text(d) => Ok(
                            UnitDesc {
                                ident: id,
                                symbol: sym,
                                si_prefix: None,
                                scale: None,
                                doc: Some(d),
                            },
                        ),
                    }
                } else if args.len() == 4 {
                    match (args[2], args[3]) {
                        (RawArg::Word(p), RawArg::Number(sc)) => match spec_prefix_from_name(p@) {
                            Some(pref) => if scale_ok(sc) {
                                Ok(
                                    UnitDesc {
                                        ident: id,
                                        symbol: sym,
                                        si_prefix: Some(pref),
                                        scale: Some(sc),
                                        doc: None,
                                    },
                                )
                            } else {
                                Err(SchemaError::MalformedUnit)
                            },
                            None => Err(SchemaError::MalformedUnit),
                        },
                        (RawArg::Word(p), RawArg::Text(d)) => match spec_prefix_from_name(p@) {
                            Some(pref) => Ok(
                                UnitDesc {
                                    ident: id,
                                    symbol: sym,
                                    si_prefix: Some(pref),
                                    scale: None,
                                    doc: Some(d),
                                },
                            ),
                            None => Err(SchemaError::MalformedUnit),
                        },
                        (RawArg::Number(sc), RawArg::Text(d)) => if scale_ok(sc) {
                            Ok(
                                UnitDesc {
                                    ident: id,
                                    symbol: sym,
                                    si_prefix: None,
                                    scale: Some(sc),
                                    doc: Some(d),
                                },
                            )
                        } else {
                            Err(SchemaError::MalformedUnit)
                        },
                        _ => Err(SchemaError::MalformedUnit),
                    }
                } else {
                    match (args[2], args[3], args[4]) {
                        (
                            RawArg::Word(p),
                            RawArg::Number(sc),
                            RawArg::Text(d),
                        ) => match spec_prefix_from_name(p@) {
                            Some(pref) => if scale_ok(sc) {
                                Ok(
                                    UnitDesc {
                                        ident: id,
                                        symbol: sym,
                                        si_prefix: Some(pref),
                                        scale: Some(sc),
                                        doc: Some(d),
                                    },
                                )
                            } else {
                                Err(SchemaError::MalformedUnit)
                            },
                            None => Err(SchemaError::MalformedUnit),
                        },
                        _ => Err(SchemaError::MalformedUnit),
                    }
                }
            },
            _ => Err(SchemaError::MalformedUnit),
        }
    }
}

/// The parse of a unit clause either succeeds or reports a malformed
/// clause; a parsed scale is always usable.
pub proof fn lemma_parse_unit_cases(args: Seq<RawArg>)
    ensures
        parse_unit_spec(args) is Err ==> parse_unit_spec(args) == Err::<UnitDesc, SchemaError>(
            SchemaError::MalformedUnit,
        ),
        parse_unit_spec(args) matches Ok(u) ==> (u.scale matches Some(sc) ==> scale_ok(sc)),
{
}

/// Checks that a scale argument is a usable scale.
fn check_scale(sc: &Rat) -> (b: bool)
    ensures
        b == scale_ok(*sc),
{
    1 <= sc.den && sc.den <= RAT_BOUND && 1 <= sc.num && sc.num <= RAT_BOUND
}

/// Parses the positional arguments of one unit clause.
pub fn parse_unit_args(args: &Vec<RawArg>) -> (r: Result<UnitDesc, SchemaError>)
    ensures
        r == parse_unit_spec(args@),
{
    let n = args.len();
    if n < 2 || n > 5 {
        return Err(SchemaError::MalformedUnit);
    }
    let (id, sym) = match (&args[0], &args[1]) {
        (RawArg::Word(id), RawArg::Text(sym)) => (id, sym),
        _ => {
            return Err(SchemaError::MalformedUnit);
        },
    };
    if !is_identifier(id.as_str()) {
        return Err(SchemaError::MalformedUnit);
    }
    if n == 2 {
        return Ok(
            UnitDesc {
                ident: id.clone(),
                symbol: sym.clone(),
                si_prefix: None,
                scale: None,
                doc: None,
            },
        );
    }
    if n == 3 {
        return match &args[2] {
            RawArg::Word(p) => match SIPrefix::from_name(p.as_str()) {
                Some(pref) => Ok(
                    UnitDesc {
                        ident: id.clone(),
                        symbol: sym.clone(),
                        si_prefix: Some(pref),
                        scale: None,
                        doc: None,
                    },
                ),
                None => Err(SchemaError::MalformedUnit),
            },
            RawArg::Number(sc) => if check_scale(sc) {
                Ok(
                    UnitDesc {
                        ident: id.clone(),
                        symbol: sym.clone(),
                        si_prefix: None,
                        scale: Some(*sc),
                        doc: None,
                    },
                )
            } else {
                Err(SchemaError::MalformedUnit)
            },
            RawArg::Text(d) => Ok(
                UnitDesc {
                    ident: id.clone(),
                    symbol: sym.clone(),
                    si_prefix: None,
                    scale: None,
                    doc: Some(d.clone()),
                },
            ),
        };
    }
    if n == 4 {
        return match (&args[2], &args[3]) {
            (RawArg::Word(p), RawArg::Number(sc)) => match SIPrefix::from_name(p.as_str()) {
                Some(pref) => if check_scale(sc) {
                    Ok(
                        UnitDesc {
                            ident: id.clone(),
                            symbol: sym.clone(),
                            si_prefix: Some(pref),
                            scale: Some(*sc),
                            doc: None,
                        },
                    )
                } else {
                    Err(SchemaError::MalformedUnit)
                },
                None => Err(SchemaError::MalformedUnit),
            },
            (RawArg::Word(p), RawArg::Text(d)) => match SIPrefix::from_name(p.as_str()) {
                Some(pref) => Ok(
                    UnitDesc {
                        ident: id.clone(),
                        symbol: sym.clone(),
                        si_prefix: Some(pref),
                        scale: None,
                        doc: Some(d.clone()),
                    },
                ),
                None => Err(SchemaError::MalformedUnit),
            },
            (RawArg::Number(sc), RawArg::Text(d)) => if check_scale(sc) {
                Ok(
                    UnitDesc {
                        ident: id.clone(),
                        symbol: sym.clone(),
                        si_prefix: None,
                        scale: Some(*sc),
                        doc: Some(d.clone()),
                    },
                )
            } else {
                Err(SchemaError::MalformedUnit)
            },
            _ => Err(SchemaError::MalformedUnit),
        };
    }
    match (&args[2], &args[3], &args[4]) {
        (RawArg::Word(p), RawArg::Number(sc), RawArg::Text(d)) => match SIPrefix::from_name(
            p.as_str(),
        ) {
            Some(pref) => if check_scale(sc) {
                Ok(
                    UnitDesc {
                        ident: id.clone(),
                        symbol: sym.clone(),
                        si_prefix: Some(pref),
                        scale: Some(*sc),
                        doc: Some(d.clone()),
                    },
                )
            } else {
                Err(SchemaError::MalformedUnit)
            },
            None => Err(SchemaError::MalformedUnit),
        },
        _ => Err(SchemaError::MalformedUnit),
    }
}

/// How many reference-unit clauses a declaration has.
pub open spec fn ref_clause_count(cs: Seq<RawClause>) -> int
    decreases cs.len(),
{
    if cs.len() == 0 {
        0
    } else {
        ref_clause_count(cs.drop_last()) + match cs.last() {
            RawClause::RefUnit(_) => 1int,
            RawClause::Unit(_) => 0int,
        }
    }
}

/// The argument lists of the unit clauses, in declaration order.
pub open spec fn unit_clause_args(cs: Seq<RawClause>) -> Seq<Seq<RawArg>>
    decreases cs.len(),
{
    if cs.len() == 0 {
        Seq::empty()
    } else {
        match cs.last() {
            RawClause::Unit(a) => unit_clause_args(cs.drop_last()).push(a@),
            RawClause::RefUnit(_) => unit_clause_args(cs.drop_last()),
        }
    }
}

/// The argument list of the first reference-unit clause, if any.
pub open spec fn first_ref_clause(cs: Seq<RawClause>) -> Option<Seq<RawArg>>
    decreases cs.len(),
{
    if cs.len() == 0 {
        None
    } else {
        match first_ref_clause(cs.drop_last()) {
            Some(a) => Some(a),
            None => match cs.last() {
                RawClause::RefUnit(a) => Some(a@),
                RawClause::Unit(_) => None,
            },
        }
    }
}

/// The views of a list of argument lists.
pub open spec fn args_views(vs: Seq<Vec<RawArg>>) -> Seq<Seq<RawArg>> {
    vs.map_values(|v: Vec<RawArg>| v@)
}

/// The view of an optional argument list.
pub open spec fn opt_args_view(v: Option<Vec<RawArg>>) -> Option<Seq<RawArg>> {
    match v {
        Some(a) => Some(a@),
        None => None,
    }
}

/// Splits the clauses of a declaration into the unit descriptions and the
/// optional reference-unit description.
///
/// Rejects a second reference-unit clause and a declaration without any
/// unit clause.
/// Copies one positional argument.
fn clone_arg(a: &RawArg) -> (r: RawArg)
    ensures
        r == *a,
{
    match a {
        RawArg::Word(s) => RawArg::Word(s.clone()),
        RawArg::Text(s) => RawArg::Text(s.clone()),
        RawArg::Number(x) => RawArg::Number(*x),
    }
}

/// Copies the argument list of one clause.
fn clone_args(v: &Vec<RawArg>) -> (r: Vec<RawArg>)
    ensures
        r@ == v@,
{
    let mut out: Vec<RawArg> = Vec::new();
    let mut i: usize = 0;
    while i < v.len()
        invariant
            0 <= i <= v@.len(),
            out@ == v@.subrange(0, i as int),
        decreases v@.len() - i,
    {
        out.push(clone_arg(&v[i]));
        proof {
            assert(out@ =~= v@.subrange(0, i + 1));
        }
        i += 1;
    }
    proof {
        assert(v@.subrange(0, v@.len() as int) =~= v@);
    }
    out
}

pub fn split_clauses(cs: &Vec<RawClause>) -> (r: Result<
    (Vec<Vec<RawArg>>, Option<Vec<RawArg>>),
    SchemaError,
>)
    ensures
        r is Err <==> ref_clause_count(cs@) >= 2 || unit_clause_args(cs@).len() == 0,
        r == Err::<(Vec<Vec<RawArg>>, Option<Vec<RawArg>>), SchemaError>(
            SchemaError::DuplicateRefUnit,
        ) <==> ref_clause_count(cs@) >= 2,
        r == Err::<(Vec<Vec<RawArg>>, Option<Vec<RawArg>>), SchemaError>(SchemaError::NoUnits)
            <==> ref_clause_count(cs@) < 2 && unit_clause_args(cs@).len() == 0,
        r matches Ok(p) ==> {
            &&& args_views(p.0@) == unit_clause_args(cs@)
            &&& opt_args_view(p.1) == first_ref_clause(cs@)
            &&& ref_clause_count(cs@) <= 1
        },
{
    let mut units: Vec<Vec<RawArg>> = Vec::new();
    let mut ref_unit: Option<Vec<RawArg>> = None;
    let mut i: usize = 0;
    while i < cs.len()
        invariant
            0 <= i <= cs@.len(),
            args_views(units@) == unit_clause_args(cs@.subrange(0, i as int)),
            opt_args_view(ref_unit) == first_ref_clause(cs@.subrange(0, i as int)),
            ref_clause_count(cs@.subrange(0, i as int)) == if ref_unit is Some {
                1int
            } else {
                0int
            },
        decreases cs@.len() - i,
    {
        proof {
            assert(cs@.subrange(0, i + 1).drop_last() =~= cs@.subrange(0, i as int));
            assert(cs@.subrange(0, i + 1).last() == cs@[i as int]);
        }
        match &cs[i] {
            RawClause::RefUnit(a) => {
                if ref_unit.is_some() {
                    proof {
                        assert(ref_clause_count(cs@.subrange(0, i + 1)) == ref_clause_count(
                            cs@.subrange(0, i as int),
                        ) + 1);
                        lemma_ref_count_extend(cs@, i + 1);
                    }
                    return Err(SchemaError::DuplicateRefUnit);
                }
                ref_unit = Some(clone_args(a));
            },
            RawClause::Unit(a) => {
                let copy = clone_args(a);
                let ghost prev = units@;
                units.push(copy);
                proof {
                    assert(args_views(units@) =~= args_views(prev).push(copy@));
                }
            },
        }
        i += 1;
    }
    proof {
        assert(cs@.subrange(0, cs@.len() as int) =~= cs@);
    }
    if units.len() == 0 {
        return Err(SchemaError::NoUnits);
    }
    Ok((units, ref_unit))
}

/// Once two reference-unit clauses stand in a prefix, the whole clause
/// list has at least two.
proof fn lemma_ref_count_extend(cs: Seq<RawClause>, i: int)
    requires
        0 <= i <= cs.len(),
        ref_clause_count(cs.subrange(0, i)) >= 2,
    ensures
        ref_clause_count(cs) >= 2,
    decreases cs.len() - i,
{
    if i < cs.len() {
        assert(cs.subrange(0, i + 1).drop_last() =~= cs.subrange(0, i));
        lemma_ref_count_extend(cs, i + 1);
    } else {
        assert(cs.subrange(0, i) =~= cs);
    }
}

/// A declared derivation is acceptable: the operator is `*` or `/` and
/// both operands are simple identifiers.
pub open spec fn derivation_ok(d: RawDerivation) -> bool {
    &&& d.op == '*' || d.op == '/'
    &&& spec_is_identifier(d.lhs@)
    &&& spec_is_identifier(d.rhs@)
}

/// Validates the derivation expressions of a declaration.
pub fn check_derivations(ds: &Vec<RawDerivation>) -> (r: Result<(), SchemaError>)
    ensures
        r is Ok <==> forall|i: int| 0 <= i < ds@.len() ==> derivation_ok(#[trigger] ds@[i]),
        r is Err ==> r == Err::<(), SchemaError>(SchemaError::InvalidDerivation),
{
    let mut i: usize = 0;
    while i < ds.len()
        invariant
            0 <= i <= ds.len(),
            forall|j: int| 0 <= j < i ==> derivation_ok(#[trigger] ds@[j]),
        decreases ds.len() - i,
    {
        let d = &ds[i];
        let op_ok = d.op == '*' || d.op == '/';
        if !(op_ok && is_identifier(d.lhs.as_str()) && is_identifier(d.rhs.as_str())) {
            return Err(SchemaError::InvalidDerivation);
        }
        i += 1;
    }
    Ok(())
}

} // verus!
