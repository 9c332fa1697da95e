//! The unit schema normalizer.
//!
//! Turns a validated declaration into a quantity descriptor: derives each
//! unit's canonical identifier (upper-camel case), display name (the
//! author's identifier with underscores turned into spaces) and constant
//! name (upper-snake case), gives the reference unit scale 1, and orders
//! the units — ascending by scale when a reference unit exists (ties kept
//! in declaration order, the reference unit first), else by display name.

use vstd::prelude::*;

use crate::prefix::SIPrefix;
use crate::rat::{rat_le_spec, Rat};
use crate::schema::{
    check_derivations, derivation_ok, first_ref_clause, parse_unit_args, parse_unit_spec,
    ref_clause_count, scale_ok, split_clauses, unit_clause_args, RawArg, RawDerivation, RawQty,
    SchemaError,
    UnitDesc,
};
use crate::text::{lex_lt, replace_underscores, spaced, to_upper_camel, to_upper_snake,
    upper_camel_of, upper_snake_of};

verus! {

/// A normalized unit of a quantity descriptor.
#[derive(Clone, Debug)]
pub struct UnitDef {
    /// Canonical (upper-camel) identifier.
    pub ident: String,
    /// Human-readable display name.
    pub name: String,
    /// Printable symbol.
    pub symbol: String,
    /// Identifier for the unit's flat constant (upper-snake).
    pub const_ident: String,
    /// SI-prefix tag, if any.
    pub si_prefix: Option<SIPrefix>,
    /// Scale relative to the reference unit; present exactly when the
    /// owning quantity has a reference unit.
    pub scale: Option<Rat>,
    /// Documentation text, if any.
    pub doc: Option<String>,
}

/// The mathematical image of a normalized unit.
pub struct UnitDefV {
    /// Canonical identifier.
    pub ident: Seq<char>,
    /// Display name.
    pub name: Seq<char>,
    /// Symbol.
    pub symbol: Seq<char>,
    /// Constant identifier.
    pub const_ident: Seq<char>,
    /// SI-prefix tag.
    pub si_prefix: Option<SIPrefix>,
    /// Scale.
    pub scale: Option<Rat>,
    /// Documentation text.
    pub doc: Option<Seq<char>>,
}

impl View for UnitDef {
    type V = UnitDefV;

    open spec fn view(&self) -> UnitDefV {
        UnitDefV {
            ident: self.ident@,
            name: self.name@,
            symbol: self.symbol@,
            const_ident: self.const_ident@,
            si_prefix: self.si_prefix,
            scale: self.scale,
            doc: match self.doc {
                Some(d) => Some(d@),
                None => None,
            },
        }
    }
}

/// A validated quantity descriptor.
#[derive(Clone, Debug)]
pub struct QtyDef {
    /// The quantity identifier.
    pub ident: String,
    /// Canonical identifier of the reference unit, if one exists.
    pub ref_unit_ident: Option<String>,
    /// The units, in canonical order.
    pub units: Vec<UnitDef>,
    /// The validated derivations.
    pub derivations: Vec<RawDerivation>,
}

/// The unit of scale 1, used for the reference unit itself.
pub open spec fn rat_one() -> Rat {
    Rat { num: 1, den: 1 }
}

/// What normalization does to one unit description.
pub open spec fn norm_unit_v(d: UnitDesc) -> UnitDefV {
    UnitDefV {
        ident: upper_camel_of(d.ident@),
        name: spaced(d.ident@),
        symbol: d.symbol@,
        const_ident: upper_snake_of(upper_camel_of(d.ident@)),
        si_prefix: d.si_prefix,
        scale: d.scale,
        doc: match d.doc {
            Some(t) => Some(t@),
            None => None,
        },
    }
}

/// The description with its scale replaced.
pub open spec fn with_scale(d: UnitDesc, s: Rat) -> UnitDesc {
    UnitDesc { ident: d.ident, symbol: d.symbol, si_prefix: d.si_prefix, scale: Some(s), doc: d.doc }
}

/// The scale of a unit that has one.
pub open spec fn scale_of(u: UnitDefV) -> Rat {
    u.scale->Some_0
}

/// Inserts a unit into a scale-ordered sequence, after every unit whose
/// scale is no larger, so that ties keep their original order.
pub open spec fn insert_by_scale(s: Seq<UnitDefV>, u: UnitDefV) -> Seq<UnitDefV>
    decreases s.len(),
{
    if s.len() == 0 {
        seq![u]
    } else if rat_le_spec(scale_of(s.last()), scale_of(u)) {
        s.push(u)
    } else {
        insert_by_scale(s.drop_last(), u).push(s.last())
    }
}

/// Stable insertion sort of units by ascending scale.
pub open spec fn sort_by_scale(s: Seq<UnitDefV>) -> Seq<UnitDefV>
    decreases s.len(),
{
    if s.len() == 0 {
        Seq::empty()
    } else {
        insert_by_scale(sort_by_scale(s.drop_last()), s.last())
    }
}

/// Inserts a unit into a name-ordered sequence, after every unit whose
/// name is not lexicographically greater.
pub open spec fn insert_by_name(s: Seq<UnitDefV>, u: UnitDefV) -> Seq<UnitDefV>
    decreases s.len(),
{
    if s.len() == 0 {
        seq![u]
    } else if !lex_lt(u.name, s.last().name) {
        s.push(u)
    } else {
        insert_by_name(s.drop_last(), u).push(s.last())
    }
}

/// Stable insertion sort of units by display name.
pub open spec fn sort_by_name(s: Seq<UnitDefV>) -> Seq<UnitDefV>
    decreases s.len(),
{
    if s.len() == 0 {
        Seq::empty()
    } else {
        insert_by_name(sort_by_name(s.drop_last()), s.last())
    }
}

/// Splicing characterization of `insert_by_scale`: inserting at position
/// `k`, where everything before is no larger and everything from `k` on is
/// strictly larger, is what the recursion computes.
proof fn lemma_insert_by_scale_splice(s: Seq<UnitDefV>, u: UnitDefV, k: int)
    requires
        0 <= k <= s.len(),
        k == 0 || rat_le_spec(scale_of(s[k - 1]), scale_of(u)),
        forall|j: int| k <= j < s.len() ==> !rat_le_spec(scale_of(#[trigger] s[j]), scale_of(u)),
    ensures
        insert_by_scale(s, u) =~= s.take(k) + seq![u] + s.skip(k),
    decreases s.len(),
{
    if s.len() == 0 {
        assert(insert_by_scale(s, u) =~= s.take(0) + seq![u] + s.skip(0));
    } else if k == s.len() {
        assert(rat_le_spec(scale_of(s.last()), scale_of(u)));
        assert(s.take(k) =~= s);
        assert(s.skip(k) =~= Seq::empty());
        assert(insert_by_scale(s, u) =~= s.take(k) + seq![u] + s.skip(k));
    } else {
        assert(!rat_le_spec(scale_of(s[s.len() - 1]), scale_of(u)));
        lemma_insert_by_scale_splice(s.drop_last(), u, k);
        assert(s.drop_last().take(k) =~= s.take(k));
        assert((s.take(k) + seq![u] + s.drop_last().skip(k)).push(s.last()) =~= s.take(k) + seq![u]
            + s.skip(k));
    }
}

/// Splicing characterization of `insert_by_name`.
proof fn lemma_insert_by_name_splice(s: Seq<UnitDefV>, u: UnitDefV, k: int)
    requires
        0 <= k <= s.len(),
        k == 0 || !lex_lt(u.name, s[k - 1].name),
        forall|j: int| k <= j < s.len() ==> lex_lt(u.name, (#[trigger] s[j]).name),
    ensures
        insert_by_name(s, u) =~= s.take(k) + seq![u] + s.skip(k),
    decreases s.len(),
{
    if s.len() == 0 {
        assert(insert_by_name(s, u) =~= s.take(0) + seq![u] + s.skip(0));
    } else if k == s.len() {
        assert(s.take(k) =~= s);
        assert(s.skip(k) =~= Seq::empty());
        assert(insert_by_name(s, u) =~= s.take(k) + seq![u] + s.skip(k));
    } else {
        assert(lex_lt(u.name, s[s.len() - 1].name));
        lemma_insert_by_name_splice(s.drop_last(), u, k);
        assert(s.drop_last().take(k) =~= s.take(k));
        assert((s.take(k) + seq![u] + s.drop_last().skip(k)).push(s.last()) =~= s.take(k) + seq![u]
            + s.skip(k));
    }
}

/// The views of a unit vector.
pub open spec fn unit_views(v: Seq<UnitDef>) -> Seq<UnitDefV> {
    v.map_values(|u: UnitDef| u@)
}

/// Every unit of the sequence has a usable scale.
pub open spec fn all_scaled(s: Seq<UnitDefV>) -> bool {
    forall|i: int|
        0 <= i < s.len() ==> ((#[trigger] s[i]).scale matches Some(sc) && scale_ok(sc))
}

/// The sequence is ordered by ascending scale.
pub open spec fn scale_sorted(s: Seq<UnitDefV>) -> bool {
    forall|i: int, j: int|
        0 <= i < j < s.len() ==> rat_le_spec(
            scale_of(#[trigger] s[i]),
            scale_of(#[trigger] s[j]),
        )
}

/// The sequence is ordered by display name.
pub open spec fn name_sorted(s: Seq<UnitDefV>) -> bool {
    forall|i: int, j: int|
        0 <= i < j < s.len() ==> !lex_lt((#[trigger] s[j]).name, (#[trigger] s[i]).name)
}

/// Copies a normalized unit.
pub fn clone_unit(u: &UnitDef) -> (r: UnitDef)
    ensures
        r == *u,
{
    UnitDef {
        ident: u.ident.clone(),
        name: u.name.clone(),
        symbol: u.symbol.clone(),
        const_ident: u.const_ident.clone(),
        si_prefix: u.si_prefix,
        scale: u.scale,
        doc: match &u.doc {
            Some(d) => Some(d.clone()),
            None => None,
        },
    }
}

/// Normalizes one unit description: canonical identifier, display name,
/// constant identifier.
pub fn normalize_unit(d: &UnitDesc) -> (r: UnitDef)
    ensures
        r@ == norm_unit_v(*d),
{
    let ident = to_upper_camel(d.ident.as_str());
    let name = replace_underscores(d.ident.as_str());
    let const_ident = to_upper_snake(ident.as_str());
    UnitDef {
        ident,
        name,
        symbol: d.symbol.clone(),
        const_ident,
        si_prefix: d.si_prefix,
        scale: d.scale,
        doc: match &d.doc {
            Some(t) => Some(t.clone()),
            None => None,
        },
    }
}

/// Every unit of the vector has a usable scale.
pub open spec fn all_scaled_units(s: Seq<UnitDef>) -> bool {
    forall|i: int|
        0 <= i < s.len() ==> ((#[trigger] s[i]).scale matches Some(sc) && scale_ok(sc))
}

/// Does `a`'s scale strictly exceed `b`'s?
fn unit_scale_gt(a: &UnitDef, b: &UnitDef) -> (r: bool)
    requires
        (a.scale matches Some(x) && scale_ok(x)),
        (b.scale matches Some(y) && scale_ok(y)),
    ensures
        r == !rat_le_spec(scale_of(a@), scale_of(b@)),
{
    let asc = a.scale.unwrap();
    let bsc = b.scale.unwrap();
    !asc.le_val(&bsc)
}

/// Sorts units ascending by scale; equal scales keep their order.
fn sort_units_by_scale(v: &Vec<UnitDef>) -> (r: Vec<UnitDef>)
    requires
        all_scaled_units(v@),
    ensures
        unit_views(r@) == sort_by_scale(unit_views(v@)),
        all_scaled_units(r@),
        r@.len() == v@.len(),
{
    let mut out: Vec<UnitDef> = Vec::new();
    let mut i: usize = 0;
    while i < v.len()
        invariant
            0 <= i <= v@.len(),
            all_scaled_units(v@),
            unit_views(out@) == sort_by_scale(unit_views(v@).take(i as int)),
            all_scaled_units(out@),
            out@.len() == i,
        decreases v@.len() - i,
    {
        proof {
            assert(unit_views(v@)[i as int] == v@[i as int]@);
        }
        let u = clone_unit(&v[i]);
        let ghost sorted0 = unit_views(out@);
        let mut k: usize = out.len();
        while k > 0 && unit_scale_gt(&out[k - 1], &u)
            invariant
                0 <= k <= out@.len(),
                all_scaled_units(out@),
                unit_views(out@) == sorted0,
                out@.len() == sorted0.len(),
                (u.scale matches Some(sc) && scale_ok(sc)),
                forall|j: int|
                    k <= j < out@.len() ==> !rat_le_spec(
                        scale_of(#[trigger] sorted0[j]),
                        scale_of(u@),
                    ),
            decreases k,
        {
            proof {
                assert(sorted0[k - 1] == out@[k - 1]@);
            }
            k -= 1;
        }
        proof {
            if k > 0 {
                assert(sorted0[k - 1] == out@[k - 1]@);
            }
            lemma_insert_by_scale_splice(sorted0, u@, k as int);
        }
        out.insert(k, u);
        proof {
            assert(unit_views(out@) =~= sorted0.take(k as int) + seq![u@] + sorted0.skip(k as int));
            assert(unit_views(v@).take(i + 1).drop_last() =~= unit_views(v@).take(i as int));
            assert(unit_views(v@).take(i + 1).last() == u@);
            assert(unit_views(out@) == insert_by_scale(
                sort_by_scale(unit_views(v@).take(i as int)),
                u@,
            ));
        }
        i += 1;
    }
    proof {
        assert(unit_views(v@).take(v@.len() as int) =~= unit_views(v@));
    }
    out
}

/// Is `a`'s display name lexicographically before `b`'s?
fn unit_name_lt(a: &UnitDef, b: &UnitDef) -> (r: bool)
    ensures
        r == lex_lt(a@.name, b@.name),
{
    match crate::text::str_lex_cmp(a.name.as_str(), b.name.as_str()) {
        core::cmp::Ordering::Less => true,
        _ => false,
    }
}

/// Sorts units by display name; equal names keep their order.
fn sort_units_by_name(v: &Vec<UnitDef>) -> (r: Vec<UnitDef>)
    ensures
        unit_views(r@) == sort_by_name(unit_views(v@)),
        r@.len() == v@.len(),
{
    let mut out: Vec<UnitDef> = Vec::new();
    let mut i: usize = 0;
    while i < v.len()
        invariant
            0 <= i <= v@.len(),
            unit_views(out@) == sort_by_name(unit_views(v@).take(i as int)),
            out@.len() == i,
        decreases v@.len() - i,
    {
        proof {
            assert(unit_views(v@)[i as int] == v@[i as int]@);
        }
        let u = clone_unit(&v[i]);
        let ghost sorted0 = unit_views(out@);
        let mut k: usize = out.len();
        while k > 0 && unit_name_lt(&u, &out[k - 1])
            invariant
                0 <= k <= out@.len(),
                unit_views(out@) == sorted0,
                out@.len() == sorted0.len(),
                forall|j: int|
                    k <= j < out@.len() ==> lex_lt(u@.name, (#[trigger] sorted0[j]).name),
            decreases k,
        {
            proof {
                assert(sorted0[k - 1] == out@[k - 1]@);
            }
            k -= 1;
        }
        proof {
            if k > 0 {
                assert(sorted0[k - 1] == out@[k - 1]@);
            }
            lemma_insert_by_name_splice(sorted0, u@, k as int);
        }
        out.insert(k, u);
        proof {
            assert(unit_views(out@) =~= sorted0.take(k as int) + seq![u@] + sorted0.skip(k as int));
            assert(unit_views(v@).take(i + 1).drop_last() =~= unit_views(v@).take(i as int));
            assert(unit_views(v@).take(i + 1).last() == u@);
            assert(unit_views(out@) == insert_by_name(
                sort_by_name(unit_views(v@).take(i as int)),
                u@,
            ));
        }
        i += 1;
    }
    proof {
        assert(unit_views(v@).take(v@.len() as int) =~= unit_views(v@));
    }
    out
}


/// The parsed unit descriptions, meaningful when every clause parses.
pub open spec fn parsed_units(argss: Seq<Seq<RawArg>>) -> Seq<UnitDesc> {
    Seq::new(argss.len(), |i: int| parse_unit_spec(argss[i])->Ok_0)
}

/// The normalized views of a sequence of unit descriptions.
pub open spec fn norm_views(ds: Seq<UnitDesc>) -> Seq<UnitDefV> {
    ds.map_values(|d: UnitDesc| norm_unit_v(d))
}

/// All unit clauses parse.
pub open spec fn all_units_parse(argss: Seq<Seq<RawArg>>) -> bool {
    forall|i: int| 0 <= i < argss.len() ==> parse_unit_spec(#[trigger] argss[i]) is Ok
}

/// All declared derivations are acceptable.
pub open spec fn all_derivations_ok(ds: Seq<RawDerivation>) -> bool {
    forall|i: int| 0 <= i < ds.len() ==> derivation_ok(#[trigger] ds[i])
}

/// Every parsed unit carries a scale.
pub open spec fn all_have_scale(ds: Seq<UnitDesc>) -> bool {
    forall|i: int| 0 <= i < ds.len() ==> (#[trigger] ds[i]).scale is Some
}

/// No parsed unit carries a scale or an SI-prefix tag.
pub open spec fn none_scaled_or_tagged(ds: Seq<UnitDesc>) -> bool {
    forall|i: int|
        0 <= i < ds.len() ==> (#[trigger] ds[i]).scale is None && ds[i].si_prefix is None
}

/// All validity conditions of a quantity declaration at once: this is
/// exactly when `analyze` succeeds.
pub open spec fn analyze_ok(raw: RawQty) -> bool {
    let cs = raw.clauses@;
    let argss = unit_clause_args(cs);
    &&& ref_clause_count(cs) <= 1
    &&& argss.len() >= 1
    &&& all_units_parse(argss)
    &&& all_derivations_ok(raw.derivations@)
    &&& match first_ref_clause(cs) {
        Some(ra) => {
            &&& parse_unit_spec(ra) matches Ok(rd)
            &&& parse_unit_spec(ra)->Ok_0.scale is None
            &&& all_have_scale(parsed_units(argss))
        },
        None => none_scaled_or_tagged(parsed_units(argss)),
    }
}

/// The first fault among the unit clauses of a quantity that has a
/// reference unit, scanning from position `j` in declaration order: a
/// clause that does not parse reports its own error, one that parses
/// without a scale reports `MissingScale`.
pub open spec fn unit_fault_scaled(argss: Seq<Seq<RawArg>>, j: int) -> Option<SchemaError>
    decreases argss.len() - j,
    when 0 <= j <= argss.len()
{
    if j >= argss.len() {
        None
    } else {
        match parse_unit_spec(argss[j]) {
            Err(e) => Some(e),
            Ok(d) => if d.scale is None {
                Some(SchemaError::MissingScale)
            } else {
                unit_fault_scaled(argss, j + 1)
            },
        }
    }
}

/// The first fault among the unit clauses of a quantity without a
/// reference unit, scanning from position `j` in declaration order: a
/// clause that does not parse reports its own error, one carrying a scale
/// or an SI-prefix tag reports `UnexpectedArgument`.
pub open spec fn unit_fault_scaleless(argss: Seq<Seq<RawArg>>, j: int) -> Option<SchemaError>
    decreases argss.len() - j,
    when 0 <= j <= argss.len()
{
    if j >= argss.len() {
        None
    } else {
        match parse_unit_spec(argss[j]) {
            Err(e) => Some(e),
            Ok(d) => if d.scale is Some || d.si_prefix is Some {
                Some(SchemaError::UnexpectedArgument)
            } else {
                unit_fault_scaleless(argss, j + 1)
            },
        }
    }
}

/// The error that analyzing a declaration reports, `None` when it
/// succeeds. The checks run in this fixed order: the clause split
/// (duplicate reference unit, then no units), then — with a reference
/// unit — that clause's own parse and its forbidden scale, then the unit
/// clauses in declaration order, then the derivations.
pub open spec fn analyze_fault(raw: RawQty) -> Option<SchemaError> {
    let cs = raw.clauses@;
    let argss = unit_clause_args(cs);
    if ref_clause_count(cs) >= 2 {
        Some(SchemaError::DuplicateRefUnit)
    } else if argss.len() == 0 {
        Some(SchemaError::NoUnits)
    } else {
        match first_ref_clause(cs) {
            Some(ra) => match parse_unit_spec(ra) {
                Err(e) => Some(e),
                Ok(rd) => if rd.scale is Some {
                    Some(SchemaError::UnexpectedScale)
                } else {
                    match unit_fault_scaled(argss, 0) {
                        Some(e) => Some(e),
                        None => if all_derivations_ok(raw.derivations@) {
                            None
                        } else {
                            Some(SchemaError::InvalidDerivation)
                        },
                    }
                },
            },
            None => match unit_fault_scaleless(argss, 0) {
                Some(e) => Some(e),
                None => if all_derivations_ok(raw.derivations@) {
                    None
                } else {
                    Some(SchemaError::InvalidDerivation)
                },
            },
        }
    }
}

/// The canonical unit order of a successful analysis.
pub open spec fn analyzed_units(raw: RawQty) -> Seq<UnitDefV> {
    let argss = unit_clause_args(raw.clauses@);
    match first_ref_clause(raw.clauses@) {
        Some(ra) => sort_by_scale(
            seq![norm_unit_v(with_scale(parse_unit_spec(ra)->Ok_0, rat_one()))] + norm_views(
                parsed_units(argss),
            ),
        ),
        None => sort_by_name(norm_views(parsed_units(argss))),
    }
}

/// Copies a declared derivation.
fn clone_derivation(d: &RawDerivation) -> (r: RawDerivation)
    ensures
        r == *d,
{
    RawDerivation { lhs: d.lhs.clone(), op: d.op, rhs: d.rhs.clone() }
}

/// Copies a derivation list.
fn clone_derivations(ds: &Vec<RawDerivation>) -> (r: Vec<RawDerivation>)
    ensures
        r@ == ds@,
{
    let mut out: Vec<RawDerivation> = Vec::new();
    let mut i: usize = 0;
    while i < ds.len()
        invariant
            0 <= i <= ds@.len(),
            out@ == ds@.subrange(0, i as int),
        decreases ds@.len() - i,
    {
        out.push(clone_derivation(&ds[i]));
        proof {
            assert(out@ =~= ds@.subrange(0, i + 1));
        }
        i += 1;
    }
    proof {
        assert(ds@.subrange(0, ds@.len() as int) =~= ds@);
    }
    out
}

/// Analyzes one quantity declaration: validates every clause and
/// derivation, normalizes the units and establishes the canonical order.
///
/// The reference unit, when present, receives scale 1 and the units are
/// sorted ascending by scale, ties kept in declaration order with the
/// reference unit first; without a reference unit they are sorted by
/// display name.
#[verifier::loop_isolation(false)]
pub fn analyze(raw: &RawQty) -> (r: Result<QtyDef, SchemaError>)
    ensures
        r is Ok <==> analyze_ok(*raw),
        r matches Err(e) ==> analyze_fault(*raw) == Some(e),
        r == Err::<QtyDef, SchemaError>(SchemaError::DuplicateRefUnit) <==> ref_clause_count(
            raw.clauses@,
        ) >= 2,
        r == Err::<QtyDef, SchemaError>(SchemaError::NoUnits) <==> ref_clause_count(raw.clauses@)
            < 2 && unit_clause_args(raw.clauses@).len() == 0,
        r matches Ok(q) ==> {
            &&& q.ident == raw.ident
            &&& q.derivations@ == raw.derivations@
            &&& unit_views(q.units@) == analyzed_units(*raw)
            &&& q.units@.len() == unit_clause_args(raw.clauses@).len() + (
            if first_ref_clause(raw.clauses@) is Some {
                1int
            } else {
                0int
            })
            &&& match first_ref_clause(raw.clauses@) {
                Some(ra) => q.ref_unit_ident matches Some(s) && s@ == upper_camel_of(
                    parse_unit_spec(ra)->Ok_0.ident@,
                ),
                None => q.ref_unit_ident is None,
            }
        },
{
    let split = split_clauses(&raw.clauses);
    let (unit_argss, ref_opt) = match split {
        Ok(p) => p,
        Err(e) => {
            return Err(e);
        },
    };
    let ghost cs = raw.clauses@;
    let ghost argss = unit_clause_args(cs);
    match ref_opt {
        Some(ra) => {
            let rd = match parse_unit_args(&ra) {
                Ok(d) => d,
                Err(e) => {
                    proof {
                        crate::schema::lemma_parse_unit_cases(ra@);
                    }
                    return Err(e);
                },
            };
            if rd.scale.is_some() {
                return Err(SchemaError::UnexpectedScale);
            }
            let one = Rat::whole(1);
            let rd1 = UnitDesc {
                ident: rd.ident,
                symbol: rd.symbol,
                si_prefix: rd.si_prefix,
                scale: Some(one),
                doc: rd.doc,
            };
            proof {
                assert(rd1 == with_scale(parse_unit_spec(first_ref_clause(cs)->Some_0)->Ok_0,
                    rat_one()));
            }
            let ref_norm = normalize_unit(&rd1);
            let ref_ident = ref_norm.ident.clone();
            let mut pre: Vec<UnitDef> = Vec::new();
            pre.push(ref_norm);
            let mut i: usize = 0;
            while i < unit_argss.len()
                invariant
                    0 <= i <= unit_argss@.len(),
                    crate::schema::args_views(unit_argss@) == argss,
                    argss == unit_clause_args(cs),
                    forall|j: int| 0 <= j < i ==> parse_unit_spec(#[trigger] argss[j]) is Ok,
                    forall|j: int|
                        0 <= j < i ==> (#[trigger] parsed_units(argss)[j]).scale is Some,
                    unit_fault_scaled(argss, 0) == unit_fault_scaled(argss, i as int),
                    pre@.len() == i + 1,
                    unit_views(pre@) =~= seq![norm_unit_v(rd1)] + norm_views(
                        parsed_units(argss).take(i as int),
                    ),
                    all_scaled_units(pre@),
                    rd1.scale == Some(rat_one()),
                decreases unit_argss@.len() - i,
            {
                proof {
                    assert(unit_argss@[i as int]@ == argss[i as int]);
                }
                let d = match parse_unit_args(&unit_argss[i]) {
                    Ok(d) => d,
                    Err(e) => {
                        proof {
                            crate::schema::lemma_parse_unit_cases(argss[i as int]);
                            assert(!all_units_parse(argss));
                            assert(unit_fault_scaled(argss, i as int) == Some(e));
                        }
                        return Err(e);
                    },
                };
                if d.scale.is_none() {
                    proof {
                        assert(parsed_units(argss)[i as int] == d);
                        assert(!all_have_scale(parsed_units(argss)));
                        assert(unit_fault_scaled(argss, i as int) == Some(
                            SchemaError::MissingScale,
                        ));
                    }
                    return Err(SchemaError::MissingScale);
                }
                proof {
                    crate::schema::lemma_parse_unit_cases(argss[i as int]);
                    assert(unit_fault_scaled(argss, i as int) == unit_fault_scaled(argss, i + 1));
                }
                let nd = normalize_unit(&d);
                let ghost pre0 = pre@;
                pre.push(nd);
                proof {
                    assert(parsed_units(argss)[i as int] == d);
                    assert(unit_views(pre@) =~= unit_views(pre0).push(norm_unit_v(d)));
                    assert(norm_views(parsed_units(argss).take(i + 1)) =~= norm_views(
                        parsed_units(argss).take(i as int),
                    ).push(norm_unit_v(d)));
                    assert(unit_views(pre@) =~= seq![norm_unit_v(rd1)] + norm_views(
                        parsed_units(argss).take(i + 1),
                    ));
                }
                i += 1;
            }
            proof {
                assert(parsed_units(argss).take(argss.len() as int) =~= parsed_units(argss));
                assert(unit_fault_scaled(argss, argss.len() as int) is None);
            }
            if let Err(e) = check_derivations(&raw.derivations) {
                return Err(e);
            }
            let sorted = sort_units_by_scale(&pre);
            Ok(
                QtyDef {
                    ident: raw.ident.clone(),
                    ref_unit_ident: Some(ref_ident),
                    units: sorted,
                    derivations: clone_derivations(&raw.derivations),
                },
            )
        },
        None => {
            let mut pre: Vec<UnitDef> = Vec::new();
            let mut i: usize = 0;
            while i < unit_argss.len()
                invariant
                    0 <= i <= unit_argss@.len(),
                    crate::schema::args_views(unit_argss@) == argss,
                    argss == unit_clause_args(cs),
                    first_ref_clause(cs) is None,
                    forall|j: int| 0 <= j < i ==> parse_unit_spec(#[trigger] argss[j]) is Ok,
                    forall|j: int|
                        0 <= j < i ==> (#[trigger] parsed_units(argss)[j]).scale is None
                            && parsed_units(argss)[j].si_prefix is None,
                    unit_fault_scaleless(argss, 0) == unit_fault_scaleless(argss, i as int),
                    pre@.len() == i,
                    unit_views(pre@) =~= norm_views(parsed_units(argss).take(i as int)),
                decreases unit_argss@.len() - i,
            {
                proof {
                    assert(unit_argss@[i as int]@ == argss[i as int]);
                }
                let d = match parse_unit_args(&unit_argss[i]) {
                    Ok(d) => d,
                    Err(e) => {
                        proof {
                            crate::schema::lemma_parse_unit_cases(argss[i as int]);
                            assert(!all_units_parse(argss));
                            assert(unit_fault_scaleless(argss, i as int) == Some(e));
                        }
                        return Err(e);
                    },
                };
                if d.scale.is_some() || d.si_prefix.is_some() {
                    proof {
                        assert(parsed_units(argss)[i as int] == d);
                        assert(!none_scaled_or_tagged(parsed_units(argss)));
                        assert(unit_fault_scaleless(argss, i as int) == Some(
                            SchemaError::UnexpectedArgument,
                        ));
                    }
                    return Err(SchemaError::UnexpectedArgument);
                }
                proof {
                    assert(unit_fault_scaleless(argss, i as int) == unit_fault_scaleless(
                        argss,
                        i + 1,
                    ));
                }
                let nd = normalize_unit(&d);
                let ghost pre0 = pre@;
                pre.push(nd);
                proof {
                    assert(parsed_units(argss)[i as int] == d);
                    assert(unit_views(pre@) =~= unit_views(pre0).push(norm_unit_v(d)));
                    assert(norm_views(parsed_units(argss).take(i + 1)) =~= norm_views(
                        parsed_units(argss).take(i as int),
                    ).push(norm_unit_v(d)));
                    assert(unit_views(pre@) =~= norm_views(parsed_units(argss).take(i + 1)));
                }
                i += 1;
            }
            proof {
                assert(parsed_units(argss).take(argss.len() as int) =~= parsed_units(argss));
                assert(unit_fault_scaleless(argss, argss.len() as int) is None);
            }
            if let Err(e) = check_derivations(&raw.derivations) {
                return Err(e);
            }
            let sorted = sort_units_by_name(&pre);
            Ok(
                QtyDef {
                    ident: raw.ident.clone(),
                    ref_unit_ident: None,
                    units: sorted,
                    derivations: clone_derivations(&raw.derivations),
                },
            )
        },
    }
}


/// Not below is at-or-above: the rational order is total.
proof fn lemma_rat_not_le(a: Rat, b: Rat)
    ensures
        !rat_le_spec(a, b) ==> rat_le_spec(b, a),
{
}

/// Inserting into a scale-ordered sequence keeps it ordered; the result
/// holds exactly the old units and the new one.
proof fn lemma_insert_by_scale_keeps_sorted(s: Seq<UnitDefV>, u: UnitDefV)
    requires
        all_scaled(s),
        (u.scale matches Some(sc) && scale_ok(sc)),
        scale_sorted(s),
    ensures
        all_scaled(insert_by_scale(s, u)),
        scale_sorted(insert_by_scale(s, u)),
        insert_by_scale(s, u).len() == s.len() + 1,
        forall|k: int|
            0 <= k < insert_by_scale(s, u).len() ==> #[trigger] insert_by_scale(s, u)[k] == u
                || exists|m: int| 0 <= m < s.len() && insert_by_scale(s, u)[k] == s[m],
    decreases s.len(),
{
    let r = insert_by_scale(s, u);
    if s.len() == 0 {
        assert(r =~= seq![u]);
    } else if rat_le_spec(scale_of(s.last()), scale_of(u)) {
        assert(r =~= s.push(u));
        assert forall|i: int, j: int| 0 <= i < j < r.len() implies rat_le_spec(
            scale_of(#[trigger] r[i]),
            scale_of(#[trigger] r[j]),
        ) by {
            if j == s.len() {
                if i < s.len() - 1 {
                    crate::algebra::lemma_rat_le_trans(
                        scale_of(s[i]),
                        scale_of(s[s.len() - 1]),
                        scale_of(u),
                    );
                }
            }
        }
        assert forall|k: int| 0 <= k < r.len() implies #[trigger] r[k] == u || exists|m: int|
            0 <= m < s.len() && r[k] == s[m] by {
            if k < s.len() {
                assert(r[k] == s[k]);
            }
        }
    } else {
        let t = s.drop_last();
        assert forall|i: int, j: int| 0 <= i < j < t.len() implies rat_le_spec(
            scale_of(#[trigger] t[i]),
            scale_of(#[trigger] t[j]),
        ) by {
            assert(t[i] == s[i] && t[j] == s[j]);
        }
        assert forall|i: int| 0 <= i < t.len() implies ((#[trigger] t[i]).scale matches Some(sc)
            && scale_ok(sc)) by {
            assert(t[i] == s[i]);
        }
        lemma_insert_by_scale_keeps_sorted(t, u);
        let q = insert_by_scale(t, u);
        assert(r =~= q.push(s.last()));
        lemma_rat_not_le(scale_of(s.last()), scale_of(u));
        assert forall|i: int, j: int| 0 <= i < j < r.len() implies rat_le_spec(
            scale_of(#[trigger] r[i]),
            scale_of(#[trigger] r[j]),
        ) by {
            if j == q.len() {
                // every element of q is at most the removed last element
                assert(q[i] == u || exists|m: int| 0 <= m < t.len() && q[i] == t[m]);
                if q[i] == u {
                    assert(rat_le_spec(scale_of(u), scale_of(s.last())));
                } else {
                    let m = choose|m: int| 0 <= m < t.len() && q[i] == t[m];
                    assert(rat_le_spec(scale_of(s[m]), scale_of(s.last())));
                }
            }
        }
        assert forall|k: int| 0 <= k < r.len() implies #[trigger] r[k] == u || exists|m: int|
            0 <= m < s.len() && r[k] == s[m] by {
            if k < q.len() {
                assert(r[k] == q[k]);
                if q[k] != u {
                    let m = choose|m: int| 0 <= m < t.len() && q[k] == t[m];
                    assert(r[k] == s[m]);
                }
            } else {
                assert(r[k] == s[s.len() - 1]);
            }
        }
    }
}

/// Units ordered by the stable scale sort are in ascending scale order:
/// `scale(units[i]) <= scale(units[j])` for `i <= j`.
pub proof fn lemma_sort_by_scale_sorted(s: Seq<UnitDefV>)
    requires
        all_scaled(s),
    ensures
        all_scaled(sort_by_scale(s)),
        scale_sorted(sort_by_scale(s)),
        sort_by_scale(s).len() == s.len(),
    decreases s.len(),
{
    if s.len() > 0 {
        let t = s.drop_last();
        assert forall|i: int| 0 <= i < t.len() implies ((#[trigger] t[i]).scale matches Some(sc)
            && scale_ok(sc)) by {
            assert(t[i] == s[i]);
        }
        lemma_sort_by_scale_sorted(t);
        lemma_insert_by_scale_keeps_sorted(sort_by_scale(t), s.last());
    }
}

/// Inserting into a name-ordered sequence keeps it ordered; the result
/// holds exactly the old units and the new one.
proof fn lemma_insert_by_name_keeps_sorted(s: Seq<UnitDefV>, u: UnitDefV)
    requires
        name_sorted(s),
    ensures
        name_sorted(insert_by_name(s, u)),
        insert_by_name(s, u).len() == s.len() + 1,
        forall|k: int|
            0 <= k < insert_by_name(s, u).len() ==> #[trigger] insert_by_name(s, u)[k] == u
                || exists|m: int| 0 <= m < s.len() && insert_by_name(s, u)[k] == s[m],
    decreases s.len(),
{
    let r = insert_by_name(s, u);
    if s.len() == 0 {
        assert(r =~= seq![u]);
    } else if !lex_lt(u.name, s.last().name) {
        assert(r =~= s.push(u));
        assert forall|i: int, j: int| 0 <= i < j < r.len() implies !lex_lt(
            (#[trigger] r[j]).name,
            (#[trigger] r[i]).name,
        ) by {
            if j == s.len() {
                if i < s.len() - 1 {
                    crate::text::lemma_lex_le_trans(s[i].name, s[s.len() - 1].name, u.name);
                }
                assert(r[i].name == s[i].name && r[j].name == u.name);
            } else {
                assert(r[i] == s[i] && r[j] == s[j]);
                assert(!lex_lt(s[j].name, s[i].name));
            }
        }
        assert forall|k: int| 0 <= k < r.len() implies #[trigger] r[k] == u || exists|m: int|
            0 <= m < s.len() && r[k] == s[m] by {
            if k < s.len() {
                assert(r[k] == s[k]);
            }
        }
    } else {
        let t = s.drop_last();
        assert forall|i: int, j: int| 0 <= i < j < t.len() implies !lex_lt(
            (#[trigger] t[j]).name,
            (#[trigger] t[i]).name,
        ) by {
            assert(t[i] == s[i] && t[j] == s[j]);
        }
        lemma_insert_by_name_keeps_sorted(t, u);
        let q = insert_by_name(t, u);
        assert(r =~= q.push(s.last()));
        assert forall|i: int, j: int| 0 <= i < j < r.len() implies !lex_lt(
            (#[trigger] r[j]).name,
            (#[trigger] r[i]).name,
        ) by {
            if j == q.len() {
                assert(q[i] == u || exists|m: int| 0 <= m < t.len() && q[i] == t[m]);
                if q[i] == u {
                    // the displaced last element is strictly after the new unit
                    crate::text::lemma_lex_asymmetric(u.name, s.last().name);
                } else {
                    let m = choose|m: int| 0 <= m < t.len() && q[i] == t[m];
                    assert(!lex_lt(s.last().name, s[m].name));
                }
                assert(r[i].name == q[i].name && r[j].name == s.last().name);
            } else {
                assert(r[i] == q[i] && r[j] == q[j]);
                assert(!lex_lt(q[j].name, q[i].name));
            }
        }
        assert forall|k: int| 0 <= k < r.len() implies #[trigger] r[k] == u || exists|m: int|
            0 <= m < s.len() && r[k] == s[m] by {
            if k < q.len() {
                assert(r[k] == q[k]);
                if q[k] != u {
                    let m = choose|m: int| 0 <= m < t.len() && q[k] == t[m];
                    assert(r[k] == s[m]);
                }
            } else {
                assert(r[k] == s[s.len() - 1]);
            }
        }
    }
}

/// Units ordered by the stable name sort are in display-name order.
pub proof fn lemma_sort_by_name_sorted(s: Seq<UnitDefV>)
    ensures
        name_sorted(sort_by_name(s)),
        sort_by_name(s).len() == s.len(),
    decreases s.len(),
{
    if s.len() > 0 {
        let t = s.drop_last();
        lemma_sort_by_name_sorted(t);
        lemma_insert_by_name_keeps_sorted(sort_by_name(t), s.last());
    }
}

/// The runtime scale table of an analyzed quantity with a reference
/// unit: each unit's scale and whether it carries an SI-prefix tag, in
/// the descriptor's canonical order.
pub fn scale_table(q: &QtyDef) -> (r: Vec<crate::algebra::UnitScale>)
    requires
        q.units@.len() >= 1,
        all_scaled_units(q.units@),
        scale_sorted(unit_views(q.units@)),
    ensures
        crate::algebra::unit_tab_wf(r@),
        r@.len() == q.units@.len(),
        forall|i: int|
            0 <= i < r@.len() ==> #[trigger] r@[i] == (crate::algebra::UnitScale {
                scale: q.units@[i]@.scale->Some_0,
                tagged: q.units@[i]@.si_prefix is Some,
            }),
{
    let mut out: Vec<crate::algebra::UnitScale> = Vec::new();
    let mut i: usize = 0;
    while i < q.units.len()
        invariant
            0 <= i <= q.units@.len(),
            all_scaled_units(q.units@),
            out@.len() == i,
            forall|j: int|
                0 <= j < i ==> #[trigger] out@[j] == (crate::algebra::UnitScale {
                    scale: q.units@[j]@.scale->Some_0,
                    tagged: q.units@[j]@.si_prefix is Some,
                }),
        decreases q.units@.len() - i,
    {
        let u = &q.units[i];
        let sc = u.scale.unwrap();
        out.push(crate::algebra::UnitScale { scale: sc, tagged: u.si_prefix.is_some() });
        i += 1;
    }
    proof {
        assert forall|a: int, b: int| 0 <= a < b < out@.len() implies crate::rat::rat_le_spec(
            (#[trigger] out@[a]).scale,
            (#[trigger] out@[b]).scale,
        ) by {
            assert(unit_views(q.units@)[a] == q.units@[a]@);
            assert(unit_views(q.units@)[b] == q.units@[b]@);
            assert(crate::rat::rat_le_spec(scale_of(q.units@[a]@), scale_of(q.units@[b]@)));
        }
    }
    out
}
} // verus!
