//! SI prefixes, used to tag units that are decimal multiples or
//! submultiples of another unit.

use vstd::prelude::*;

use crate::text::str_eq;

verus! {

/// The SI prefixes, from 10^-30 to 10^30.
#[allow(non_camel_case_types)]
#[derive(Clone, Copy, Debug, PartialEq, Eq, Structural)]
pub enum SIPrefix {
    /// 10^-30
    QUECTO,
    /// 10^-27
    RONTO,
    /// 10^-24
    YOCTO,
    /// 10^-21
    ZEPTO,
    /// 10^-18
    ATTO,
    /// 10^-15
    FEMTO,
    /// 10^-12
    PICO,
    /// 10^-9
    NANO,
    /// 10^-6
    MICRO,
    /// 10^-3
    MILLI,
    /// 10^-2
    CENTI,
    /// 10^-1
    DECI,
    /// 10^0
    NONE,
    /// 10^1
    DECA,
    /// 10^2
    HECTO,
    /// 10^3
    KILO,
    /// 10^6
    MEGA,
    /// 10^9
    GIGA,
    /// 10^12
    TERA,
    /// 10^15
    PETA,
    /// 10^18
    EXA,
    /// 10^21
    ZETTA,
    /// 10^24
    YOTTA,
    /// 10^27
    RONNA,
    /// 10^30
    QUETTA,
}

/// The base-10 exponent a prefix stands for.
pub open spec fn spec_prefix_exp(p: SIPrefix) -> int {
    match p {
        SIPrefix::QUECTO => -30,
        SIPrefix::RONTO => -27,
        SIPrefix::YOCTO => -24,
        SIPrefix::ZEPTO => -21,
        SIPrefix::ATTO => -18,
        SIPrefix::FEMTO => -15,
        SIPrefix::PICO => -12,
        SIPrefix::NANO => -9,
        SIPrefix::MICRO => -6,
        SIPrefix::MILLI => -3,
        SIPrefix::CENTI => -2,
        SIPrefix::DECI => -1,
        SIPrefix::NONE => 0,
        SIPrefix::DECA => 1,
        SIPrefix::HECTO => 2,
        SIPrefix::KILO => 3,
        SIPrefix::MEGA => 6,
        SIPrefix::GIGA => 9,
        SIPrefix::TERA => 12,
        SIPrefix::PETA => 15,
        SIPrefix::EXA => 18,
        SIPrefix::ZETTA => 21,
        SIPrefix::YOTTA => 24,
        SIPrefix::RONNA => 27,
        SIPrefix::QUETTA => 30,
    }
}

/// The prefix denoted by the given schema identifier, if any.
pub open spec fn spec_prefix_from_name(s: Seq<char>) -> Option<SIPrefix> {
    if s == "QUECTO"@ {
        Some(SIPrefix::QUECTO)
    } else if s == "RONTO"@ {
        Some(SIPrefix::RONTO)
    } else if s == "YOCTO"@ {
        Some(SIPrefix::YOCTO)
    } else if s == "ZEPTO"@ {
        Some(SIPrefix::ZEPTO)
    } else if s == "ATTO"@ {
        Some(SIPrefix::ATTO)
    } else if s == "FEMTO"@ {
        Some(SIPrefix::FEMTO)
    } else if s == "PICO"@ {
        Some(SIPrefix::PICO)
    } else if s == "NANO"@ {
        Some(SIPrefix::NANO)
    } else if s == "MICRO"@ {
        Some(SIPrefix::MICRO)
    } else if s == "MILLI"@ {
        Some(SIPrefix::MILLI)
    } else if s == "CENTI"@ {
        Some(SIPrefix::CENTI)
    } else if s == "DECI"@ {
        Some(SIPrefix::DECI)
    } else if s == "NONE"@ {
        Some(SIPrefix::NONE)
    } else if s == "DECA"@ {
        Some(SIPrefix::DECA)
    } else if s == "HECTO"@ {
        Some(SIPrefix::HECTO)
    } else if s == "KILO"@ {
        Some(SIPrefix::KILO)
    } else if s == "MEGA"@ {
        Some(SIPrefix::MEGA)
    } else if s == "GIGA"@ {
        Some(SIPrefix::GIGA)
    } else if s == "TERA"@ {
        Some(SIPrefix::TERA)
    } else if s == "PETA"@ {
        Some(SIPrefix::PETA)
    } else if s == "EXA"@ {
        Some(SIPrefix::EXA)
    } else if s == "ZETTA"@ {
        Some(SIPrefix::ZETTA)
    } else if s == "YOTTA"@ {
        Some(SIPrefix::YOTTA)
    } else if s == "RONNA"@ {
        Some(SIPrefix::RONNA)
    } else if s == "QUETTA"@ {
        Some(SIPrefix::QUETTA)
    } else {
        None
    }
}

impl SIPrefix {
    /// The base-10 exponent this prefix stands for.
    pub fn exp(&self) -> (e: i8)
        ensures
            e as int == spec_prefix_exp(*self),
    {
        match self {
            SIPrefix::QUECTO => -30,
            SIPrefix::RONTO => -27,
            SIPrefix::YOCTO => -24,
            SIPrefix::ZEPTO => -21,
            SIPrefix::ATTO => -18,
            SIPrefix::FEMTO => -15,
            SIPrefix::PICO => -12,
            SIPrefix::NANO => -9,
            SIPrefix::MICRO => -6,
            SIPrefix::MILLI => -3,
            SIPrefix::CENTI => -2,
            SIPrefix::DECI => -1,
            SIPrefix::NONE => 0,
            SIPrefix::DECA => 1,
            SIPrefix::HECTO => 2,
            SIPrefix::KILO => 3,
            SIPrefix::MEGA => 6,
            SIPrefix::GIGA => 9,
            SIPrefix::TERA => 12,
            SIPrefix::PETA => 15,
            SIPrefix::EXA => 18,
            SIPrefix::ZETTA => 21,
            SIPrefix::YOTTA => 24,
            SIPrefix::RONNA => 27,
            SIPrefix::QUETTA => 30,
        }
    }

    /// Resolves a schema identifier such as `KILO` to its prefix.
    pub fn from_name(s: &str) -> (r: Option<SIPrefix>)
        ensures
            r == spec_prefix_from_name(s@),
    {
        if str_eq(s, "QUECTO") {
            Some(SIPrefix::QUECTO)
        } else if str_eq(s, "RONTO") {
            Some(SIPrefix::RONTO)
        } else if str_eq(s, "YOCTO") {
            Some(SIPrefix::YOCTO)
        } else if str_eq(s, "ZEPTO") {
            Some(SIPrefix::ZEPTO)
        } else if str_eq(s, "ATTO") {
            Some(SIPrefix::ATTO)
        } else if str_eq(s, "FEMTO") {
            Some(SIPrefix::FEMTO)
        } else if str_eq(s, "PICO") {
            Some(SIPrefix::PICO)
        } else if str_eq(s, "NANO") {
            Some(SIPrefix::NANO)
        } else if str_eq(s, "MICRO") {
            Some(SIPrefix::MICRO)
        } else if str_eq(s, "MILLI") {
            Some(SIPrefix::MILLI)
        } else if str_eq(s, "CENTI") {
            Some(SIPrefix::CENTI)
        } else if str_eq(s, "DECI") {
            Some(SIPrefix::DECI)
        } else if str_eq(s, "NONE") {
            Some(SIPrefix::NONE)
        } else if str_eq(s, "DECA") {
            Some(SIPrefix::DECA)
        } else if str_eq(s, "HECTO") {
            Some(SIPrefix::HECTO)
        } else if str_eq(s, "KILO") {
            Some(SIPrefix::KILO)
        } else if str_eq(s, "MEGA") {
            Some(SIPrefix::MEGA)
        } else if str_eq(s, "GIGA") {
            Some(SIPrefix::GIGA)
        } else if str_eq(s, "TERA") {
            Some(SIPrefix::TERA)
        } else if str_eq(s, "PETA") {
            Some(SIPrefix::PETA)
        } else if str_eq(s, "EXA") {
            Some(SIPrefix::EXA)
        } else if str_eq(s, "ZETTA") {
            Some(SIPrefix::ZETTA)
        } else if str_eq(s, "YOTTA") {
            Some(SIPrefix::YOTTA)
        } else if str_eq(s, "RONNA") {
            Some(SIPrefix::RONNA)
        } else if str_eq(s, "QUETTA") {
            Some(SIPrefix::QUETTA)
        } else {
            None
        }
    }
}

} // verus!
