//! A schema-driven engine for dimensionally safe physical quantities.
//!
//! The crate has three layers:
//!
//! * a schema layer ([`schema`], [`normalize`], [`relations`]) that validates
//!   a declarative quantity description, derives canonical unit identifiers,
//!   display names and ordering, and expands a declared product or quotient
//!   relation into its full bidirectional closure;
//! * a runtime layer ([`rat`], [`algebra`], [`table`], [`rate`]) with the
//!   unit arithmetic every quantity relies on: scale-based conversion,
//!   equality and ordering across units, addition in the left operand's
//!   unit, best-fit unit selection, affine conversion tables and rates;
//! * a catalog layer (`length`, `mass`, ... , `temperature`) with concrete,
//!   nominally distinct quantity types built on the runtime layer.
//!
//! Amounts and scales are exact rationals with bounded components, so every
//! arithmetic law is stated and proved exactly rather than up to rounding.

pub mod acceleration;
pub mod algebra;
pub mod area;
pub mod energy;
pub mod force;
pub mod frequency;
pub mod length;
pub mod mass;
pub mod time;
pub mod velocity;
pub mod volume;
pub mod fmt;
pub mod normalize;
pub mod prefix;
pub mod rat;
pub mod rate;
pub mod relations;
pub mod schema;
pub mod table;
pub mod temperature;
pub mod text;

pub use rat::Rat;
