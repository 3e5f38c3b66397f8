//! A compile-time front end for command declarations: it parses the
//! free-form annotations attached to a function-like declaration into a
//! uniform intermediate record, checks each against the shapes its typed
//! target accepts, and folds the results into a validated `Options`
//! descriptor, reporting location-tagged diagnostics on failure.
//!
//! - [`syntax`] holds the plain data model of an annotated declaration;
//! - [`diag`] the structured, position-tagged diagnostics;
//! - [`attributes`] the annotation parser and the typed conversions;
//! - [`structures`] the declaration parser and the descriptor's pieces;
//! - [`aggregate`] the fold of recognized annotations into the descriptor;
//! - [`util`] literal and identifier normalization and the description
//!   accumulation rule.

pub mod aggregate;
pub mod attributes;
pub mod diag;
pub mod structures;
pub mod syntax;
pub mod util;

pub use syntax::Span;
