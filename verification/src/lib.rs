//! Static ink-cost estimation and instrumentation for Stylus-style smart
//! contracts.
//!
//! The crate walks a contract's syntax tree (modelled by [`model::SourceUnit`]),
//! finds externally callable entry points, classifies every expensive operation
//! with a calibrated ink estimate, aggregates per-function statistics, detects
//! "dry nib" overcharge patterns, proposes caching optimizations, and rewrites
//! entry-point bodies with runtime measurement probes.

pub mod analyze;
pub mod classify;
pub mod cost;
pub mod detect;
pub mod driver;
pub mod entity;
pub mod expand;
pub mod instrument;
pub mod lines;
pub mod model;
pub mod reporter;
pub mod text;
pub mod types;
