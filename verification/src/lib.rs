//! Per-read alignment-quality metrics.
//!
//! The crate turns a stream of alignment records into four index-aligned
//! output columns: read length, aligned span, percent sequence identity and
//! mapping quality. Records flagged unmapped or secondary are excluded, the
//! identity comes either from a precomputed divergence tag or from a
//! gap-compressed computation over the alignment operations and the edit
//! distance, and every surviving record contributes exactly one row to each
//! column.

pub mod columns;
pub mod filter;
pub mod identity;
pub mod input;
pub mod record;
