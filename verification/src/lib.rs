//! Signature-based memory-location resolution.
//!
//! Given a short byte pattern (a "signature") expected to occur inside a
//! contiguous memory region, this crate locates the first occurrence of the
//! pattern, applies a fixed signed offset to obtain the address of interest,
//! and memoizes the outcome so the scan runs at most once per location.
//! A batch verifier resolves a whole table of locations and reports every
//! failure so the host can disable dependent functionality with a clear
//! diagnostic.

pub mod batch;
pub mod diagnostics;
pub mod location;
pub mod search;
pub mod shared;
