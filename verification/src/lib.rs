//! Sequential acquisition of numbered media segments.
//!
//! The library covers the decision logic of a segment downloader: building
//! per-index URLs, classifying HTTP responses into fetch outcomes, driving
//! the acquisition loop to its termination condition, ordering the local
//! segment store by numeric index, and planning the final assembly step
//! for an external concatenation tool.  All I/O (HTTP transfers, the
//! filesystem, the external tool) stays with the caller; the functions
//! here map plain values to plain values and carry proved contracts.

pub mod acquire;
pub mod assemble;
pub mod digits;
pub mod fetch;
pub mod store;
pub mod url;
