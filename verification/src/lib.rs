//! Trace and constraint evaluation core of a STARK-style proof system.
//!
//! The crate provides the dense matrix that backs traces and frames, the
//! evaluation-frame abstraction that windows a trace for transition-constraint
//! evaluation, and the trace polynomial table that produces the out-of-domain
//! frame the verifier consumes.

pub mod duality;
pub mod field;
pub mod frame;
pub mod poly_table;
pub mod table;
