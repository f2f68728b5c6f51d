//! A verified codec for the NPY array-exchange file format: a self-describing
//! binary header (magic marker, format version, and a textual descriptive
//! record giving element type, storage order and shape) followed by the raw
//! element data.
//!
//! The header arithmetic, the descriptive-record interpretation, the
//! per-primitive element codec and the incremental output stream are verified.
//! The generic Python-literal parser and formatter for the record text is an
//! outside collaborator (`py_literal`), reached through a few trusted
//! wrappers; file I/O is left to the caller, who exchanges plain byte vectors
//! with this crate.

pub mod record;
pub mod error;
pub mod text;
pub mod wire;
pub mod version;
pub mod header;
pub mod elements;
pub mod files;
pub mod stream;
