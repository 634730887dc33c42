//! Extraction, code generation and weaving for tagged code samples embedded
//! in a book of marked-up chapters.
//!
//! The pipeline has three stages: a scanner locates fenced code regions whose
//! info string carries the reserved marker tag and records one snippet per
//! region; a generator turns each snippet into the source text of a uniquely
//! named harness function plus a name-indexed dispatcher; a weaver re-scans
//! each chapter, matches regions against the recorded snippets by fingerprint,
//! and rewrites the event stream with a code echo, a link-reference line and
//! an image node for each match.

pub mod digits;
pub mod fingerprint;
pub mod harness;
pub mod registry;
pub mod scan;
pub mod snippet;
pub mod tags;
pub mod text;
pub mod weave;
