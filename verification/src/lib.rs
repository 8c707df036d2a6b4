//! Record abstraction layer for a content-indexing backend.
//!
//! A *record* couples a metadata envelope with a payload. The payload exists
//! in two forms: an *untyped* form (a free-form JSON object, the wire and
//! storage shape) and a *typed* form (a statically-typed domain value). This
//! crate provides lossless bidirectional conversion between the two forms,
//! JSON merge-patch updates of untyped payloads, and a reference-resolution
//! protocol that lets a typed payload's embedded foreign-key references be
//! hydrated into full sub-records and later stripped back to references.

pub mod json;
pub mod record;
pub mod resolve;
pub mod types;
