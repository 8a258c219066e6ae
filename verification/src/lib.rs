//! A geospatial ETL core library centred on an incremental GeoJSON streaming
//! decoder: a byte-oriented state machine that extracts complete JSON feature
//! objects from an arbitrarily fragmented byte stream, with memory bounded by
//! the size of a single feature plus a fixed buffering cap.
//!
//! The decoder ([`decoder`]) accumulates byte chunks, scans them with a
//! balanced-brace extractor that honours string literals and escapes
//! ([`scan`]), gates every text scan on whole-buffer UTF-8 validity
//! ([`utf8check`]), and yields each feature as soon as its object is
//! complete.  Its behaviour is specified against a pure transition system
//! ([`model`]), and the laws ([`laws`]) prove, among other things, that the
//! chunking of the input cannot change what is decoded.
//!
//! Around that core stand a strict and a truncation-recovering parser for
//! whole byte windows ([`parser`]), the shared error and position types
//! ([`shared`], [`errors`]), and the driver registry with the per-format
//! options ([`drivers`], [`formats`]).

pub mod decoder;
pub mod drivers;
pub mod errors;
pub mod formats;
pub mod laws;
pub mod model;
pub mod parser;
pub mod record;
pub mod scan;
pub mod shared;
pub mod textfmt;
pub mod utf8check;

pub use utf8check::validate_utf8;
