//! Headers, caches and graphs of HDT files: RDF in a compact binary form.
//!
//! The library decides and computes on plain values. Files, locks and logs are
//! its callers'.

pub mod containers;
pub mod four_sect_dict;
pub mod hdt;
pub mod hdt_any;
pub mod header;
pub mod io_error;
pub mod text;
pub mod triples;
