//! The containers that the sections of an HDT file are made of.
pub mod control_info;
pub mod rdf;
pub mod triple_set;
