//! C/C++ declarator rendering over a parsed PDB type stream.

pub mod flags;
pub mod laws;
pub mod rendering;
pub mod sizes;
pub mod type_data;
pub mod type_dumper;
