//! Building blocks of a sampling profiler: rendering C/C++ declarators from a
//! PDB type stream, walking the stacks and images of a suspended process, and
//! keeping a size- and age-bounded inventory of cached files.

pub mod pdb;
pub mod proc_maps;
pub mod shared;
pub mod text;
