//! The memory, the stacks and the images of a suspended process.

pub mod foreign_memory;
pub mod images;
pub mod load_commands;
pub mod stack_walk;
