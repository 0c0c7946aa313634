//! A small Java virtual machine: class-file loading and a bytecode interpreter core.
pub mod vm;
pub mod errors;
pub mod text;
pub mod loader;
