//! A small virtual machine for a line-oriented assembly language with eight
//! registers.
//!
//! [`loader::load`] turns program text into a [`program::Program`] and a
//! [`program::LabelTable`]; a [`machine::Machine`] executes them. The
//! executable functions are verified against specifications over sequences
//! of characters, which the modules state next to the code. One call is
//! taken on trust: that of `str::to_uppercase`, whose result the
//! specifications name as [`instruction::uppercase`].

pub mod error;
pub mod instruction;
pub mod loader;
pub mod machine;
pub mod program;
pub mod text;
