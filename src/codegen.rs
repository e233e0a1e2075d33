//! Code generation back ends.
pub mod llvm;
