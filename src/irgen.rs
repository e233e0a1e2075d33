//! A small model of IR instructions and basic blocks, rendered as text.
pub mod block;
pub mod instruction;
