//! A CHIP-8 interpreter core: machine state, instruction semantics, sprite
//! rendering and keypad handling, each with a machine-checked contract.

pub mod chip;
pub mod config;
pub mod digest;
pub mod display;
pub mod instruction;
pub mod json;
pub mod keypad;
pub mod laws;
pub mod machine;
pub mod random;
pub mod speaker;
pub mod text;
