//! An interpreter for CHIP-8 programs, with every instruction specified and proved.
pub mod machine;
pub mod cpu;
pub mod sprite;
pub mod step;
pub mod boot;
pub mod display;
pub mod host;
pub mod laws;
mod random;
pub mod instruction_laws;
