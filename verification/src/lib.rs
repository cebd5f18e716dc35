//! A CHIP-8 virtual machine core.
//!
//! The crate holds the machine state, the instruction decoder and the
//! fetch-decode-execute step, each with a contract over a mathematical model
//! of the machine. Pacing, rendering, sound and keyboard polling belong to the
//! host, which drives the machine through [`Chip8`].

pub mod display;
pub mod error;
pub mod font;
pub mod instruction;
pub mod keypad;
pub mod laws;
pub mod machine;
pub mod memory;
pub mod model;
mod random;
pub mod semantics;

pub use error::Chip8Error;
pub use instruction::{decode, Instruction};
pub use machine::Chip8;
pub use model::State;
