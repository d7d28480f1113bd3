//! A CHIP-8 virtual machine: instruction decoding, the execution of every
//! instruction, timers, key input and the text rendering of the screen,
//! each stated over a mathematical model of the machine.

mod entropy;
pub mod opcode;
pub mod semantics;
pub mod machine;
pub mod laws;
pub mod instruction_laws;
pub mod decode_laws;
pub mod machine_laws;

pub use machine::Chip8Machine;
pub use opcode::{DecodeError, OpCode, decode};
