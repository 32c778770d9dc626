//! Gate-level simulation of the Hack 16-bit computer.
//!
//! The machine is built bottom-up from a single primitive logic operation:
//! combinational gates, ripple-carry arithmetic, two-phase clocked storage,
//! a recursively address-decoded memory hierarchy, and a CPU that decodes
//! and executes the Hack instruction set.
#![verifier::loop_isolation(false)]

pub mod boolean_arithmetic;
pub mod boolean_logic;
pub mod emulator;
pub mod hardware;
pub mod helper;
pub mod instruction;
pub mod model;
pub mod nand2tetris;
pub mod rom;
pub mod sequential_circuit;
pub mod word;
