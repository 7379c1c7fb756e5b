//! A 16-bit virtual machine with fifteen-bit arithmetic: instruction decoder,
//! execution engine, character channel and line-oriented session driver.
//!
//! Every function carries a contract over a mathematical model of the machine
//! (see [`machine::Machine`]), and the contracts are proved.

pub mod arith;
pub mod command;
pub mod error;
pub mod game_state;
pub mod machine;
pub mod op_parser;
pub mod reverse_engineer;
pub mod runner;
pub mod screen;
pub mod teleporter;
pub mod text;
pub mod transcript;
pub mod vm;
