//! A small register-based bytecode virtual machine.
//!
//! The machine holds thirty-two signed 32-bit registers and an append-only
//! byte program, and executes it one instruction at a time. Every step is
//! specified by [`vm::step_state`]; the interactive front end's command
//! classification and hex parsing live in [`item`] and [`repl`].

pub mod instruction;
pub mod item;
pub mod laws;
pub mod repl;
pub mod vm;
